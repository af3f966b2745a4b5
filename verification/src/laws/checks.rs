//! Laws of the check for a release.

use crate::check::{
    check_begun, check_run, feed_reply, feed_unreadable, feed_url, releases_of, CheckPhaseView,
    CheckStepView,
};
use crate::config::{gh_arguments, gh_token, GhOutput, NamesView, UpdaterConfig};
use crate::effects::{ActionView, EventView, StepView};
use crate::failure::Messages;
use crate::host::{target_of, Host};
use crate::http::{bearer_if, ReplyView};
use crate::laws::texts::{law_decimal, number_of};
use crate::outside::json_document;
use crate::release::{feed_releases, ReleaseView};
use crate::select::{examine, selection, SearchStepView};
use crate::text::decimal_of;
use vstd::prelude::*;
use vstd::string::*;

verus! {

/// The feed is asked for below the base of the API and the repository, and the address ends with
/// how many releases are wanted.
pub proof fn law_feed_url(config: UpdaterConfig)
    ensures
        ({
            let head = config.api_text() + "/repos/"@ + config.repo_slug@
                + "/releases?per_page="@;
            let n = head.len() as int;
            &&& feed_url(config).len() > n
            &&& feed_url(config).take(n) == head
            &&& number_of(feed_url(config).skip(n)) == config.lookback()
            &&& feed_url(config)[n] != '0'
        }),
{
    let head = config.api_text() + "/repos/"@ + config.repo_slug@ + "/releases?per_page="@;
    let digits = decimal_of(config.lookback() as nat);
    law_decimal(config.lookback() as nat);
    assert(feed_url(config) == head + digits);
    assert(feed_url(config).take(head.len() as int) == head);
    assert(feed_url(config).skip(head.len() as int) == digits);
}

/// The body of the feed is read exactly if there is a response that is no error. Else one message
/// says what is wrong: that there are no releases, where the feed is not found; that a token would
/// help, where the request is refused; else the status, or the reason why there is no response. It
/// names the address of the feed.
pub proof fn law_feed_reply(config: UpdaterConfig, reply: ReplyView)
    ensures
        ({
            let url = feed_url(config);
            match (reply, feed_reply(config, reply)) {
                (ReplyView::Response { .. }, Ok(_)) => true,
                (ReplyView::Unreachable(reason), Err(why)) => why == seq![
                    "GET "@ + url + ": "@ + reason,
                ],
                (ReplyView::ErrorStatus(status), Err(why)) => {
                    let code = decimal_of(status as nat);
                    &&& why.len() == 1
                    &&& status == 404 ==> why[0] == "no published GitHub releases for "@
                        + config.repo_slug@ + " yet (GET "@ + url + " returned 404)"@
                    &&& status == 403 || status == 429 ==> why[0]
                        == "GitHub API request was rate-limited or forbidden (HTTP "@ + code
                        + ") for "@ + url
                        + "; set a token via UpdaterConfig::with_github_token or with_gh_token_fallback to raise the limit"@
                    &&& status != 404 && status != 403 && status != 429 ==> why[0] == "GET "@ + url
                        + " returned HTTP "@ + code
                },
                _ => false,
            }
        }),
{
}

/// What the feed lists is what its document lists. One that is no JSON fails with what is wrong
/// with it.
pub proof fn law_feed_body(body: Seq<u8>)
    ensures
        match json_document(body) {
            Ok(feed) => releases_of(body) == feed_releases(feed),
            Err(error) => releases_of(body) == Err::<Seq<ReleaseView>, Messages>(
                seq!["Failed to read JSON: "@ + error],
            ),
        },
{
}

/// A feed that cannot be read is reported by the outermost reason alone: as it is if it took too
/// long, else as a failure to read JSON.
pub proof fn law_feed_unreadable(failure: Messages)
    ensures
        feed_unreadable(true, failure) == seq![failure[0]],
        feed_unreadable(false, failure) == seq!["Failed to read JSON: "@ + failure[0]],
{
}

/// The events of a check before the reply to its request: the answer of `gh`, if that is asked.
pub open spec fn token_known(config: UpdaterConfig, gh: Option<GhOutput>) -> Seq<EventView> {
    if config.token_origin() is Gh {
        seq![EventView::Gh(gh)]
    } else {
        seq![]
    }
}

/// One event more, and what it brings.
proof fn lemma_step(config: UpdaterConfig, host: Host, events: Seq<EventView>, event: EventView)
    ensures
        check_run(config, host, events.push(event)) == (match check_run(config, host, events) {
            StepView::Do { then, .. } => then.after(event),
            done => done,
        }),
{
    assert(events.push(event).drop_last() == events);
}

/// A check begins with the question to `gh` for a token, if the configuration has it asked, by the
/// account that is named.
pub proof fn law_check_asks_gh(config: UpdaterConfig, host: Host)
    requires
        target_of(host.os@, host.arch@) is Ok,
    ensures
        config.token_origin() is Gh <==> check_run(config, host, seq![]) matches StepView::Do {
            action: ActionView::AskGh(_),
            ..
        },
        config.token_origin() is Gh ==> check_run(config, host, seq![]).asks_for(
            ActionView::AskGh(gh_arguments(config.gh_account.deep_view())),
        ),
{
}

/// A check on a platform without a target fails for that reason, before it asks for anything.
pub proof fn law_no_target_no_check(config: UpdaterConfig, host: Host, events: Seq<EventView>)
    ensures
        target_of(host.os@, host.arch@) matches Err(why) ==> check_run(config, host, events)
            == CheckStepView::Done(Err(why)),
    decreases events.len(),
{
    if events.len() > 0 {
        law_no_target_no_check(config, host, events.drop_last());
    }
}

/// Once the token is known, the feed is asked for, with redirects followed: with the user agent and
/// within the time that the configuration says, with the token if there is one, and without an
/// `Accept` header.
pub proof fn law_check_asks_for_the_feed(config: UpdaterConfig, host: Host, gh: Option<GhOutput>)
    requires
        target_of(host.os@, host.arch@) is Ok,
    ensures
        check_run(config, host, token_known(config, gh)) matches StepView::Do {
            action: ActionView::Send { request, follow, timeout },
            ..
        } && {
            &&& follow
            &&& timeout == config.time_limit()
            &&& request.url == feed_url(config)
            &&& request.user_agent == config.agent_text()
            &&& request.accept is None
            &&& request.authorization == bearer_if(config.token_given(gh_token(gh)))
        },
{
    let none = Seq::<EventView>::empty();
    assert(check_run(config, host, none) == check_begun(config, host));
    if config.token_origin() is Gh {
        lemma_step(config, host, none, EventView::Gh(gh));
        assert(none.push(EventView::Gh(gh)) == token_known(config, gh));
    } else {
        assert(token_known(config, gh) == none);
    }
}

/// What a check comes to whose search has come to `step`: it ends with the release that was found,
/// or with the failure, or asks for the names of the assets of the release that is looked at.
pub open spec fn comes_to(
    config: UpdaterConfig,
    step: CheckStepView,
    search: SearchStepView,
) -> bool {
    match search {
        SearchStepView::Found(latest) => step == CheckStepView::Done(Ok(latest)),
        SearchStepView::Failed(why) => step == CheckStepView::Done(Err(why)),
        SearchStepView::Ask(at) => step.asks_for(
            ActionView::NameAssets {
                tool_name: config.tool_name@,
                version: at.ordered[at.position].version,
                target: at.target,
            },
        ),
    }
}

/// The reply to the request for the feed ends the check if it is no response to read; else the body
/// is read. What it lists is searched for the target of the platform, and the check comes to what
/// the search comes to. A body that lists nothing readable ends the check, for that reason.
#[verifier::spinoff_prover]
pub proof fn law_check_reads_the_feed(
    config: UpdaterConfig,
    host: Host,
    gh: Option<GhOutput>,
    target: Seq<char>,
    reply: ReplyView,
    body: Seq<u8>,
    timed_out: bool,
    failure: Messages,
)
    requires
        target_of(host.os@, host.arch@) == Ok::<Seq<char>, Messages>(target),
    ensures
        ({
            let replied = token_known(config, gh).push(EventView::Http(reply));
            let read = replied.push(EventView::Body(body));
            let broken = replied.push(EventView::BodyFailed { timed_out, failure });
            match feed_reply(config, reply) {
                Err(why) => check_run(config, host, replied) == CheckStepView::Done(Err(why)),
                Ok(_) => {
                    &&& check_run(config, host, replied).asks_for(ActionView::ReadBody)
                    &&& check_run(config, host, broken) == CheckStepView::Done(
                        Err(feed_unreadable(timed_out, failure)),
                    )
                    &&& match releases_of(body) {
                        Err(why) => check_run(config, host, read) == CheckStepView::Done(Err(why)),
                        Ok(releases) => comes_to(
                            config,
                            check_run(config, host, read),
                            selection(config, host.is_windows(), target, releases),
                        ),
                    }
                },
            }
        }),
{
    let none = Seq::<EventView>::empty();
    let known = token_known(config, gh);
    assert(check_run(config, host, none) == check_begun(config, host));
    if config.token_origin() is Gh {
        lemma_step(config, host, none, EventView::Gh(gh));
        assert(none.push(EventView::Gh(gh)) == known);
    } else {
        assert(known == none);
    }
    lemma_step(config, host, known, EventView::Http(reply));
    let replied = known.push(EventView::Http(reply));
    lemma_step(config, host, replied, EventView::Body(body));
    lemma_step(config, host, replied, EventView::BodyFailed { timed_out, failure });
}

/// Where the host program was asked for names, the search goes on with its answer, and the check
/// comes to what that comes to.
pub proof fn law_check_takes_names(
    config: UpdaterConfig,
    host: Host,
    events: Seq<EventView>,
    names: Result<NamesView, Messages>,
)
    ensures
        check_run(config, host, events) matches StepView::Do {
            action: ActionView::NameAssets { version, target, .. },
            then,
        } ==> (then.phase matches CheckPhaseView::Naming(search) && version
            == search.ordered[search.position].version && target == search.target && comes_to(
            config,
            check_run(config, host, events.push(EventView::Named(names))),
            examine(config, host.is_windows(), search, names),
        )),
{
    lemma_naming(config, host, events);
    lemma_step(config, host, events, EventView::Named(names));
}

/// A check that asks for names asks for those of the release that its search stands at.
proof fn lemma_naming(config: UpdaterConfig, host: Host, events: Seq<EventView>)
    ensures
        check_run(config, host, events) matches StepView::Do { action, then } ==> {
            &&& then.config == config
            &&& then.host == host
            &&& action matches ActionView::NameAssets { version, target, .. } ==> (
            then.phase matches CheckPhaseView::Naming(search) && version
                == search.ordered[search.position].version && target == search.target)
        },
    decreases events.len(),
{
    if events.len() > 0 {
        lemma_naming(config, host, events.drop_last());
    }
}

} // verus!
