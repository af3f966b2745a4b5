//! The check for a release to update to: the feed is fetched and read, and a release is chosen.

use crate::config::{
    gh_token, token_from_gh, TokenSource, TokenSourceView, UpdaterConfig,
};
use crate::effects::{
    out_of_turn, unexpected_answer, Action, ActionView, Event, EventView, Step, StepView,
};
use crate::failure::{plain, seen, Failure, Messages};
use crate::host::{release_target, target_of, Host};
use crate::http::{bearer_header, bearer_if, HttpReply, HttpRequest, ReplyView, RequestView};
use crate::outside::{json_document, read_json};
use crate::release::{
    feed_releases, parse_releases, LatestReleaseInfo, LatestView, ParsedRelease, ReleaseView,
};
use crate::select::{
    examine, select_release, selection, Search, SearchStep, SearchStepView, SearchView,
};
use crate::text::{decimal, decimal_of};
use vstd::prelude::*;
use vstd::string::*;

verus! {

/// The address of the feed of the newest releases.
pub open spec fn feed_url(config: UpdaterConfig) -> Seq<char> {
    config.api_text() + "/repos/"@ + config.repo_slug@ + "/releases?per_page="@ + decimal_of(
        config.lookback() as nat,
    )
}

/// The address of the feed of the newest releases.
pub fn releases_url(config: &UpdaterConfig) -> (r: String)
    ensures
        r@ == feed_url(*config),
{
    config.api_base().concat("/repos/").concat(config.repo_slug.as_str()).concat(
        "/releases?per_page=",
    ).concat(decimal(config.release_lookback() as u64).as_str())
}

/// The request for the feed, with the token if there is one.
pub open spec fn feed_request(config: UpdaterConfig, token: Option<Seq<char>>) -> RequestView {
    RequestView {
        url: feed_url(config),
        user_agent: config.agent_text(),
        accept: None,
        authorization: bearer_if(token),
    }
}

/// What comes of the reply to the request for the feed: its body is read, or the check fails.
pub open spec fn feed_reply(config: UpdaterConfig, reply: ReplyView) -> Result<(), Messages> {
    let url = feed_url(config);
    match reply {
        ReplyView::Response { .. } => Ok(()),
        ReplyView::Unreachable(reason) => Err(plain("GET "@ + url + ": "@ + reason)),
        ReplyView::ErrorStatus(status) => Err(
            plain(
                if status == 404 {
                    "no published GitHub releases for "@ + config.repo_slug@ + " yet (GET "@ + url
                        + " returned 404)"@
                } else if status == 403 || status == 429 {
                    "GitHub API request was rate-limited or forbidden (HTTP "@ + decimal_of(
                        status as nat,
                    ) + ") for "@ + url
                        + "; set a token via UpdaterConfig::with_github_token or with_gh_token_fallback to raise the limit"@
                } else {
                    "GET "@ + url + " returned HTTP "@ + decimal_of(status as nat)
                },
            ),
        ),
    }
}

/// What comes of the reply to the request for the feed.
pub fn judge_feed_reply(config: &UpdaterConfig, reply: HttpReply) -> (r: Result<(), Failure>)
    ensures
        seen(r) == feed_reply(*config, reply@),
{
    let url: String = releases_url(config);
    match reply {
        HttpReply::Response { .. } => Ok(()),
        HttpReply::Unreachable(reason) => Err(
            Failure::new(
                "GET ".to_owned().concat(url.as_str()).concat(": ").concat(reason.as_str()),
            ),
        ),
        HttpReply::ErrorStatus(status) => {
            let code: String = decimal(status as u64);
            let message: String = if status == 404 {
                "no published GitHub releases for ".to_owned().concat(
                    config.repo_slug.as_str(),
                ).concat(" yet (GET ").concat(url.as_str()).concat(" returned 404)")
            } else if status == 403 || status == 429 {
                "GitHub API request was rate-limited or forbidden (HTTP ".to_owned().concat(
                    code.as_str(),
                ).concat(") for ").concat(url.as_str()).concat(
                    "; set a token via UpdaterConfig::with_github_token or with_gh_token_fallback to raise the limit",
                )
            } else {
                "GET ".to_owned().concat(url.as_str()).concat(" returned HTTP ").concat(
                    code.as_str(),
                )
            };
            Err(Failure::new(message))
        },
    }
}

/// The releases that the body of the feed lists.
pub open spec fn releases_of(body: Seq<u8>) -> Result<Seq<ReleaseView>, Messages> {
    match json_document(body) {
        Ok(feed) => feed_releases(feed),
        Err(error) => Err(plain("Failed to read JSON: "@ + error)),
    }
}

/// The releases that the body of the feed lists.
pub fn read_releases(body: &[u8]) -> (r: Result<Vec<ParsedRelease>, Failure>)
    ensures
        seen(r) == releases_of(body@),
{
    match read_json(body) {
        Ok(feed) => parse_releases(&feed),
        Err(error) => Err(
            Failure::new("Failed to read JSON: ".to_owned().concat(error.as_str())),
        ),
    }
}

/// What the failure to read the body of the feed is reported as.
pub open spec fn feed_unreadable(timed_out: bool, failure: Messages) -> Messages {
    if timed_out {
        plain(failure[0])
    } else {
        plain("Failed to read JSON: "@ + failure[0])
    }
}

/// A check under way.
pub struct CheckFlow<'a> {
    config: &'a UpdaterConfig,
    host: &'a Host,
    phase: CheckPhase,
}

enum CheckPhase {
    AskingGh { target: String },
    Fetching { target: String },
    Reading { target: String },
    Naming(Search),
}

/// What a [`CheckFlow`] holds.
pub struct CheckView {
    pub config: UpdaterConfig,
    pub host: Host,
    pub phase: CheckPhaseView,
}

/// What a check is waiting for.
pub enum CheckPhaseView {
    /// The token that `gh` prints.
    AskingGh { target: Seq<char> },
    /// The reply to the request for the feed.
    Fetching { target: Seq<char> },
    /// The body of the feed.
    Reading { target: Seq<char> },
    /// The names of the assets of the release that the search stands at.
    Naming(SearchView),
}

impl View for CheckPhase {
    type V = CheckPhaseView;

    closed spec fn view(&self) -> CheckPhaseView {
        match self {
            CheckPhase::AskingGh { target } => CheckPhaseView::AskingGh { target: target@ },
            CheckPhase::Fetching { target } => CheckPhaseView::Fetching { target: target@ },
            CheckPhase::Reading { target } => CheckPhaseView::Reading { target: target@ },
            CheckPhase::Naming(search) => CheckPhaseView::Naming(search@),
        }
    }
}

impl<'a> View for CheckFlow<'a> {
    type V = CheckView;

    closed spec fn view(&self) -> CheckView {
        CheckView { config: *self.config, host: *self.host, phase: self.phase@ }
    }
}

/// Where a check stands.
pub type CheckStepView = StepView<CheckView, LatestView>;

/// The check once the token is known: the feed is asked for.
pub open spec fn check_fetch(
    config: UpdaterConfig,
    host: Host,
    target: Seq<char>,
    token: Option<Seq<char>>,
) -> CheckStepView {
    StepView::Do {
        action: ActionView::Send {
            request: feed_request(config, token),
            follow: true,
            timeout: config.time_limit(),
        },
        then: CheckView { config, host, phase: CheckPhaseView::Fetching { target } },
    }
}

/// The check with what its search has come to.
pub open spec fn check_search(
    config: UpdaterConfig,
    host: Host,
    step: SearchStepView,
) -> CheckStepView {
    match step {
        SearchStepView::Ask(search) => StepView::Do {
            action: ActionView::NameAssets {
                tool_name: config.tool_name@,
                version: search.ordered[search.position].version,
                target: search.target,
            },
            then: CheckView { config, host, phase: CheckPhaseView::Naming(search) },
        },
        SearchStepView::Found(latest) => StepView::Done(Ok(latest)),
        SearchStepView::Failed(failure) => StepView::Done(Err(failure)),
    }
}

/// A check at its start.
pub open spec fn check_begun(config: UpdaterConfig, host: Host) -> CheckStepView {
    match target_of(host.os@, host.arch@) {
        Err(failure) => StepView::Done(Err(failure)),
        Ok(target) => match config.token_origin() {
            TokenSourceView::Explicit(token) => check_fetch(config, host, target, Some(token)),
            TokenSourceView::Anonymous => check_fetch(config, host, target, None),
            TokenSourceView::Gh(arguments) => StepView::Do {
                action: ActionView::AskGh(arguments),
                then: CheckView { config, host, phase: CheckPhaseView::AskingGh { target } },
            },
        },
    }
}

impl CheckView {
    /// What the check comes to with an event.
    pub open spec fn after(self, event: EventView) -> CheckStepView {
        match (self.phase, event) {
            (CheckPhaseView::AskingGh { target }, EventView::Gh(output)) => check_fetch(
                self.config,
                self.host,
                target,
                self.config.token_given(gh_token(output)),
            ),
            (CheckPhaseView::Fetching { target }, EventView::Http(reply)) => match feed_reply(
                self.config,
                reply,
            ) {
                Err(failure) => StepView::Done(Err(failure)),
                Ok(_) => StepView::Do {
                    action: ActionView::ReadBody,
                    then: CheckView { phase: CheckPhaseView::Reading { target }, ..self },
                },
            },
            (CheckPhaseView::Reading { target }, EventView::Body(body)) => match releases_of(
                body,
            ) {
                Err(failure) => StepView::Done(Err(failure)),
                Ok(releases) => check_search(
                    self.config,
                    self.host,
                    selection(self.config, self.host.is_windows(), target, releases),
                ),
            },
            (
                CheckPhaseView::Reading { .. },
                EventView::BodyFailed { timed_out, failure },
            ) => StepView::Done(Err(feed_unreadable(timed_out, failure))),
            (CheckPhaseView::Naming(search), EventView::Named(names)) => check_search(
                self.config,
                self.host,
                examine(self.config, self.host.is_windows(), search, names),
            ),
            _ => StepView::Done(Err(out_of_turn())),
        }
    }
}

impl<'a> CheckFlow<'a> {
    /// The check once the token is known.
    fn fetch(
        config: &'a UpdaterConfig,
        host: &'a Host,
        target: String,
        token: Option<String>,
    ) -> (r: Step<CheckFlow<'a>, LatestReleaseInfo>)
        ensures
            r@ == check_fetch(*config, *host, target@, token.deep_view()),
    {
        let request = HttpRequest {
            url: releases_url(config),
            user_agent: config.user_agent(),
            accept: None,
            authorization: bearer_header(&token),
        };
        Step::Do {
            action: Action::Send { request, follow: true, timeout: config.timeout() },
            then: CheckFlow { config, host, phase: CheckPhase::Fetching { target } },
        }
    }

    /// The check with what its search has come to.
    fn search(config: &'a UpdaterConfig, host: &'a Host, step: SearchStep) -> (r: Step<
        CheckFlow<'a>,
        LatestReleaseInfo,
    >)
        requires
            step@ matches SearchStepView::Ask(search) ==> search.open(),
        ensures
            r@ == check_search(*config, *host, step@),
    {
        match step {
            SearchStep::Ask(search) => {
                let version: String = match search.version() {
                    Some(text) => text,
                    None => "".to_owned(),
                };
                Step::Do {
                    action: Action::NameAssets {
                        tool_name: config.tool_name.clone(),
                        version,
                        target: search.target(),
                    },
                    then: CheckFlow { config, host, phase: CheckPhase::Naming(search) },
                }
            },
            SearchStep::Found(latest) => Step::Done(Ok(latest)),
            SearchStep::Failed(failure) => Step::Done(Err(failure)),
        }
    }

    /// A check at its start.
    pub fn start(config: &'a UpdaterConfig, host: &'a Host) -> (r: Step<
        CheckFlow<'a>,
        LatestReleaseInfo,
    >)
        ensures
            r@ == check_begun(*config, *host),
    {
        match release_target(host) {
            Err(failure) => Step::Done(Err(failure)),
            Ok(target) => match config.token_source() {
                TokenSource::Explicit(token) => Self::fetch(config, host, target, Some(token)),
                TokenSource::Anonymous => Self::fetch(config, host, target, None),
                TokenSource::Gh(arguments) => Step::Do {
                    action: Action::AskGh(arguments),
                    then: CheckFlow { config, host, phase: CheckPhase::AskingGh { target } },
                },
            },
        }
    }

    /// What the check comes to with an event.
    pub fn advance(self, event: Event) -> (r: Step<CheckFlow<'a>, LatestReleaseInfo>)
        ensures
            r@ == self@.after(event@),
    {
        let CheckFlow { config, host, phase } = self;
        match (phase, event) {
            (CheckPhase::AskingGh { target }, Event::Gh(output)) => Self::fetch(
                config,
                host,
                target,
                config.resolved_token(token_from_gh(output)),
            ),
            (CheckPhase::Fetching { target }, Event::Http(reply)) => match judge_feed_reply(
                config,
                reply,
            ) {
                Err(failure) => Step::Done(Err(failure)),
                Ok(_) => Step::Do {
                    action: Action::ReadBody,
                    then: CheckFlow { config, host, phase: CheckPhase::Reading { target } },
                },
            },
            (CheckPhase::Reading { target }, Event::Body(body)) => match read_releases(
                body.as_slice(),
            ) {
                Err(failure) => Step::Done(Err(failure)),
                Ok(releases) => {
                    let step: SearchStep = select_release(config, host, target.as_str(), releases);
                    Self::search(config, host, step)
                },
            },
            (CheckPhase::Reading { .. }, Event::BodyFailed { timed_out, failure }) => {
                let message: String = if timed_out {
                    failure.message
                } else {
                    "Failed to read JSON: ".to_owned().concat(failure.message.as_str())
                };
                Step::Done(Err(Failure::new(message)))
            },
            (CheckPhase::Naming(search), Event::Named(names)) => {
                let step: SearchStep = search.resume(config, host, names);
                Self::search(config, host, step)
            },
            _ => Step::Done(Err(unexpected_answer())),
        }
    }
}

/// Where a check stands once `events` have come back, one after the other.
pub open spec fn check_run(config: UpdaterConfig, host: Host, events: Seq<EventView>) -> CheckStepView
    decreases events.len(),
{
    if events.len() == 0 {
        check_begun(config, host)
    } else {
        match check_run(config, host, events.drop_last()) {
            StepView::Do { then, .. } => then.after(events.last()),
            done => done,
        }
    }
}

/// A check changes nothing on the host's disk, neither at its start nor with any event.
pub proof fn law_check_changes_nothing(
    config: UpdaterConfig,
    host: Host,
    flow: CheckView,
    event: EventView,
)
    ensures
        check_begun(config, host) matches StepView::Do { action, .. } ==> action.harmless(),
        flow.after(event) matches StepView::Do { action, .. } ==> action.harmless(),
{
}

/// A check asks for as many releases as the configuration says, at least one and at most a
/// hundred, in one request, and what goes with it is the token that the configuration and `gh`
/// give, if there is one.
pub proof fn law_check_sends_one_request(
    config: UpdaterConfig,
    host: Host,
    flow: CheckView,
    event: EventView,
)
    ensures
        1 <= config.lookback() <= 100,
        check_begun(config, host) matches StepView::Do {
            action: ActionView::Send { request, .. },
            ..
        } ==> request.url == feed_url(config) && request.authorization == bearer_if(
            config.token_given(None),
        ),
        flow.after(event) matches StepView::Do { action: ActionView::Send { request, .. }, .. }
            ==> flow.phase is AskingGh && request.url == feed_url(flow.config) && (
        event matches EventView::Gh(output) && request.authorization == bearer_if(
            flow.config.token_given(gh_token(output)),
        )),
{
}

} // verus!
