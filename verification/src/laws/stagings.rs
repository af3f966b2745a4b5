//! Laws of staging, step by step: what follows on what came of what was asked.

use crate::checksum::{checksum_in, digest_of, judgement, vouches_for};
use crate::config::{gh_arguments, gh_token, AssetStrategy, GhOutput, NamesView, UpdaterConfig};
use crate::effects::{ActionView, EventView, StepView};
use crate::failure::Messages;
use crate::host::{target_of, PathView, TextsView};
use crate::http::{bearer_if, DownloadStepView, DownloadView, ReplyView, RequestView};
use crate::laws::texts::{law_decimal, number_of};
use crate::outside::debug_list_of;
use crate::release::{AssetView, LatestView};
use crate::stage::{
    asset_named, asset_source, stage_begun, StagePhaseView, StageStepView, Staging,
};
use crate::text::decimal_of;
use vstd::prelude::*;
use vstd::string::*;

verus! {

/// The asset of a name is the first that has it, and there is none exactly if none has it.
pub proof fn law_asset_named(assets: Seq<AssetView>, name: Seq<char>)
    ensures
        match asset_named(assets, name) {
            Some(asset) => asset.name == name && exists|i: int|
                0 <= i < assets.len() && #[trigger] assets[i] == asset && forall|j: int|
                    0 <= j < i ==> (#[trigger] assets[j]).name != name,
            None => forall|j: int| 0 <= j < assets.len() ==> (#[trigger] assets[j]).name != name,
        },
    decreases assets.len(),
{
    if assets.len() > 0 {
        let rest = assets.drop_first();
        if assets[0].name == name {
            assert(assets[0] == asset_named(assets, name)->0);
        } else {
            law_asset_named(rest, name);
            match asset_named(rest, name) {
                Some(asset) => {
                    let i = choose|i: int|
                        0 <= i < rest.len() && #[trigger] rest[i] == asset && forall|j: int|
                            0 <= j < i ==> (#[trigger] rest[j]).name != name;
                    assert(assets[i + 1] == asset);
                    assert forall|j: int| 0 <= j < i + 1 implies (
                    #[trigger] assets[j]).name != name by {
                        if j > 0 {
                            assert(rest[j - 1] == assets[j]);
                        }
                    }
                },
                None => {
                    assert forall|j: int| 0 <= j < assets.len() implies (
                    #[trigger] assets[j]).name != name by {
                        if j > 0 {
                            assert(rest[j - 1] == assets[j]);
                        }
                    }
                },
            }
        }
    }
}

/// With a token, an asset whose number is known is had from the API, by that number, as bytes.
pub proof fn law_private_asset(
    config: UpdaterConfig,
    latest: LatestView,
    name: Seq<char>,
    id: u64,
)
    requires
        asset_named(latest.release_assets, name) matches Some(asset) && asset.id == Some(id),
    ensures
        ({
            let (url, accept) = asset_source(config, latest, name, true);
            let head = config.api_text() + "/repos/"@ + config.repo_slug@ + "/releases/assets/"@;
            let n = head.len() as int;
            &&& url.take(n) == head
            &&& number_of(url.skip(n)) == id
            &&& forall|i: int| n <= i < url.len() ==> '0' <= #[trigger] url[i] <= '9'
            &&& accept == Some("application/octet-stream"@)
        }),
{
    let head = config.api_text() + "/repos/"@ + config.repo_slug@ + "/releases/assets/"@;
    let url = asset_source(config, latest, name, true).0;
    law_decimal(id as nat);
    let digits = decimal_of(id as nat);
    assert(url == head + digits);
    assert(url.take(head.len() as int) == head);
    assert(url.skip(head.len() as int) == digits);
    assert forall|i: int| head.len() <= i < url.len() implies '0' <= #[trigger] url[i] <= '9' by {
        assert(url[i] == digits[i - head.len()]);
    }
}

/// Else an asset is had without an `Accept` header: from its public address, if the feed gave one
/// and no other base for downloads is configured; else from below that base, by the repository, the
/// tag and its name.
pub proof fn law_public_asset(
    config: UpdaterConfig,
    latest: LatestView,
    name: Seq<char>,
    authenticated: bool,
)
    requires
        authenticated ==> (asset_named(latest.release_assets, name) matches Some(asset)
            ==> asset.id is None),
    ensures
        ({
            let (url, accept) = asset_source(config, latest, name, authenticated);
            let given = match asset_named(latest.release_assets, name) {
                Some(asset) => asset.browser_download_url,
                None => None,
            };
            &&& accept is None
            &&& config.download_base is None && given is Some ==> url == given->0
            &&& config.download_base is Some || given is None ==> url == config.download_text()
                + "/"@ + config.repo_slug@ + "/releases/download/"@ + latest.tag + "/"@ + name
        }),
{
}

/// Whether `download` is one of the asset `name`: it is of where that is had from, with the header
/// that goes with it, and with the user agent that the configuration says.
pub open spec fn is_of(
    config: UpdaterConfig,
    latest: LatestView,
    download: DownloadView,
    name: Seq<char>,
) -> bool {
    let (url, accept) = asset_source(config, latest, name, download.token is Some);
    &&& download.url == url
    &&& download.accept == accept
    &&& download.user_agent == config.agent_text()
    &&& 1 <= download.left <= 10
}

/// Whether `action` is what a staging has asked for that waits in `phase`.
pub open spec fn waits(staging: Staging, action: ActionView, phase: StagePhaseView) -> bool {
    let Staging { config, host, latest } = staging;
    let places = config.locations_on(host)->Ok_0;
    match phase {
        StagePhaseView::CreatingDir => action == ActionView::CreateDir(places.install_dir),
        StagePhaseView::ExplainingDir { .. } => action == ActionView::Locate(places),
        StagePhaseView::Naming => target_of(host.os@, host.arch@) matches Ok(target) && action == (
        ActionView::NameAssets { tool_name: config.tool_name@, version: latest.version, target }),
        StagePhaseView::AskingGh { names } => config.token_origin() is Gh && action
            == ActionView::AskGh(gh_arguments(config.gh_account.deep_view()))
            && latest.assets.contains(names.archive),
        StagePhaseView::FetchingArchive { names, token, download } => {
            &&& is_of(config, latest, download, names.archive)
            &&& download.token == token
            &&& action == (ActionView::Send {
                request: download.request(),
                follow: false,
                timeout: config.time_limit(),
            })
        },
        StagePhaseView::ReadingArchive { .. } => action == ActionView::ReadBody,
        StagePhaseView::FetchingChecksum { names, download, .. } => {
            &&& is_of(config, latest, download, names.checksum)
            &&& action == (ActionView::Send {
                request: download.request(),
                follow: false,
                timeout: config.time_limit(),
            })
        },
        StagePhaseView::ReadingChecksum { .. } => action == ActionView::ReadBody,
        StagePhaseView::MakingTempDir { .. } => action == ActionView::MakeTempDir,
        StagePhaseView::Unpacking { .. } => action is Unpack,
        StagePhaseView::ProbingUnpacked { names } => action == ActionView::ProbeUnpacked(
            names.binary_in_archive,
        ),
        StagePhaseView::CreatingParent { .. } => action == ActionView::CreateParent(places.next),
        StagePhaseView::Copying => action matches ActionView::CopyBeside { to, .. } && to
            == places.next,
        StagePhaseView::Persisting => action == ActionView::Persist(places.next),
        StagePhaseView::ExplainingPersist { .. } => action == ActionView::Locate(places),
        StagePhaseView::Marking => action == ActionView::MarkExecutable(places.next),
    }
}

/// What a staging asks for, by what it waits for.
#[verifier::spinoff_prover]
pub proof fn lemma_waits(staging: Staging, events: Seq<EventView>)
    ensures
        staging.at(events) matches StepView::Do { action, then } ==> {
            &&& staging.config.locations_on(staging.host) is Ok
            &&& then.config == staging.config
            &&& then.host == staging.host
            &&& then.latest == staging.latest
            &&& then.locations == staging.config.locations_on(staging.host)->Ok_0
            &&& waits(staging, action, then.phase)
        },
    decreases events.len(),
{
    if events.len() > 0 {
        lemma_waits(staging, events.drop_last());
    }
}

/// One event more, and what it brings.
proof fn lemma_step(staging: Staging, events: Seq<EventView>, event: EventView)
    ensures
        staging.at(events.push(event)) == (match staging.at(events) {
            StepView::Do { then, .. } => then.after(event),
            done => done,
        }),
{
    assert(events.push(event).drop_last() == events);
}

/// Whether the staging goes on, after `events` and then `event`, with `action`.
pub open spec fn goes_on(
    staging: Staging,
    events: Seq<EventView>,
    event: EventView,
    action: ActionView,
) -> bool {
    staging.at(events.push(event)).asks_for(action)
}

/// Whether the staging ends, after `events` and then `event`, with `result`.
pub open spec fn ends(
    staging: Staging,
    events: Seq<EventView>,
    event: EventView,
    result: Result<PathView, Messages>,
) -> bool {
    staging.at(events.push(event)) == StageStepView::Done(result)
}

/// Whether `step` is where a staging stands that has just come to know the names of the assets. It
/// has failed, and says what there is, if the release has no such archive. Else it asks `gh` for a
/// token, if the configuration has it asked, or for the archive.
pub open spec fn has_names(staging: Staging, step: StageStepView, names: NamesView) -> bool {
    let Staging { config, latest, .. } = staging;
    if !latest.assets.contains(names.archive) {
        step == StageStepView::Done(
            Err(
                seq![
                    "release "@ + latest.tag + " has no asset "@ + names.archive + " (available: "@
                        + debug_list_of(latest.assets) + ")"@,
                ],
            ),
        )
    } else if config.token_origin() is Gh {
        step.asks_for(ActionView::AskGh(gh_arguments(config.gh_account.deep_view())))
    } else {
        asks_for_asset(staging, step, names.archive, config.token_given(None))
    }
}

/// Whether `step` asks for the asset `name` with `token`, if there is one: from where it is had
/// from, with redirects left to the staging.
pub open spec fn asks_for_asset(
    staging: Staging,
    step: StageStepView,
    name: Seq<char>,
    token: Option<Seq<char>>,
) -> bool {
    let Staging { config, latest, .. } = staging;
    let (url, accept) = asset_source(config, latest, name, token is Some);
    step.asks_for(
        ActionView::Send {
            request: RequestView {
                url,
                user_agent: config.agent_text(),
                accept,
                authorization: bearer_if(token),
            },
            follow: false,
            timeout: config.time_limit(),
        },
    )
}

/// A staging begins by seeing to the install directory. Where that cannot be created it asks how it
/// is written, and fails with that before the reason. Where there is no place for it, it fails.
pub proof fn law_staging_begins(staging: Staging, why: Messages, texts: TextsView)
    ensures
        ({
            let none = Seq::<EventView>::empty();
            let failed = EventView::Failed(why);
            match staging.config.locations_on(staging.host) {
                Err(reason) => staging.at(none) == StageStepView::Done(Err(reason)),
                Ok(places) => {
                    &&& staging.at(none).asks_for(ActionView::CreateDir(places.install_dir))
                    &&& goes_on(staging, none, failed, ActionView::Locate(places))
                    &&& ends(
                        staging,
                        none.push(failed),
                        EventView::Located(texts),
                        Err(seq!["create "@ + texts.install_dir] + why),
                    )
                },
            }
        }),
{
    let none = Seq::<EventView>::empty();
    lemma_step(staging, none, EventView::Failed(why));
    lemma_step(staging, none.push(EventView::Failed(why)), EventView::Located(texts));
    assert(staging.at(none) == stage_begun(staging.config, staging.host, staging.latest));
}

/// Once the directory is there the assets are named: as the strategy fixes it for the version of the
/// release and the target of the platform, or by the host program, which is asked by the tool, that
/// version and that target. Where there is no target, or no names, the staging fails for that
/// reason.
#[verifier::spinoff_prover]
pub proof fn law_staging_names_the_assets(staging: Staging, answer: Result<NamesView, Messages>)
    requires
        staging.config.locations_on(staging.host) is Ok,
    ensures
        ({
            let Staging { config, host, latest } = staging;
            let created = seq![EventView::Finished];
            let named = created.push(EventView::Named(answer));
            match target_of(host.os@, host.arch@) {
                Err(why) => staging.at(created) == StageStepView::Done(Err(why)),
                Ok(target) => if config.asset_strategy == AssetStrategy::TendrilStyle {
                    has_names(
                        staging,
                        staging.at(created),
                        config.tendril_names(host.is_windows(), latest.version, target),
                    )
                } else {
                    &&& staging.at(created).asks_for(
                        ActionView::NameAssets {
                            tool_name: config.tool_name@,
                            version: latest.version,
                            target,
                        },
                    )
                    &&& match answer {
                        Ok(names) => has_names(staging, staging.at(named), names),
                        Err(why) => staging.at(named) == StageStepView::Done(Err(why)),
                    }
                },
            }
        }),
{
    let none = Seq::<EventView>::empty();
    let created = none.push(EventView::Finished);
    assert(created == seq![EventView::Finished]);
    assert(staging.at(none) == stage_begun(staging.config, staging.host, staging.latest));
    lemma_step(staging, none, EventView::Finished);
    lemma_step(staging, created, EventView::Named(answer));
}

/// Whatever a staging sends, it leaves redirects to itself, keeps to the time and the user agent
/// that the configuration says, and sends the header that goes with where the archive or the
/// checksum is had from.
pub proof fn law_staging_sends(staging: Staging, events: Seq<EventView>)
    ensures
        staging.at(events) matches StepView::Do {
            action: ActionView::Send { request, follow, timeout },
            then,
        } ==> {
            &&& !follow
            &&& timeout == staging.config.time_limit()
            &&& request.user_agent == staging.config.agent_text()
            &&& match then.phase {
                StagePhaseView::FetchingArchive { names, token, .. } => request.accept
                    == asset_source(
                    staging.config,
                    staging.latest,
                    names.archive,
                    token is Some,
                ).1,
                StagePhaseView::FetchingChecksum { names, download, .. } => request.accept
                    == asset_source(
                    staging.config,
                    staging.latest,
                    names.checksum,
                    download.token is Some,
                ).1,
                _ => false,
            }
        },
{
    lemma_waits(staging, events);
}

/// Once `gh` has answered, the archive is asked for with the token that it gave. While the archive
/// or its checksum is asked for, the staging goes as the download goes: it sends the request that
/// that sends next, reads the body, or fails as it does.
#[verifier::spinoff_prover]
pub proof fn law_staging_downloads(
    staging: Staging,
    events: Seq<EventView>,
    output: Option<GhOutput>,
    reply: ReplyView,
)
    ensures
        staging.at(events) matches StepView::Do { action, then } ==> {
            let replied = EventView::Http(reply);
            &&& then.phase matches StagePhaseView::AskingGh { names } ==> action is AskGh
                && asks_for_asset(
                staging,
                staging.at(events.push(EventView::Gh(output))),
                names.archive,
                gh_token(output),
            )
            &&& then.phase.download() matches Some(download) ==> match download.after(reply) {
                DownloadStepView::Failed(why) => ends(staging, events, replied, Err(why)),
                DownloadStepView::Read => goes_on(staging, events, replied, ActionView::ReadBody),
                DownloadStepView::Follow(next) => goes_on(
                    staging,
                    events,
                    replied,
                    ActionView::Send {
                        request: next.request(),
                        follow: false,
                        timeout: staging.config.time_limit(),
                    },
                ),
            }
        },
{
    lemma_waits(staging, events);
    lemma_step(staging, events, EventView::Gh(output));
    lemma_step(staging, events, EventView::Http(reply));
    if let StepView::Do { then, .. } = staging.at(events) {
        if let StagePhaseView::AskingGh { names } = then.phase {
            assert(staging.config.token_given(gh_token(output)) == gh_token(output));
        }
    }
}

/// On the archive that was read follows the request for its checksum, with the same token. Where the
/// checksum that was read does not vouch for the archive, the staging fails with what is wrong; else
/// it has a temporary directory made, and then that archive unpacked there. A body that cannot be
/// read ends the staging for that reason.
#[verifier::spinoff_prover]
pub proof fn law_staging_reads(
    staging: Staging,
    events: Seq<EventView>,
    body: Seq<u8>,
    timed_out: bool,
    why: Messages,
)
    ensures
        staging.at(events) matches StepView::Do { action, then } ==> {
            let read = EventView::Body(body);
            let broken = EventView::BodyFailed { timed_out, failure: why };
            &&& action is ReadBody ==> ends(staging, events, broken, Err(why))
            &&& then.phase matches StagePhaseView::ReadingArchive { names, token }
                ==> asks_for_asset(staging, staging.at(events.push(read)), names.checksum, token)
            &&& then.phase matches StagePhaseView::ReadingChecksum { names, archive } ==> {
                if vouches_for(body, archive) {
                    &&& goes_on(staging, events, read, ActionView::MakeTempDir)
                    &&& goes_on(
                        staging,
                        events.push(read),
                        EventView::Finished,
                        ActionView::Unpack(archive),
                    )
                } else {
                    match checksum_in(body) {
                        Err(reason) => ends(staging, events, read, Err(reason)),
                        Ok(text) => judgement(digest_of(archive), text, names.archive) matches Err(
                            reason,
                        ) && ends(staging, events, read, Err(reason)),
                    }
                }
            }
        },
{
    lemma_waits(staging, events);
    lemma_step(staging, events, EventView::Body(body));
    lemma_step(staging, events, EventView::BodyFailed { timed_out, failure: why });
    lemma_step(staging, events.push(EventView::Body(body)), EventView::Finished);
}

/// What follows on each thing on the disk that went well: on unpacking, the look for the binary;
/// if it is there, the directory of the staged binary; then the copy, from the place where it was
/// seen; then the copy takes its place; then it is made executable; and then the staging ends with
/// where it is.
#[verifier::spinoff_prover]
pub proof fn law_staging_stores(staging: Staging, events: Seq<EventView>)
    ensures
        staging.at(events) matches StepView::Do { action, then } ==> {
            let next = staging.config.locations_on(staging.host)->Ok_0.next;
            let done = EventView::Finished;
            match action {
                ActionView::Unpack(_) => then.phase matches StagePhaseView::Unpacking { names }
                    && goes_on(
                    staging,
                    events,
                    done,
                    ActionView::ProbeUnpacked(names.binary_in_archive),
                ),
                ActionView::ProbeUnpacked(binary) => {
                    let seen = EventView::Exists(true);
                    &&& goes_on(staging, events, seen, ActionView::CreateParent(next))
                    &&& goes_on(
                        staging,
                        events.push(seen),
                        done,
                        ActionView::CopyBeside { unpacked: binary, to: next },
                    )
                },
                ActionView::CopyBeside { .. } => goes_on(
                    staging,
                    events,
                    done,
                    ActionView::Persist(next),
                ),
                ActionView::Persist(_) => goes_on(
                    staging,
                    events,
                    done,
                    ActionView::MarkExecutable(next),
                ),
                ActionView::MarkExecutable(_) => ends(staging, events, done, Ok(next)),
                _ => true,
            }
        },
{
    lemma_waits(staging, events);
    lemma_step(staging, events, EventView::Finished);
    lemma_step(staging, events, EventView::Exists(true));
    lemma_step(staging, events.push(EventView::Exists(true)), EventView::Finished);
}

/// What could not be done on the disk ends the staging. The reason stands as it came, but for the
/// temporary directory and the archive, which are named before it, and for a copy that could not
/// take its place: then the staging asks how the paths are written, and tells of the outermost
/// reason alone. An archive without the binary is named together with that.
#[verifier::spinoff_prover]
pub proof fn law_staging_fails(
    staging: Staging,
    events: Seq<EventView>,
    why: Messages,
    texts: TextsView,
)
    ensures
        staging.at(events) matches StepView::Do { action, then } ==> {
            let failed = EventView::Failed(why);
            match action {
                ActionView::MakeTempDir => ends(
                    staging,
                    events,
                    failed,
                    Err(seq!["create tempdir for staging release tarball"@] + why),
                ),
                ActionView::Unpack(_) => then.phase matches StagePhaseView::Unpacking { names }
                    && ends(staging, events, failed, Err(seq!["unpack "@ + names.archive] + why)),
                ActionView::ProbeUnpacked(binary) => then.phase matches
                    StagePhaseView::ProbingUnpacked { names } && ends(
                    staging,
                    events,
                    EventView::Exists(false),
                    Err(
                        seq![
                            "release archive "@ + names.archive + " did not contain "@ + binary,
                        ],
                    ),
                ),
                ActionView::CreateParent(_) => ends(staging, events, failed, Err(why)),
                ActionView::CopyBeside { .. } => ends(staging, events, failed, Err(why)),
                ActionView::Persist(_) => {
                    &&& goes_on(
                        staging,
                        events,
                        failed,
                        ActionView::Locate(staging.config.locations_on(staging.host)->Ok_0),
                    )
                    &&& ends(
                        staging,
                        events.push(failed),
                        EventView::Located(texts),
                        Err(seq!["persist "@ + texts.next + " failed: "@ + why[0]]),
                    )
                },
                ActionView::MarkExecutable(_) => ends(staging, events, failed, Err(why)),
                _ => true,
            }
        },
{
    lemma_waits(staging, events);
    lemma_step(staging, events, EventView::Failed(why));
    lemma_step(staging, events, EventView::Exists(false));
    lemma_step(staging, events.push(EventView::Failed(why)), EventView::Located(texts));
}

/// A staging ends well only at the end of all of it: the last thing that it had done was to make the
/// staged binary executable, which it was; before that the copy had taken its place; before that
/// the binary had been copied.
#[verifier::spinoff_prover]
pub proof fn law_staging_ends_well(staging: Staging, events: Seq<EventView>, event: EventView)
    requires
        staging.at(events) is Do,
    ensures
        ({
            let next = staging.config.locations_on(staging.host)->Ok_0.next;
            let step = staging.at(events);
            match staging.at(events.push(event)) {
                StepView::Done(Ok(path)) => path == next && event == EventView::Finished
                    && step.asks_for(ActionView::MarkExecutable(next)),
                StepView::Do { action: ActionView::MarkExecutable(path), .. } => path == next
                    && event == EventView::Finished && step.asks_for(ActionView::Persist(next)),
                StepView::Do { action: ActionView::Persist(path), .. } => path == next && event
                    == EventView::Finished && (step matches StepView::Do {
                    action: ActionView::CopyBeside { to, .. },
                    ..
                } && to == next),
                StepView::Do { action: ActionView::CopyBeside { .. }, .. } => event
                    == EventView::Finished && step.asks_for(ActionView::CreateParent(next)),
                _ => true,
            }
        }),
{
    lemma_waits(staging, events);
    lemma_step(staging, events, event);
}

} // verus!
