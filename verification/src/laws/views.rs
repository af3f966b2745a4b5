//! Laws of views: what the contracts see of a value is what it holds, part by part.

use crate::config::{AssetNames, TokenSource, TokenSourceView};
use crate::effects::{Action, ActionView, Event, EventView};
use crate::failure::{seen, Failure, Messages};
use crate::host::{InstallPath, LocationTexts, Locations, PathView};
use crate::http::{DownloadStep, HttpReply, HttpRequest, ReplyView};
use crate::release::{LatestReleaseInfo, ParsedRelease, ReleaseAssetInfo, SkippedRelease};
use crate::select::{SearchStep, SearchStepView};
use crate::startup::{
    StartupAction, StartupActionView, StartupEvent, StartupEventView, StartupStep,
};
use crate::update::{UpdateOutcome, UpdateStatus};
use vstd::prelude::*;

verus! {

/// What is seen of a report is what it holds.
pub proof fn law_status_is_seen(status: UpdateStatus)
    ensures
        status.deep_view().tool == status.tool@,
        status.deep_view().current_version == status.current_version@,
        status.deep_view().install_dir == status.install_dir@,
        status.deep_view().installed_path == status.installed_path@,
        status.deep_view().installed_exists == status.installed_exists,
        status.deep_view().next_path == status.next_path@,
        status.deep_view().next_staged == status.next_staged,
{
}

/// What is seen of an outcome is what it holds.
pub proof fn law_outcome_is_seen(outcome: UpdateOutcome)
    ensures
        outcome.deep_view().current_version == outcome.current_version@,
        outcome.deep_view().latest_version == outcome.latest_version@,
        outcome.deep_view().staged == outcome.staged,
        outcome.deep_view().promoted == outcome.promoted,
        outcome.deep_view().next_path == outcome.next_path@,
        outcome.deep_view().installed_path == outcome.installed_path@,
        outcome.note matches Some(note) ==> outcome.deep_view().note == Some(note@),
        outcome.note is None ==> outcome.deep_view().note is None,
{
}

/// What is seen of an asset and of a release of the feed is what they hold.
pub proof fn law_release_is_seen(asset: ReleaseAssetInfo, release: ParsedRelease)
    ensures
        asset.deep_view() == asset@,
        asset@.name == asset.name@,
        asset@.id == asset.id,
        asset@.browser_download_url is Some <==> asset.browser_download_url is Some,
        asset.browser_download_url matches Some(url) ==> asset@.browser_download_url == Some(url@),
        release.deep_view() == release@,
        release@.tag == release.tag@,
        release@.version == release.version@,
        release@.html_url is Some <==> release.html_url is Some,
        release.html_url matches Some(url) ==> release@.html_url == Some(url@),
        release@.assets.len() == release.assets@.len(),
        forall|i: int|
            0 <= i < release.assets@.len() ==> #[trigger] release@.assets[i]
                == release.assets@[i]@,
        release@.draft == release.draft,
        release@.prerelease == release.prerelease,
{
}

/// What is seen of a release that was passed over, and of one that was chosen, is what they hold.
pub proof fn law_choice_is_seen(skipped: SkippedRelease, latest: LatestReleaseInfo)
    ensures
        skipped.deep_view() == skipped@,
        skipped@.tag == skipped.tag@,
        skipped@.version == skipped.version@,
        skipped@.missing_assets.len() == skipped.missing_assets@.len(),
        forall|i: int|
            0 <= i < skipped.missing_assets@.len() ==> #[trigger] skipped@.missing_assets[i]
                == skipped.missing_assets@[i]@,
        latest.deep_view() == latest@,
        latest@.tag == latest.tag@,
        latest@.version == latest.version@,
        latest@.html_url is Some <==> latest.html_url is Some,
        latest.html_url matches Some(url) ==> latest@.html_url == Some(url@),
        latest@.assets.len() == latest.assets@.len(),
        forall|i: int|
            0 <= i < latest.assets@.len() ==> #[trigger] latest@.assets[i] == latest.assets@[i]@,
        latest@.release_assets.len() == latest.release_assets@.len(),
        forall|i: int|
            0 <= i < latest.release_assets@.len() ==> #[trigger] latest@.release_assets[i]
                == latest.release_assets@[i]@,
        latest@.newer_than_current == latest.newer_than_current,
        latest@.skipped_newer.len() == latest.skipped_newer@.len(),
        forall|i: int|
            0 <= i < latest.skipped_newer@.len() ==> #[trigger] latest@.skipped_newer[i]
                == latest.skipped_newer@[i]@,
        latest@.selection_note is Some <==> latest.selection_note is Some,
        latest.selection_note matches Some(note) ==> latest@.selection_note == Some(note@),
        latest@.downgrade_risk_note is Some <==> latest.downgrade_risk_note is Some,
        latest.downgrade_risk_note matches Some(note) ==> latest@.downgrade_risk_note == Some(
            note@,
        ),
{
}

/// What is seen of names and of a token's source is what they hold.
pub proof fn law_settings_are_seen(names: AssetNames, source: TokenSource)
    ensures
        names.deep_view() == names@,
        names@.archive == names.archive@,
        names@.checksum == names.checksum@,
        names@.binary_in_archive == names.binary_in_archive@,
        match source {
            TokenSource::Explicit(token) => source@ == TokenSourceView::Explicit(token@),
            TokenSource::Gh(arguments) => source@ matches TokenSourceView::Gh(asked) && asked.len()
                == arguments@.len() && forall|i: int|
                0 <= i < asked.len() ==> #[trigger] asked[i] == arguments@[i]@,
            TokenSource::Anonymous => source@ is Anonymous,
        },
{
}

/// What is seen of paths, and of how they are written, is what they hold.
pub proof fn law_paths_are_seen(path: InstallPath, locations: Locations, texts: LocationTexts)
    ensures
        path.deep_view() == path@,
        path@.base == path.base,
        path@.parts.len() == path.parts@.len(),
        forall|i: int|
            0 <= i < path.parts@.len() ==> #[trigger] path@.parts[i] == path.parts@[i]@,
        locations.deep_view() == locations@,
        locations@.install_dir == locations.install_dir@,
        locations@.installed == locations.installed@,
        locations@.next == locations.next@,
        texts@.install_dir == texts.install_dir@,
        texts@.installed == texts.installed@,
        texts@.next == texts.next@,
{
}

/// What is seen of a request and of the reply to it is what they hold.
pub proof fn law_exchange_is_seen(request: HttpRequest, reply: HttpReply)
    ensures
        request@.url == request.url@,
        request@.user_agent == request.user_agent@,
        request@.accept is Some <==> request.accept is Some,
        request.accept matches Some(accept) ==> request@.accept == Some(accept@),
        request@.authorization is Some <==> request.authorization is Some,
        request.authorization matches Some(header) ==> request@.authorization == Some(header@),
        match reply {
            HttpReply::Response { status, location: Some(place) } => reply@ == (
            ReplyView::Response { status, location: Some(place@) }),
            HttpReply::Response { status, location: None } => reply@ == (ReplyView::Response {
                status,
                location: None,
            }),
            HttpReply::ErrorStatus(status) => reply@ == ReplyView::ErrorStatus(status),
            HttpReply::Unreachable(reason) => reply@ == ReplyView::Unreachable(reason@),
        },
{
}

/// What is seen of a failure are its message and then its causes, in their order; and of a result,
/// what it holds.
pub proof fn law_failure_is_seen(failure: Failure, path: InstallPath)
    ensures
        failure.deep_view() == failure@,
        failure@.len() == failure.causes@.len() + 1,
        failure@[0] == failure.message@,
        forall|i: int|
            0 <= i < failure.causes@.len() ==> #[trigger] failure@[i + 1] == failure.causes@[i]@,
        seen(Ok::<InstallPath, Failure>(path)) == Ok::<PathView, Messages>(path@),
        seen(Err::<InstallPath, Failure>(failure)) == Err::<PathView, Messages>(failure@),
{
    assert forall|i: int| 0 <= i < failure.causes@.len() implies #[trigger] failure@[i + 1]
        == failure.causes@[i]@ by {
        assert(failure@[i + 1] == failure.causes.deep_view()[i]);
    }
}

/// What is seen of something to do is what it is, and to what.
pub proof fn law_action_is_seen(action: Action)
    ensures
        match action {
            Action::Locate(locations) => action@ == ActionView::Locate(locations@),
            Action::AskGh(arguments) => action@ == ActionView::AskGh(arguments.deep_view()),
            Action::Send { request, follow, timeout } => action@ == (ActionView::Send {
                request: request@,
                follow,
                timeout,
            }),
            Action::ReadBody => action@ is ReadBody,
            Action::NameAssets { tool_name, version, target } => action@ == (
            ActionView::NameAssets {
                tool_name: tool_name@,
                version: version@,
                target: target@,
            }),
            Action::CreateDir(path) => action@ == ActionView::CreateDir(path@),
            Action::CreateParent(path) => action@ == ActionView::CreateParent(path@),
            Action::Probe(path) => action@ == ActionView::Probe(path@),
            Action::MakeTempDir => action@ is MakeTempDir,
            Action::Unpack(archive) => action@ == ActionView::Unpack(archive@),
            Action::ProbeUnpacked(path) => action@ == ActionView::ProbeUnpacked(path@),
            Action::CopyBeside { unpacked, to } => action@ == (ActionView::CopyBeside {
                unpacked: unpacked@,
                to: to@,
            }),
            Action::Persist(path) => action@ == ActionView::Persist(path@),
            Action::MarkExecutable(path) => action@ == ActionView::MarkExecutable(path@),
            Action::Rename { from, to } => action@ == (ActionView::Rename {
                from: from@,
                to: to@,
            }),
        },
{
}

/// What is seen of what came back is what it is.
pub proof fn law_event_is_seen(event: Event)
    ensures
        match event {
            Event::Located(texts) => event@ == EventView::Located(texts@),
            Event::Gh(output) => event@ == EventView::Gh(output),
            Event::Http(reply) => event@ == EventView::Http(reply@),
            Event::Body(body) => event@ == EventView::Body(body@),
            Event::BodyFailed { timed_out, failure } => event@ == (EventView::BodyFailed {
                timed_out,
                failure: failure@,
            }),
            Event::Named(Ok(names)) => event@ == EventView::Named(Ok(names@)),
            Event::Named(Err(failure)) => event@ == EventView::Named(Err(failure@)),
            Event::Exists(there) => event@ == EventView::Exists(there),
            Event::Finished => event@ is Finished,
            Event::Failed(failure) => event@ == EventView::Failed(failure@),
        },
{
}

/// What is seen of where a search and a download have come is what they have come to.
pub proof fn law_progress_is_seen(search: SearchStep, download: DownloadStep)
    ensures
        match search {
            SearchStep::Ask(at) => search@ == SearchStepView::Ask(at@),
            SearchStep::Found(latest) => search@ == SearchStepView::Found(latest@),
            SearchStep::Failed(failure) => search@ == SearchStepView::Failed(failure@),
        },
        download is Read <==> download@ is Read,
        download is Follow <==> download@ is Follow,
        download is Failed <==> download@ is Failed,
{
}

/// What is seen of the hook at the start is what it does, what came of it, and what it says.
pub proof fn law_startup_is_seen<'a>(
    action: StartupAction,
    event: StartupEvent,
    step: StartupStep<'a>,
)
    ensures
        match action {
            StartupAction::FindSelf => action@ is FindSelf,
            StartupAction::ProbeSibling(name) => action@ == StartupActionView::ProbeSibling(name@),
            StartupAction::MarkStaged => action@ is MarkStaged,
            StartupAction::PromoteStaged => action@ is PromoteStaged,
            StartupAction::MarkSelf => action@ is MarkSelf,
            StartupAction::Restart => action@ is Restart,
        },
        match event {
            StartupEvent::Finished => event@ is Finished,
            StartupEvent::Failed(error) => event@ == StartupEventView::Failed(error@),
            StartupEvent::Staged { exists, staged, current } => event@ == (
            StartupEventView::Staged { exists, staged: staged@, current: current@ }),
        },
        step@.say.len() == step.say@.len(),
        forall|i: int| 0 <= i < step.say@.len() ==> #[trigger] step@.say[i] == step.say@[i]@,
        step@.next is Some <==> step.next is Some,
        step.next matches Some((asked, then)) ==> step@.next == Some((asked@, then@)),
{
}

} // verus!
