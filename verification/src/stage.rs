//! Staging: the archive of a release is downloaded, checked and unpacked, and its binary is put
//! beside the installed one.

use crate::checksum::{checksum_in, checksum_text, digest_of, judgement, verify_sha256, vouches_for};
use crate::config::{
    gh_token, token_from_gh, AssetNames, AssetStrategy, NamesView, TokenSource, TokenSourceView,
    UpdaterConfig,
};
use crate::effects::{
    out_of_turn, unexpected_answer, Action, ActionView, Event, EventView, Step, StepView,
};
use crate::failure::{in_context, plain, Failure, Messages};
use crate::host::{
    release_target, target_of, Host, InstallPath, Locations, LocationsView, PathView,
};
use crate::http::{
    bearer_if, begun, host_of, law_downloads_are_bounded, law_token_stays_with_its_host,
    requests_of, Download, DownloadStep, DownloadStepView, DownloadView, ReplyView,
};
use crate::outside::{debug_list, debug_list_of};
use crate::release::{AssetView, LatestReleaseInfo, LatestView, ReleaseAssetInfo};
use crate::text::{clone_text, decimal, decimal_of, same};
use vstd::prelude::*;
use vstd::string::*;

verus! {

/// The first asset of that name.
pub open spec fn asset_named(assets: Seq<AssetView>, name: Seq<char>) -> Option<AssetView>
    decreases assets.len(),
{
    if assets.len() == 0 {
        None
    } else if assets[0].name == name {
        Some(assets[0])
    } else {
        asset_named(assets.drop_first(), name)
    }
}

/// The first asset of that name.
pub fn find_asset<'a>(assets: &'a Vec<ReleaseAssetInfo>, name: &str) -> (r: Option<
    &'a ReleaseAssetInfo,
>)
    ensures
        match r {
            Some(asset) => asset_named(assets.deep_view(), name@) == Some(asset@),
            None => asset_named(assets.deep_view(), name@) is None,
        },
{
    let ghost all = assets.deep_view();
    let mut i: usize = 0;
    proof {
        assert(all.skip(0) == all);
    }
    while i < assets.len()
        invariant
            i <= assets@.len(),
            all == assets.deep_view(),
            asset_named(all, name@) == asset_named(all.skip(i as int), name@),
        decreases assets@.len() - i,
    {
        proof {
            assert(all.skip(i as int)[0] == assets@[i as int]@);
            assert(all.skip(i as int).drop_first() == all.skip(i + 1));
        }
        if same(assets[i].name.as_str(), name) {
            return Some(&assets[i]);
        }
        i = i + 1;
    }
    None
}

/// Where an asset of a release is downloaded from, and the `Accept` header that goes with it.
///
/// With a token that is the asset's own address in the API, if the feed gave its number. Else it
/// is the public download URL that the feed gave, unless another base for downloads is
/// configured; else an address under that base.
pub open spec fn asset_source(
    config: UpdaterConfig,
    latest: LatestView,
    name: Seq<char>,
    authenticated: bool,
) -> (Seq<char>, Option<Seq<char>>) {
    let asset = asset_named(latest.release_assets, name);
    let derived = config.download_text() + "/"@ + config.repo_slug@ + "/releases/download/"@
        + latest.tag + "/"@ + name;
    match asset {
        Some(AssetView { id: Some(id), .. }) if authenticated => (
            config.api_text() + "/repos/"@ + config.repo_slug@ + "/releases/assets/"@ + decimal_of(
                id as nat,
            ),
            Some("application/octet-stream"@),
        ),
        Some(AssetView { browser_download_url: Some(url), .. }) if config.download_base is None => (
            url,
            None,
        ),
        _ => (derived, None),
    }
}

/// Where the asset `asset_name` of a release is downloaded from, and the `Accept` header that goes
/// with it.
pub fn asset_download_request(
    config: &UpdaterConfig,
    latest: &LatestReleaseInfo,
    asset_name: &str,
    authenticated: bool,
) -> (r: (String, Option<String>))
    ensures
        (r.0@, r.1.deep_view()) == asset_source(*config, latest@, asset_name@, authenticated),
{
    let asset: Option<&ReleaseAssetInfo> = find_asset(&latest.release_assets, asset_name);
    if let Some(known) = asset {
        if authenticated {
            if let Some(id) = known.id {
                let url: String = config.api_base().concat("/repos/").concat(
                    config.repo_slug.as_str(),
                ).concat("/releases/assets/").concat(decimal(id).as_str());
                return (url, Some("application/octet-stream".to_owned()));
            }
        }
        if config.download_base.is_none() {
            if let Some(url) = &known.browser_download_url {
                return (url.clone(), None);
            }
        }
    }
    let url: String = config.download_base().concat("/").concat(config.repo_slug.as_str()).concat(
        "/releases/download/",
    ).concat(latest.tag.as_str()).concat("/").concat(asset_name);
    (url, None)
}

/// The download of an asset of a release, before its first request.
pub open spec fn asset_download(
    config: UpdaterConfig,
    latest: LatestView,
    name: Seq<char>,
    token: Option<Seq<char>>,
) -> DownloadView {
    let source = asset_source(config, latest, name, token is Some);
    begun(source.0, config.agent_text(), token, source.1)
}

/// The download of an asset of a release, before its first request.
pub fn start_asset_download(
    config: &UpdaterConfig,
    latest: &LatestReleaseInfo,
    name: &str,
    token: &Option<String>,
) -> (r: Download)
    ensures
        r@ == asset_download(*config, latest@, name@, token.deep_view()),
{
    let (url, accept) = asset_download_request(config, latest, name, token.is_some());
    Download::start(url, config.user_agent(), clone_text(token), accept)
}

/// A staging under way.
pub struct StageFlow<'a> {
    config: &'a UpdaterConfig,
    host: &'a Host,
    latest: LatestReleaseInfo,
    locations: Locations,
    phase: StagePhase,
}

enum StagePhase {
    CreatingDir,
    ExplainingDir { failure: Failure },
    Naming,
    AskingGh { names: AssetNames },
    FetchingArchive { names: AssetNames, token: Option<String>, download: Download },
    ReadingArchive { names: AssetNames, token: Option<String> },
    FetchingChecksum { names: AssetNames, archive: Vec<u8>, download: Download },
    ReadingChecksum { names: AssetNames, archive: Vec<u8> },
    MakingTempDir { names: AssetNames, archive: Vec<u8> },
    Unpacking { names: AssetNames },
    ProbingUnpacked { names: AssetNames },
    CreatingParent { names: AssetNames },
    Copying,
    Persisting,
    ExplainingPersist { failure: Failure },
    Marking,
}

/// What a [`StageFlow`] holds.
pub struct StageView {
    pub config: UpdaterConfig,
    pub host: Host,
    pub latest: LatestView,
    pub locations: LocationsView,
    pub phase: StagePhaseView,
}

/// What a staging is waiting for.
pub enum StagePhaseView {
    /// That the install directory is there.
    CreatingDir,
    /// How the paths are written, to say that the directory could not be created.
    ExplainingDir { failure: Messages },
    /// The names of the assets.
    Naming,
    /// The token that `gh` prints.
    AskingGh { names: NamesView },
    /// The reply to a request for the archive.
    FetchingArchive { names: NamesView, token: Option<Seq<char>>, download: DownloadView },
    /// The archive.
    ReadingArchive { names: NamesView, token: Option<Seq<char>> },
    /// The reply to a request for the checksum.
    FetchingChecksum { names: NamesView, archive: Seq<u8>, download: DownloadView },
    /// The checksum.
    ReadingChecksum { names: NamesView, archive: Seq<u8> },
    /// A temporary directory for an archive that its checksum fits.
    MakingTempDir { names: NamesView, archive: Seq<u8> },
    /// That the archive is unpacked.
    Unpacking { names: NamesView },
    /// Whether the binary is in it.
    ProbingUnpacked { names: NamesView },
    /// That the directory for the staged binary is there.
    CreatingParent { names: NamesView },
    /// That the binary is copied.
    Copying,
    /// That the copy is in its place.
    Persisting,
    /// How the paths are written, to say that it could not be put there.
    ExplainingPersist { failure: Messages },
    /// That the staged binary is executable.
    Marking,
}

impl View for StagePhase {
    type V = StagePhaseView;

    closed spec fn view(&self) -> StagePhaseView {
        match self {
            StagePhase::CreatingDir => StagePhaseView::CreatingDir,
            StagePhase::ExplainingDir { failure } => StagePhaseView::ExplainingDir {
                failure: failure@,
            },
            StagePhase::Naming => StagePhaseView::Naming,
            StagePhase::AskingGh { names } => StagePhaseView::AskingGh { names: names@ },
            StagePhase::FetchingArchive { names, token, download } =>
                StagePhaseView::FetchingArchive {
                names: names@,
                token: token.deep_view(),
                download: download@,
            },
            StagePhase::ReadingArchive { names, token } => StagePhaseView::ReadingArchive {
                names: names@,
                token: token.deep_view(),
            },
            StagePhase::FetchingChecksum { names, archive, download } =>
                StagePhaseView::FetchingChecksum {
                names: names@,
                archive: archive@,
                download: download@,
            },
            StagePhase::ReadingChecksum { names, archive } => StagePhaseView::ReadingChecksum {
                names: names@,
                archive: archive@,
            },
            StagePhase::MakingTempDir { names, archive } => StagePhaseView::MakingTempDir {
                names: names@,
                archive: archive@,
            },
            StagePhase::Unpacking { names } => StagePhaseView::Unpacking { names: names@ },
            StagePhase::ProbingUnpacked { names } => StagePhaseView::ProbingUnpacked {
                names: names@,
            },
            StagePhase::CreatingParent { names } => StagePhaseView::CreatingParent {
                names: names@,
            },
            StagePhase::Copying => StagePhaseView::Copying,
            StagePhase::Persisting => StagePhaseView::Persisting,
            StagePhase::ExplainingPersist { failure } => StagePhaseView::ExplainingPersist {
                failure: failure@,
            },
            StagePhase::Marking => StagePhaseView::Marking,
        }
    }
}

impl<'a> View for StageFlow<'a> {
    type V = StageView;

    closed spec fn view(&self) -> StageView {
        StageView {
            config: *self.config,
            host: *self.host,
            latest: self.latest@,
            locations: self.locations@,
            phase: self.phase@,
        }
    }
}

/// Where a staging stands.
pub type StageStepView = StepView<StageView, PathView>;

impl StageView {
    /// The staging that waits in `phase` for what comes of `action`.
    pub open spec fn doing(self, action: ActionView, phase: StagePhaseView) -> StageStepView {
        StepView::Do { action, then: StageView { phase, ..self } }
    }

    /// The action that sends the next request of a download.
    pub open spec fn sending(self, download: DownloadView) -> ActionView {
        ActionView::Send {
            request: download.request(),
            follow: false,
            timeout: self.config.time_limit(),
        }
    }

    /// The staging once the names of the assets are known: the release must have the archive.
    pub open spec fn named(self, names: NamesView) -> StageStepView {
        if !self.latest.assets.contains(names.archive) {
            StepView::Done(
                Err(
                    plain(
                        "release "@ + self.latest.tag + " has no asset "@ + names.archive
                            + " (available: "@ + debug_list_of(self.latest.assets) + ")"@,
                    ),
                ),
            )
        } else {
            match self.config.token_origin() {
                TokenSourceView::Explicit(token) => self.fetch_archive(names, Some(token)),
                TokenSourceView::Anonymous => self.fetch_archive(names, None),
                TokenSourceView::Gh(arguments) => self.doing(
                    ActionView::AskGh(arguments),
                    StagePhaseView::AskingGh { names },
                ),
            }
        }
    }

    /// The staging once the token is known: the archive is asked for.
    pub open spec fn fetch_archive(
        self,
        names: NamesView,
        token: Option<Seq<char>>,
    ) -> StageStepView {
        let download = asset_download(self.config, self.latest, names.archive, token);
        self.doing(
            self.sending(download),
            StagePhaseView::FetchingArchive { names, token, download },
        )
    }

    /// The staging once the archive is read: its checksum is asked for.
    pub open spec fn fetch_checksum(
        self,
        names: NamesView,
        token: Option<Seq<char>>,
        archive: Seq<u8>,
    ) -> StageStepView {
        let download = asset_download(self.config, self.latest, names.checksum, token);
        self.doing(
            self.sending(download),
            StagePhaseView::FetchingChecksum { names, archive, download },
        )
    }

    /// The staging once the checksum is read: it must fit the archive.
    pub open spec fn check(
        self,
        names: NamesView,
        archive: Seq<u8>,
        checksum: Seq<u8>,
    ) -> StageStepView {
        match checksum_in(checksum) {
            Err(failure) => StepView::Done(Err(failure)),
            Ok(text) => match judgement(digest_of(archive), text, names.archive) {
                Err(failure) => StepView::Done(Err(failure)),
                Ok(_) => self.doing(
                    ActionView::MakeTempDir,
                    StagePhaseView::MakingTempDir { names, archive },
                ),
            },
        }
    }

    /// What the staging comes to with an event.
    pub open spec fn after(self, event: EventView) -> StageStepView {
        match (self.phase, event) {
            (StagePhaseView::CreatingDir, EventView::Failed(failure)) => self.doing(
                ActionView::Locate(self.locations),
                StagePhaseView::ExplainingDir { failure },
            ),
            (StagePhaseView::ExplainingDir { failure }, EventView::Located(texts)) =>
                StepView::Done(Err(in_context("create "@ + texts.install_dir, failure))),
            (StagePhaseView::CreatingDir, EventView::Finished) => match target_of(
                self.host.os@,
                self.host.arch@,
            ) {
                Err(failure) => StepView::Done(Err(failure)),
                Ok(target) => match self.config.asset_strategy {
                    AssetStrategy::TendrilStyle => self.named(
                        self.config.tendril_names(
                            self.host.is_windows(),
                            self.latest.version,
                            target,
                        ),
                    ),
                    AssetStrategy::Custom => self.doing(
                        ActionView::NameAssets {
                            tool_name: self.config.tool_name@,
                            version: self.latest.version,
                            target,
                        },
                        StagePhaseView::Naming,
                    ),
                },
            },
            (StagePhaseView::Naming, EventView::Named(answer)) => match answer {
                Err(failure) => StepView::Done(Err(failure)),
                Ok(names) => self.named(names),
            },
            (StagePhaseView::AskingGh { names }, EventView::Gh(output)) => self.fetch_archive(
                names,
                self.config.token_given(gh_token(output)),
            ),
            (
                StagePhaseView::FetchingArchive { names, token, download },
                EventView::Http(reply),
            ) => match download.after(reply) {
                DownloadStepView::Failed(failure) => StepView::Done(Err(failure)),
                DownloadStepView::Follow(next) => self.doing(
                    self.sending(next),
                    StagePhaseView::FetchingArchive { names, token, download: next },
                ),
                DownloadStepView::Read => self.doing(
                    ActionView::ReadBody,
                    StagePhaseView::ReadingArchive { names, token },
                ),
            },
            (StagePhaseView::ReadingArchive { names, token }, EventView::Body(archive)) =>
                self.fetch_checksum(names, token, archive),
            (StagePhaseView::ReadingArchive { .. }, EventView::BodyFailed { failure, .. }) =>
                StepView::Done(Err(failure)),
            (
                StagePhaseView::FetchingChecksum { names, archive, download },
                EventView::Http(reply),
            ) => match download.after(reply) {
                DownloadStepView::Failed(failure) => StepView::Done(Err(failure)),
                DownloadStepView::Follow(next) => self.doing(
                    self.sending(next),
                    StagePhaseView::FetchingChecksum { names, archive, download: next },
                ),
                DownloadStepView::Read => self.doing(
                    ActionView::ReadBody,
                    StagePhaseView::ReadingChecksum { names, archive },
                ),
            },
            (StagePhaseView::ReadingChecksum { names, archive }, EventView::Body(checksum)) =>
                self.check(names, archive, checksum),
            (StagePhaseView::ReadingChecksum { .. }, EventView::BodyFailed { failure, .. }) =>
                StepView::Done(Err(failure)),
            (StagePhaseView::MakingTempDir { .. }, EventView::Failed(failure)) => StepView::Done(
                Err(in_context("create tempdir for staging release tarball"@, failure)),
            ),
            (StagePhaseView::MakingTempDir { names, archive }, EventView::Finished) => self.doing(
                ActionView::Unpack(archive),
                StagePhaseView::Unpacking { names },
            ),
            (StagePhaseView::Unpacking { names }, EventView::Failed(failure)) => StepView::Done(
                Err(in_context("unpack "@ + names.archive, failure)),
            ),
            (StagePhaseView::Unpacking { names }, EventView::Finished) => self.doing(
                ActionView::ProbeUnpacked(names.binary_in_archive),
                StagePhaseView::ProbingUnpacked { names },
            ),
            (StagePhaseView::ProbingUnpacked { names }, EventView::Exists(there)) => if there {
                self.doing(
                    ActionView::CreateParent(self.locations.next),
                    StagePhaseView::CreatingParent { names },
                )
            } else {
                StepView::Done(
                    Err(
                        plain(
                            "release archive "@ + names.archive + " did not contain "@
                                + names.binary_in_archive,
                        ),
                    ),
                )
            },
            (StagePhaseView::CreatingParent { .. }, EventView::Failed(failure)) => StepView::Done(
                Err(failure),
            ),
            (StagePhaseView::CreatingParent { names }, EventView::Finished) => self.doing(
                ActionView::CopyBeside {
                    unpacked: names.binary_in_archive,
                    to: self.locations.next,
                },
                StagePhaseView::Copying,
            ),
            (StagePhaseView::Copying, EventView::Failed(failure)) => StepView::Done(Err(failure)),
            (StagePhaseView::Copying, EventView::Finished) => self.doing(
                ActionView::Persist(self.locations.next),
                StagePhaseView::Persisting,
            ),
            (StagePhaseView::Persisting, EventView::Failed(failure)) => self.doing(
                ActionView::Locate(self.locations),
                StagePhaseView::ExplainingPersist { failure },
            ),
            (StagePhaseView::ExplainingPersist { failure }, EventView::Located(texts)) =>
                StepView::Done(
                Err(plain("persist "@ + texts.next + " failed: "@ + failure[0])),
            ),
            (StagePhaseView::Persisting, EventView::Finished) => self.doing(
                ActionView::MarkExecutable(self.locations.next),
                StagePhaseView::Marking,
            ),
            (StagePhaseView::Marking, EventView::Failed(failure)) => StepView::Done(Err(failure)),
            (StagePhaseView::Marking, EventView::Finished) => StepView::Done(
                Ok(self.locations.next),
            ),
            _ => StepView::Done(Err(out_of_turn())),
        }
    }
}

/// A staging of `latest` at its start.
pub open spec fn stage_begun(config: UpdaterConfig, host: Host, latest: LatestView) -> StageStepView {
    match config.locations_on(host) {
        Err(failure) => StepView::Done(Err(failure)),
        Ok(locations) => StepView::Do {
            action: ActionView::CreateDir(locations.install_dir),
            then: StageView {
                config,
                host,
                latest,
                locations,
                phase: StagePhaseView::CreatingDir,
            },
        },
    }
}

/// Whether `names` has `name`.
fn lists(names: &Vec<String>, name: &String) -> (r: bool)
    ensures
        r == names.deep_view().contains(name@),
{
    let mut i: usize = 0;
    while i < names.len()
        invariant
            i <= names@.len(),
            forall|j: int| 0 <= j < i ==> #[trigger] names.deep_view()[j] != name@,
        decreases names@.len() - i,
    {
        if names[i] == *name {
            proof {
                assert(names.deep_view()[i as int] == name@);
            }
            return true;
        }
        i = i + 1;
    }
    false
}

impl<'a> StageFlow<'a> {
    /// A staging of `latest` at its start.
    pub fn start(config: &'a UpdaterConfig, host: &'a Host, latest: LatestReleaseInfo) -> (r: Step<
        StageFlow<'a>,
        InstallPath,
    >)
        ensures
            r@ == stage_begun(*config, *host, latest@),
    {
        match config.locations(host) {
            Err(failure) => Step::Done(Err(failure)),
            Ok(locations) => Step::Do {
                action: Action::CreateDir(locations.install_dir.clone()),
                then: StageFlow { config, host, latest, locations, phase: StagePhase::CreatingDir },
            },
        }
    }

    /// The staging that waits in `phase` for what comes of `action`.
    fn doing(self, action: Action, phase: StagePhase) -> (r: Step<StageFlow<'a>, InstallPath>)
        ensures
            r@ == self@.doing(action@, phase@),
    {
        Step::Do { action, then: StageFlow { phase, ..self } }
    }

    /// The action that sends the next request of a download.
    fn sending(&self, download: &Download) -> (r: Action)
        ensures
            r@ == self@.sending(download@),
    {
        Action::Send {
            request: download.request(),
            follow: false,
            timeout: self.config.timeout(),
        }
    }

    /// The staging once the names of the assets are known.
    fn named(self, names: AssetNames) -> (r: Step<StageFlow<'a>, InstallPath>)
        ensures
            r@ == self@.named(names@),
    {
        if !lists(&self.latest.assets, &names.archive) {
            let available: String = debug_list(&self.latest.assets);
            return Step::Done(
                Err(
                    Failure::new(
                        "release ".to_owned().concat(self.latest.tag.as_str()).concat(
                            " has no asset ",
                        ).concat(names.archive.as_str()).concat(" (available: ").concat(
                            available.as_str(),
                        ).concat(")"),
                    ),
                ),
            );
        }
        match self.config.token_source() {
            TokenSource::Explicit(token) => self.fetch_archive(names, Some(token)),
            TokenSource::Anonymous => self.fetch_archive(names, None),
            TokenSource::Gh(arguments) => self.doing(
                Action::AskGh(arguments),
                StagePhase::AskingGh { names },
            ),
        }
    }

    /// The staging once the token is known.
    fn fetch_archive(self, names: AssetNames, token: Option<String>) -> (r: Step<
        StageFlow<'a>,
        InstallPath,
    >)
        ensures
            r@ == self@.fetch_archive(names@, token.deep_view()),
    {
        let download: Download = start_asset_download(
            self.config,
            &self.latest,
            names.archive.as_str(),
            &token,
        );
        let action: Action = self.sending(&download);
        self.doing(action, StagePhase::FetchingArchive { names, token, download })
    }

    /// The staging once the archive is read.
    fn fetch_checksum(self, names: AssetNames, token: Option<String>, archive: Vec<u8>) -> (r: Step<
        StageFlow<'a>,
        InstallPath,
    >)
        ensures
            r@ == self@.fetch_checksum(names@, token.deep_view(), archive@),
    {
        let download: Download = start_asset_download(
            self.config,
            &self.latest,
            names.checksum.as_str(),
            &token,
        );
        let action: Action = self.sending(&download);
        self.doing(action, StagePhase::FetchingChecksum { names, archive, download })
    }

    /// The staging once the checksum is read.
    fn check(self, names: AssetNames, archive: Vec<u8>, checksum: Vec<u8>) -> (r: Step<
        StageFlow<'a>,
        InstallPath,
    >)
        ensures
            r@ == self@.check(names@, archive@, checksum@),
    {
        match checksum_text(checksum) {
            Err(failure) => Step::Done(Err(failure)),
            Ok(text) => match verify_sha256(
                archive.as_slice(),
                text.as_str(),
                names.archive.as_str(),
            ) {
                Err(failure) => Step::Done(Err(failure)),
                Ok(_) => self.doing(
                    Action::MakeTempDir,
                    StagePhase::MakingTempDir { names, archive },
                ),
            },
        }
    }

    /// The staging that needs to know how its paths are written.
    fn locating(self, phase: StagePhase) -> (r: Step<StageFlow<'a>, InstallPath>)
        ensures
            r@ == self@.doing(ActionView::Locate(self@.locations), phase@),
    {
        let locations: Locations = self.locations.clone();
        self.doing(Action::Locate(locations), phase)
    }

    /// The staging once the install directory is there.
    fn dir_created(self) -> (r: Step<StageFlow<'a>, InstallPath>)
        requires
            self@.phase is CreatingDir,
        ensures
            r@ == self@.after(EventView::Finished),
    {
        match release_target(self.host) {
            Err(failure) => Step::Done(Err(failure)),
            Ok(target) => match self.config.asset_names_for(
                self.host,
                self.latest.version.as_str(),
                target.as_str(),
            ) {
                Some(names) => self.named(names),
                None => {
                    let action = Action::NameAssets {
                        tool_name: self.config.tool_name.clone(),
                        version: self.latest.version.clone(),
                        target,
                    };
                    self.doing(action, StagePhase::Naming)
                },
            },
        }
    }

    /// What the staging comes to with an event.
    pub fn advance(self, event: Event) -> (r: Step<StageFlow<'a>, InstallPath>)
        ensures
            r@ == self@.after(event@),
    {
        let StageFlow { config, host, latest, locations, phase } = self;
        let flow = StageFlow { config, host, latest, locations, phase: StagePhase::CreatingDir };
        match (phase, event) {
            (StagePhase::CreatingDir, Event::Failed(failure)) => flow.locating(
                StagePhase::ExplainingDir { failure },
            ),
            (StagePhase::ExplainingDir { failure }, Event::Located(texts)) => Step::Done(
                Err(failure.context("create ".to_owned().concat(texts.install_dir.as_str()))),
            ),
            (StagePhase::CreatingDir, Event::Finished) => flow.dir_created(),
            (StagePhase::Naming, Event::Named(answer)) => match answer {
                Err(failure) => Step::Done(Err(failure)),
                Ok(names) => flow.named(names),
            },
            (StagePhase::AskingGh { names }, Event::Gh(output)) => {
                let token: Option<String> = flow.config.resolved_token(token_from_gh(output));
                flow.fetch_archive(names, token)
            },
            (
                StagePhase::FetchingArchive { names, token, download },
                Event::Http(reply),
            ) => match download.reply(reply) {
                DownloadStep::Failed(failure) => Step::Done(Err(failure)),
                DownloadStep::Follow(next) => {
                    let action: Action = flow.sending(&next);
                    flow.doing(action, StagePhase::FetchingArchive { names, token, download: next })
                },
                DownloadStep::Read => flow.doing(
                    Action::ReadBody,
                    StagePhase::ReadingArchive { names, token },
                ),
            },
            (
                StagePhase::ReadingArchive { names, token },
                Event::Body(archive),
            ) => flow.fetch_checksum(names, token, archive),
            (
                StagePhase::ReadingArchive { .. },
                Event::BodyFailed { failure, .. },
            ) => Step::Done(Err(failure)),
            (
                StagePhase::FetchingChecksum { names, archive, download },
                Event::Http(reply),
            ) => match download.reply(reply) {
                DownloadStep::Failed(failure) => Step::Done(Err(failure)),
                DownloadStep::Follow(next) => {
                    let action: Action = flow.sending(&next);
                    flow.doing(
                        action,
                        StagePhase::FetchingChecksum { names, archive, download: next },
                    )
                },
                DownloadStep::Read => flow.doing(
                    Action::ReadBody,
                    StagePhase::ReadingChecksum { names, archive },
                ),
            },
            (StagePhase::ReadingChecksum { names, archive }, Event::Body(checksum)) => flow.check(
                names,
                archive,
                checksum,
            ),
            (
                StagePhase::ReadingChecksum { .. },
                Event::BodyFailed { failure, .. },
            ) => Step::Done(Err(failure)),
            (StagePhase::MakingTempDir { .. }, Event::Failed(failure)) => Step::Done(
                Err(
                    failure.context("create tempdir for staging release tarball".to_owned()),
                ),
            ),
            (StagePhase::MakingTempDir { names, archive }, Event::Finished) => flow.doing(
                Action::Unpack(archive),
                StagePhase::Unpacking { names },
            ),
            (StagePhase::Unpacking { names }, Event::Failed(failure)) => Step::Done(
                Err(failure.context("unpack ".to_owned().concat(names.archive.as_str()))),
            ),
            (StagePhase::Unpacking { names }, Event::Finished) => {
                let binary: String = names.binary_in_archive.clone();
                flow.doing(Action::ProbeUnpacked(binary), StagePhase::ProbingUnpacked { names })
            },
            (StagePhase::ProbingUnpacked { names }, Event::Exists(there)) => if there {
                let next: InstallPath = flow.locations.next.clone();
                flow.doing(Action::CreateParent(next), StagePhase::CreatingParent { names })
            } else {
                Step::Done(
                    Err(
                        Failure::new(
                            "release archive ".to_owned().concat(names.archive.as_str()).concat(
                                " did not contain ",
                            ).concat(names.binary_in_archive.as_str()),
                        ),
                    ),
                )
            },
            (StagePhase::CreatingParent { .. }, Event::Failed(failure)) => Step::Done(
                Err(failure),
            ),
            (StagePhase::CreatingParent { names }, Event::Finished) => {
                let action = Action::CopyBeside {
                    unpacked: names.binary_in_archive,
                    to: flow.locations.next.clone(),
                };
                flow.doing(action, StagePhase::Copying)
            },
            (StagePhase::Copying, Event::Failed(failure)) => Step::Done(Err(failure)),
            (StagePhase::Copying, Event::Finished) => {
                let next: InstallPath = flow.locations.next.clone();
                flow.doing(Action::Persist(next), StagePhase::Persisting)
            },
            (StagePhase::Persisting, Event::Failed(failure)) => flow.locating(
                StagePhase::ExplainingPersist { failure },
            ),
            (StagePhase::ExplainingPersist { failure }, Event::Located(texts)) => Step::Done(
                Err(
                    Failure::new(
                        "persist ".to_owned().concat(texts.next.as_str()).concat(
                            " failed: ",
                        ).concat(failure.message.as_str()),
                    ),
                ),
            ),
            (StagePhase::Persisting, Event::Finished) => {
                let next: InstallPath = flow.locations.next.clone();
                flow.doing(Action::MarkExecutable(next), StagePhase::Marking)
            },
            (StagePhase::Marking, Event::Failed(failure)) => Step::Done(Err(failure)),
            (StagePhase::Marking, Event::Finished) => Step::Done(Ok(flow.locations.next)),
            _ => Step::Done(Err(unexpected_answer())),
        }
    }
}

/// Where the staging of `latest` stands once `events` have come back, one after the other.
pub open spec fn stage_run(
    config: UpdaterConfig,
    host: Host,
    latest: LatestView,
    events: Seq<EventView>,
) -> StageStepView
    decreases events.len(),
{
    if events.len() == 0 {
        stage_begun(config, host, latest)
    } else {
        match stage_run(config, host, latest, events.drop_last()) {
            StepView::Do { then, .. } => then.after(events.last()),
            done => done,
        }
    }
}

/// The staging of one release, as something to look back on.
pub struct Staging {
    pub config: UpdaterConfig,
    pub host: Host,
    pub latest: LatestView,
}

impl StagePhaseView {
    /// The download that the staging is at.
    pub open spec fn download(self) -> Option<DownloadView> {
        match self {
            StagePhaseView::FetchingArchive { download, .. } => Some(download),
            StagePhaseView::FetchingChecksum { download, .. } => Some(download),
            _ => None,
        }
    }
}

impl Staging {
    /// Where it stands once `events` have come back.
    pub open spec fn at(self, events: Seq<EventView>) -> StageStepView {
        stage_run(self.config, self.host, self.latest, events)
    }

    /// What it waits for once `events` have come back, if it waits for something.
    pub open spec fn phase_at(self, events: Seq<EventView>) -> Option<StagePhaseView> {
        match self.at(events) {
            StepView::Do { then, .. } => Some(then.phase),
            StepView::Done(_) => None,
        }
    }

    /// The path of the staged binary.
    pub open spec fn next(self) -> PathView {
        self.config.locations_on(self.host)->Ok_0.next
    }

    /// Where the asset `name` is downloaded from.
    pub open spec fn source(self, name: Seq<char>, token: Option<Seq<char>>) -> Seq<char> {
        asset_source(self.config, self.latest, name, token is Some).0
    }

    /// Whether `names` are the names of the assets of the release: those that the strategy fixes,
    /// or those that the host program gave when it was asked.
    #[verifier::opaque]
    pub open spec fn named(self, events: Seq<EventView>, names: NamesView) -> bool {
        match self.config.asset_strategy {
            AssetStrategy::TendrilStyle => {
                &&& target_of(self.host.os@, self.host.arch@) matches Ok(target)
                &&& names == self.config.tendril_names(
                    self.host.is_windows(),
                    self.latest.version,
                    target,
                )
            },
            AssetStrategy::Custom => exists|n: int|
                0 <= n < events.len() && #[trigger] events[n] == EventView::Named(Ok(names))
                    && self.phase_at(events.take(n)) == Some(StagePhaseView::Naming),
        }
    }

    /// Whether the body that is read once the first `i` of `events` have come back is that of the
    /// reply to a request for the asset `name`, sent where the download of it has led.
    pub open spec fn reads(self, events: Seq<EventView>, i: int, name: Seq<char>) -> bool {
        &&& 0 < i <= events.len()
        &&& self.at(events.take(i)).asks_for(ActionView::ReadBody)
        &&& self.at(events.take(i - 1)) matches StepView::Do { action, then }
        &&& then.phase.download() matches Some(download)
        &&& action == then.sending(download)
        &&& download.url == self.source(name, download.token)
    }

    /// Whether the `i`th of `events` brought `archive`, read as the archive of the release.
    pub open spec fn archive_came(
        self,
        events: Seq<EventView>,
        i: int,
        names: NamesView,
        archive: Seq<u8>,
    ) -> bool {
        &&& i < events.len()
        &&& events[i] == EventView::Body(archive)
        &&& self.reads(events, i, names.archive)
        &&& self.phase_at(events.take(i)) matches Some(
            StagePhaseView::ReadingArchive { names: read, .. },
        )
        &&& read == names
    }

    /// Whether the `j`th of `events` brought `checksum`, read as the checksum of `archive`.
    pub open spec fn checksum_came(
        self,
        events: Seq<EventView>,
        j: int,
        names: NamesView,
        archive: Seq<u8>,
        checksum: Seq<u8>,
    ) -> bool {
        &&& j < events.len()
        &&& events[j] == EventView::Body(checksum)
        &&& self.reads(events, j, names.checksum)
        &&& self.phase_at(events.take(j)) == Some(
            StagePhaseView::ReadingChecksum { names, archive },
        )
    }

    /// Whether `archive` came as the archive of the release.
    #[verifier::opaque]
    pub open spec fn has_archive(
        self,
        events: Seq<EventView>,
        names: NamesView,
        archive: Seq<u8>,
    ) -> bool {
        exists|i: int| #[trigger] self.archive_came(events, i, names, archive)
    }

    /// Whether `archive` came as the archive of the release, and after it, as its checksum, a file
    /// that vouches for it.
    #[verifier::opaque]
    pub open spec fn vouched(
        self,
        events: Seq<EventView>,
        names: NamesView,
        archive: Seq<u8>,
    ) -> bool {
        exists|i: int, j: int, checksum: Seq<u8>|
            i < j && #[trigger] self.archive_came(events, i, names, archive)
                && #[trigger] self.checksum_came(events, j, names, archive, checksum)
                && vouches_for(checksum, archive)
    }

    /// Whether `archive` was unpacked once it was vouched for.
    #[verifier::opaque]
    pub open spec fn unpacked(
        self,
        events: Seq<EventView>,
        names: NamesView,
        archive: Seq<u8>,
    ) -> bool {
        exists|k: int|
            0 <= k < events.len() && self.at(#[trigger] events.take(k)).asks_for(
                ActionView::Unpack(archive),
            ) && self.vouched(events.take(k), names, archive)
    }

    /// Whether the binary was copied from `archive`, once that was unpacked, to beside the place
    /// of the staged one.
    #[verifier::opaque]
    pub open spec fn copied(
        self,
        events: Seq<EventView>,
        names: NamesView,
        archive: Seq<u8>,
    ) -> bool {
        exists|m: int|
            0 <= m < events.len() && self.at(#[trigger] events.take(m)).asks_for(
                ActionView::CopyBeside { unpacked: names.binary_in_archive, to: self.next() },
            ) && self.unpacked(events.take(m), names, archive)
    }

    /// Whether the binary was copied from an archive of the release that its checksum vouches for.
    #[verifier::opaque]
    pub open spec fn staged(self, events: Seq<EventView>) -> bool {
        exists|names: NamesView, archive: Seq<u8>|
            self.named(events, names) && #[trigger] self.copied(events, names, archive)
    }

    /// What holds of it where it stands at `step`, given what has come back.
    spec fn holds(self, step: StageStepView, events: Seq<EventView>) -> bool {
        match step {
            StepView::Do { action, then } => {
                &&& then == (StageView {
                    config: self.config,
                    host: self.host,
                    latest: self.latest,
                    locations: self.config.locations_on(self.host)->Ok_0,
                    phase: then.phase,
                })
                &&& then.acts(action)
                &&& self.phase_holds(action, then.phase, events)
            },
            StepView::Done(Ok(path)) => path == self.next() && self.staged(events),
            StepView::Done(Err(_)) => true,
        }
    }

    /// What holds of it where it waits in `phase` for what comes of `action`.
    spec fn phase_holds(
        self,
        action: ActionView,
        phase: StagePhaseView,
        events: Seq<EventView>,
    ) -> bool {
        match phase {
            StagePhaseView::AskingGh { names } => self.named(events, names),
            StagePhaseView::FetchingArchive { names, token, download } => {
                &&& self.named(events, names)
                &&& self.sends(download, names.archive)
                &&& download.token == token
            },
            StagePhaseView::ReadingArchive { names, token } => {
                &&& self.named(events, names)
                &&& is_token_of(self.config, token)
                &&& self.reads(events, events.len() as int, names.archive)
            },
            StagePhaseView::FetchingChecksum { names, archive, download } => {
                &&& self.named(events, names)
                &&& self.sends(download, names.checksum)
                &&& self.has_archive(events, names, archive)
            },
            StagePhaseView::ReadingChecksum { names, archive } => {
                &&& self.named(events, names)
                &&& self.reads(events, events.len() as int, names.checksum)
                &&& self.has_archive(events, names, archive)
            },
            StagePhaseView::MakingTempDir { names, archive } => {
                &&& self.named(events, names)
                &&& self.vouched(events, names, archive)
            },
            StagePhaseView::Unpacking { names } => {
                &&& self.named(events, names)
                &&& action matches ActionView::Unpack(archive)
                &&& self.vouched(events, names, archive)
            },
            StagePhaseView::ProbingUnpacked { names } => {
                &&& self.named(events, names)
                &&& exists|archive: Seq<u8>| #[trigger] self.unpacked(events, names, archive)
            },
            StagePhaseView::CreatingParent { names } => {
                &&& self.named(events, names)
                &&& exists|archive: Seq<u8>| #[trigger] self.unpacked(events, names, archive)
            },
            StagePhaseView::Copying => exists|names: NamesView, archive: Seq<u8>|
                self.named(events, names) && #[trigger] self.unpacked(events, names, archive)
                    && action == (ActionView::CopyBeside {
                    unpacked: names.binary_in_archive,
                    to: self.next(),
                }),
            StagePhaseView::Persisting => self.staged(events),
            StagePhaseView::ExplainingPersist { .. } => self.staged(events),
            StagePhaseView::Marking => self.staged(events),
            _ => true,
        }
    }

    /// Whether `download` is that of the asset `name`, with the token of the configuration, and
    /// that, if it is still sent, goes to no other host.
    pub open spec fn sends(self, download: DownloadView, name: Seq<char>) -> bool {
        &&& download.send_auth ==> download.token is Some && host_of(download.current) == host_of(
            download.url,
        )
        &&& download.url == self.source(name, download.token)
        &&& is_token_of(self.config, download.token)
    }

    /// One event more, and what it brings.
    proof fn lemma_step(self, events: Seq<EventView>, event: EventView)
        ensures
            self.at(events.push(event)) == (match self.at(events) {
                StepView::Do { then, .. } => then.after(event),
                done => done,
            }),
            events.push(event).take(events.len() as int) == events,
    {
        assert(events.push(event).drop_last() == events);
        assert(events.push(event).take(events.len() as int) == events);
    }

    /// What has come back stays so.
    proof fn lemma_grows(self, events: Seq<EventView>, event: EventView)
        ensures
            forall|names: NamesView| #[trigger]
                self.named(events, names) ==> self.named(events.push(event), names),
            forall|names: NamesView, archive: Seq<u8>| #[trigger]
                self.has_archive(events, names, archive) ==> self.has_archive(
                    events.push(event),
                    names,
                    archive,
                ),
            forall|names: NamesView, archive: Seq<u8>| #[trigger]
                self.vouched(events, names, archive) ==> self.vouched(
                    events.push(event),
                    names,
                    archive,
                ),
            forall|names: NamesView, archive: Seq<u8>| #[trigger]
                self.unpacked(events, names, archive) ==> self.unpacked(
                    events.push(event),
                    names,
                    archive,
                ),
            self.staged(events) ==> self.staged(events.push(event)),
    {
        reveal(Staging::named);
        reveal(Staging::has_archive);
        reveal(Staging::vouched);
        reveal(Staging::unpacked);
        reveal(Staging::copied);
        reveal(Staging::staged);
        let more = events.push(event);
        assert forall|i: int| 0 <= i <= events.len() implies #[trigger] more.take(i)
            == events.take(i) by {}
        assert forall|names: NamesView| #[trigger] self.named(events, names) implies self.named(
            more,
            names,
        ) by {
            if self.config.asset_strategy == AssetStrategy::Custom {
                let n = choose|n: int|
                    0 <= n < events.len() && #[trigger] events[n] == EventView::Named(Ok(names))
                        && self.phase_at(events.take(n)) == Some(StagePhaseView::Naming);
                assert(more[n] == events[n] && more.take(n) == events.take(n));
            }
        }
        assert forall|i: int, names: NamesView, archive: Seq<u8>| #[trigger]
            self.archive_came(events, i, names, archive) implies self.archive_came(
            more,
            i,
            names,
            archive,
        ) by {
            assert(more.take(i) == events.take(i) && more.take(i - 1) == events.take(i - 1));
        }
        assert forall|j: int, names: NamesView, archive: Seq<u8>, checksum: Seq<u8>| #[trigger]
            self.checksum_came(events, j, names, archive, checksum) implies self.checksum_came(
            more,
            j,
            names,
            archive,
            checksum,
        ) by {
            assert(more.take(j) == events.take(j) && more.take(j - 1) == events.take(j - 1));
        }
        assert forall|names: NamesView, archive: Seq<u8>| #[trigger]
            self.has_archive(events, names, archive) implies self.has_archive(
            more,
            names,
            archive,
        ) by {
            let i = choose|i: int| #[trigger] self.archive_came(events, i, names, archive);
            assert(self.archive_came(more, i, names, archive));
        }
        assert forall|names: NamesView, archive: Seq<u8>| #[trigger]
            self.vouched(events, names, archive) implies self.vouched(more, names, archive) by {
            let (i, j, checksum) = choose|i: int, j: int, checksum: Seq<u8>|
                i < j && #[trigger] self.archive_came(events, i, names, archive)
                    && #[trigger] self.checksum_came(events, j, names, archive, checksum)
                    && vouches_for(checksum, archive);
            assert(self.archive_came(more, i, names, archive));
            assert(self.checksum_came(more, j, names, archive, checksum));
        }
        assert forall|names: NamesView, archive: Seq<u8>| #[trigger]
            self.unpacked(events, names, archive) implies self.unpacked(more, names, archive) by {
            let k = choose|k: int|
                0 <= k < events.len() && self.at(#[trigger] events.take(k)).asks_for(
                    ActionView::Unpack(archive),
                ) && self.vouched(events.take(k), names, archive);
            assert(more.take(k) == events.take(k));
        }
        if self.staged(events) {
            let (names, archive) = choose|names: NamesView, archive: Seq<u8>|
                self.named(events, names) && #[trigger] self.copied(events, names, archive);
            let m = choose|m: int|
                0 <= m < events.len() && self.at(#[trigger] events.take(m)).asks_for(
                    ActionView::CopyBeside { unpacked: names.binary_in_archive, to: self.next() },
                ) && self.unpacked(events.take(m), names, archive);
            assert(more.take(m) == events.take(m));
            assert(self.copied(more, names, archive));
        }
    }

    /// The archive that has just come back.
    proof fn lemma_archive_now(
        self,
        events: Seq<EventView>,
        names: NamesView,
        token: Option<Seq<char>>,
        archive: Seq<u8>,
    )
        requires
            self.phase_at(events) == Some(StagePhaseView::ReadingArchive { names, token }),
            self.reads(events, events.len() as int, names.archive),
        ensures
            self.has_archive(events.push(EventView::Body(archive)), names, archive),
    {
        reveal(Staging::has_archive);
        let more = events.push(EventView::Body(archive));
        let i = events.len() as int;
        assert(more.take(i) == events && events.take(i) == events);
        assert(more.take(i - 1) == events.take(i - 1));
        assert(self.archive_came(more, i, names, archive));
    }

    /// A checksum that has just come back and vouches for the archive.
    proof fn lemma_vouched_now(
        self,
        events: Seq<EventView>,
        names: NamesView,
        archive: Seq<u8>,
        checksum: Seq<u8>,
    )
        requires
            self.phase_at(events) == Some(StagePhaseView::ReadingChecksum { names, archive }),
            self.reads(events, events.len() as int, names.checksum),
            self.has_archive(events, names, archive),
            vouches_for(checksum, archive),
        ensures
            self.vouched(events.push(EventView::Body(checksum)), names, archive),
    {
        reveal(Staging::has_archive);
        reveal(Staging::vouched);
        let more = events.push(EventView::Body(checksum));
        let j = events.len() as int;
        let i = choose|i: int| #[trigger] self.archive_came(events, i, names, archive);
        assert(more.take(j) == events && events.take(j) == events);
        assert(more.take(j - 1) == events.take(j - 1));
        assert(more.take(i) == events.take(i) && more.take(i - 1) == events.take(i - 1));
        assert(self.archive_came(more, i, names, archive));
        assert(self.checksum_came(more, j, names, archive, checksum));
    }

    /// The reply that has just come back is to be read.
    proof fn lemma_reads_now(self, events: Seq<EventView>, reply: ReplyView, name: Seq<char>)
        requires
            self.at(events) matches StepView::Do { action, then } && {
                &&& then.phase.download() matches Some(download)
                &&& action == then.sending(download)
                &&& download.url == self.source(name, download.token)
            },
            self.at(events.push(EventView::Http(reply))).asks_for(ActionView::ReadBody),
        ensures
            self.reads(
                events.push(EventView::Http(reply)),
                events.len() as int + 1,
                name,
            ),
    {
        let more = events.push(EventView::Http(reply));
        assert(more.take(events.len() as int + 1) == more);
        assert(more.take(events.len() as int) == events);
    }

    /// The archive that is being unpacked has then been unpacked.
    proof fn lemma_unpacked_now(
        self,
        events: Seq<EventView>,
        event: EventView,
        names: NamesView,
        archive: Seq<u8>,
    )
        requires
            self.at(events).asks_for(ActionView::Unpack(archive)),
            self.vouched(events, names, archive),
        ensures
            self.unpacked(events.push(event), names, archive),
    {
        reveal(Staging::unpacked);
        assert(events.push(event).take(events.len() as int) == events);
    }

    /// The binary that is being copied has then been copied.
    proof fn lemma_staged_now(
        self,
        events: Seq<EventView>,
        event: EventView,
        names: NamesView,
        archive: Seq<u8>,
    )
        requires
            self.at(events).asks_for(
                ActionView::CopyBeside { unpacked: names.binary_in_archive, to: self.next() },
            ),
            self.unpacked(events, names, archive),
            self.named(events, names),
        ensures
            self.staged(events.push(event)),
    {
        reveal(Staging::copied);
        reveal(Staging::staged);
        let more = events.push(event);
        assert(more.take(events.len() as int) == events);
        self.lemma_grows(events, event);
        assert(self.copied(more, names, archive));
    }

    /// What holds holds on while the names and the token are found out.
    #[verifier::spinoff_prover]
    proof fn lemma_naming_holds_on(
        self,
        events: Seq<EventView>,
        event: EventView,
        action: ActionView,
        flow: StageView,
    )
        requires
            self.at(events) == (StageStepView::Do { action, then: flow }),
            self.holds(self.at(events), events),
            flow.phase is CreatingDir || flow.phase is ExplainingDir || flow.phase is Naming
                || flow.phase is AskingGh,
        ensures
            self.holds(flow.after(event), events.push(event)),
    {
        reveal(Staging::named);
        let more = events.push(event);
        self.lemma_step(events, event);
        self.lemma_grows(events, event);
        match (flow.phase, event) {
            (StagePhaseView::CreatingDir, EventView::Finished) => {
                if self.config.asset_strategy == AssetStrategy::TendrilStyle {
                    if let Ok(target) = target_of(self.host.os@, self.host.arch@) {
                        let names = self.config.tendril_names(
                            self.host.is_windows(),
                            self.latest.version,
                            target,
                        );
                        self.lemma_begins(flow, names);
                    }
                }
            },
            (StagePhaseView::Naming, EventView::Named(Ok(names))) => {
                assert(more[events.len() as int] == event);
                self.lemma_begins(flow, names);
            },
            (StagePhaseView::AskingGh { names }, EventView::Gh(output)) => {
                assert(is_token_of(self.config, self.config.token_given(gh_token(output))));
            },
            _ => {},
        }
    }

    /// What holds holds on while the archive is fetched.
    #[verifier::spinoff_prover]
    proof fn lemma_archive_holds_on(
        self,
        events: Seq<EventView>,
        event: EventView,
        action: ActionView,
        flow: StageView,
    )
        requires
            self.at(events) == (StageStepView::Do { action, then: flow }),
            self.holds(self.at(events), events),
            flow.phase is FetchingArchive || flow.phase is ReadingArchive,
        ensures
            self.holds(flow.after(event), events.push(event)),
    {
        let more = events.push(event);
        self.lemma_step(events, event);
        self.lemma_grows(events, event);
        match (flow.phase, event) {
            (StagePhaseView::FetchingArchive { names, .. }, EventView::Http(reply)) => {
                if self.at(more).asks_for(ActionView::ReadBody) {
                    self.lemma_reads_now(events, reply, names.archive);
                }
            },
            (StagePhaseView::ReadingArchive { names, token }, EventView::Body(archive)) => {
                self.lemma_archive_now(events, names, token, archive);
            },
            _ => {},
        }
    }

    /// What holds holds on while the checksum is fetched.
    #[verifier::spinoff_prover]
    proof fn lemma_checksum_holds_on(
        self,
        events: Seq<EventView>,
        event: EventView,
        action: ActionView,
        flow: StageView,
    )
        requires
            self.at(events) == (StageStepView::Do { action, then: flow }),
            self.holds(self.at(events), events),
            flow.phase is FetchingChecksum || flow.phase is ReadingChecksum,
        ensures
            self.holds(flow.after(event), events.push(event)),
    {
        let more = events.push(event);
        self.lemma_step(events, event);
        self.lemma_grows(events, event);
        match (flow.phase, event) {
            (StagePhaseView::FetchingChecksum { names, .. }, EventView::Http(reply)) => {
                if self.at(more).asks_for(ActionView::ReadBody) {
                    self.lemma_reads_now(events, reply, names.checksum);
                }
            },
            (StagePhaseView::ReadingChecksum { names, archive }, EventView::Body(checksum)) => {
                if vouches_for(checksum, archive) {
                    self.lemma_vouched_now(events, names, archive, checksum);
                }
            },
            _ => {},
        }
    }

    /// What holds holds on while the archive is unpacked.
    #[verifier::spinoff_prover]
    proof fn lemma_unpacking_holds_on(
        self,
        events: Seq<EventView>,
        event: EventView,
        action: ActionView,
        flow: StageView,
    )
        requires
            self.at(events) == (StageStepView::Do { action, then: flow }),
            self.holds(self.at(events), events),
            flow.phase is MakingTempDir || flow.phase is Unpacking || flow.phase is ProbingUnpacked
                || flow.phase is CreatingParent,
        ensures
            self.holds(flow.after(event), events.push(event)),
    {
        let more = events.push(event);
        self.lemma_step(events, event);
        self.lemma_grows(events, event);
        match (flow.phase, event) {
            (StagePhaseView::Unpacking { names }, EventView::Finished) => {
                self.lemma_unpacked_now(events, event, names, action->Unpack_0);
            },
            (StagePhaseView::CreatingParent { names }, EventView::Finished) => {
                let archive = choose|archive: Seq<u8>| #[trigger]
                    self.unpacked(events, names, archive);
                assert(self.unpacked(more, names, archive));
            },
            _ => {},
        }
    }

    /// What holds holds on while the binary is put in its place.
    #[verifier::spinoff_prover]
    proof fn lemma_storing_holds_on(
        self,
        events: Seq<EventView>,
        event: EventView,
        action: ActionView,
        flow: StageView,
    )
        requires
            self.at(events) == (StageStepView::Do { action, then: flow }),
            self.holds(self.at(events), events),
            flow.phase is Copying || flow.phase is Persisting || flow.phase is ExplainingPersist
                || flow.phase is Marking,
        ensures
            self.holds(flow.after(event), events.push(event)),
    {
        let more = events.push(event);
        self.lemma_step(events, event);
        self.lemma_grows(events, event);
        if flow.phase is Copying && event == EventView::Finished {
            let (names, archive) = choose|names: NamesView, archive: Seq<u8>|
                self.named(events, names) && #[trigger] self.unpacked(events, names, archive)
                    && action == (ActionView::CopyBeside {
                    unpacked: names.binary_in_archive,
                    to: self.next(),
                });
            self.lemma_staged_now(events, event, names, archive);
        }
    }

    /// What holds of it holds after one more event.
    #[verifier::spinoff_prover]
    proof fn lemma_holds_on(self, events: Seq<EventView>, event: EventView)
        requires
            self.holds(self.at(events), events),
        ensures
            self.holds(self.at(events.push(event)), events.push(event)),
    {
        self.lemma_step(events, event);
        match self.at(events) {
            StepView::Do { action, then } => match then.phase {
                StagePhaseView::FetchingArchive { .. } => {
                    self.lemma_archive_holds_on(events, event, action, then);
                },
                StagePhaseView::ReadingArchive { .. } => {
                    self.lemma_archive_holds_on(events, event, action, then);
                },
                StagePhaseView::FetchingChecksum { .. } => {
                    self.lemma_checksum_holds_on(events, event, action, then);
                },
                StagePhaseView::ReadingChecksum { .. } => {
                    self.lemma_checksum_holds_on(events, event, action, then);
                },
                StagePhaseView::MakingTempDir { .. } => {
                    self.lemma_unpacking_holds_on(events, event, action, then);
                },
                StagePhaseView::Unpacking { .. } => {
                    self.lemma_unpacking_holds_on(events, event, action, then);
                },
                StagePhaseView::ProbingUnpacked { .. } => {
                    self.lemma_unpacking_holds_on(events, event, action, then);
                },
                StagePhaseView::CreatingParent { .. } => {
                    self.lemma_unpacking_holds_on(events, event, action, then);
                },
                StagePhaseView::Copying => {
                    self.lemma_storing_holds_on(events, event, action, then);
                },
                StagePhaseView::Persisting => {
                    self.lemma_storing_holds_on(events, event, action, then);
                },
                StagePhaseView::ExplainingPersist { .. } => {
                    self.lemma_storing_holds_on(events, event, action, then);
                },
                StagePhaseView::Marking => {
                    self.lemma_storing_holds_on(events, event, action, then);
                },
                _ => {
                    self.lemma_naming_holds_on(events, event, action, then);
                },
            },
            StepView::Done(_) => {
                self.lemma_grows(events, event);
            },
        }
    }

    /// The download of the archive begins as it should.
    proof fn lemma_begins(self, flow: StageView, names: NamesView)
        requires
            flow.config == self.config,
            flow.latest == self.latest,
        ensures
            flow.named(names) matches StepView::Do { action, then } ==> then.acts(action)
                && match then.phase {
                StagePhaseView::FetchingArchive { names: fetched, token, download } => fetched
                    == names && self.sends(download, names.archive) && download.token == token,
                StagePhaseView::AskingGh { names: asked } => asked == names,
                _ => false,
            },
    {
        assert(is_token_of(self.config, self.config.token_given(None)));
    }

    /// What holds of it whatever comes back.
    proof fn lemma_run(self, events: Seq<EventView>)
        ensures
            self.holds(self.at(events), events),
        decreases events.len(),
    {
        if events.len() > 0 {
            self.lemma_run(events.drop_last());
            self.lemma_holds_on(events.drop_last(), events.last());
            assert(events == events.drop_last().push(events.last()));
        }
    }
}

/// Whether `token` is the one that the configuration and something that `gh` prints give.
pub open spec fn is_token_of(config: UpdaterConfig, token: Option<Seq<char>>) -> bool {
    exists|gh: Option<Seq<char>>| token == #[trigger] config.token_given(gh)
}

impl StageView {
    /// Whether `action` is one that the staging may wait for in its phase.
    spec fn acts(self, action: ActionView) -> bool {
        match self.phase {
            StagePhaseView::CreatingDir => action == ActionView::CreateDir(
                self.locations.install_dir,
            ),
            StagePhaseView::FetchingArchive { download, .. } => action == self.sending(download),
            StagePhaseView::FetchingChecksum { download, .. } => action == self.sending(download),
            StagePhaseView::MakingTempDir { .. } => action == ActionView::MakeTempDir,
            StagePhaseView::Unpacking { .. } => action is Unpack,
            StagePhaseView::CreatingParent { .. } => action == ActionView::CreateParent(
                self.locations.next,
            ),
            StagePhaseView::Copying => action matches ActionView::CopyBeside { to, .. } && to
                == self.locations.next,
            StagePhaseView::Persisting => action == ActionView::Persist(self.locations.next),
            StagePhaseView::Marking => action == ActionView::MarkExecutable(self.locations.next),
            _ => action.harmless() && !(action is Send),
        }
    }
}

/// Nothing is unpacked or staged that the checksum of the release does not vouch for.
///
/// An archive is unpacked only after it was read as the body of the reply to a request for the
/// release's archive, and after that, as the body of the reply to a request for the release's
/// checksum, a file was read that vouches for it. A file is copied to beside the staged binary
/// only from such an archive once that was unpacked, and it is the binary by the name that the
/// assets give it. No copy is put in the place of the staged binary, and no staging succeeds,
/// where that did not happen.
pub proof fn law_only_vouched_archives_are_staged(
    config: UpdaterConfig,
    host: Host,
    latest: LatestView,
    events: Seq<EventView>,
)
    ensures
        ({
            let staging = Staging { config, host, latest };
            match stage_run(config, host, latest, events) {
                StepView::Do { action: ActionView::Unpack(archive), .. } => exists|
                    names: NamesView,
                |
                    staging.named(events, names) && #[trigger] staging.vouched(
                        events,
                        names,
                        archive,
                    ),
                StepView::Do { action: ActionView::CopyBeside { unpacked, to }, .. } => exists|
                    names: NamesView,
                    archive: Seq<u8>,
                |
                    staging.named(events, names) && #[trigger] staging.unpacked(
                        events,
                        names,
                        archive,
                    ) && unpacked == names.binary_in_archive && to == staging.next(),
                StepView::Do { action: ActionView::Persist(path), .. } => path == staging.next()
                    && staging.staged(events),
                StepView::Done(Ok(path)) => path == staging.next() && staging.staged(events),
                _ => true,
            }
        }),
{
    let staging = Staging { config, host, latest };
    staging.lemma_run(events);
    assert(staging.at(events) == stage_run(config, host, latest, events));
}

/// A staging leaves the installed binary alone: what it changes is the install directory, a
/// temporary directory, and the staged binary.
pub proof fn law_staging_spares_the_installed_binary(
    config: UpdaterConfig,
    host: Host,
    latest: LatestView,
    events: Seq<EventView>,
)
    ensures
        stage_run(config, host, latest, events) matches StepView::Do { action, .. } ==> {
            let locations = config.locations_on(host)->Ok_0;
            ||| action.harmless()
            ||| action == ActionView::CreateDir(locations.install_dir)
            ||| action == ActionView::CreateParent(locations.next)
            ||| action is MakeTempDir
            ||| action is Unpack
            ||| action matches ActionView::CopyBeside { to, .. } && to == locations.next
            ||| action == ActionView::Persist(locations.next)
            ||| action == ActionView::MarkExecutable(locations.next)
        },
{
    let staging = Staging { config, host, latest };
    staging.lemma_run(events);
    assert(staging.at(events) == stage_run(config, host, latest, events));
}

/// A staging follows redirects itself, and sends no token but the one that the configuration and
/// `gh` give, and that only to the host that the archive of the release, or its checksum, is to be
/// had from.
pub proof fn law_staging_keeps_the_token(
    config: UpdaterConfig,
    host: Host,
    latest: LatestView,
    events: Seq<EventView>,
)
    ensures
        stage_run(config, host, latest, events) matches StepView::Do {
            action: ActionView::Send { request, follow, .. },
            ..
        } ==> !follow && (request.authorization is Some ==> {
            let staging = Staging { config, host, latest };
            &&& exists|gh: Option<Seq<char>>|
                request.authorization == bearer_if(#[trigger] config.token_given(gh))
            &&& exists|names: NamesView| #[trigger]
                staging.named(events, names) && {
                    ||| host_of(request.url) == host_of(
                        asset_source(config, latest, names.archive, true).0,
                    )
                    ||| host_of(request.url) == host_of(
                        asset_source(config, latest, names.checksum, true).0,
                    )
                }
        }),
{
    let staging = Staging { config, host, latest };
    staging.lemma_run(events);
    assert(staging.at(events) == stage_run(config, host, latest, events));
    if let StepView::Do { action, then } = stage_run(config, host, latest, events) {
        if action is Send && action->request.authorization is Some {
            let download = then.phase.download()->0;
            let names = match then.phase {
                StagePhaseView::FetchingArchive { names, .. } => names,
                StagePhaseView::FetchingChecksum { names, .. } => names,
                _ => arbitrary(),
            };
            assert(staging.named(events, names));
            let gh = choose|gh: Option<Seq<char>>|
                download.token == #[trigger] config.token_given(gh);
            assert(action->request.authorization == bearer_if(config.token_given(gh)));
        }
    }
}

/// Without a token the requests for an asset carry no credential and no `Accept` header.
pub proof fn law_anonymous_downloads(
    config: UpdaterConfig,
    latest: LatestView,
    name: Seq<char>,
    replies: Seq<ReplyView>,
)
    ensures
        ({
            let sent = requests_of(asset_download(config, latest, name, None), replies);
            forall|k: int|
                0 <= k < sent.len() ==> (#[trigger] sent[k]).accept is None
                    && sent[k].authorization is None
        }),
{
    let url = asset_source(config, latest, name, false).0;
    law_downloads_are_bounded(url, config.agent_text(), None, None, replies);
    law_token_stays_with_its_host(url, config.agent_text(), None, None, replies);
}

/// What comes back to a staging that is answered at once, up to the checksum.
pub open spec fn answered_at_once(archive: Seq<u8>, checksum: Seq<u8>) -> Seq<EventView> {
    let reply = EventView::Http(ReplyView::Response { status: 200, location: None });
    seq![EventView::Finished].push(reply).push(EventView::Body(archive)).push(reply).push(
        EventView::Body(checksum),
    )
}

/// A release that has its archive is staged where the archive and its checksum come back at once,
/// the checksum vouches for the archive, the binary is in it, and the disk plays along. Where the
/// checksum does not vouch for it, the staging fails with the checksum, before anything is
/// unpacked.
pub proof fn law_a_fitting_release_is_staged(
    config: UpdaterConfig,
    host: Host,
    latest: LatestView,
    target: Seq<char>,
    archive: Seq<u8>,
    checksum: Seq<u8>,
)
    requires
        config.locations_on(host) is Ok,
        target_of(host.os@, host.arch@) == Ok::<Seq<char>, Messages>(target),
        config.asset_strategy == AssetStrategy::TendrilStyle,
        !(config.token_origin() is Gh),
        latest.assets.contains(
            config.tendril_names(host.is_windows(), latest.version, target).archive,
        ),
    ensures
        ({
            let answered = answered_at_once(archive, checksum);
            let unpacked = answered.push(EventView::Finished).push(EventView::Finished).push(
                EventView::Exists(true),
            );
            let stored = unpacked.push(EventView::Finished).push(EventView::Finished).push(
                EventView::Finished,
            ).push(EventView::Finished);
            &&& vouches_for(checksum, archive) ==> stage_run(config, host, latest, stored)
                == StageStepView::Done(Ok(config.locations_on(host)->Ok_0.next))
            &&& !vouches_for(checksum, archive) ==> stage_run(config, host, latest, answered)
                matches StepView::Done(Err(_))
        }),
{
    let staging = Staging { config, host, latest };
    let names = config.tendril_names(host.is_windows(), latest.version, target);
    let reply = EventView::Http(ReplyView::Response { status: 200, location: None });
    let none = Seq::<EventView>::empty();
    let created = none.push(EventView::Finished);
    assert(seq![EventView::Finished] == created);
    staging.lemma_step(none, EventView::Finished);
    let begun = stage_run(config, host, latest, created);
    assert(begun is Do && begun->then.phase is FetchingArchive);
    staging.lemma_step(created, reply);
    let replied = created.push(reply);
    staging.lemma_step(replied, EventView::Body(archive));
    let read = replied.push(EventView::Body(archive));
    staging.lemma_step(read, reply);
    let again = read.push(reply);
    staging.lemma_step(again, EventView::Body(checksum));
    let answered = again.push(EventView::Body(checksum));
    assert(answered == answered_at_once(archive, checksum));
    if vouches_for(checksum, archive) {
        assert(stage_run(config, host, latest, answered)->then.phase
            == StagePhaseView::MakingTempDir { names, archive });
        staging.lemma_step(answered, EventView::Finished);
        let made = answered.push(EventView::Finished);
        staging.lemma_step(made, EventView::Finished);
        let out = made.push(EventView::Finished);
        staging.lemma_step(out, EventView::Exists(true));
        let unpacked = out.push(EventView::Exists(true));
        staging.lemma_step(unpacked, EventView::Finished);
        let parent = unpacked.push(EventView::Finished);
        staging.lemma_step(parent, EventView::Finished);
        let copied = parent.push(EventView::Finished);
        staging.lemma_step(copied, EventView::Finished);
        let persisted = copied.push(EventView::Finished);
        staging.lemma_step(persisted, EventView::Finished);
    }
}

} // verus!
