//! The updater of one tool.

use crate::check::{check_begun, CheckFlow};
use crate::config::{AssetNames, AssetStrategy, UpdaterConfig};
use crate::effects::Step;
use crate::host::{Host, InstallPath};
use crate::promote::{promote_begun, PromoteFlow};
use crate::release::{LatestReleaseInfo, ParsedRelease};
use crate::select::{selection, SearchStep};
use crate::stage::{asset_source, stage_begun, StageFlow};
use crate::update::{
    run_begun, status_begun, RunFlow, StatusFlow, UpdateOutcome, UpdateStatus,
};
use crate::version::newer_than;
use vstd::prelude::*;

verus! {

/// Updates one tool, as its configuration says.
///
/// Each operation is a flow: it begins with a [`Step`], which either holds something to do, for
/// which the flow is to be advanced with what came of it, or the end.
pub struct Updater {
    config: UpdaterConfig,
}

impl Updater {
    /// The configuration.
    pub closed spec fn settings(self) -> UpdaterConfig {
        self.config
    }

    /// The updater with this configuration.
    pub fn new(config: UpdaterConfig) -> (r: Self)
        ensures
            r.settings() == config,
    {
        Updater { config }
    }

    /// The configuration.
    pub fn config(&self) -> (r: &UpdaterConfig)
        ensures
            *r == self.settings(),
    {
        &self.config
    }

    /// Begins the report on what is installed and what is staged.
    pub fn current_status<'a>(&'a self, host: &Host) -> (r: Step<StatusFlow<'a>, UpdateStatus>)
        ensures
            r@ == status_begun(self.settings(), *host),
    {
        StatusFlow::start(&self.config, host)
    }

    /// Begins the check for the release to update to: the newest published one that has the
    /// assets for the platform, among as many as the configuration says.
    pub fn check_latest<'a>(&'a self, host: &'a Host) -> (r: Step<CheckFlow<'a>, LatestReleaseInfo>)
        ensures
            r@ == check_begun(self.settings(), *host),
    {
        CheckFlow::start(&self.config, host)
    }

    /// Begins to stage `latest`: to download its archive, check it against its checksum, and put
    /// the binary in it beside the installed one. It ends with the path of the staged binary.
    pub fn stage_next<'a>(&'a self, host: &'a Host, latest: &LatestReleaseInfo) -> (r: Step<
        StageFlow<'a>,
        InstallPath,
    >)
        ensures
            r@ == stage_begun(self.settings(), *host, latest@),
    {
        StageFlow::start(&self.config, host, latest.clone())
    }

    /// Begins to promote the staged binary. It ends with the path of the installed one, or with
    /// none where nothing was staged, or where Windows would have to replace a binary.
    pub fn promote_next<'a>(&self, host: &'a Host) -> (r: Step<
        PromoteFlow<'a>,
        Option<InstallPath>,
    >)
        ensures
            r@ == promote_begun(self.settings(), *host),
    {
        PromoteFlow::start(&self.config, host)
    }

    /// Begins the whole update: the check and, where it finds a newer release, the staging and the
    /// promotion.
    pub fn run_update<'a>(&'a self, host: &'a Host) -> (r: Step<RunFlow<'a>, UpdateOutcome>)
        ensures
            r@ == run_begun(self.settings(), *host),
    {
        RunFlow::start(&self.config, host)
    }

    /// Whether the version `latest` is newer than the running one.
    pub fn is_newer(&self, latest: &str) -> (r: bool)
        ensures
            r == newer_than(latest@, self.settings().current_version@),
    {
        crate::version::is_newer(latest, self.config.current_version.as_str())
    }

    /// What comes of the releases of a feed.
    pub fn select_release(
        &self,
        host: &Host,
        target: &str,
        candidates: Vec<ParsedRelease>,
    ) -> (r: SearchStep)
        ensures
            r@ == selection(self.settings(), host.is_windows(), target@, candidates.deep_view()),
    {
        crate::select::select_release(&self.config, host, target, candidates)
    }

    /// The names of the assets of release `version` for `target`. `None` where they are for the
    /// host program to give.
    pub fn asset_names_for(&self, host: &Host, version: &str, target: &str) -> (r: Option<
        AssetNames,
    >)
        ensures
            r.deep_view() == (match self.settings().asset_strategy {
                AssetStrategy::TendrilStyle => Some(
                    self.settings().tendril_names(host.is_windows(), version@, target@),
                ),
                AssetStrategy::Custom => None,
            }),
    {
        self.config.asset_names_for(host, version, target)
    }

    /// Where the asset `asset_name` of a release is downloaded from, and the `Accept` header that
    /// goes with it.
    pub fn asset_download_request(
        &self,
        latest: &LatestReleaseInfo,
        asset_name: &str,
        authenticated: bool,
    ) -> (r: (String, Option<String>))
        ensures
            (r.0@, r.1.deep_view()) == asset_source(
                self.settings(),
                latest@,
                asset_name@,
                authenticated,
            ),
    {
        crate::stage::asset_download_request(&self.config, latest, asset_name, authenticated)
    }
}

} // verus!
