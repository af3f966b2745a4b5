//! How a tool updates itself: the configuration that the host program provides.

use crate::failure::{plain, seen, Failure, Messages};
use crate::host::{
    executable_file_name, executable_name, staged_executable_file_name, staged_name, Host,
    InstallPath, Locations, LocationsView, PathView,
};
use crate::outside::{
    debug_path, debug_path_of, debug_text, debug_text_of, text_from_utf8, whole_seconds,
};
use crate::text::{trim, trimmed};
use std::path::PathBuf;
use std::time::Duration;
use vstd::prelude::*;
use vstd::string::*;
use vstd::utf8::*;

verus! {

/// How many releases are looked at, newest first, where the configuration does not say.
pub const DEFAULT_RELEASE_LOOKBACK: usize = 10;

/// How long a request may take, in seconds, where the configuration does not say.
pub const DEFAULT_TIMEOUT_SECONDS: u64 = 60;

/// How the assets of a release are named.
#[derive(Debug, Clone, Copy, PartialEq, Eq, Structural)]
pub enum AssetStrategy {
    /// `<tool>-<version>-<target>.tar.gz` and `.sha256`, with the binary at
    /// `<tool>-<version>-<target>/<tool>` inside.
    TendrilStyle,
    /// The host program names them: it is asked for the names of each release that is looked at.
    Custom,
}

impl AssetStrategy {
    /// How the strategy is shown to those who debug.
    pub open spec fn shown(self) -> Seq<char> {
        match self {
            AssetStrategy::TendrilStyle => "TendrilStyle"@,
            AssetStrategy::Custom => "Custom(<fn>)"@,
        }
    }

    /// How the strategy is shown to those who debug.
    pub fn debug_text(&self) -> (r: &'static str)
        ensures
            r@ == self.shown(),
    {
        match self {
            AssetStrategy::TendrilStyle => "TendrilStyle",
            AssetStrategy::Custom => "Custom(<fn>)",
        }
    }
}

impl Default for AssetStrategy {
    fn default() -> (r: Self)
        ensures
            r == AssetStrategy::TendrilStyle,
    {
        AssetStrategy::TendrilStyle
    }
}

/// The names of the assets of one release for one platform.
#[derive(Debug, Clone)]
pub struct AssetNames {
    /// File name of the release archive.
    pub archive: String,
    /// File name of the checksum of the archive.
    pub checksum: String,
    /// Path of the binary inside the unpacked archive.
    pub binary_in_archive: String,
}

/// What an [`AssetNames`] holds.
pub struct NamesView {
    pub archive: Seq<char>,
    pub checksum: Seq<char>,
    pub binary_in_archive: Seq<char>,
}

impl View for AssetNames {
    type V = NamesView;

    open spec fn view(&self) -> NamesView {
        NamesView {
            archive: self.archive@,
            checksum: self.checksum@,
            binary_in_archive: self.binary_in_archive@,
        }
    }
}

impl DeepView for AssetNames {
    type V = NamesView;

    open spec fn deep_view(&self) -> NamesView {
        self@
    }
}

/// The configuration of a tool that updates itself from GitHub releases.
#[derive(Clone)]
pub struct UpdaterConfig {
    /// Name of the tool on disk.
    pub tool_name: String,
    /// Version of the running binary.
    pub current_version: String,
    /// GitHub `owner/repo` that publishes the releases.
    pub repo_slug: String,
    /// How release assets are named.
    pub asset_strategy: AssetStrategy,
    /// Where the tool is installed, if not in the place that the platform provides.
    pub install_dir: Option<PathBuf>,
    /// Base of the GitHub API, if not `https://api.github.com`.
    pub api_base: Option<String>,
    /// Base of release downloads, if not `https://github.com`.
    pub download_base: Option<String>,
    /// The `User-Agent` header, if not `<tool>-updater/<current version>`.
    pub user_agent: Option<String>,
    /// Token for private repositories and higher rate limits. It takes precedence over what `gh`
    /// would give.
    pub github_token: Option<String>,
    /// Account whose token `gh` is asked for where there is no `github_token`.
    pub gh_account: Option<String>,
    /// Whether `gh` is asked for a token where there is no `github_token`.
    pub gh_token_fallback: bool,
    /// How long a request may take, if not a minute.
    pub http_timeout: Option<Duration>,
    /// How many releases are looked at, newest first.
    pub release_lookback: Option<usize>,
    /// Whether a release that others were passed over for counts as newer where nothing tells
    /// that it is not older.
    pub allow_unprovable_fallback: bool,
}

/// Where the token for GitHub requests comes from.
#[derive(Clone)]
pub enum TokenSource {
    /// The configured token.
    Explicit(String),
    /// The output of `gh`, run with these arguments.
    Gh(Vec<String>),
    /// Nowhere: requests are anonymous.
    Anonymous,
}

/// What a [`TokenSource`] holds.
pub enum TokenSourceView {
    Explicit(Seq<char>),
    Gh(Seq<Seq<char>>),
    Anonymous,
}

impl View for TokenSource {
    type V = TokenSourceView;

    open spec fn view(&self) -> TokenSourceView {
        match self {
            TokenSource::Explicit(token) => TokenSourceView::Explicit(token@),
            TokenSource::Gh(arguments) => TokenSourceView::Gh(arguments.deep_view()),
            TokenSource::Anonymous => TokenSourceView::Anonymous,
        }
    }
}

/// What `gh` gave when it was run.
#[derive(Clone)]
pub struct GhOutput {
    /// Whether it reported success.
    pub success: bool,
    /// What it wrote to its standard output.
    pub stdout: Vec<u8>,
}

/// The arguments that make `gh` print the token of `account`, or of the active account.
pub open spec fn gh_arguments(account: Option<Seq<char>>) -> Seq<Seq<char>> {
    match account {
        Some(name) => if name.len() > 0 {
            seq!["auth"@, "token"@, "--user"@, name]
        } else {
            seq!["auth"@, "token"@]
        },
        None => seq!["auth"@, "token"@],
    }
}

/// The token in what `gh` gave: none where it could not be run, failed, or printed nothing but
/// white space or what is not UTF-8.
pub open spec fn gh_token(output: Option<GhOutput>) -> Option<Seq<char>> {
    match output {
        Some(given) => if given.success && valid_utf8(given.stdout@) && trimmed(
            decode_utf8(given.stdout@),
        ).len() > 0 {
            Some(trimmed(decode_utf8(given.stdout@)))
        } else {
            None
        },
        None => None,
    }
}

/// The token in what `gh` gave, without white space around it. `None` stands for a `gh` that
/// could not be run.
pub fn token_from_gh(output: Option<GhOutput>) -> (r: Option<String>)
    ensures
        r.deep_view() == gh_token(output),
{
    match output {
        None => None,
        Some(given) => {
            if !given.success {
                return None;
            }
            match text_from_utf8(given.stdout) {
                Ok(text) => {
                    let token: String = trim(text.as_str());
                    if token.as_str().is_empty() {
                        None
                    } else {
                        Some(token)
                    }
                },
                Err(_) => None,
            }
        },
    }
}

/// The arguments that make `gh` print the token of `account`, or of the active account where the
/// name is missing or empty.
pub fn gh_auth_arguments(account: &Option<String>) -> (r: Vec<String>)
    ensures
        r.deep_view() == gh_arguments(account.deep_view()),
{
    let mut arguments: Vec<String> = Vec::new();
    arguments.push("auth".to_owned());
    arguments.push("token".to_owned());
    if let Some(name) = account {
        if !name.as_str().is_empty() {
            arguments.push("--user".to_owned());
            arguments.push(name.clone());
        }
    }
    proof {
        assert(arguments.deep_view() =~= gh_arguments(account.deep_view()));
    }
    arguments
}

impl UpdaterConfig {
    /// Where the token for GitHub requests comes from: a configured token that is more than white
    /// space; else `gh`, if an account is set or the fallback is on; else nowhere.
    pub open spec fn token_origin(self) -> TokenSourceView {
        let explicit = match self.github_token {
            Some(token) => trimmed(token@),
            None => seq![],
        };
        if explicit.len() > 0 {
            TokenSourceView::Explicit(explicit)
        } else if self.gh_account is Some || self.gh_token_fallback {
            TokenSourceView::Gh(gh_arguments(self.gh_account.deep_view()))
        } else {
            TokenSourceView::Anonymous
        }
    }

    /// The token for GitHub requests, given the one that `gh` would print.
    pub open spec fn token_given(self, gh: Option<Seq<char>>) -> Option<Seq<char>> {
        match self.token_origin() {
            TokenSourceView::Explicit(token) => Some(token),
            TokenSourceView::Gh(_) => gh,
            TokenSourceView::Anonymous => None,
        }
    }

    /// The directory that the tool is installed in on `host`.
    pub open spec fn dir_on(self, host: Host) -> Result<PathView, Messages> {
        match self.install_dir {
            Some(dir) => Ok(PathView { base: dir, parts: seq![] }),
            None => if host.is_windows() {
                match (host.local_app_data, host.user_profile) {
                    (Some(data), _) => Ok(
                        PathView { base: data, parts: seq!["Programs"@, self.tool_name@] },
                    ),
                    (None, Some(profile)) => Ok(
                        PathView {
                            base: profile,
                            parts: seq!["AppData"@, "Local"@, "Programs"@, self.tool_name@],
                        },
                    ),
                    (None, None) => Err(
                        plain(
                            "LOCALAPPDATA and USERPROFILE are unset; cannot resolve default Windows install dir"@,
                        ),
                    ),
                }
            } else {
                match host.home {
                    Some(home) => Ok(PathView { base: home, parts: seq![".local"@, "bin"@] }),
                    None => Err(plain("HOME is unset; cannot resolve default install dir"@)),
                }
            },
        }
    }

    /// The file `name` in the directory that the tool is installed in on `host`.
    pub open spec fn file_on(self, host: Host, name: Seq<char>) -> Result<PathView, Messages> {
        match self.dir_on(host) {
            Ok(dir) => Ok(dir.joined_with(name)),
            Err(failure) => Err(failure),
        }
    }

    /// The installed binary on `host`.
    pub open spec fn installed_on(self, host: Host) -> Result<PathView, Messages> {
        self.file_on(host, executable_name(host.is_windows(), self.tool_name@))
    }

    /// The staged binary on `host`.
    pub open spec fn next_on(self, host: Host) -> Result<PathView, Messages> {
        self.file_on(host, staged_name(host.is_windows(), self.tool_name@))
    }

    /// The paths that an update is about on `host`.
    pub open spec fn locations_on(self, host: Host) -> Result<LocationsView, Messages> {
        match self.dir_on(host) {
            Ok(dir) => Ok(
                LocationsView {
                    install_dir: dir,
                    installed: self.installed_on(host)->Ok_0,
                    next: self.next_on(host)->Ok_0,
                },
            ),
            Err(failure) => Err(failure),
        }
    }

    /// The `User-Agent` header of every request.
    pub open spec fn agent_text(self) -> Seq<char> {
        match self.user_agent {
            Some(agent) => agent@,
            None => self.tool_name@ + "-updater/"@ + self.current_version@,
        }
    }

    /// The base of the GitHub API.
    pub open spec fn api_text(self) -> Seq<char> {
        match self.api_base {
            Some(base) => base@,
            None => "https://api.github.com"@,
        }
    }

    /// The base of release downloads.
    pub open spec fn download_text(self) -> Seq<char> {
        match self.download_base {
            Some(base) => base@,
            None => "https://github.com"@,
        }
    }

    /// How long a request may take: what is configured, else a minute.
    pub open spec fn time_limit(self) -> Duration {
        match self.http_timeout {
            Some(limit) => limit,
            None => whole_seconds(DEFAULT_TIMEOUT_SECONDS),
        }
    }

    /// How many releases are looked at: what is configured, held to the range from 1 to 100.
    pub open spec fn lookback(self) -> usize {
        let wanted = match self.release_lookback {
            Some(n) => n,
            None => DEFAULT_RELEASE_LOOKBACK,
        };
        if wanted < 1 {
            1
        } else if wanted > 100 {
            100
        } else {
            wanted
        }
    }

    /// The configuration for the tool `tool_name` at `current_version`, released by `repo_slug`,
    /// with all else left at its default.
    pub fn new(tool_name: &str, current_version: &str, repo_slug: &str) -> (r: Self)
        ensures
            r.tool_name@ == tool_name@,
            r.current_version@ == current_version@,
            r.repo_slug@ == repo_slug@,
            r.asset_strategy == AssetStrategy::TendrilStyle,
            r.install_dir is None,
            r.api_base is None,
            r.download_base is None,
            r.user_agent is None,
            r.github_token is None,
            r.gh_account is None,
            !r.gh_token_fallback,
            r.http_timeout is None,
            r.release_lookback is None,
            !r.allow_unprovable_fallback,
    {
        UpdaterConfig {
            tool_name: tool_name.to_owned(),
            current_version: current_version.to_owned(),
            repo_slug: repo_slug.to_owned(),
            asset_strategy: AssetStrategy::default(),
            install_dir: None,
            api_base: None,
            download_base: None,
            user_agent: None,
            github_token: None,
            gh_account: None,
            gh_token_fallback: false,
            http_timeout: None,
            release_lookback: None,
            allow_unprovable_fallback: false,
        }
    }

    /// How the configuration is shown to those who debug: without tokens and accounts.
    pub open spec fn shown(self) -> Seq<char> {
        "UpdaterConfig { tool_name: "@ + debug_text_of(self.tool_name@) + ", current_version: "@
            + debug_text_of(self.current_version@) + ", repo_slug: "@ + debug_text_of(
            self.repo_slug@,
        ) + ", asset_strategy: "@ + self.asset_strategy.shown() + ", install_dir: "@ + (
        match self.install_dir {
            Some(dir) => "Some("@ + debug_path_of(dir) + ")"@,
            None => "None"@,
        }) + " }"@
    }

    /// How the configuration is shown to those who debug: without tokens and accounts.
    pub fn debug_text(&self) -> (r: String)
        ensures
            r@ == self.shown(),
    {
        let dir: String = match &self.install_dir {
            Some(dir) => "Some(".to_owned().concat(debug_path(dir).as_str()).concat(")"),
            None => "None".to_owned(),
        };
        "UpdaterConfig { tool_name: ".to_owned().concat(
            debug_text(self.tool_name.as_str()).as_str(),
        ).concat(", current_version: ").concat(
            debug_text(self.current_version.as_str()).as_str(),
        ).concat(", repo_slug: ").concat(debug_text(self.repo_slug.as_str()).as_str()).concat(
            ", asset_strategy: ",
        ).concat(self.asset_strategy.debug_text()).concat(", install_dir: ").concat(
            dir.as_str(),
        ).concat(" }")
    }

    /// How many releases are looked at, from 1 to 100.
    pub fn release_lookback(&self) -> (r: usize)
        ensures
            r == self.lookback(),
            1 <= r <= 100,
    {
        let wanted: usize = match self.release_lookback {
            Some(n) => n,
            None => DEFAULT_RELEASE_LOOKBACK,
        };
        if wanted < 1 {
            1
        } else if wanted > 100 {
            100
        } else {
            wanted
        }
    }

    /// This configuration with another number of releases to look at.
    pub fn with_release_lookback(self, releases: usize) -> (r: Self)
        ensures
            r == (UpdaterConfig { release_lookback: Some(releases), ..self }),
    {
        UpdaterConfig { release_lookback: Some(releases), ..self }
    }

    /// The directory that the tool is installed in: the configured one, else `~/.local/bin`, or
    /// on Windows `Programs\<tool>` in the local application data.
    pub fn install_dir(&self, host: &Host) -> (r: Result<InstallPath, Failure>)
        ensures
            seen(r) == self.dir_on(*host),
    {
        if let Some(dir) = &self.install_dir {
            return Ok(InstallPath::new(dir.clone()));
        }
        if host.windows() {
            let local: InstallPath = match (&host.local_app_data, &host.user_profile) {
                (Some(data), _) => InstallPath::new(data.clone()),
                (None, Some(profile)) => InstallPath::new(profile.clone()).join("AppData").join(
                    "Local",
                ),
                (None, None) => {
                    return Err(
                        Failure::new(
                            "LOCALAPPDATA and USERPROFILE are unset; cannot resolve default Windows install dir".to_owned(),
                        ),
                    );
                },
            };
            let dir: InstallPath = local.join("Programs").join(self.tool_name.as_str());
            proof {
                let parts = self.dir_on(*host)->Ok_0.parts;
                assert(dir@.parts =~= parts);
            }
            Ok(dir)
        } else {
            match &host.home {
                Some(home) => {
                    let dir: InstallPath = InstallPath::new(home.clone()).join(".local").join("bin");
                    proof {
                        assert(dir@.parts =~= seq![".local"@, "bin"@]);
                    }
                    Ok(dir)
                },
                None => Err(
                    Failure::new("HOME is unset; cannot resolve default install dir".to_owned()),
                ),
            }
        }
    }

    /// The staged binary: `<tool>_next` in the install directory, with `.exe` on Windows.
    pub fn next_binary_path(&self, host: &Host) -> (r: Result<InstallPath, Failure>)
        ensures
            seen(r) == self.next_on(*host),
    {
        match self.install_dir(host) {
            Ok(dir) => {
                let name: String = staged_executable_file_name(host, self.tool_name.as_str());
                Ok(dir.join(name.as_str()))
            },
            Err(failure) => Err(failure),
        }
    }

    /// The installed binary: `<tool>` in the install directory, with `.exe` on Windows.
    pub fn installed_binary_path(&self, host: &Host) -> (r: Result<InstallPath, Failure>)
        ensures
            seen(r) == self.installed_on(*host),
    {
        match self.install_dir(host) {
            Ok(dir) => {
                let name: String = executable_file_name(host, self.tool_name.as_str());
                Ok(dir.join(name.as_str()))
            },
            Err(failure) => Err(failure),
        }
    }

    /// The paths that an update is about.
    pub fn locations(&self, host: &Host) -> (r: Result<Locations, Failure>)
        ensures
            seen(r) == self.locations_on(*host),
    {
        match (
            self.install_dir(host),
            self.installed_binary_path(host),
            self.next_binary_path(host),
        ) {
            (Ok(install_dir), Ok(installed), Ok(next)) => Ok(
                Locations { install_dir, installed, next },
            ),
            (Err(failure), _, _) => Err(failure),
            (_, Err(failure), _) => Err(failure),
            (_, _, Err(failure)) => Err(failure),
        }
    }

    /// The `User-Agent` header of every request.
    pub fn user_agent(&self) -> (r: String)
        ensures
            r@ == self.agent_text(),
    {
        match &self.user_agent {
            Some(agent) => agent.clone(),
            None => self.tool_name.clone().concat("-updater/").concat(
                self.current_version.as_str(),
            ),
        }
    }

    /// The base of the GitHub API.
    pub fn api_base(&self) -> (r: String)
        ensures
            r@ == self.api_text(),
    {
        match &self.api_base {
            Some(base) => base.clone(),
            None => "https://api.github.com".to_owned(),
        }
    }

    /// The base of release downloads.
    pub fn download_base(&self) -> (r: String)
        ensures
            r@ == self.download_text(),
    {
        match &self.download_base {
            Some(base) => base.clone(),
            None => "https://github.com".to_owned(),
        }
    }

    /// How long a request may take: what is configured, else a minute.
    pub fn timeout(&self) -> (r: Duration)
        ensures
            r == self.time_limit(),
    {
        match self.http_timeout {
            Some(limit) => limit,
            None => Duration::from_secs(DEFAULT_TIMEOUT_SECONDS),
        }
    }

    /// This configuration with an explicit GitHub token.
    pub fn with_github_token(self, token: &str) -> (r: Self)
        ensures
            r == (UpdaterConfig { github_token: r.github_token, ..self }),
            r.github_token.deep_view() == Some(token@),
    {
        UpdaterConfig { github_token: Some(token.to_owned()), ..self }
    }

    /// This configuration with a `gh` account to take the token from where none is set.
    pub fn with_gh_account(self, account: &str) -> (r: Self)
        ensures
            r == (UpdaterConfig { gh_account: r.gh_account, ..self }),
            r.gh_account.deep_view() == Some(account@),
    {
        UpdaterConfig { gh_account: Some(account.to_owned()), ..self }
    }

    /// This configuration with `gh` asked for a token where none is set, or not.
    pub fn with_gh_token_fallback(self, enabled: bool) -> (r: Self)
        ensures
            r == (UpdaterConfig { gh_token_fallback: enabled, ..self }),
    {
        UpdaterConfig { gh_token_fallback: enabled, ..self }
    }

    /// This configuration with releases allowed that may be older than the running version, or
    /// not.
    pub fn with_allow_unprovable_fallback(self, allowed: bool) -> (r: Self)
        ensures
            r == (UpdaterConfig { allow_unprovable_fallback: allowed, ..self }),
    {
        UpdaterConfig { allow_unprovable_fallback: allowed, ..self }
    }

    /// Where the token for GitHub requests comes from.
    pub fn token_source(&self) -> (r: TokenSource)
        ensures
            r@ == self.token_origin(),
    {
        if let Some(token) = &self.github_token {
            let explicit: String = trim(token.as_str());
            if !explicit.as_str().is_empty() {
                return TokenSource::Explicit(explicit);
            }
        }
        if self.gh_account.is_some() || self.gh_token_fallback {
            TokenSource::Gh(gh_auth_arguments(&self.gh_account))
        } else {
            TokenSource::Anonymous
        }
    }

    /// The token for GitHub requests, given the one that `gh` printed, if it was asked.
    pub fn resolved_token(&self, gh: Option<String>) -> (r: Option<String>)
        ensures
            r.deep_view() == self.token_given(gh.deep_view()),
    {
        match self.token_source() {
            TokenSource::Explicit(token) => Some(token),
            TokenSource::Gh(_) => gh,
            TokenSource::Anonymous => None,
        }
    }

    /// The names of the assets of release `version` for `target`, where the strategy fixes them.
    pub open spec fn tendril_names(
        self,
        windows: bool,
        version: Seq<char>,
        target: Seq<char>,
    ) -> NamesView {
        let stem = self.tool_name@ + "-"@ + version + "-"@ + target;
        NamesView {
            archive: stem + ".tar.gz"@,
            checksum: stem + ".sha256"@,
            binary_in_archive: stem + "/"@ + executable_name(windows, self.tool_name@),
        }
    }

    /// The names of the assets of release `version` for `target`. `None` where they are for the
    /// host program to give.
    pub fn asset_names_for(&self, host: &Host, version: &str, target: &str) -> (r: Option<
        AssetNames,
    >)
        ensures
            r.deep_view() == (match self.asset_strategy {
                AssetStrategy::TendrilStyle => Some(
                    self.tendril_names(host.is_windows(), version@, target@),
                ),
                AssetStrategy::Custom => None,
            }),
    {
        match self.asset_strategy {
            AssetStrategy::TendrilStyle => {
                let stem: String = self.tool_name.clone().concat("-").concat(version).concat(
                    "-",
                ).concat(target);
                let binary: String = executable_file_name(host, self.tool_name.as_str());
                Some(
                    AssetNames {
                        archive: stem.clone().concat(".tar.gz"),
                        checksum: stem.clone().concat(".sha256"),
                        binary_in_archive: stem.concat("/").concat(binary.as_str()),
                    },
                )
            },
            AssetStrategy::Custom => None,
        }
    }
}

/// A configuration that names no token, no account and no fallback never has `gh` run, and its
/// requests are anonymous.
pub proof fn law_gh_is_opt_in(config: UpdaterConfig, gh: Option<Seq<char>>)
    requires
        config.gh_account is None,
        !config.gh_token_fallback,
    ensures
        !(config.token_origin() is Gh),
        config.github_token is None ==> config.token_given(gh) is None,
{
}

/// A configured token that is more than white space is used, without the white space around it,
/// whatever `gh` would print.
pub proof fn law_explicit_token_wins(
    config: UpdaterConfig,
    gh: Option<Seq<char>>,
)
    requires
        config.github_token matches Some(token) && trimmed(token@).len() > 0,
    ensures
        config.token_given(gh) == Some(trimmed(config.github_token->0@)),
        !(config.token_origin() is Gh),
{
}

/// What is shown to those who debug depends on the tool, its version, its repository, the naming of
/// its assets and the install directory, and on nothing else: no token or account is in it.
pub proof fn law_debug_text_keeps_secrets(a: UpdaterConfig, b: UpdaterConfig)
    requires
        a.tool_name@ == b.tool_name@,
        a.current_version@ == b.current_version@,
        a.repo_slug@ == b.repo_slug@,
        a.asset_strategy == b.asset_strategy,
        a.install_dir == b.install_dir,
    ensures
        a.shown() == b.shown(),
{
}

} // verus!
