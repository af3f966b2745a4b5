use std::path::PathBuf;
use std::time::Duration;

use updatable_cli::config::{gh_auth_arguments, token_from_gh};
use updatable_cli::host::{release_target_for, windows_deferred_promotion_note};
use updatable_cli::{
    release_target, AssetStrategy, Family, GhOutput, Host, InstallPath, Updater, UpdaterConfig,
};

fn host(family: Family, os: &str, arch: &str) -> Host {
    Host {
        family,
        os: os.to_string(),
        arch: arch.to_string(),
        home: Some(PathBuf::from("/home/user")),
        local_app_data: Some(PathBuf::from("/local")),
        user_profile: Some(PathBuf::from("/profile")),
    }
}

fn example() -> UpdaterConfig {
    UpdaterConfig::new("toolx", "0.1.0", "octocat/example")
}

fn parts(path: &InstallPath) -> (String, Vec<String>) {
    (path.base.display().to_string(), path.parts.clone())
}

#[test]
fn release_target_returns_canonical_string() {
    let value = release_target(&host(Family::Unix, "linux", "x86_64")).unwrap();
    assert!(value.contains('-'));
}

#[test]
fn release_target_uses_canonical_windows_suffix() {
    assert_eq!(
        release_target_for("windows", "x86_64").unwrap(),
        "x86_64-windows"
    );
    let error = release_target_for("windows", "aarch64").unwrap_err();
    assert!(error.full_message().contains("x86_64-windows"));
}

#[test]
fn release_targets_of_the_supported_platforms() {
    assert_eq!(release_target_for("linux", "x86_64").unwrap(), "x86_64-linux");
    assert_eq!(
        release_target_for("linux", "aarch64").unwrap(),
        "aarch64-linux"
    );
    assert_eq!(
        release_target_for("macos", "arm64").unwrap(),
        "aarch64-darwin"
    );
    assert_eq!(
        release_target_for("macos", "x86_64").unwrap(),
        "x86_64-darwin"
    );
    assert_eq!(
        release_target_for("haiku", "riscv64").unwrap_err().message,
        "unsupported updater OS haiku"
    );
    assert_eq!(
        release_target_for("linux", "s390x").unwrap_err().message,
        "unsupported updater arch s390x"
    );
    assert_eq!(
        release_target_for("windows", "arm64").unwrap_err().message,
        "unsupported Windows updater arch aarch64; canonical assets use x86_64-windows"
    );
}

#[test]
fn resolved_token_prefers_explicit_token_and_trims_it() {
    let config = UpdaterConfig::new("toolx", "0.1.0", "octocat/example")
        .with_github_token("  tok-123  ");
    assert_eq!(config.resolved_token(None).as_deref(), Some("tok-123"));

    let bare = UpdaterConfig::new("toolx", "0.1.0", "octocat/example");
    assert_eq!(bare.resolved_token(None), None);

    let blank = UpdaterConfig::new("toolx", "0.1.0", "octocat/example").with_github_token("   ");
    assert_eq!(blank.resolved_token(None), None);
}

#[test]
fn the_token_of_gh_counts_only_where_it_was_asked_for() {
    let gh = || Some("from-gh".to_string());
    assert_eq!(example().resolved_token(gh()), None);
    assert_eq!(
        example().with_gh_token_fallback(true).resolved_token(gh()),
        gh()
    );
    assert_eq!(
        example().with_gh_account("octocat").resolved_token(gh()),
        gh()
    );
    assert_eq!(
        example()
            .with_gh_account("octocat")
            .with_github_token("own")
            .resolved_token(gh())
            .as_deref(),
        Some("own")
    );
    assert_eq!(
        example()
            .with_gh_account("octocat")
            .with_github_token("\u{2003}\n")
            .resolved_token(gh()),
        gh()
    );
}

#[test]
fn the_output_of_gh_is_trimmed_and_must_be_text() {
    let token = |success: bool, stdout: &[u8]| {
        token_from_gh(Some(GhOutput {
            success,
            stdout: stdout.to_vec(),
        }))
    };
    assert_eq!(token(true, b" tok\r\n").as_deref(), Some("tok"));
    assert_eq!(
        token(true, "\u{a0}t\u{f6}k".as_bytes()).as_deref(),
        Some("t\u{f6}k")
    );
    assert_eq!(token(false, b"tok"), None);
    assert_eq!(token(true, b" \n"), None);
    assert_eq!(token(true, &[0xff]), None);
    assert_eq!(token_from_gh(None), None);
}

#[test]
fn gh_is_asked_for_an_account_only_by_name() {
    assert_eq!(gh_auth_arguments(&None), vec!["auth", "token"]);
    assert_eq!(
        gh_auth_arguments(&Some(String::new())),
        vec!["auth", "token"]
    );
    assert_eq!(
        gh_auth_arguments(&Some("octocat".to_string())),
        vec!["auth", "token", "--user", "octocat"]
    );
}

#[test]
fn windows_default_install_dir_is_local_app_data_programs_tool() {
    let windows = host(Family::Windows, "windows", "x86_64");
    let dir = example().install_dir(&windows).unwrap();
    assert_eq!(
        parts(&dir),
        (
            "/local".to_string(),
            vec!["Programs".to_string(), "toolx".to_string()]
        )
    );

    let mut without = host(Family::Windows, "windows", "x86_64");
    without.local_app_data = None;
    let dir = example().install_dir(&without).unwrap();
    assert_eq!(
        parts(&dir),
        (
            "/profile".to_string(),
            vec![
                "AppData".to_string(),
                "Local".to_string(),
                "Programs".to_string(),
                "toolx".to_string()
            ]
        )
    );

    without.user_profile = None;
    assert_eq!(
        example().install_dir(&without).unwrap_err().message,
        "LOCALAPPDATA and USERPROFILE are unset; cannot resolve default Windows install dir"
    );
}

#[test]
fn unix_install_paths_are_in_the_home_directory() {
    let unix = host(Family::Unix, "linux", "x86_64");
    assert_eq!(
        parts(&example().install_dir(&unix).unwrap()),
        (
            "/home/user".to_string(),
            vec![".local".to_string(), "bin".to_string()]
        )
    );
    assert_eq!(
        parts(&example().next_binary_path(&unix).unwrap()).1,
        vec![".local", "bin", "toolx_next"]
    );
    assert_eq!(
        parts(&example().installed_binary_path(&unix).unwrap()).1,
        vec![".local", "bin", "toolx"]
    );
    let mut config = example();
    config.install_dir = Some(PathBuf::from("/opt/bin"));
    assert_eq!(
        parts(&config.next_binary_path(&unix).unwrap()),
        ("/opt/bin".to_string(), vec!["toolx_next".to_string()])
    );
}

#[test]
fn defaults_and_overrides_of_the_configuration() {
    let mut config = example();
    assert_eq!(config.user_agent(), "toolx-updater/0.1.0");
    assert_eq!(config.api_base(), "https://api.github.com");
    assert_eq!(config.download_base(), "https://github.com");
    assert_eq!(config.timeout(), Duration::from_secs(60));
    assert_eq!(config.asset_strategy, AssetStrategy::TendrilStyle);
    config.user_agent = Some("agent/2".to_string());
    config.api_base = Some("https://api.ghe".to_string());
    config.download_base = Some("https://ghe".to_string());
    config.http_timeout = Some(Duration::from_millis(1500));
    assert_eq!(config.user_agent(), "agent/2");
    assert_eq!(config.api_base(), "https://api.ghe");
    assert_eq!(config.download_base(), "https://ghe");
    assert_eq!(config.timeout(), Duration::from_millis(1500));
    let updater = Updater::new(config);
    assert_eq!(updater.config().tool_name, "toolx");
}

#[test]
fn assets_are_named_after_tool_version_and_target() {
    let windows = host(Family::Windows, "windows", "x86_64");
    let updater = Updater::new(example());
    let names = updater
        .asset_names_for(&windows, "1.2.3", "x86_64-windows")
        .unwrap();
    assert_eq!(names.archive, "toolx-1.2.3-x86_64-windows.tar.gz");
    assert_eq!(names.checksum, "toolx-1.2.3-x86_64-windows.sha256");
    assert_eq!(
        names.binary_in_archive,
        "toolx-1.2.3-x86_64-windows/toolx.exe"
    );
    let mut config = example();
    config.asset_strategy = AssetStrategy::Custom;
    assert!(config
        .asset_names_for(&windows, "1.2.3", "x86_64-windows")
        .is_none());
}

#[test]
fn the_deferred_note_names_both_files() {
    assert_eq!(
        windows_deferred_promotion_note("a_next.exe", "a.exe"),
        "update staged at a_next.exe; Windows cannot safely replace an existing/running executable; close all tool processes, then replace a.exe with the staged file (or use the host installer/bootstrapper)"
    );
}

#[test]
fn what_is_shown_of_a_configuration_holds_no_token() {
    let mut config = example()
        .with_github_token("secret-xyz")
        .with_gh_account("octo-secret");
    assert_eq!(
        config.debug_text(),
        r#"UpdaterConfig { tool_name: "toolx", current_version: "0.1.0", repo_slug: "octocat/example", asset_strategy: TendrilStyle, install_dir: None }"#
    );
    config.tool_name = "a\"b\n".to_string();
    config.asset_strategy = AssetStrategy::Custom;
    config.install_dir = Some(PathBuf::from("/opt/my tools"));
    config.api_base = Some("https://elsewhere".to_string());
    assert_eq!(
        config.debug_text(),
        r#"UpdaterConfig { tool_name: "a\"b\n", current_version: "0.1.0", repo_slug: "octocat/example", asset_strategy: Custom(<fn>), install_dir: Some("/opt/my tools") }"#
    );
}
