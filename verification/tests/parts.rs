use sha2::{Digest, Sha256};
use updatable_cli::checksum::{check_digest, verify_sha256};
use updatable_cli::config::UpdaterConfig;
use updatable_cli::http::{resolve_location, url_host, Download, DownloadStep};
use updatable_cli::release::{parse_release, parse_releases};
use updatable_cli::select::{downgrade_risk_note, platform_fallback_note, sort_newest_first};
use updatable_cli::text::{first_word, trim, white_space};
use updatable_cli::version::{newer_given, Precedence};
use updatable_cli::{
    EmptyArgs, Failure, Family, Host, HttpReply, LatestReleaseInfo, ReleaseAssetInfo,
    SkippedRelease, StartupAction, StartupEvent, StartupFlow, StartupStep, UpdateError, UpdateTool,
    Updater,
};

fn digest(bytes: &[u8]) -> String {
    let mut hasher = Sha256::new();
    hasher.update(bytes);
    hex::encode(hasher.finalize())
}

#[test]
fn sha256_verify_accepts_matching_digest() {
    let bytes = b"hello world";
    let digest = digest(bytes);
    verify_sha256(bytes, &format!("{digest}  asset.tar.gz"), "asset.tar.gz").unwrap();
}

#[test]
fn sha256_verify_rejects_bad_digest() {
    let err = verify_sha256(b"hi", "0000  asset.tar.gz", "asset.tar.gz").unwrap_err();
    assert!(err.full_message().contains("checksum mismatch"));
}

#[test]
fn sha256_of_known_bytes() {
    let known = "b94d27b9934d3e08a52e52d7da7dabfac484efe37a5380ee9088f7ace2efcde9";
    verify_sha256(b"hello world", known, "a").unwrap();
    verify_sha256(b"hello world", &format!("\n {}\n", known.to_uppercase()), "a").unwrap();
    assert_eq!(
        verify_sha256(b"hello world", "ABC def", "a")
            .unwrap_err()
            .message,
        format!("checksum mismatch for a: expected abc, got {known}")
    );
    assert_eq!(
        verify_sha256(b"hello world", " \t", "a").unwrap_err().message,
        "checksum file for a was empty"
    );
}

#[test]
fn only_the_first_word_of_a_checksum_file_counts() {
    check_digest("00ff", "00FF *file\nother", "a").unwrap();
    check_digest("00ff", "\u{3000}00ff", "a").unwrap();
    assert!(check_digest("00ff", "file 00ff", "a").is_err());
    // A capital that is no ASCII letter is lowered too, and stays something else.
    assert_eq!(
        check_digest("00ff", "00F\u{c4}", "a").unwrap_err().message,
        "checksum mismatch for a: expected 00f\u{e4}, got 00ff"
    );
}

#[test]
fn white_space_is_what_unicode_says() {
    for code in 0..=0x10ffffu32 {
        if let Some(c) = char::from_u32(code) {
            assert_eq!(white_space(c), c.is_whitespace(), "at {code:x}");
        }
    }
    assert_eq!(trim("\u{2028} a b \t"), "a b");
    assert_eq!(trim(" \n"), "");
    assert_eq!(first_word("  one two").as_deref(), Some("one"));
    assert_eq!(first_word("\u{85}"), None);
}

#[test]
fn is_newer_handles_semver_ordering_and_non_semver_fallback() {
    let updater_at =
        |current: &str| Updater::new(UpdaterConfig::new("toolx", current, "octocat/example"));
    let u = updater_at("1.2.3");
    assert!(u.is_newer("1.2.4"));
    assert!(u.is_newer("1.3.0"));
    assert!(u.is_newer("2.0.0"));
    assert!(!u.is_newer("1.2.3"));
    assert!(!u.is_newer("1.2.2"));
    assert!(!u.is_newer("1.1.9"));
    assert!(updater_at("1.0.0-rc.1").is_newer("1.0.0"));
    assert!(!updater_at("1.0.0").is_newer("1.0.0-rc.1"));

    let n = updater_at("0.1.0");
    assert!(n.is_newer("nightly"));
    assert!(!updater_at("nightly").is_newer("nightly"));
    assert!(updater_at("nightly").is_newer("rolling"));
}

#[test]
fn newer_follows_the_precedence_or_the_text() {
    assert!(newer_given(Some(Precedence::Higher), "a", "a"));
    assert!(!newer_given(Some(Precedence::Same), "a", "b"));
    assert!(!newer_given(Some(Precedence::Lower), "a", "b"));
    assert!(newer_given(None, "a", "b"));
    assert!(!newer_given(None, "a", "a"));
}

#[test]
fn newer_is_transitive_on_semantic_versions() {
    let newer = |a: &str, b: &str| Updater::new(UpdaterConfig::new("t", b, "o/r")).is_newer(a);
    let rising = [
        "1.0.0-alpha",
        "1.0.0-alpha.1",
        "1.0.0-alpha.beta",
        "1.0.0-beta",
        "1.0.0-beta.2",
        "1.0.0-beta.11",
        "1.0.0-rc.1",
        "1.0.0",
        "1.0.1",
        "1.2.0",
        "1.10.0",
    ];
    for i in 0..rising.len() {
        for j in 0..rising.len() {
            assert_eq!(newer(rising[i], rising[j]), i > j);
        }
    }
}

#[test]
fn hosts_of_urls() {
    assert_eq!(url_host("https://API.GitHub.com/repos"), "api.github.com");
    assert_eq!(url_host("http://127.0.0.1:80"), "127.0.0.1:80");
    assert_eq!(url_host("https://a://b/c"), "a:");
    assert_eq!(url_host("no scheme/path"), "");
    assert_eq!(url_host(""), "");
}

#[test]
fn locations_are_resolved_against_what_was_asked_for() {
    let at = |base: &str, location: &str| resolve_location(base, location).unwrap();
    let base = "https://host:8/a/b?q=1/2";
    assert_eq!(at(base, "http://other/x"), "http://other/x");
    assert_eq!(at(base, "https://other/x"), "https://other/x");
    assert_eq!(at(base, "//other/x"), "https://other/x");
    assert_eq!(at(base, "/x/y"), "https://host:8/x/y");
    assert_eq!(at(base, "x"), "https://host:8/a/x");
    assert_eq!(at("https://host", "/x"), "https://host/x");
    assert_eq!(at("nowhere", "http://other"), "http://other");
    assert_eq!(
        resolve_location("nowhere", "/x").unwrap_err().message,
        "cannot resolve redirect against non-absolute base nowhere"
    );
}

fn found(status: u16, location: &str) -> HttpReply {
    HttpReply::Response {
        status,
        location: Some(location.to_string()),
    }
}

fn whole() -> HttpReply {
    HttpReply::Response {
        status: 200,
        location: None,
    }
}

fn begin(url: &str, token: Option<&str>, accept: Option<&str>) -> Download {
    Download::start(
        url.to_string(),
        "ua/1.0".to_string(),
        token.map(str::to_string),
        accept.map(str::to_string),
    )
}

fn follow(download: Download, reply: HttpReply) -> Download {
    match download.reply(reply) {
        DownloadStep::Follow(next) => next,
        _ => panic!("the download does not go on"),
    }
}

fn failed(download: Download, reply: HttpReply) -> String {
    match download.reply(reply) {
        DownloadStep::Failed(failure) => failure.full_message(),
        _ => panic!("the download does not fail"),
    }
}

#[test]
fn download_bytes_sends_bearer_to_origin_and_omits_it_without_token() {
    let url = "http://127.0.0.1:4001/asset";
    let download = begin(url, Some("secret-xyz"), None);
    let request = download.request();
    assert_eq!(request.url, url);
    assert_eq!(request.user_agent, "ua/1.0");
    assert_eq!(request.authorization.as_deref(), Some("Bearer secret-xyz"));
    assert!(matches!(download.reply(whole()), DownloadStep::Read));

    let download = begin(url, None, None);
    assert_eq!(download.request().authorization, None);
    assert!(matches!(download.reply(whole()), DownloadStep::Read));
}

#[test]
fn download_bytes_strips_authorization_on_cross_host_redirect() {
    let base_a = "http://127.0.0.1:4001";
    let base_b = "http://127.0.0.1:4002";
    let download = begin(&format!("{base_a}/archive"), Some("secret-xyz"), None);
    assert_eq!(
        download.request().authorization.as_deref(),
        Some("Bearer secret-xyz")
    );
    let download = follow(download, found(302, &format!("{base_b}/signed")));
    assert_eq!(download.request().url, format!("{base_b}/signed"));
    assert_eq!(download.request().authorization, None);
    assert!(matches!(download.clone().reply(whole()), DownloadStep::Read));

    // Once it was kept back the token is not sent again, not even to the host that it is for.
    let download = follow(download, found(302, &format!("{base_a}/archive")));
    assert_eq!(download.request().authorization, None);
}

#[test]
fn a_redirect_on_the_same_host_keeps_the_token_and_the_headers() {
    let download = begin(
        "https://Host/a",
        Some("tok"),
        Some("application/octet-stream"),
    );
    for location in ["/b", "c", "https://HOST/d", "//host/e"] {
        let next = follow(download.clone(), found(307, location));
        assert_eq!(next.request().authorization.as_deref(), Some("Bearer tok"));
        assert_eq!(
            next.request().accept.as_deref(),
            Some("application/octet-stream")
        );
    }
}

#[test]
fn a_download_sends_ten_requests_and_no_more() {
    let mut download = begin("https://host/0", None, None);
    for i in 1..10 {
        download = follow(download, found(301, &format!("/{i}")));
        assert_eq!(download.request().url, format!("https://host/{i}"));
    }
    assert!(matches!(download.clone().reply(whole()), DownloadStep::Read));
    assert_eq!(
        failed(download, found(301, "/10")),
        "too many redirects while fetching https://host/0"
    );
}

#[test]
fn downloads_fail_with_a_reason() {
    let anonymous = || begin("https://host/a", None, None);
    let with_token = || begin("https://host/a", Some("tok"), None);
    assert_eq!(
        failed(anonymous(), HttpReply::ErrorStatus(404)),
        "GET https://host/a returned HTTP 404; GitHub returns 404 for unauthenticated private release assets; configure a token with UpdaterConfig::with_github_token, with_gh_account, or with_gh_token_fallback"
    );
    assert_eq!(
        failed(with_token(), HttpReply::ErrorStatus(404)),
        "GET https://host/a returned HTTP 404"
    );
    assert_eq!(
        failed(anonymous(), HttpReply::ErrorStatus(503)),
        "GET https://host/a returned HTTP 503"
    );
    assert_eq!(
        failed(anonymous(), HttpReply::Unreachable("no route".to_string())),
        "GET https://host/a: no route"
    );
    assert_eq!(
        failed(
            anonymous(),
            HttpReply::Response {
                status: 302,
                location: None
            }
        ),
        "HTTP 302 redirect without Location for https://host/a"
    );
    assert_eq!(
        failed(begin("host/a", None, None), found(302, "b")),
        "cannot resolve redirect against non-absolute base host/a"
    );
    for status in [200, 299, 400, 599] {
        assert!(matches!(
            anonymous().reply(found(status, "/b")),
            DownloadStep::Read
        ));
    }
}

fn release(tag: &str, assets: Vec<ReleaseAssetInfo>) -> LatestReleaseInfo {
    LatestReleaseInfo {
        tag: tag.to_string(),
        version: tag.trim_start_matches('v').to_string(),
        html_url: None,
        assets: assets.iter().map(|asset| asset.name.clone()).collect(),
        release_assets: assets,
        newer_than_current: true,
        skipped_newer: Vec::new(),
        selection_note: None,
        downgrade_risk_note: None,
    }
}

#[test]
fn assets_come_from_the_api_the_browser_url_or_the_download_base() {
    let asset = |name: &str, id: Option<u64>, url: Option<&str>| ReleaseAssetInfo {
        name: name.to_string(),
        id,
        browser_download_url: url.map(str::to_string),
    };
    let latest = release(
        "v1.0.0",
        vec![
            asset("a", Some(7), Some("https://browser/a")),
            asset("b", None, Some("https://browser/b")),
            asset("c", Some(9), None),
            asset("a", Some(8), Some("https://browser/second")),
        ],
    );
    let config = || UpdaterConfig::new("toolx", "0.1.0", "o/r");
    let source = |config: UpdaterConfig, name: &str, authenticated: bool| {
        Updater::new(config).asset_download_request(&latest, name, authenticated)
    };
    let octets = || Some("application/octet-stream".to_string());
    assert_eq!(
        source(config(), "a", true),
        (
            "https://api.github.com/repos/o/r/releases/assets/7".to_string(),
            octets()
        )
    );
    assert_eq!(
        source(config(), "a", false),
        ("https://browser/a".to_string(), None)
    );
    assert_eq!(
        source(config(), "b", true),
        ("https://browser/b".to_string(), None)
    );
    assert_eq!(
        source(config(), "c", false),
        (
            "https://github.com/o/r/releases/download/v1.0.0/c".to_string(),
            None
        )
    );
    assert_eq!(
        source(config(), "d", true),
        (
            "https://github.com/o/r/releases/download/v1.0.0/d".to_string(),
            None
        )
    );
    let mut mirrored = config();
    mirrored.download_base = Some("https://mirror".to_string());
    assert_eq!(
        source(mirrored.clone(), "a", false),
        (
            "https://mirror/o/r/releases/download/v1.0.0/a".to_string(),
            None
        )
    );
    assert_eq!(
        source(mirrored, "a", true),
        (
            "https://api.github.com/repos/o/r/releases/assets/7".to_string(),
            octets()
        )
    );
}

#[test]
fn a_release_is_read_from_what_the_feed_says() {
    let value: serde_json::Value = serde_json::from_str(
        r#"{"tag_name":"vv2","html_url":7,"draft":"yes","prerelease":true,
            "assets":[{"name":"a","id":-1},{"id":4},{"name":"b","id":4,"browser_download_url":"u"}, 5]}"#,
    )
    .unwrap();
    let release = parse_release(&value).unwrap();
    assert_eq!(release.tag, "vv2");
    assert_eq!(release.version, "v2");
    assert_eq!(release.html_url, None);
    assert!(!release.draft);
    assert!(release.prerelease);
    assert_eq!(
        release.assets,
        vec![
            ReleaseAssetInfo {
                name: "a".to_string(),
                id: None,
                browser_download_url: None
            },
            ReleaseAssetInfo {
                name: "b".to_string(),
                id: Some(4),
                browser_download_url: Some("u".to_string())
            },
        ]
    );

    let value: serde_json::Value = serde_json::from_str(r#"{"tag_name":"1","assets":{}}"#).unwrap();
    assert!(parse_release(&value).unwrap().assets.is_empty());
    for text in [r#"{"tag_name":1}"#, "[]", "null"] {
        let value: serde_json::Value = serde_json::from_str(text).unwrap();
        assert_eq!(
            parse_release(&value).unwrap_err().message,
            "github release missing tag_name"
        );
    }
}

#[test]
fn one_leading_v_of_a_tag_is_stripped() {
    for (tag, version) in [
        ("v1.2.3", "1.2.3"),
        ("vv1.2.3", "v1.2.3"),
        ("1.2.3", "1.2.3"),
        ("V1", "V1"),
        ("v", ""),
        ("", ""),
    ] {
        let text = format!(r#"{{"tag_name":"{tag}"}}"#);
        let value: serde_json::Value = serde_json::from_str(&text).unwrap();
        let release = parse_release(&value).unwrap();
        assert_eq!(release.tag, tag);
        assert_eq!(release.version, version);
    }
}

#[test]
fn neither_drafts_nor_the_order_of_the_feed_decide_between_ranked_releases() {
    let order = |text: &str| {
        let feed: serde_json::Value = serde_json::from_str(text).unwrap();
        let tags: Vec<String> = sort_newest_first(parse_releases(&feed).unwrap())
            .into_iter()
            .map(|release| release.tag)
            .collect();
        tags
    };
    let expected = vec!["v1.10.0", "v1.9.0", "v1.9.0-rc.1"];
    assert_eq!(
        order(r#"[{"tag_name":"v1.9.0-rc.1"},{"tag_name":"v1.10.0"},{"tag_name":"v1.9.0"}]"#),
        expected
    );
    assert_eq!(
        order(
            r#"[{"tag_name":"v1.9.0"},{"tag_name":"v3.0.0","draft":true},{"tag_name":"v1.10.0"},
            {"tag_name":"v2.0.0","prerelease":true},{"tag_name":"v1.9.0-rc.1"}]"#
        ),
        expected
    );
}

#[test]
fn releases_are_ordered_by_precedence_and_else_left_in_place() {
    let feed: serde_json::Value = serde_json::from_str(
        r#"[{"tag_name":"x"},{"tag_name":"v1.2.0"},{"tag_name":"y"},{"tag_name":"v1.10.0"},
            {"tag_name":"v9.0.0","draft":true},{"tag_name":"1.2.0"},{"tag_name":"v1.2.0-rc.1"}]"#,
    )
    .unwrap();
    let tags: Vec<String> = sort_newest_first(parse_releases(&feed).unwrap())
        .into_iter()
        .map(|release| release.tag)
        .collect();
    assert_eq!(
        tags,
        vec!["v1.10.0", "v1.2.0", "1.2.0", "v1.2.0-rc.1", "x", "y"]
    );
}

#[test]
fn notes_on_what_was_passed_over() {
    let skipped = |tag: &str| SkippedRelease {
        tag: tag.to_string(),
        version: tag.to_string(),
        missing_assets: Vec::new(),
    };
    assert_eq!(platform_fallback_note(&Vec::new(), "t", "v1"), None);
    assert_eq!(
        platform_fallback_note(&vec![skipped("v2")], "t", "v1").unwrap(),
        "v2 has no t release asset; selecting v1 instead"
    );
    assert_eq!(
        platform_fallback_note(&vec![skipped("v3"), skipped("v2")], "t", "v1").unwrap(),
        "v3, v2 have no t release assets; selecting v1 instead"
    );
}

#[test]
fn notes_on_what_may_be_a_downgrade() {
    let config = UpdaterConfig::new("t", "n-1", "o/r");
    assert_eq!(downgrade_risk_note(&config, "n-2", false, false), None);
    assert_eq!(downgrade_risk_note(&config, "n-2", true, true), None);
    assert_eq!(downgrade_risk_note(&config, "n-1", true, false), None);
    assert_eq!(
        downgrade_risk_note(&config, "n-2", true, false).unwrap(),
        "n-2 may be older than the running n-1: newer releases were passed over and neither is a semantic version; it is not taken unless UpdaterConfig::with_allow_unprovable_fallback allows it"
    );
    assert_eq!(
        downgrade_risk_note(
            &config.with_allow_unprovable_fallback(true),
            "n-2",
            true,
            false
        )
        .unwrap(),
        "n-2 may be older than the running n-1: newer releases were passed over and neither is a semantic version"
    );
}

#[test]
fn register_update_tool_registers_the_three_self_update_tools() {
    let tools = UpdateTool::all();
    let names: Vec<String> = tools.iter().map(|tool| tool.name().to_string()).collect();
    assert_eq!(names.len(), 3);
    for expected in ["self_update_status", "self_update_check", "self_update_run"] {
        assert!(names.iter().any(|name| name == expected));
    }
    for tool in tools {
        assert!(!tool.description().trim().is_empty());
    }
    let EmptyArgs {} = EmptyArgs::default();
}

#[test]
fn a_failed_tool_call_reports_the_whole_chain() {
    let failure = Failure::new("inner".to_string())
        .context("middle".to_string())
        .context("outer".to_string());
    let error = UpdateError::from(failure);
    assert_eq!(error.message(), "outer: middle: inner");
    assert_eq!(error.code(), "self_update_failed");
}

fn host(family: Family) -> Host {
    Host {
        family,
        os: "linux".to_string(),
        arch: "x86_64".to_string(),
        home: None,
        local_app_data: None,
        user_profile: None,
    }
}

fn staged(exists: bool) -> StartupEvent {
    StartupEvent::Staged {
        exists,
        staged: "/bin/toolx_next".to_string(),
        current: "/bin/toolx".to_string(),
    }
}

fn hook(family: Family, events: Vec<StartupEvent>) -> (Vec<String>, Vec<StartupAction>, bool) {
    let host = host(family);
    let mut said = Vec::new();
    let mut done = Vec::new();
    let mut events = events.into_iter();
    let mut step: StartupStep = StartupFlow::start(&host, "toolx");
    loop {
        said.append(&mut step.say);
        match step.next {
            None => return (said, done, true),
            Some((action, then)) => {
                done.push(action);
                match events.next() {
                    Some(event) => step = then.advance(event),
                    None => return (said, done, false),
                }
            }
        }
    }
}

#[test]
fn maybe_apply_staged_update_is_a_clean_noop_when_nothing_is_staged() {
    let host = host(Family::Unix);
    let step = StartupFlow::start(&host, "updatable_cli_unlikely_tool_name_xyz");
    assert!(step.say.is_empty());
    let (action, then) = step.next.unwrap();
    assert!(matches!(action, StartupAction::FindSelf));
    let step = then.advance(StartupEvent::Finished);
    assert!(step.say.is_empty());
    let (action, then) = step.next.unwrap();
    assert!(matches!(
        action,
        StartupAction::ProbeSibling(name) if name == "updatable_cli_unlikely_tool_name_xyz_next"
    ));
    let step = then.advance(staged(false));
    assert!(step.say.is_empty());
    assert!(step.next.is_none());
}

#[test]
fn the_hook_promotes_and_restarts_on_unix() {
    let good = || {
        vec![
            StartupEvent::Finished,
            staged(true),
            StartupEvent::Finished,
            StartupEvent::Finished,
            StartupEvent::Finished,
        ]
    };
    let (said, done, over) = hook(Family::Unix, good());
    assert!(!over);
    assert_eq!(said, vec!["Applied staged toolx update"]);
    assert_eq!(done.len(), 6);
    assert!(matches!(done[2], StartupAction::MarkStaged));
    assert!(matches!(done[3], StartupAction::PromoteStaged));
    assert!(matches!(done[4], StartupAction::MarkSelf));
    assert!(matches!(done[5], StartupAction::Restart));

    let mut events = good();
    events.push(StartupEvent::Failed("no exec".to_string()));
    let (said, _, over) = hook(Family::Unix, events);
    assert!(over);
    assert_eq!(
        said[1],
        "warning: failed to re-exec after staged toolx update: no exec"
    );

    let mut events = good();
    events[4] = StartupEvent::Failed("denied".to_string());
    let (said, done, _) = hook(Family::Unix, events);
    assert_eq!(
        said,
        vec![
            "warning: promoted toolx update /bin/toolx may not be executable: chmod 0755 failed: denied",
            "Applied staged toolx update",
        ]
    );
    assert!(matches!(done[5], StartupAction::Restart));
}

#[test]
fn the_hook_never_fails() {
    let failed = |n: usize| {
        let mut events = vec![
            StartupEvent::Finished,
            staged(true),
            StartupEvent::Finished,
            StartupEvent::Finished,
        ];
        events[n] = StartupEvent::Failed("why".to_string());
        hook(Family::Unix, events)
    };
    assert_eq!(
        failed(0).0,
        vec!["warning: toolx could not resolve current_exe: why"]
    );
    assert_eq!(
        failed(2).0,
        vec!["warning: staged toolx update /bin/toolx_next is not promotable: chmod 0755 failed: why"]
    );
    assert_eq!(
        failed(3).0,
        vec!["warning: failed to promote staged toolx update /bin/toolx_next: why"]
    );
    for n in [0, 1, 2, 3] {
        assert!(failed(n).2);
    }
}

#[test]
fn the_hook_only_looks_on_other_platforms() {
    let events = || vec![StartupEvent::Finished, staged(true)];
    let (said, done, over) = hook(Family::Windows, events());
    assert!(over);
    assert_eq!(done.len(), 2);
    assert!(matches!(&done[1], StartupAction::ProbeSibling(name) if name == "toolx_next.exe"));
    assert!(said[0].starts_with("warning: update staged at /bin/toolx_next; Windows cannot"));
    let (said, done, over) = hook(Family::Other, events());
    assert!(over);
    assert_eq!(done.len(), 2);
    assert_eq!(
        said,
        vec!["warning: staged toolx update /bin/toolx_next cannot be promoted on this platform"]
    );
}
