use std::collections::{BTreeMap, BTreeSet};
use std::io::Read;
use std::path::PathBuf;
use std::time::Duration;

use sha2::{Digest, Sha256};
use updatable_cli::host::{executable_file_name, staged_executable_file_name};
use updatable_cli::{
    release_target, Action, AssetNames, AssetStrategy, CheckFlow, Event, Failure, Family, GhOutput,
    Host, HttpReply, InstallPath, LatestReleaseInfo, LocationTexts, PromoteFlow, ReleaseAssetInfo,
    RunFlow, SkippedRelease, StageFlow, StatusFlow, Step, UpdateOutcome, UpdateStatus, Updater,
    UpdaterConfig, DEFAULT_RELEASE_LOOKBACK,
};

const ROOT: &str = "/opt/tools";

fn linux() -> Host {
    Host {
        family: Family::Unix,
        os: "linux".to_string(),
        arch: "x86_64".to_string(),
        home: Some(PathBuf::from("/home/user")),
        local_app_data: None,
        user_profile: None,
    }
}

fn windows() -> Host {
    Host {
        family: Family::Windows,
        os: "windows".to_string(),
        arch: "x86_64".to_string(),
        home: None,
        local_app_data: Some(PathBuf::from("/local")),
        user_profile: None,
    }
}

fn file(path: &InstallPath) -> String {
    let mut joined = path.base.clone();
    for part in &path.parts {
        joined = joined.join(part);
    }
    joined.display().to_string()
}

#[derive(Clone)]
enum Reply {
    Body(Vec<u8>),
    Redirect(String),
    Bare(u16),
    Status(u16),
    Down(&'static str),
    Cut { timed_out: bool, error: &'static str },
}

struct Sent {
    url: String,
    user_agent: String,
    accept: Option<String>,
    authorization: Option<String>,
    follow: bool,
    timeout: Duration,
}

#[derive(Default)]
struct World {
    routes: Vec<(String, Reply)>,
    sent: Vec<Sent>,
    body: Option<Result<Vec<u8>, (bool, &'static str)>>,
    gh: Option<GhOutput>,
    gh_asked: Vec<Vec<String>>,
    namer: Option<fn(&str, &str, &str) -> Result<AssetNames, Failure>>,
    files: BTreeMap<String, Vec<u8>>,
    executable: BTreeSet<String>,
    unpacked: BTreeMap<String, Vec<u8>>,
    copy: Vec<u8>,
    refused: Option<&'static str>,
    done: Vec<&'static str>,
}

impl World {
    fn with(routes: Vec<(&str, Reply)>) -> World {
        World {
            routes: routes
                .into_iter()
                .map(|(needle, reply)| (needle.to_string(), reply))
                .collect(),
            ..World::default()
        }
    }

    fn finish(&self, name: &'static str) -> Event {
        if self.refused == Some(name) {
            let failure = Failure::new("no such thing".to_string());
            Event::Failed(failure.context("the disk".to_string()))
        } else {
            Event::Finished
        }
    }

    fn unpack(&mut self, archive: &[u8]) -> Event {
        let mut tar = tar::Archive::new(flate2::read::GzDecoder::new(archive));
        for entry in tar.entries().unwrap() {
            let mut entry = entry.unwrap();
            let path = entry.path().unwrap().display().to_string();
            let mut bytes = Vec::new();
            entry.read_to_end(&mut bytes).unwrap();
            self.unpacked.insert(path, bytes);
        }
        self.finish("Unpack")
    }

    fn perform(&mut self, action: Action) -> Event {
        match action {
            Action::Locate(locations) => {
                self.done.push("Locate");
                Event::Located(LocationTexts {
                    install_dir: file(&locations.install_dir),
                    installed: file(&locations.installed),
                    next: file(&locations.next),
                })
            }
            Action::AskGh(arguments) => {
                self.done.push("AskGh");
                self.gh_asked.push(arguments);
                Event::Gh(self.gh.clone())
            }
            Action::Send {
                request,
                follow,
                timeout,
            } => {
                self.done.push("Send");
                let reply = self
                    .routes
                    .iter()
                    .find(|(needle, _)| request.url.contains(needle.as_str()))
                    .map(|(_, reply)| reply.clone())
                    .unwrap_or(Reply::Body(Vec::new()));
                self.sent.push(Sent {
                    url: request.url,
                    user_agent: request.user_agent,
                    accept: request.accept,
                    authorization: request.authorization,
                    follow,
                    timeout,
                });
                Event::Http(match reply {
                    Reply::Body(body) => {
                        self.body = Some(Ok(body));
                        HttpReply::Response {
                            status: 200,
                            location: None,
                        }
                    }
                    Reply::Cut { timed_out, error } => {
                        self.body = Some(Err((timed_out, error)));
                        HttpReply::Response {
                            status: 200,
                            location: None,
                        }
                    }
                    Reply::Redirect(location) => HttpReply::Response {
                        status: 302,
                        location: Some(location),
                    },
                    Reply::Bare(status) => HttpReply::Response {
                        status,
                        location: None,
                    },
                    Reply::Status(status) => HttpReply::ErrorStatus(status),
                    Reply::Down(reason) => HttpReply::Unreachable(reason.to_string()),
                })
            }
            Action::ReadBody => {
                self.done.push("ReadBody");
                match self.body.take() {
                    Some(Ok(body)) => Event::Body(body),
                    Some(Err((timed_out, error))) => Event::BodyFailed {
                        timed_out,
                        failure: Failure::new(error.to_string()),
                    },
                    None => panic!("there is no body to read"),
                }
            }
            Action::NameAssets {
                tool_name,
                version,
                target,
            } => {
                self.done.push("NameAssets");
                Event::Named((self.namer.unwrap())(&tool_name, &version, &target))
            }
            Action::CreateDir(_) => {
                self.done.push("CreateDir");
                self.finish("CreateDir")
            }
            Action::CreateParent(_) => {
                self.done.push("CreateParent");
                self.finish("CreateParent")
            }
            Action::Probe(path) => {
                self.done.push("Probe");
                Event::Exists(self.files.contains_key(&file(&path)))
            }
            Action::MakeTempDir => {
                self.done.push("MakeTempDir");
                self.finish("MakeTempDir")
            }
            Action::Unpack(archive) => {
                self.done.push("Unpack");
                self.unpack(&archive)
            }
            Action::ProbeUnpacked(path) => {
                self.done.push("ProbeUnpacked");
                Event::Exists(self.unpacked.contains_key(&path))
            }
            Action::CopyBeside { unpacked, .. } => {
                self.done.push("CopyBeside");
                self.copy = self.unpacked[&unpacked].clone();
                self.finish("CopyBeside")
            }
            Action::Persist(path) => {
                self.done.push("Persist");
                let event = self.finish("Persist");
                if matches!(event, Event::Finished) {
                    self.files.insert(file(&path), self.copy.clone());
                }
                event
            }
            Action::MarkExecutable(path) => {
                self.done.push("MarkExecutable");
                let event = self.finish("MarkExecutable");
                if matches!(event, Event::Finished) {
                    assert!(self.files.contains_key(&file(&path)));
                    self.executable.insert(file(&path));
                }
                event
            }
            Action::Rename { from, to } => {
                self.done.push("Rename");
                let event = self.finish("Rename");
                if matches!(event, Event::Finished) {
                    let bytes = self.files.remove(&file(&from)).unwrap();
                    self.files.insert(file(&to), bytes);
                    self.executable.remove(&file(&from));
                }
                event
            }
        }
    }

    fn drive<F, T>(
        &mut self,
        start: Step<F, T>,
        advance: impl Fn(F, Event) -> Step<F, T>,
    ) -> Result<T, Failure> {
        let mut step = start;
        loop {
            match step {
                Step::Do { action, then } => {
                    let event = self.perform(action);
                    step = advance(then, event);
                }
                Step::Done(result) => return result,
            }
        }
    }

    fn status(&mut self, config: UpdaterConfig, host: &Host) -> Result<UpdateStatus, Failure> {
        let updater = Updater::new(config);
        self.drive(updater.current_status(host), StatusFlow::advance)
    }

    fn check(&mut self, config: UpdaterConfig, host: &Host) -> Result<LatestReleaseInfo, Failure> {
        let updater = Updater::new(config);
        self.drive(updater.check_latest(host), CheckFlow::advance)
    }

    fn stage(
        &mut self,
        config: UpdaterConfig,
        host: &Host,
        latest: &LatestReleaseInfo,
    ) -> Result<InstallPath, Failure> {
        let updater = Updater::new(config);
        self.drive(updater.stage_next(host, latest), StageFlow::advance)
    }

    fn promote(
        &mut self,
        config: UpdaterConfig,
        host: &Host,
    ) -> Result<Option<InstallPath>, Failure> {
        let updater = Updater::new(config);
        self.drive(updater.promote_next(host), PromoteFlow::advance)
    }

    fn update(&mut self, config: UpdaterConfig, host: &Host) -> Result<UpdateOutcome, Failure> {
        let updater = Updater::new(config);
        self.drive(updater.run_update(host), RunFlow::advance)
    }
}

fn example(current: &str) -> UpdaterConfig {
    let mut config = UpdaterConfig::new("toolx", current, "octocat/example");
    config.install_dir = Some(PathBuf::from(ROOT));
    config
}

fn gzip_tar_with_entry(inner_path: &str, payload: &[u8]) -> Vec<u8> {
    let mut out = Vec::new();
    let enc = flate2::write::GzEncoder::new(&mut out, flate2::Compression::default());
    let mut builder = tar::Builder::new(enc);
    let mut header = tar::Header::new_gnu();
    header.set_size(payload.len() as u64);
    header.set_mode(0o755);
    header.set_cksum();
    builder
        .append_data(&mut header, inner_path, payload)
        .unwrap();
    builder.into_inner().unwrap().finish().unwrap();
    out
}

fn digest(bytes: &[u8]) -> String {
    let mut hasher = Sha256::new();
    hasher.update(bytes);
    hex::encode(hasher.finalize())
}

fn releases_feed(entries: &[(&str, &[&str])]) -> Vec<u8> {
    let releases: Vec<String> = entries
        .iter()
        .map(|(tag, targets)| {
            let version = tag.trim_start_matches('v');
            let assets: Vec<String> = targets
                .iter()
                .flat_map(|target| {
                    [
                        format!(r#"{{"name":"toolx-{version}-{target}.tar.gz"}}"#),
                        format!(r#"{{"name":"toolx-{version}-{target}.sha256"}}"#),
                    ]
                })
                .collect();
            format!(r#"{{"tag_name":"{tag}","assets":[{}]}}"#, assets.join(","))
        })
        .collect();
    format!("[{}]", releases.join(",")).into_bytes()
}

fn release(version: &str, assets: Vec<String>) -> LatestReleaseInfo {
    LatestReleaseInfo {
        tag: format!("v{version}"),
        version: version.to_string(),
        html_url: None,
        assets,
        release_assets: Vec::new(),
        newer_than_current: true,
        skipped_newer: Vec::new(),
        selection_note: None,
        downgrade_risk_note: None,
    }
}

#[test]
fn current_status_reports_install_paths() {
    let host = linux();
    let mut world = World::default();
    let status = world.status(example("0.1.0"), &host).unwrap();
    assert_eq!(status.tool, "toolx");
    assert!(status
        .installed_path
        .ends_with(&executable_file_name(&host, "toolx")));
    assert!(status
        .next_path
        .ends_with(&staged_executable_file_name(&host, "toolx")));
    assert!(!status.installed_exists);
    assert!(!status.next_staged);
}

#[test]
fn status_tells_what_is_there() {
    let mut world = World::default();
    world.files.insert(format!("{ROOT}/toolx_next"), Vec::new());
    let status = world.status(example("0.1.0"), &linux()).unwrap();
    assert_eq!(status.current_version, "0.1.0");
    assert_eq!(status.install_dir, ROOT);
    assert_eq!(status.installed_path, format!("{ROOT}/toolx"));
    assert_eq!(status.next_path, format!("{ROOT}/toolx_next"));
    assert!(!status.installed_exists);
    assert!(status.next_staged);
    assert_eq!(world.done, vec!["Locate", "Probe", "Probe"]);
}

#[test]
fn promote_next_is_noop_when_nothing_staged() {
    let mut world = World::default();
    let promoted = world.promote(example("0.1.0"), &linux()).unwrap();
    assert!(promoted.is_none());
    assert!(world.files.is_empty());
    assert_eq!(world.done, vec!["Probe"]);
}

#[test]
fn promote_next_moves_staged_binary_and_marks_executable() {
    let host = linux();
    let mut world = World::default();
    world.files.insert(
        format!("{ROOT}/toolx_next"),
        b"#!/bin/sh\nexit 0\n".to_vec(),
    );
    let installed = world
        .promote(example("0.1.0"), &host)
        .unwrap()
        .expect("promotion to occur");
    let expected = example("0.1.0").installed_binary_path(&host).unwrap();
    assert_eq!(file(&installed), file(&expected));
    assert!(!world.files.contains_key(&format!("{ROOT}/toolx_next")));
    assert_eq!(world.files[&file(&expected)], b"#!/bin/sh\nexit 0\n");
    assert!(world.executable.contains(&file(&expected)));

    assert!(world.promote(example("0.1.0"), &host).unwrap().is_none());
}

#[test]
fn windows_paths_use_exe_names_and_existing_binary_defers_promotion() {
    let host = windows();
    let installed = file(&example("0.1.0").installed_binary_path(&host).unwrap());
    let next = file(&example("0.1.0").next_binary_path(&host).unwrap());
    assert!(installed.ends_with("/toolx.exe"));
    assert!(next.ends_with("/toolx_next.exe"));

    let mut world = World::default();
    world
        .files
        .insert(installed.clone(), b"current executable".to_vec());
    world
        .files
        .insert(next.clone(), b"verified staged executable".to_vec());
    assert!(world.promote(example("0.1.0"), &host).unwrap().is_none());
    assert_eq!(world.files[&installed], b"current executable");
    assert_eq!(world.files[&next], b"verified staged executable");
    assert_eq!(world.done, vec!["Probe", "CreateParent", "Probe"]);

    let note = updatable_cli::host::windows_deferred_promotion_note(&next, &installed);
    assert!(note.contains("close all tool processes"));
    assert!(note.contains(&next));
    assert!(note.contains(&installed));
}

#[test]
fn windows_promotes_when_no_installed_binary_exists() {
    let host = windows();
    let next = format!("{ROOT}/toolx_next.exe");
    let mut world = World::default();
    world.files.insert(next.clone(), b"new executable".to_vec());
    let promoted = world
        .promote(example("0.1.0"), &host)
        .unwrap()
        .expect("safe first install");
    assert!(file(&promoted).ends_with("/toolx.exe"));
    assert!(!world.files.contains_key(&next));
    assert_eq!(world.files[&file(&promoted)], b"new executable");
}

#[test]
fn windows_atomic_write_replaces_only_the_staged_destination() {
    let host = windows();
    let target = release_target(&host).unwrap();
    let archive = format!("toolx-9.9.9-{target}.tar.gz");
    let checksum = format!("toolx-9.9.9-{target}.sha256");
    let tarball = gzip_tar_with_entry(
        &format!("toolx-9.9.9-{target}/toolx.exe"),
        b"new verified payload",
    );
    let sum = format!("{}  {archive}\n", digest(&tarball)).into_bytes();
    let mut world = World::with(vec![
        (&archive, Reply::Body(tarball)),
        (&checksum, Reply::Body(sum)),
    ]);
    let staged = format!("{ROOT}/toolx_next.exe");
    let installed = format!("{ROOT}/toolx.exe");
    world
        .files
        .insert(staged.clone(), b"older staged payload".to_vec());
    world
        .files
        .insert(installed.clone(), b"running payload".to_vec());
    world
        .stage(
            example("0.1.0"),
            &host,
            &release("9.9.9", vec![archive, checksum]),
        )
        .unwrap();
    assert_eq!(world.files[&staged], b"new verified payload");
    assert_eq!(world.files[&installed], b"running payload");
}

#[test]
fn a_failed_rename_names_both_paths() {
    let mut world = World::default();
    world.files.insert(format!("{ROOT}/toolx_next"), Vec::new());
    world.refused = Some("Rename");
    let error = world.promote(example("0.1.0"), &linux()).unwrap_err();
    assert_eq!(
        error.full_message(),
        format!("promote {ROOT}/toolx_next -> {ROOT}/toolx: the disk: no such thing")
    );
}

#[test]
fn a_failed_promotion_step_is_the_failure() {
    for step in ["CreateParent", "MarkExecutable"] {
        let mut world = World::default();
        world.files.insert(format!("{ROOT}/toolx_next"), Vec::new());
        world.refused = Some(step);
        let error = world.promote(example("0.1.0"), &linux()).unwrap_err();
        assert_eq!(error.full_message(), "the disk: no such thing");
        assert!(world.files.contains_key(&format!("{ROOT}/toolx_next")));
    }
}

#[test]
fn check_latest_parses_release_and_flags_newer_version() {
    let host = linux();
    let target = release_target(&host).unwrap();
    let archive = format!("toolx-9.9.9-{target}.tar.gz");
    let checksum = format!("toolx-9.9.9-{target}.sha256");
    let body = format!(
        r#"[{{
            "tag_name": "v9.9.9",
            "html_url": "https://example.invalid/releases/v9.9.9",
            "assets": [
                {{
                    "id": 101,
                    "name": "{archive}",
                    "browser_download_url": "https://example.invalid/download/archive"
                }},
                {{
                    "id": 102,
                    "name": "{checksum}",
                    "browser_download_url": "https://example.invalid/download/checksum"
                }}
            ]
        }}]"#
    );
    let mut world = World::with(vec![("releases?", Reply::Body(body.into_bytes()))]);
    let info = world.check(example("0.1.0"), &host).unwrap();
    assert_eq!(info.tag, "v9.9.9");
    assert_eq!(info.version, "9.9.9");
    assert_eq!(
        info.html_url.as_deref(),
        Some("https://example.invalid/releases/v9.9.9")
    );
    assert_eq!(info.assets, vec![archive.clone(), checksum.clone()]);
    assert_eq!(
        info.release_assets,
        vec![
            ReleaseAssetInfo {
                name: archive,
                id: Some(101),
                browser_download_url: Some("https://example.invalid/download/archive".to_string()),
            },
            ReleaseAssetInfo {
                name: checksum,
                id: Some(102),
                browser_download_url: Some("https://example.invalid/download/checksum".to_string()),
            },
        ]
    );
    assert!(info.newer_than_current);
    assert!(info.skipped_newer.is_empty());
    assert!(info.selection_note.is_none());
}

#[test]
fn check_latest_accepts_a_single_release_object_body() {
    let host = linux();
    let target = release_target(&host).unwrap();
    let body = format!(
        r#"{{"tag_name":"v9.9.9","assets":[{{"name":"toolx-9.9.9-{target}.tar.gz"}},{{"name":"toolx-9.9.9-{target}.sha256"}}]}}"#
    );
    let mut world = World::with(vec![("releases?", Reply::Body(body.into_bytes()))]);
    let info = world.check(example("0.1.0"), &host).unwrap();
    assert_eq!(info.version, "9.9.9");
}

#[test]
fn check_latest_reports_not_newer_for_same_version() {
    let host = linux();
    let target = release_target(&host).unwrap();
    let body = format!(
        r#"[{{"tag_name":"v0.1.0","assets":[{{"name":"toolx-0.1.0-{target}.tar.gz"}},{{"name":"toolx-0.1.0-{target}.sha256"}}]}}]"#
    );
    let mut world = World::with(vec![("releases?", Reply::Body(body.into_bytes()))]);
    let info = world.check(example("0.1.0"), &host).unwrap();
    assert_eq!(info.version, "0.1.0");
    assert!(info.html_url.is_none());
    assert!(!info.newer_than_current);
}

#[test]
fn check_latest_reports_friendly_error_when_no_releases() {
    let mut world = World::with(vec![("releases?", Reply::Status(404))]);
    let msg = world
        .check(example("0.1.0"), &linux())
        .unwrap_err()
        .full_message();
    assert!(msg.contains("no published GitHub releases for octocat/example"));
    assert_eq!(
        msg,
        "no published GitHub releases for octocat/example yet (GET https://api.github.com/repos/octocat/example/releases?per_page=10 returned 404)"
    );
}

#[test]
fn check_latest_reports_rate_limit_hint_on_403() {
    for status in [403, 429] {
        let mut world = World::with(vec![("releases?", Reply::Status(status))]);
        let msg = world
            .check(example("0.1.0"), &linux())
            .unwrap_err()
            .full_message();
        assert!(msg.contains("rate-limited or forbidden") && msg.contains("with_github_token"));
        assert!(msg.contains(&format!("(HTTP {status})")));
    }
}

#[test]
fn check_latest_reports_other_failures_of_the_feed() {
    let url = "https://api.github.com/repos/octocat/example/releases?per_page=10";
    let failing = |reply: Reply| {
        World::with(vec![("releases?", reply)])
            .check(example("0.1.0"), &linux())
            .unwrap_err()
            .full_message()
    };
    assert_eq!(
        failing(Reply::Status(500)),
        format!("GET {url} returned HTTP 500")
    );
    assert_eq!(
        failing(Reply::Down("no route")),
        format!("GET {url}: no route")
    );
    assert_eq!(
        failing(Reply::Cut {
            timed_out: true,
            error: "took too long"
        }),
        "took too long"
    );
    assert_eq!(
        failing(Reply::Cut {
            timed_out: false,
            error: "cut short"
        }),
        "Failed to read JSON: cut short"
    );
    assert!(failing(Reply::Body(b"{".to_vec())).starts_with("Failed to read JSON: EOF while"));
    assert_eq!(
        failing(Reply::Body(br#"[{"name":"untagged"}]"#.to_vec())),
        "github release missing tag_name"
    );
    assert_eq!(
        failing(Reply::Body(b"[]".to_vec())),
        "no published GitHub releases for octocat/example yet (drafts and prereleases are ignored)"
    );
}

#[test]
fn check_latest_needs_a_supported_platform() {
    let mut host = linux();
    host.os = "plan9".to_string();
    let mut world = World::default();
    assert_eq!(
        world.check(example("0.1.0"), &host).unwrap_err().message,
        "unsupported updater OS plan9"
    );
    host.os = "linux".to_string();
    host.arch = "riscv64".to_string();
    assert_eq!(
        world.check(example("0.1.0"), &host).unwrap_err().message,
        "unsupported updater arch riscv64"
    );
    assert!(world.done.is_empty());
}

#[test]
fn check_latest_falls_back_to_newest_release_carrying_this_platform() {
    let host = linux();
    let target = release_target(&host).unwrap();
    let other = "aarch64-darwin";
    let body = releases_feed(&[
        ("v0.0.42", &[other]),
        ("v0.0.41", &[other, &target]),
        ("v0.0.40", &[&target]),
    ]);
    let mut world = World::with(vec![("releases?", Reply::Body(body))]);
    let info = world.check(example("0.0.27"), &host).unwrap();
    assert_eq!(info.tag, "v0.0.41");
    assert!(info.newer_than_current);
    assert_eq!(
        info.skipped_newer,
        vec![SkippedRelease {
            tag: "v0.0.42".to_string(),
            version: "0.0.42".to_string(),
            missing_assets: vec![
                format!("toolx-0.0.42-{target}.tar.gz"),
                format!("toolx-0.0.42-{target}.sha256"),
            ],
        }]
    );
    let note = info.selection_note.expect("a fallback must be explained");
    assert!(note.contains("v0.0.42") && note.contains(&target) && note.contains("v0.0.41"));
    assert_eq!(
        note,
        "v0.0.42 has no x86_64-linux release asset; selecting v0.0.41 instead"
    );
    assert!(info.downgrade_risk_note.is_none());
}

#[test]
fn check_latest_errors_when_no_release_in_lookback_carries_platform_assets() {
    let host = linux();
    let target = release_target(&host).unwrap();
    let other = "aarch64-darwin";
    let body = releases_feed(&[("v0.0.42", &[other]), ("v0.0.41", &[other])]);
    let mut world = World::with(vec![("releases?", Reply::Body(body))]);
    let message = world
        .check(example("0.0.27"), &host)
        .unwrap_err()
        .full_message();
    assert!(
        message.contains(&target)
            && message.contains("v0.0.42")
            && message.contains("v0.0.41")
            && message.contains("release pipeline")
    );
    assert_eq!(
        message,
        "no release of octocat/example within the last 2 carries a x86_64-linux asset (inspected: v0.0.42, v0.0.41); this platform's release pipeline is likely broken"
    );
}

#[test]
fn check_latest_ignores_drafts_and_prereleases() {
    let host = linux();
    let target = release_target(&host).unwrap();
    let body = format!(
        r#"[{{"tag_name":"v9.9.9","draft":true,"assets":[{{"name":"toolx-9.9.9-{target}.tar.gz"}},{{"name":"toolx-9.9.9-{target}.sha256"}}]}},
                {{"tag_name":"v9.9.8","prerelease":true,"assets":[{{"name":"toolx-9.9.8-{target}.tar.gz"}},{{"name":"toolx-9.9.8-{target}.sha256"}}]}},
                {{"tag_name":"v9.9.7","assets":[{{"name":"toolx-9.9.7-{target}.tar.gz"}},{{"name":"toolx-9.9.7-{target}.sha256"}}]}}]"#
    );
    let mut world = World::with(vec![("releases?", Reply::Body(body.into_bytes()))]);
    let info = world.check(example("0.1.0"), &host).unwrap();
    assert_eq!(info.tag, "v9.9.7");
    assert!(info.skipped_newer.is_empty());
}

#[test]
fn check_latest_orders_the_feed_by_version_and_keeps_the_rest_in_place() {
    let host = linux();
    let target = release_target(&host).unwrap();
    let targets: &[&str] = &[&target];
    let body = releases_feed(&[
        ("nightly-b", targets),
        ("v1.9.0", targets),
        ("nightly-a", targets),
        ("v1.10.0", targets),
        ("v1.10.0-rc.1", targets),
    ]);
    let mut world = World::with(vec![("releases?", Reply::Body(body))]);
    assert_eq!(world.check(example("1.0.0"), &host).unwrap().tag, "v1.10.0");

    let body = releases_feed(&[("nightly-b", &[]), ("v1.9.0", &[]), ("nightly-a", targets)]);
    let mut world = World::with(vec![("releases?", Reply::Body(body))]);
    let info = world.check(example("1.0.0"), &host).unwrap();
    assert_eq!(info.tag, "nightly-a");
    let skipped: Vec<String> = info.skipped_newer.into_iter().map(|r| r.tag).collect();
    assert_eq!(skipped, vec!["v1.9.0", "nightly-b"]);
    assert_eq!(
        info.selection_note.as_deref(),
        Some(
            "v1.9.0, nightly-b have no x86_64-linux release assets; selecting nightly-a instead"
        )
    );
    assert!(info.newer_than_current);
    assert!(info.downgrade_risk_note.is_none());
}

#[test]
fn a_fallback_that_cannot_be_compared_is_declined_unless_allowed() {
    let host = linux();
    let target = release_target(&host).unwrap();
    let targets: &[&str] = &[&target];
    let feed = || releases_feed(&[("nightly-3", &[]), ("nightly-2", targets)]);

    let mut world = World::with(vec![("releases?", Reply::Body(feed()))]);
    let info = world.check(example("nightly-1"), &host).unwrap();
    assert_eq!(info.tag, "nightly-2");
    assert!(!info.newer_than_current);
    assert!(info
        .downgrade_risk_note
        .unwrap()
        .contains("with_allow_unprovable_fallback"));

    let mut world = World::with(vec![("releases?", Reply::Body(feed()))]);
    let outcome = world.update(example("nightly-1"), &host).unwrap();
    assert!(!outcome.staged);
    assert!(outcome.note.unwrap().contains("may be older"));

    let mut world = World::with(vec![("releases?", Reply::Body(feed()))]);
    let allowed = example("nightly-1").with_allow_unprovable_fallback(true);
    let info = world.check(allowed, &host).unwrap();
    assert!(info.newer_than_current);
    assert!(info.downgrade_risk_note.unwrap().contains("may be older"));

    // The same version is no risk, and without a fallback any other tag is an update.
    let mut world = World::with(vec![("releases?", Reply::Body(feed()))]);
    let info = world.check(example("nightly-2"), &host).unwrap();
    assert!(!info.newer_than_current && info.downgrade_risk_note.is_none());
    let body = releases_feed(&[("nightly-2", targets)]);
    let mut world = World::with(vec![("releases?", Reply::Body(body))]);
    let info = world.check(example("nightly-1"), &host).unwrap();
    assert!(info.newer_than_current && info.downgrade_risk_note.is_none());
}

#[test]
fn release_lookback_bounds_the_feed_request() {
    let host = linux();
    let target = release_target(&host).unwrap();
    let body = releases_feed(&[("v9.9.9", &[&target])]);
    let mut world = World::with(vec![("releases?", Reply::Body(body))]);
    let config = UpdaterConfig::new("toolx", "0.1.0", "octocat/example")
        .with_release_lookback(3)
        .with_github_token("");
    assert_eq!(config.release_lookback(), 3);
    world.check(config, &host).unwrap();
    assert!(world.sent[0].url.contains("per_page=3"));
    assert_eq!(
        UpdaterConfig::new("toolx", "0.1.0", "octocat/example")
            .with_release_lookback(0)
            .release_lookback(),
        1
    );
    assert_eq!(
        UpdaterConfig::new("toolx", "0.1.0", "octocat/example")
            .with_release_lookback(5_000)
            .release_lookback(),
        100
    );
    assert_eq!(
        UpdaterConfig::new("toolx", "0.1.0", "octocat/example").release_lookback(),
        DEFAULT_RELEASE_LOOKBACK
    );
}

#[test]
fn the_feed_request_carries_agent_token_and_time_limit() {
    let host = linux();
    let target = release_target(&host).unwrap();
    let body = releases_feed(&[("v9.9.9", &[&target])]);
    let mut world = World::with(vec![("releases?", Reply::Body(body))]);
    let mut config = example("0.1.0").with_github_token(" secret-xyz ");
    config.api_base = Some("https://ghe.example".to_string());
    config.http_timeout = Some(Duration::from_secs(5));
    world.check(config, &host).unwrap();
    assert_eq!(world.sent.len(), 1);
    assert_eq!(
        world.sent[0].url,
        "https://ghe.example/repos/octocat/example/releases?per_page=10"
    );
    assert_eq!(world.sent[0].user_agent, "toolx-updater/0.1.0");
    assert_eq!(
        world.sent[0].authorization.as_deref(),
        Some("Bearer secret-xyz")
    );
    assert_eq!(world.sent[0].accept, None);
    assert!(world.sent[0].follow);
    assert_eq!(world.sent[0].timeout, Duration::from_secs(5));
}

#[test]
fn gh_is_asked_only_where_the_configuration_says_so() {
    let host = linux();
    let target = release_target(&host).unwrap();
    let feed = || releases_feed(&[("v9.9.9", &[&target])]);

    let mut world = World::with(vec![("releases?", Reply::Body(feed()))]);
    world.check(example("0.1.0"), &host).unwrap();
    assert!(world.gh_asked.is_empty());
    assert_eq!(world.sent[0].timeout, Duration::from_secs(60));

    let mut world = World::with(vec![("releases?", Reply::Body(feed()))]);
    world.gh = Some(GhOutput {
        success: true,
        stdout: b"from-gh\n".to_vec(),
    });
    world
        .check(example("0.1.0").with_gh_account("octocat"), &host)
        .unwrap();
    assert_eq!(
        world.gh_asked,
        vec![vec!["auth", "token", "--user", "octocat"]]
    );
    assert_eq!(
        world.sent[0].authorization.as_deref(),
        Some("Bearer from-gh")
    );

    let mut world = World::with(vec![("releases?", Reply::Body(feed()))]);
    world
        .check(example("0.1.0").with_gh_token_fallback(true), &host)
        .unwrap();
    assert_eq!(world.gh_asked, vec![vec!["auth", "token"]]);
    assert_eq!(world.sent[0].authorization, None);
}

fn by_hand(tool_name: &str, version: &str, target: &str) -> Result<AssetNames, Failure> {
    if version == "0.0.1" {
        return Err(Failure::new("too old to name".to_string()));
    }
    Ok(AssetNames {
        archive: format!("{tool_name}_{version}_{target}.tgz"),
        checksum: format!("{tool_name}_{version}_{target}.sum"),
        binary_in_archive: format!("bin/{tool_name}"),
    })
}

#[test]
fn the_host_program_can_name_the_assets() {
    let host = linux();
    let tarball = gzip_tar_with_entry("bin/toolx", b"named by hand\n");
    let sum = digest(&tarball).to_uppercase().into_bytes();
    let feed = br#"[{"tag_name":"v3.0.0","assets":[]},
        {"tag_name":"v2.0.0","assets":[{"name":"toolx_2.0.0_x86_64-linux.tgz"},
            {"name":"toolx_2.0.0_x86_64-linux.sum"}]}]"#;
    let mut world = World::with(vec![
        ("releases?", Reply::Body(feed.to_vec())),
        (".tgz", Reply::Body(tarball)),
        (".sum", Reply::Body(sum)),
    ]);
    world.namer = Some(by_hand);
    let mut config = example("1.0.0");
    config.asset_strategy = AssetStrategy::Custom;
    let outcome = world.update(config, &host).unwrap();
    assert!(outcome.promoted);
    assert_eq!(outcome.latest_version, "2.0.0");
    assert_eq!(world.files[&format!("{ROOT}/toolx")], b"named by hand\n");

    let feed = br#"[{"tag_name":"v0.0.2","assets":[]},{"tag_name":"v0.0.1","assets":[]}]"#;
    let mut world = World::with(vec![("releases?", Reply::Body(feed.to_vec()))]);
    world.namer = Some(by_hand);
    let mut config = example("1.0.0");
    config.asset_strategy = AssetStrategy::Custom;
    let error = world.check(config, &host).unwrap_err();
    assert_eq!(error.message, "too old to name");
}

#[test]
fn run_update_stages_and_promotes_release_end_to_end() {
    let host = linux();
    let target = release_target(&host).unwrap();
    let version = "9.9.9";
    let archive_name = format!("toolx-{version}-{target}.tar.gz");
    let checksum_name = format!("toolx-{version}-{target}.sha256");
    let binary_in_archive = format!(
        "toolx-{version}-{target}/{}",
        executable_file_name(&host, "toolx")
    );
    let payload = b"portable updated-toolx payload\n";
    let tar_buf = gzip_tar_with_entry(&binary_in_archive, payload);
    let checksum_body = format!("{}  {archive_name}\n", digest(&tar_buf)).into_bytes();
    let api_body = format!(
        r#"[{{"tag_name":"v{version}","assets":[{{"name":"{archive_name}"}},{{"name":"{checksum_name}"}}]}}]"#
    )
    .into_bytes();
    let base = "http://127.0.0.1:4001".to_string();
    let mut world = World::with(vec![
        ("releases?", Reply::Body(api_body)),
        (&archive_name, Reply::Body(tar_buf)),
        (&checksum_name, Reply::Body(checksum_body)),
    ]);
    let mut config = example("0.1.0");
    config.api_base = Some(base.clone());
    config.download_base = Some(base);
    let outcome = world.update(config, &host).unwrap();
    assert_eq!(outcome.latest_version, version);
    assert!(outcome.staged);
    assert!(outcome.promoted);
    assert!(outcome.note.is_none());
    let installed = format!("{ROOT}/{}", executable_file_name(&host, "toolx"));
    assert!(!world
        .files
        .contains_key(&format!("{ROOT}/{}", staged_executable_file_name(&host, "toolx"))));
    assert_eq!(world.files[&installed], payload);
    assert!(world.executable.contains(&installed));
    assert_eq!(outcome.installed_path, installed);
    assert_eq!(
        world.done,
        vec![
            "Send",
            "ReadBody",
            "Locate",
            "CreateDir",
            "Send",
            "ReadBody",
            "Send",
            "ReadBody",
            "MakeTempDir",
            "Unpack",
            "ProbeUnpacked",
            "CreateParent",
            "CopyBeside",
            "Persist",
            "MarkExecutable",
            "Probe",
            "CreateParent",
            "MarkExecutable",
            "Rename",
            "MarkExecutable",
        ]
    );
}

#[test]
fn run_update_is_noop_when_latest_is_not_newer() {
    let host = linux();
    let target = release_target(&host).unwrap();
    let api_body = format!(
        r#"[{{"tag_name":"v0.1.0","assets":[{{"name":"toolx-0.1.0-{target}.tar.gz"}},{{"name":"toolx-0.1.0-{target}.sha256"}}]}}]"#
    )
    .into_bytes();
    let mut world = World::with(vec![("releases?", Reply::Body(api_body))]);
    let outcome = world.update(example("0.1.0"), &host).unwrap();
    assert!(!outcome.staged);
    assert!(!outcome.promoted);
    assert_eq!(
        outcome.note.as_deref(),
        Some("no update needed; latest is 0.1.0 and current is 0.1.0")
    );
    assert!(world.files.is_empty());
    assert_eq!(world.done, vec!["Send", "ReadBody", "Locate"]);
}

#[test]
fn stage_next_errors_when_release_is_missing_the_expected_asset() {
    let mut world = World::default();
    let latest = release("9.9.9", vec!["some-unrelated-asset.txt".to_string()]);
    let err = world.stage(example("0.1.0"), &linux(), &latest).unwrap_err();
    assert!(err.full_message().contains("has no asset"));
    assert_eq!(
        err.full_message(),
        r#"release v9.9.9 has no asset toolx-9.9.9-x86_64-linux.tar.gz (available: ["some-unrelated-asset.txt"])"#
    );
    assert!(world.files.is_empty());
    assert_eq!(world.done, vec!["CreateDir"]);
}

#[test]
fn stage_next_rejects_checksum_mismatch_and_stages_nothing() {
    let host = linux();
    let target = release_target(&host).unwrap();
    let version = "9.9.9";
    let archive_name = format!("toolx-{version}-{target}.tar.gz");
    let checksum_name = format!("toolx-{version}-{target}.sha256");
    let inner = format!("toolx-{version}-{target}/toolx");
    let tarball = gzip_tar_with_entry(&inner, b"portable payload\n");
    let bad_checksum = format!("{}  {archive_name}\n", "0".repeat(64)).into_bytes();
    let mut world = World::with(vec![
        (&archive_name, Reply::Body(tarball)),
        (&checksum_name, Reply::Body(bad_checksum)),
    ]);
    let latest = release(version, vec![archive_name, checksum_name]);
    let err = world.stage(example("0.1.0"), &host, &latest).unwrap_err();
    assert!(err.full_message().contains("checksum mismatch"));
    assert!(world.files.is_empty());
    assert!(!world.done.contains(&"Unpack"));
}

#[test]
fn stage_next_errors_when_archive_lacks_expected_binary() {
    let host = linux();
    let target = release_target(&host).unwrap();
    let version = "9.9.9";
    let archive_name = format!("toolx-{version}-{target}.tar.gz");
    let checksum_name = format!("toolx-{version}-{target}.sha256");
    let tarball = gzip_tar_with_entry("some-other-dir/not-toolx", b"payload\n");
    let good_checksum = format!("{}  {archive_name}\n", digest(&tarball)).into_bytes();
    let mut world = World::with(vec![
        (&archive_name, Reply::Body(tarball)),
        (&checksum_name, Reply::Body(good_checksum)),
    ]);
    let latest = release(version, vec![archive_name, checksum_name]);
    let err = world.stage(example("0.1.0"), &host, &latest).unwrap_err();
    assert!(err.full_message().contains("did not contain"));
    assert_eq!(
        err.full_message(),
        "release archive toolx-9.9.9-x86_64-linux.tar.gz did not contain toolx-9.9.9-x86_64-linux/toolx"
    );
    assert!(world.files.is_empty());
}

fn staging_that_fails_at(refused: &'static str) -> (World, Failure) {
    let host = linux();
    let archive_name = "toolx-9.9.9-x86_64-linux.tar.gz".to_string();
    let checksum_name = "toolx-9.9.9-x86_64-linux.sha256".to_string();
    let tarball = gzip_tar_with_entry("toolx-9.9.9-x86_64-linux/toolx", b"payload\n");
    let sum = digest(&tarball).into_bytes();
    let mut world = World::with(vec![
        (&archive_name, Reply::Body(tarball)),
        (&checksum_name, Reply::Body(sum)),
    ]);
    world.refused = Some(refused);
    let latest = release("9.9.9", vec![archive_name, checksum_name]);
    let failure = world.stage(example("0.1.0"), &host, &latest).unwrap_err();
    (world, failure)
}

#[test]
fn each_step_of_a_staging_can_fail() {
    let message = |refused: &'static str| staging_that_fails_at(refused).1.full_message();
    assert_eq!(
        message("CreateDir"),
        format!("create {ROOT}: the disk: no such thing")
    );
    assert_eq!(
        message("MakeTempDir"),
        "create tempdir for staging release tarball: the disk: no such thing"
    );
    assert_eq!(
        message("Unpack"),
        "unpack toolx-9.9.9-x86_64-linux.tar.gz: the disk: no such thing"
    );
    assert_eq!(message("CreateParent"), "the disk: no such thing");
    assert_eq!(message("CopyBeside"), "the disk: no such thing");
    assert_eq!(
        message("Persist"),
        format!("persist {ROOT}/toolx_next failed: the disk")
    );
    assert_eq!(message("MarkExecutable"), "the disk: no such thing");
    assert!(staging_that_fails_at("Persist").0.files.is_empty());
}

#[test]
fn a_checksum_file_must_be_text() {
    let host = linux();
    let archive_name = "toolx-9.9.9-x86_64-linux.tar.gz".to_string();
    let checksum_name = "toolx-9.9.9-x86_64-linux.sha256".to_string();
    let staging = |sum: Reply| {
        let mut world = World::with(vec![
            (&archive_name, Reply::Body(b"archive".to_vec())),
            (&checksum_name, sum),
        ]);
        let latest = release("9.9.9", vec![archive_name.clone(), checksum_name.clone()]);
        world
            .stage(example("0.1.0"), &host, &latest)
            .unwrap_err()
            .full_message()
    };
    assert_eq!(
        staging(Reply::Body(vec![0x61, 0xff])),
        "checksum was not UTF-8: invalid utf-8 sequence of 1 bytes from index 1"
    );
    assert_eq!(
        staging(Reply::Body(b" \n".to_vec())),
        "checksum file for toolx-9.9.9-x86_64-linux.tar.gz was empty"
    );
    assert_eq!(
        staging(Reply::Cut {
            timed_out: false,
            error: "cut short"
        }),
        "cut short"
    );
}

#[test]
fn run_update_installs_the_fallback_release_and_explains_why() {
    let host = linux();
    let target = release_target(&host).unwrap();
    let other = "aarch64-darwin";
    let version = "0.0.41";
    let archive_name = format!("toolx-{version}-{target}.tar.gz");
    let checksum_name = format!("toolx-{version}-{target}.sha256");
    let inner = format!("toolx-{version}-{target}/toolx");
    let payload = b"fallback release payload\n";
    let tarball = gzip_tar_with_entry(&inner, payload);
    let checksum_body = format!("{}  {archive_name}\n", digest(&tarball)).into_bytes();
    let api_body = releases_feed(&[("v0.0.42", &[other]), ("v0.0.41", &[&target])]);
    let mut world = World::with(vec![
        ("releases?", Reply::Body(api_body)),
        (&archive_name, Reply::Body(tarball)),
        (&checksum_name, Reply::Body(checksum_body)),
    ]);
    let outcome = world.update(example("0.0.27"), &host).unwrap();
    assert_eq!(outcome.latest_version, version);
    assert!(outcome.staged && outcome.promoted);
    let note = outcome.note.unwrap();
    assert!(note.contains("v0.0.42") && note.contains(&target) && note.contains("v0.0.41"));
    assert_eq!(world.files[&format!("{ROOT}/toolx")], payload);
}

#[test]
fn run_update_noop_note_explains_a_platform_incomplete_newer_release() {
    let host = linux();
    let target = release_target(&host).unwrap();
    let other = "aarch64-darwin";
    let api_body = releases_feed(&[("v0.0.42", &[other]), ("v0.0.41", &[&target])]);
    let mut world = World::with(vec![("releases?", Reply::Body(api_body))]);
    let outcome = world.update(example("0.0.41"), &host).unwrap();
    assert!(!outcome.staged && !outcome.promoted);
    let note = outcome.note.unwrap();
    assert!(note.contains("no update needed") && note.contains("v0.0.42"));
    assert_eq!(
        note,
        "no update needed; latest is 0.0.41 and current is 0.0.41; v0.0.42 has no x86_64-linux release asset; selecting v0.0.41 instead"
    );
}

#[test]
fn run_update_on_windows_stays_staged_and_says_what_to_do() {
    let host = windows();
    let target = release_target(&host).unwrap();
    assert_eq!(target, "x86_64-windows");
    let archive_name = format!("toolx-2.0.0-{target}.tar.gz");
    let checksum_name = format!("toolx-2.0.0-{target}.sha256");
    let tarball = gzip_tar_with_entry(&format!("toolx-2.0.0-{target}/toolx.exe"), b"new");
    let sum = digest(&tarball).into_bytes();
    let api_body = releases_feed(&[("v2.1.0", &[]), ("v2.0.0", &[&target])]);
    let mut world = World::with(vec![
        ("releases?", Reply::Body(api_body)),
        (&archive_name, Reply::Body(tarball)),
        (&checksum_name, Reply::Body(sum)),
    ]);
    let installed = format!("{ROOT}/toolx.exe");
    let next = format!("{ROOT}/toolx_next.exe");
    world.files.insert(installed.clone(), b"old".to_vec());
    let outcome = world.update(example("1.0.0"), &host).unwrap();
    assert!(outcome.staged && !outcome.promoted);
    assert_eq!(world.files[&installed], b"old");
    assert_eq!(world.files[&next], b"new");
    assert_eq!(
        outcome.note.unwrap(),
        format!(
            "v2.1.0 has no x86_64-windows release asset; selecting v2.0.0 instead; update staged at {next}; Windows cannot safely replace an existing/running executable; close all tool processes, then replace {installed} with the staged file (or use the host installer/bootstrapper)"
        )
    );
}

#[test]
fn private_update_uses_asset_api_ids_and_strips_auth_on_signed_redirect() {
    let host = linux();
    let target = release_target(&host).unwrap();
    let version = "9.9.9";
    let archive_name = format!("toolx-{version}-{target}.tar.gz");
    let checksum_name = format!("toolx-{version}-{target}.sha256");
    let payload = b"private portable payload\n";
    let tarball = gzip_tar_with_entry(&format!("toolx-{version}-{target}/toolx"), payload);
    let checksum_body = format!("{}  {archive_name}\n", digest(&tarball)).into_bytes();
    let api_body = format!(
        r#"[{{"tag_name":"v{version}","assets":[{{"id":1001,"name":"{archive_name}","browser_download_url":"https://github.invalid/browser-archive"}},{{"id":1002,"name":"{checksum_name}","browser_download_url":"https://github.invalid/browser-checksum"}}]}}]"#
    )
    .into_bytes();
    let signed_base = "http://127.0.0.1:4002";
    let api_base = "http://127.0.0.1:4001";
    let mut world = World::with(vec![
        ("signed-archive", Reply::Body(tarball)),
        ("releases?", Reply::Body(api_body)),
        (
            "/releases/assets/1001",
            Reply::Redirect(format!("{signed_base}/signed-archive?signature=opaque")),
        ),
        ("/releases/assets/1002", Reply::Body(checksum_body)),
    ]);
    let mut config = example("0.1.0").with_github_token("secret-xyz");
    config.api_base = Some(api_base.to_string());
    let outcome = world.update(config, &host).unwrap();
    assert!(outcome.promoted);
    assert_eq!(world.files[&format!("{ROOT}/toolx")], payload);

    let (api, signed): (Vec<&Sent>, Vec<&Sent>) = world
        .sent
        .iter()
        .partition(|sent| sent.url.starts_with(api_base));
    assert_eq!(api.len(), 3);
    assert!(api[1]
        .url
        .contains("/repos/octocat/example/releases/assets/1001"));
    assert!(api[2]
        .url
        .contains("/repos/octocat/example/releases/assets/1002"));
    for sent in api {
        assert_eq!(sent.authorization.as_deref(), Some("Bearer secret-xyz"));
        if sent.url.contains("/releases/assets/") {
            assert_eq!(sent.accept.as_deref(), Some("application/octet-stream"));
        }
    }
    assert_eq!(signed.len(), 1);
    assert_eq!(signed[0].authorization, None);
    assert!(!signed[0].follow);
}

#[test]
fn public_update_uses_browser_download_urls_without_authentication() {
    let host = linux();
    let target = release_target(&host).unwrap();
    let version = "9.9.9";
    let archive_name = format!("toolx-{version}-{target}.tar.gz");
    let checksum_name = format!("toolx-{version}-{target}.sha256");
    let tarball = gzip_tar_with_entry(
        &format!("toolx-{version}-{target}/toolx"),
        b"public portable payload\n",
    );
    let checksum_body = format!("{}  {archive_name}\n", digest(&tarball)).into_bytes();
    let download_base = "http://127.0.0.1:4003";
    let api_body = format!(
        r#"[{{"tag_name":"v{version}","assets":[{{"id":2001,"name":"{archive_name}","browser_download_url":"{download_base}/public/archive"}},{{"id":2002,"name":"{checksum_name}","browser_download_url":"{download_base}/public/checksum"}}]}}]"#
    )
    .into_bytes();
    let mut world = World::with(vec![
        ("/public/archive", Reply::Body(tarball)),
        ("/public/checksum", Reply::Body(checksum_body)),
        ("releases?", Reply::Body(api_body)),
    ]);
    let mut config = example("0.1.0");
    config.api_base = Some("http://127.0.0.1:4001".to_string());
    config.http_timeout = Some(Duration::from_secs(5));
    let outcome = world.update(config, &host).unwrap();
    assert!(outcome.promoted);
    assert_eq!(world.sent[0].authorization, None);
    assert_eq!(world.sent.len(), 3);
    assert!(world.sent[1].url.contains("/public/archive"));
    assert!(world.sent[2].url.contains("/public/checksum"));
    for sent in &world.sent[1..] {
        assert_eq!(sent.authorization, None);
        assert_ne!(sent.accept.as_deref(), Some("application/octet-stream"));
        assert_eq!(sent.timeout, Duration::from_secs(5));
    }
}

#[test]
fn anonymous_asset_404_suggests_private_release_authentication() {
    let host = linux();
    let target = release_target(&host).unwrap();
    let version = "9.9.9";
    let archive_name = format!("toolx-{version}-{target}.tar.gz");
    let checksum_name = format!("toolx-{version}-{target}.sha256");
    let download_base = "http://127.0.0.1:4003";
    let api_body = format!(
        r#"[{{"tag_name":"v{version}","assets":[{{"id":3001,"name":"{archive_name}","browser_download_url":"{download_base}/private/archive"}},{{"id":3002,"name":"{checksum_name}","browser_download_url":"{download_base}/private/checksum"}}]}}]"#
    )
    .into_bytes();
    let mut world = World::with(vec![
        ("/private/archive", Reply::Status(404)),
        ("releases?", Reply::Body(api_body)),
    ]);
    let message = world
        .update(example("0.1.0"), &host)
        .unwrap_err()
        .full_message();
    assert!(message.contains("HTTP 404"));
    assert!(message.contains("private release"));
    assert!(message.contains("with_github_token"));
}

#[test]
fn a_redirect_of_the_feed_without_a_place_is_read_as_it_is() {
    let mut world = World::with(vec![("releases?", Reply::Bare(304))]);
    world.body = Some(Ok(b"[]".to_vec()));
    let error = world.check(example("0.1.0"), &linux()).unwrap_err();
    assert!(error.message.contains("drafts and prereleases are ignored"));
}

#[test]
fn an_answer_out_of_turn_ends_a_flow() {
    let host = linux();
    let updater = Updater::new(example("0.1.0"));
    let starts: Vec<Failure> = vec![
        match updater.current_status(&host) {
            Step::Do { then, .. } => match then.advance(Event::Finished) {
                Step::Done(Err(failure)) => failure,
                _ => panic!("the flow goes on"),
            },
            _ => panic!("the flow does not begin"),
        },
        match updater.check_latest(&host) {
            Step::Do { then, .. } => match then.advance(Event::Finished) {
                Step::Done(Err(failure)) => failure,
                _ => panic!("the flow goes on"),
            },
            _ => panic!("the flow does not begin"),
        },
        match updater.promote_next(&host) {
            Step::Do { then, .. } => match then.advance(Event::Finished) {
                Step::Done(Err(failure)) => failure,
                _ => panic!("the flow goes on"),
            },
            _ => panic!("the flow does not begin"),
        },
        match updater.stage_next(&host, &release("1.0.0", Vec::new())) {
            Step::Do { then, .. } => match then.advance(Event::Exists(true)) {
                Step::Done(Err(failure)) => failure,
                _ => panic!("the flow goes on"),
            },
            _ => panic!("the flow does not begin"),
        },
    ];
    for failure in starts {
        assert_eq!(failure.message, "the answer does not fit what was asked");
    }
}

#[test]
fn a_missing_home_is_a_failure_of_every_operation_that_needs_it() {
    let mut host = linux();
    host.home = None;
    let bare = || UpdaterConfig::new("toolx", "0.1.0", "octocat/example");
    let message = "HOME is unset; cannot resolve default install dir";
    let mut world = World::default();
    assert_eq!(world.status(bare(), &host).unwrap_err().message, message);
    assert_eq!(world.promote(bare(), &host).unwrap_err().message, message);
    let latest = release("1.0.0", Vec::new());
    assert_eq!(
        world.stage(bare(), &host, &latest).unwrap_err().message,
        message
    );
    assert!(world.done.is_empty());
}
