//! Laws of the configuration: what it leads to where it speaks and where it is silent.

use crate::config::{gh_arguments, gh_token, AssetStrategy, GhOutput, TokenSourceView, UpdaterConfig};
use crate::failure::Messages;
use crate::host::{Host, PathView};
use crate::laws::texts::{blank, law_trimmed_to_nothing};
use crate::outside::{debug_path_of, debug_text_of, whole_seconds};
use crate::text::trimmed;
use std::path::PathBuf;
use vstd::prelude::*;
use vstd::string::*;
use vstd::utf8::*;

verus! {

/// A configured directory is the install directory on every host.
pub proof fn law_configured_dir(config: UpdaterConfig, host: Host, dir: PathBuf)
    requires
        config.install_dir == Some(dir),
    ensures
        config.dir_on(host) matches Ok(path) && path.base == dir && path.parts.len() == 0,
{
}

/// Without one, a host that is not Windows installs in `.local` and `bin` below the home directory,
/// whatever the tool is called, and nowhere if there is no home directory.
pub proof fn law_unix_dir(config: UpdaterConfig, host: Host)
    requires
        config.install_dir is None,
        !host.is_windows(),
    ensures
        match (host.home, config.dir_on(host)) {
            (Some(home), Ok(path)) => path.base == home && path.parts == seq![".local"@, "bin"@],
            (None, Err(why)) => why == seq!["HOME is unset; cannot resolve default install dir"@],
            _ => false,
        },
{
}

/// Without one, Windows installs in a directory of the tool's name below `Programs`, in the local
/// application data or, where that is not set, where they are in the user's profile; and nowhere if
/// neither is set.
pub proof fn law_windows_dir(config: UpdaterConfig, host: Host)
    requires
        config.install_dir is None,
        host.is_windows(),
    ensures
        ({
            let own = seq!["Programs"@, config.tool_name@];
            match config.dir_on(host) {
                Ok(path) => {
                    ||| host.local_app_data == Some(path.base) && path.parts == own
                    ||| host.local_app_data is None && host.user_profile == Some(path.base)
                        && path.parts == seq!["AppData"@, "Local"@] + own
                },
                Err(why) => host.local_app_data is None && host.user_profile is None && why == seq![
                    "LOCALAPPDATA and USERPROFILE are unset; cannot resolve default Windows install dir"@,
                ],
            }
        }),
{
    assert(seq!["AppData"@, "Local"@] + seq!["Programs"@, config.tool_name@] == seq![
        "AppData"@,
        "Local"@,
        "Programs"@,
        config.tool_name@,
    ]);
}

/// Whether `file` is the file `name` in the directory `dir`.
pub open spec fn lies_in(file: PathView, dir: PathView, name: Seq<char>) -> bool {
    &&& file.base == dir.base
    &&& file.parts.len() == dir.parts.len() + 1
    &&& file.parts.drop_last() == dir.parts
    &&& file.parts.last() == name
}

/// The installed and the staged binary lie side by side in the install directory, under the name of
/// the tool and under that with `_next`, on Windows with `.exe` behind both. Where there is no
/// install directory there is neither, for the same reason.
pub proof fn law_binaries_lie_in_the_dir(config: UpdaterConfig, host: Host)
    ensures
        match config.dir_on(host) {
            Ok(dir) => {
                let tool = config.tool_name@;
                let (name, staged) = if host.is_windows() {
                    (tool + ".exe"@, tool + "_next.exe"@)
                } else {
                    (tool, tool + "_next"@)
                };
                &&& config.installed_on(host) matches Ok(installed) && lies_in(installed, dir, name)
                &&& config.next_on(host) matches Ok(next) && lies_in(next, dir, staged)
                &&& config.locations_on(host) matches Ok(locations) && locations.install_dir == dir
                    && lies_in(locations.installed, dir, name) && lies_in(
                    locations.next,
                    dir,
                    staged,
                )
            },
            Err(why) => {
                &&& config.installed_on(host) == Err::<PathView, Messages>(why)
                &&& config.next_on(host) == Err::<PathView, Messages>(why)
                &&& config.locations_on(host) matches Err(told) && told == why
            },
        },
{
    if let Ok(dir) = config.dir_on(host) {
        let installed = config.installed_on(host)->Ok_0;
        let next = config.next_on(host)->Ok_0;
        assert(installed.parts.drop_last() == dir.parts);
        assert(next.parts.drop_last() == dir.parts);
    }
}

/// What the configuration says is taken as it is; what it leaves open is GitHub itself, the name
/// and version of the tool as the user agent, and a minute.
pub proof fn law_defaults(config: UpdaterConfig)
    ensures
        config.user_agent matches Some(agent) ==> config.agent_text() == agent@,
        config.user_agent is None ==> config.agent_text() == config.tool_name@ + "-updater/"@
            + config.current_version@,
        config.api_base matches Some(base) ==> config.api_text() == base@,
        config.api_base is None ==> config.api_text() == "https://api.github.com"@,
        config.download_base matches Some(base) ==> config.download_text() == base@,
        config.download_base is None ==> config.download_text() == "https://github.com"@,
        config.http_timeout matches Some(limit) ==> config.time_limit() == limit,
        config.http_timeout is None ==> config.time_limit() == whole_seconds(60),
{
}

/// As many releases are looked at as the configuration says, where that is from one to a hundred;
/// else as many as comes nearest to it. Where it does not say, they are ten.
pub proof fn law_lookback(config: UpdaterConfig, other: int)
    requires
        1 <= other <= 100,
    ensures
        ({
            let n = config.lookback() as int;
            let wanted = match config.release_lookback {
                Some(wanted) => wanted as int,
                None => 10,
            };
            let distance = if n < wanted { wanted - n } else { n - wanted };
            let other_distance = if other < wanted { wanted - other } else { other - wanted };
            &&& 1 <= n <= 100
            &&& distance <= other_distance
            &&& 1 <= wanted <= 100 ==> n == wanted
        }),
{
}

/// The archive, its checksum and the directory that the binary is in share a stem: the tool, the
/// version and the target, with dashes between. The binary is called as it is when installed.
pub proof fn law_asset_names(
    config: UpdaterConfig,
    windows: bool,
    version: Seq<char>,
    target: Seq<char>,
)
    ensures
        ({
            let names = config.tendril_names(windows, version, target);
            let tool = config.tool_name@;
            let stem = tool + "-"@ + version + "-"@ + target;
            &&& names.archive == stem + ".tar.gz"@
            &&& names.checksum == stem + ".sha256"@
            &&& windows ==> names.binary_in_archive == stem + "/"@ + tool + ".exe"@
            &&& !windows ==> names.binary_in_archive == stem + "/"@ + tool
            &&& names.archive != names.checksum
        }),
{
    let stem = config.tool_name@ + "-"@ + version + "-"@ + target;
    let tool = config.tool_name@;
    let names = config.tendril_names(windows, version, target);
    assert(stem + "/"@ + (tool + ".exe"@) == stem + "/"@ + tool + ".exe"@);
    reveal_strlit(".tar.gz");
    reveal_strlit(".sha256");
    let n = stem.len() as int;
    assert(".tar.gz"@[1] == 't');
    assert(".sha256"@[1] == 's');
    assert(names.archive[n + 1] == 't');
    assert(names.checksum[n + 1] == 's');
}

/// `gh` is asked for the token of the account that is named, if it has a name, else of the active
/// one.
pub proof fn law_gh_arguments(name: Seq<char>)
    ensures
        gh_arguments(None) == seq!["auth"@, "token"@],
        name.len() > 0 ==> gh_arguments(Some(name)) == gh_arguments(None) + seq!["--user"@, name],
        name.len() == 0 ==> gh_arguments(Some(name)) == gh_arguments(None),
{
    assert(seq!["auth"@, "token"@] + seq!["--user"@, name] == seq![
        "auth"@,
        "token"@,
        "--user"@,
        name,
    ]);
}

/// The token that `gh` gives is what it printed, without the white space around it, where it
/// succeeded and printed text that is not blank; else there is none.
pub proof fn law_gh_token(output: Option<GhOutput>)
    ensures
        match gh_token(output) {
            Some(token) => {
                &&& output matches Some(given)
                &&& given.success
                &&& valid_utf8(given.stdout@)
                &&& !blank(decode_utf8(given.stdout@))
                &&& token == trimmed(decode_utf8(given.stdout@))
            },
            None => output matches Some(given) ==> !given.success || !valid_utf8(given.stdout@)
                || blank(decode_utf8(given.stdout@)),
        },
{
    if let Some(given) = output {
        law_trimmed_to_nothing(decode_utf8(given.stdout@));
    }
}

/// A configured token that is not blank is used, without the white space around it. Else the one
/// that `gh` gives is used, if an account is named or the fallback is on, and `gh` is asked by that
/// account. Else there is none.
pub proof fn law_token(config: UpdaterConfig, gh: Option<Seq<char>>)
    ensures
        ({
            let absent = config.github_token matches Some(token) ==> blank(token@);
            let asks = config.gh_account is Some || config.gh_token_fallback;
            &&& !absent ==> config.token_given(gh) == Some(trimmed(config.github_token->0@))
                && config.token_origin() == TokenSourceView::Explicit(
                trimmed(config.github_token->0@),
            )
            &&& absent && asks ==> config.token_given(gh) == gh && config.token_origin()
                == TokenSourceView::Gh(gh_arguments(config.gh_account.deep_view()))
            &&& absent && !asks ==> config.token_given(gh) is None && config.token_origin()
                == TokenSourceView::Anonymous
        }),
{
    if let Some(token) = config.github_token {
        law_trimmed_to_nothing(token@);
    }
}

/// What is shown to those who debug is the tool, its version, its repository, the naming of its
/// assets and the install directory, one after the other, each behind its name.
pub proof fn law_debug_text(config: UpdaterConfig)
    ensures
        ({
            let tool = "tool_name: "@ + debug_text_of(config.tool_name@);
            let version = "current_version: "@ + debug_text_of(config.current_version@);
            let repo = "repo_slug: "@ + debug_text_of(config.repo_slug@);
            let naming = "asset_strategy: "@ + (if config.asset_strategy
                == AssetStrategy::TendrilStyle {
                "TendrilStyle"@
            } else {
                "Custom(<fn>)"@
            });
            let dir = "install_dir: "@ + (match config.install_dir {
                Some(dir) => "Some("@ + debug_path_of(dir) + ")"@,
                None => "None"@,
            });
            config.shown() == "UpdaterConfig { "@ + tool + ", "@ + version + ", "@ + repo + ", "@
                + naming + ", "@ + dir + " }"@
        }),
{
    reveal_strlit("UpdaterConfig { ");
    reveal_strlit("tool_name: ");
    reveal_strlit("UpdaterConfig { tool_name: ");
    reveal_strlit(", ");
    reveal_strlit("current_version: ");
    reveal_strlit(", current_version: ");
    reveal_strlit("repo_slug: ");
    reveal_strlit(", repo_slug: ");
    reveal_strlit("asset_strategy: ");
    reveal_strlit(", asset_strategy: ");
    reveal_strlit("install_dir: ");
    reveal_strlit(", install_dir: ");
    assert("UpdaterConfig { tool_name: "@ == "UpdaterConfig { "@ + "tool_name: "@);
    assert(", current_version: "@ == ", "@ + "current_version: "@);
    assert(", repo_slug: "@ == ", "@ + "repo_slug: "@);
    assert(", asset_strategy: "@ == ", "@ + "asset_strategy: "@);
    assert(", install_dir: "@ == ", "@ + "install_dir: "@);
    let a = debug_text_of(config.tool_name@);
    let b = debug_text_of(config.current_version@);
    let c = debug_text_of(config.repo_slug@);
    let d = config.asset_strategy.shown();
    let e = match config.install_dir {
        Some(dir) => "Some("@ + debug_path_of(dir) + ")"@,
        None => "None"@,
    };
    lemma_regroup("UpdaterConfig { "@, "tool_name: "@, a);
    let one = "UpdaterConfig { "@ + ("tool_name: "@ + a);
    lemma_regroup_two(one, ", "@, "current_version: "@, b);
    let two = one + ", "@ + ("current_version: "@ + b);
    lemma_regroup_two(two, ", "@, "repo_slug: "@, c);
    let three = two + ", "@ + ("repo_slug: "@ + c);
    lemma_regroup_two(three, ", "@, "asset_strategy: "@, d);
    let four = three + ", "@ + ("asset_strategy: "@ + d);
    lemma_regroup_two(four, ", "@, "install_dir: "@, e);
}

/// It makes no difference which of three texts are put together first.
proof fn lemma_regroup(a: Seq<char>, b: Seq<char>, c: Seq<char>)
    ensures
        (a + b) + c == a + (b + c),
{
    assert((a + b) + c == a + (b + c));
}

/// Nor of four.
proof fn lemma_regroup_two(a: Seq<char>, b: Seq<char>, c: Seq<char>, d: Seq<char>)
    ensures
        a + (b + c) + d == a + b + (c + d),
{
    assert(a + (b + c) + d == a + b + (c + d));
}

} // verus!
