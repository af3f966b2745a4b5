//! The host that a tool runs on: its platform, and where tools are installed there.

use crate::failure::{plain, seen, Failure, Messages};
use crate::text::same;
use std::path::PathBuf;
use vstd::prelude::*;
use vstd::string::*;

verus! {

/// The family of operating systems that the host belongs to.
#[derive(Debug, Clone, Copy, PartialEq, Eq, Structural)]
pub enum Family {
    Unix,
    Windows,
    Other,
}

/// What the library needs to know of the host.
#[derive(Debug, Clone)]
pub struct Host {
    /// The family of the operating system.
    pub family: Family,
    /// The operating system, as `std::env::consts::OS` names it.
    pub os: String,
    /// The processor, as `std::env::consts::ARCH` names it.
    pub arch: String,
    /// `HOME`, where it is set.
    pub home: Option<PathBuf>,
    /// `LOCALAPPDATA`, where it is set.
    pub local_app_data: Option<PathBuf>,
    /// `USERPROFILE`, where it is set.
    pub user_profile: Option<PathBuf>,
}

impl Host {
    /// Whether the host is a Windows host.
    pub open spec fn is_windows(self) -> bool {
        self.family == Family::Windows
    }

    /// Whether the host is a Windows host.
    pub fn windows(&self) -> (r: bool)
        ensures
            r == self.is_windows(),
    {
        match self.family {
            Family::Windows => true,
            _ => false,
        }
    }
}

/// A path that is yet to be put together: `base`, to which the `parts` are joined one after
/// the other.
#[derive(Debug)]
pub struct InstallPath {
    pub base: PathBuf,
    pub parts: Vec<String>,
}

/// What an [`InstallPath`] holds.
pub struct PathView {
    pub base: PathBuf,
    pub parts: Seq<Seq<char>>,
}

impl PathView {
    /// This path with one more part joined to it.
    pub open spec fn joined_with(self, part: Seq<char>) -> PathView {
        PathView { base: self.base, parts: self.parts.push(part) }
    }
}

impl View for InstallPath {
    type V = PathView;

    open spec fn view(&self) -> PathView {
        PathView { base: self.base, parts: self.parts.deep_view() }
    }
}

impl DeepView for InstallPath {
    type V = PathView;

    open spec fn deep_view(&self) -> PathView {
        self@
    }
}

impl Clone for InstallPath {
    fn clone(&self) -> (r: Self)
        ensures
            r@ == self@,
    {
        let r = InstallPath { base: self.base.clone(), parts: self.parts.clone() };
        proof {
            assert(r@.parts =~= self@.parts);
        }
        r
    }
}

impl InstallPath {
    /// The path that is `base` itself.
    pub fn new(base: PathBuf) -> (r: InstallPath)
        ensures
            r@ == (PathView { base, parts: seq![] }),
    {
        let r = InstallPath { base, parts: Vec::new() };
        proof {
            assert(r@.parts =~= seq![]);
        }
        r
    }

    /// This path with one more part joined to it.
    pub fn join(self, part: &str) -> (r: InstallPath)
        ensures
            r@ == self@.joined_with(part@),
    {
        let mut parts: Vec<String> = self.parts;
        let ghost before = parts.deep_view();
        parts.push(part.to_owned());
        proof {
            assert(parts.deep_view() =~= before.push(part@));
        }
        InstallPath { base: self.base, parts }
    }
}

/// The paths that an update is about.
#[derive(Debug)]
pub struct Locations {
    /// The directory that the tool is installed in.
    pub install_dir: InstallPath,
    /// The installed binary.
    pub installed: InstallPath,
    /// The staged binary.
    pub next: InstallPath,
}

/// What a [`Locations`] holds.
pub struct LocationsView {
    pub install_dir: PathView,
    pub installed: PathView,
    pub next: PathView,
}

impl View for Locations {
    type V = LocationsView;

    open spec fn view(&self) -> LocationsView {
        LocationsView {
            install_dir: self.install_dir@,
            installed: self.installed@,
            next: self.next@,
        }
    }
}

impl DeepView for Locations {
    type V = LocationsView;

    open spec fn deep_view(&self) -> LocationsView {
        self@
    }
}

impl Clone for Locations {
    fn clone(&self) -> (r: Self)
        ensures
            r@ == self@,
    {
        Locations {
            install_dir: self.install_dir.clone(),
            installed: self.installed.clone(),
            next: self.next.clone(),
        }
    }
}

/// How the platform writes the paths that an update is about.
#[derive(Debug, Clone)]
pub struct LocationTexts {
    /// The directory that the tool is installed in.
    pub install_dir: String,
    /// The installed binary.
    pub installed: String,
    /// The staged binary.
    pub next: String,
}

/// What a [`LocationTexts`] holds.
pub struct TextsView {
    pub install_dir: Seq<char>,
    pub installed: Seq<char>,
    pub next: Seq<char>,
}

impl View for LocationTexts {
    type V = TextsView;

    open spec fn view(&self) -> TextsView {
        TextsView {
            install_dir: self.install_dir@,
            installed: self.installed@,
            next: self.next@,
        }
    }
}

/// How release assets name an operating system.
pub open spec fn os_suffix(os: Seq<char>) -> Option<Seq<char>> {
    if os == "linux"@ {
        Some("linux"@)
    } else if os == "macos"@ {
        Some("darwin"@)
    } else if os == "windows"@ {
        Some("windows"@)
    } else {
        None
    }
}

/// How release assets name a processor.
pub open spec fn arch_prefix(arch: Seq<char>) -> Option<Seq<char>> {
    if arch == "x86_64"@ {
        Some("x86_64"@)
    } else if arch == "aarch64"@ || arch == "arm64"@ {
        Some("aarch64"@)
    } else {
        None
    }
}

/// The suffix of the release assets for an operating system and a processor: `<arch>-<os>`.
/// Of Windows only the one for `x86_64` exists.
pub open spec fn target_of(os: Seq<char>, arch: Seq<char>) -> Result<Seq<char>, Messages> {
    match (os_suffix(os), arch_prefix(arch)) {
        (None, _) => Err(plain("unsupported updater OS "@ + os)),
        (_, None) => Err(plain("unsupported updater arch "@ + arch)),
        (Some(o), Some(a)) => if o == "windows"@ && a != "x86_64"@ {
            Err(
                plain(
                    "unsupported Windows updater arch "@ + a
                        + "; canonical assets use x86_64-windows"@,
                ),
            )
        } else {
            Ok(a + "-"@ + o)
        },
    }
}

/// The suffix of the release assets for the operating system `os` on the processor `arch`.
pub fn release_target_for(os: &str, arch: &str) -> (r: Result<String, Failure>)
    ensures
        seen(r) == target_of(os@, arch@),
{
    let os_name: &str = if same(os, "linux") {
        "linux"
    } else if same(os, "macos") {
        "darwin"
    } else if same(os, "windows") {
        "windows"
    } else {
        return Err(Failure::new("unsupported updater OS ".to_owned().concat(os)));
    };
    let arch_name: &str = if same(arch, "x86_64") {
        "x86_64"
    } else if same(arch, "aarch64") || same(arch, "arm64") {
        "aarch64"
    } else {
        return Err(Failure::new("unsupported updater arch ".to_owned().concat(arch)));
    };
    if same(os_name, "windows") && !same(arch_name, "x86_64") {
        return Err(
            Failure::new(
                "unsupported Windows updater arch ".to_owned().concat(arch_name).concat(
                    "; canonical assets use x86_64-windows",
                ),
            ),
        );
    }
    Ok(arch_name.to_owned().concat("-").concat(os_name))
}

/// The suffix of the release assets for the host.
pub fn release_target(host: &Host) -> (r: Result<String, Failure>)
    ensures
        seen(r) == target_of(host.os@, host.arch@),
{
    release_target_for(host.os.as_str(), host.arch.as_str())
}

/// The file name of the installed tool: its name, with `.exe` on Windows.
pub open spec fn executable_name(windows: bool, tool_name: Seq<char>) -> Seq<char> {
    if windows {
        tool_name + ".exe"@
    } else {
        tool_name
    }
}

/// The file name of the staged tool: its name and `_next`, with `.exe` on Windows.
pub open spec fn staged_name(windows: bool, tool_name: Seq<char>) -> Seq<char> {
    if windows {
        tool_name + "_next.exe"@
    } else {
        tool_name + "_next"@
    }
}

/// The file name of the installed tool on `host`.
pub fn executable_file_name(host: &Host, tool_name: &str) -> (r: String)
    ensures
        r@ == executable_name(host.is_windows(), tool_name@),
{
    if host.windows() {
        tool_name.to_owned().concat(".exe")
    } else {
        tool_name.to_owned()
    }
}

/// The file name of the staged tool on `host`.
pub fn staged_executable_file_name(host: &Host, tool_name: &str) -> (r: String)
    ensures
        r@ == staged_name(host.is_windows(), tool_name@),
{
    if host.windows() {
        tool_name.to_owned().concat("_next.exe")
    } else {
        tool_name.to_owned().concat("_next")
    }
}

/// What to tell the user when Windows keeps an update from being put in place.
pub open spec fn deferred_note(next: Seq<char>, installed: Seq<char>) -> Seq<char> {
    "update staged at "@ + next
        + "; Windows cannot safely replace an existing/running executable; close all tool processes, then replace "@
        + installed + " with the staged file (or use the host installer/bootstrapper)"@
}

/// What to tell the user when Windows keeps the update at `next` from replacing `installed`.
pub fn windows_deferred_promotion_note(next: &str, installed: &str) -> (r: String)
    ensures
        r@ == deferred_note(next@, installed@),
{
    let head: String = "update staged at ".to_owned().concat(next).concat(
        "; Windows cannot safely replace an existing/running executable; close all tool processes, then replace ",
    );
    head.concat(installed).concat(" with the staged file (or use the host installer/bootstrapper)")
}

/// The staged file is never the installed one.
pub proof fn law_staged_name_differs(windows: bool, tool_name: Seq<char>)
    ensures
        staged_name(windows, tool_name) != executable_name(windows, tool_name),
{
    reveal_strlit(".exe");
    reveal_strlit("_next.exe");
    reveal_strlit("_next");
    assert(staged_name(windows, tool_name).len() != executable_name(windows, tool_name).len());
}

/// On Windows the one target that releases have assets for is `x86_64-windows`.
pub proof fn law_windows_target(arch: Seq<char>)
    ensures
        target_of("windows"@, arch) matches Ok(target) ==> target == "x86_64"@ + "-"@ + "windows"@,
        arch == "x86_64"@ ==> target_of("windows"@, arch) is Ok,
{
    reveal_strlit("windows");
    reveal_strlit("linux");
    reveal_strlit("macos");
    assert("windows"@.len() != "linux"@.len());
    assert("windows"@.len() != "macos"@.len());
}

} // verus!
