//! Laws of the platform: what releases call it, and what files are called on it.

use crate::host::{deferred_note, executable_name, staged_name, target_of, Host};
use vstd::prelude::*;
use vstd::string::*;

verus! {

/// What the names of systems and processors are made of tells them apart.
proof fn lemma_names_differ()
    ensures
        "linux"@ != "macos"@,
        "linux"@ != "windows"@,
        "macos"@ != "windows"@,
        "x86_64"@ != "aarch64"@,
        "x86_64"@ != "arm64"@,
        "darwin"@ != "windows"@,
{
    reveal_strlit("linux");
    reveal_strlit("macos");
    reveal_strlit("windows");
    reveal_strlit("darwin");
    reveal_strlit("x86_64");
    reveal_strlit("aarch64");
    reveal_strlit("arm64");
    assert("linux"@[0] == 'l');
    assert("macos"@[0] == 'm');
    assert("windows"@[0] == 'w');
    assert("darwin"@[0] == 'd');
    assert("x86_64"@[0] == 'x');
    assert("aarch64"@[0] == 'a');
    assert("arm64"@[0] == 'a');
}

/// There are five targets. Linux and macOS have one for each of the two kinds of processor, and
/// Windows one for `x86_64`; macOS goes by the name of `darwin`. Nothing else has a target.
pub proof fn law_targets(os: Seq<char>, arch: Seq<char>)
    ensures
        ({
            let arm = arch == "aarch64"@ || arch == "arm64"@;
            let known = arch == "x86_64"@ || arm;
            match target_of(os, arch) {
                Ok(target) => {
                    ||| os == "linux"@ && arch == "x86_64"@ && target == "x86_64-linux"@
                    ||| os == "linux"@ && arm && target == "aarch64-linux"@
                    ||| os == "macos"@ && arch == "x86_64"@ && target == "x86_64-darwin"@
                    ||| os == "macos"@ && arm && target == "aarch64-darwin"@
                    ||| os == "windows"@ && arch == "x86_64"@ && target == "x86_64-windows"@
                },
                Err(_) => {
                    &&& !(os == "linux"@ && known)
                    &&& !(os == "macos"@ && known)
                    &&& !(os == "windows"@ && arch == "x86_64"@)
                },
            }
        }),
{
    lemma_names_differ();
    reveal_strlit("x86_64");
    reveal_strlit("aarch64");
    reveal_strlit("-");
    reveal_strlit("linux");
    reveal_strlit("darwin");
    reveal_strlit("windows");
    reveal_strlit("x86_64-linux");
    reveal_strlit("aarch64-linux");
    reveal_strlit("x86_64-darwin");
    reveal_strlit("aarch64-darwin");
    reveal_strlit("x86_64-windows");
    assert("x86_64"@ + "-"@ + "linux"@ == "x86_64-linux"@);
    assert("aarch64"@ + "-"@ + "linux"@ == "aarch64-linux"@);
    assert("x86_64"@ + "-"@ + "darwin"@ == "x86_64-darwin"@);
    assert("aarch64"@ + "-"@ + "darwin"@ == "aarch64-darwin"@);
    assert("x86_64"@ + "-"@ + "windows"@ == "x86_64-windows"@);
}

/// A processor that goes by two names has the same target under both, on every system.
pub proof fn law_arm64_is_aarch64(os: Seq<char>)
    ensures
        target_of(os, "arm64"@) == target_of(os, "aarch64"@),
{
    lemma_names_differ();
}

/// Where there is no target, one message says why: it ends with the name of the system, if that is
/// not known, else with the name of the processor, if that is not known; and for Windows it names
/// the one target that there is.
pub proof fn law_why_there_is_no_target(os: Seq<char>, arch: Seq<char>)
    ensures
        target_of(os, arch) matches Err(why) ==> {
            &&& why.len() == 1
            &&& os != "linux"@ && os != "macos"@ && os != "windows"@ ==> why[0]
                == "unsupported updater OS "@ + os
            &&& os == "linux"@ || os == "macos"@ ==> why[0] == "unsupported updater arch "@ + arch
            &&& os == "windows"@ ==> why[0] == (if arch == "aarch64"@ || arch == "arm64"@ {
                "unsupported Windows updater arch aarch64; canonical assets use x86_64-windows"@
            } else {
                "unsupported updater arch "@ + arch
            })
        },
{
    lemma_names_differ();
    reveal_strlit("aarch64");
    reveal_strlit("unsupported Windows updater arch ");
    reveal_strlit("; canonical assets use x86_64-windows");
    reveal_strlit("unsupported Windows updater arch aarch64; canonical assets use x86_64-windows");
    assert("unsupported Windows updater arch "@ + "aarch64"@
        + "; canonical assets use x86_64-windows"@
        == "unsupported Windows updater arch aarch64; canonical assets use x86_64-windows"@);
}

/// Two hosts of the same family are both Windows hosts or both not, and of the families only one is
/// that of Windows.
pub proof fn law_windows_is_a_family(a: Host, b: Host)
    ensures
        a.family == b.family ==> a.is_windows() == b.is_windows(),
        a.family is Windows <==> a.is_windows(),
        a.family is Unix || a.family is Other ==> !a.is_windows(),
{
}

/// A tool is a file of its own name, on Windows with `.exe` behind it. What is staged for it is
/// the file that a tool would be whose name has `_next` behind it.
pub proof fn law_file_names(windows: bool, tool: Seq<char>)
    ensures
        executable_name(false, tool) == tool,
        executable_name(true, tool) == tool + ".exe"@,
        staged_name(windows, tool) == executable_name(windows, tool + "_next"@),
{
    reveal_strlit("_next");
    reveal_strlit(".exe");
    reveal_strlit("_next.exe");
    assert("_next"@ + ".exe"@ == "_next.exe"@);
    assert(tool + "_next"@ + ".exe"@ == tool + ("_next"@ + ".exe"@));
}

/// What is told where Windows puts a promotion off names the staged file first, and then the one
/// that it is to replace.
pub proof fn law_deferred_note(next: Seq<char>, installed: Seq<char>)
    ensures
        ({
            let told = deferred_note(next, installed);
            let blank = deferred_note(seq![], seq![]);
            let n = "update staged at "@.len() as int;
            let m = "update staged at ; Windows cannot safely replace an existing/running executable; close all tool processes, then replace "@.len() as int;
            &&& blank
                == "update staged at ; Windows cannot safely replace an existing/running executable; close all tool processes, then replace  with the staged file (or use the host installer/bootstrapper)"@
            &&& told == blank.take(n) + next + blank.subrange(n, m) + installed + blank.skip(m)
        }),
{
    reveal_strlit("update staged at ");
    reveal_strlit(
        "; Windows cannot safely replace an existing/running executable; close all tool processes, then replace ",
    );
    reveal_strlit(" with the staged file (or use the host installer/bootstrapper)");
    reveal_strlit(
        "update staged at ; Windows cannot safely replace an existing/running executable; close all tool processes, then replace ",
    );
    reveal_strlit(
        "update staged at ; Windows cannot safely replace an existing/running executable; close all tool processes, then replace  with the staged file (or use the host installer/bootstrapper)",
    );
    let head = "update staged at "@;
    let middle = "; Windows cannot safely replace an existing/running executable; close all tool processes, then replace "@;
    let tail = " with the staged file (or use the host installer/bootstrapper)"@;
    let none = Seq::<char>::empty();
    let blank = deferred_note(none, none);
    assert(blank == head + middle + tail);
    let n = head.len() as int;
    let m = n + middle.len() as int;
    assert(blank.take(n) == head);
    assert(blank.subrange(n, m) == middle);
    assert(blank.skip(m) == tail);
}

} // verus!
