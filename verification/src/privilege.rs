//! Whether the program must be started again with administrator privileges, and
//! by which command.

use vstd::prelude::*;
use crate::text::replace::{replace, replaced};
use crate::text::{append_chars, chars_of, push_text, string_of, string_views};

verus! {

/// The platform that the program runs on.
#[derive(Debug, Clone, Copy, PartialEq, Eq, Structural)]
pub enum Platform {
    Linux,
    MacOs,
    /// Privileges are granted when the program is started; nothing is asked for
    /// later.
    Windows,
    Other,
}

/// What is to be done about privileges before the program goes on.
#[derive(Debug, Clone)]
pub enum Elevation {
    /// Nothing: the program has the privileges it needs, or gets them otherwise.
    Proceed,
    /// Run this command, which starts the program again with privileges, and
    /// leave with success.
    Relaunch { program: String, arguments: Vec<String> },
    /// The program cannot tell where its executable lies: say so, and leave with
    /// success.
    NoExecutable,
    /// No way to ask for privileges is known on this platform: say so, and leave
    /// with a failure.
    Unsupported,
}

/// What an [`Elevation`] holds.
pub enum ElevationView {
    Proceed,
    Relaunch { program: Seq<char>, arguments: Seq<Seq<char>> },
    NoExecutable,
    Unsupported,
}

impl View for Elevation {
    type V = ElevationView;

    open spec fn view(&self) -> ElevationView {
        match self {
            Elevation::Proceed => ElevationView::Proceed,
            Elevation::Relaunch { program, arguments } => ElevationView::Relaunch {
                program: program@,
                arguments: string_views(arguments@),
            },
            Elevation::NoExecutable => ElevationView::NoExecutable,
            Elevation::Unsupported => ElevationView::Unsupported,
        }
    }
}

/// The user id of the administrator.
pub const ROOT: u32 = 0;

/// The shell script that starts `exe` with administrator privileges: the path
/// between double quotes, each double quote in it behind a backslash.
pub open spec fn relaunch_script(exe: Seq<char>) -> Seq<char> {
    "do shell script \""@ + replace(exe, "\""@, "\\\""@) + "\" with administrator privileges"@
}

/// What is to be done on `platform` by a program that runs as user `euid` and
/// whose executable lies at `exe`.
pub open spec fn elevation(platform: Platform, euid: u32, exe: Option<Seq<char>>) -> ElevationView {
    if platform == Platform::Windows || euid == ROOT {
        ElevationView::Proceed
    } else {
        match exe {
            None => ElevationView::NoExecutable,
            Some(path) => match platform {
                Platform::Linux => ElevationView::Relaunch {
                    program: "pkexec"@,
                    arguments: seq![path],
                },
                Platform::MacOs => ElevationView::Relaunch {
                    program: "osascript"@,
                    arguments: seq!["-e"@, relaunch_script(path)],
                },
                _ => ElevationView::Unsupported,
            },
        }
    }
}

/// Computes [`relaunch_script`].
pub fn script_for(exe: &str) -> (r: String)
    ensures
        r@ == relaunch_script(exe@),
{
    let mut out: Vec<char> = chars_of("do shell script \"");
    let escaped = replaced(
        chars_of(exe).as_slice(),
        chars_of("\"").as_slice(),
        chars_of("\\\"").as_slice(),
    );
    append_chars(&mut out, escaped.as_slice());
    push_text(&mut out, "\" with administrator privileges");
    string_of(out.as_slice())
}

/// Decides what is to be done about privileges: see [`elevation`].
pub fn check_and_request_privileges(platform: Platform, euid: u32, exe: Option<&str>) -> (r:
    Elevation)
    ensures
        r@ == elevation(
            platform,
            euid,
            match exe {
                Some(path) => Some(path@),
                None => None,
            },
        ),
{
    if platform == Platform::Windows || euid == ROOT {
        return Elevation::Proceed;
    }
    let path = match exe {
        Some(path) => path,
        None => { return Elevation::NoExecutable; },
    };
    match platform {
        Platform::Linux => {
            let mut arguments: Vec<String> = Vec::new();
            arguments.push(string_of(chars_of(path).as_slice()));
            assert(string_views(arguments@) == seq![path@]);
            Elevation::Relaunch { program: string_of(chars_of("pkexec").as_slice()), arguments }
        },
        Platform::MacOs => {
            let mut arguments: Vec<String> = Vec::new();
            arguments.push(string_of(chars_of("-e").as_slice()));
            arguments.push(script_for(path));
            assert(string_views(arguments@) == seq!["-e"@, relaunch_script(path@)]);
            Elevation::Relaunch { program: string_of(chars_of("osascript").as_slice()), arguments }
        },
        _ => Elevation::Unsupported,
    }
}

} // verus!
