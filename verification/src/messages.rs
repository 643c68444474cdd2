//! The exact text of every line the interpreter prints in reply to a command,
//! and the decision of where `cd` goes.

use vstd::prelude::*;
use vstd::string::StringExecFns;
use crate::resolve::is_builtin;
use crate::resolve::is_builtin_spec;
use crate::text::str_eq;

verus! {

/// The view of an optional borrowed string.
pub open spec fn opt_str_view(o: Option<&str>) -> Option<Seq<char>> {
    match o {
        Some(s) => Some(s@),
        None => None,
    }
}

/// The reply to `echo <msg>`: the message reproduced verbatim, then a newline.
pub open spec fn echo_line_spec(msg: Seq<char>) -> Seq<char> {
    msg + "\n"@
}

/// Builds the `echo` reply: the message itself, untouched, with a newline.
pub fn echo_line(msg: &str) -> (r: String)
    ensures
        r@ == echo_line_spec(msg@),
{
    let mut out = msg.to_owned();
    out.append("\n");
    out
}

/// The reply to `type <name>`. A built-in name is reported as a shell
/// builtin whatever the search path holds; any other name is reported with
/// the directory it was resolved in, or as not found.
pub open spec fn type_report_spec(name: Seq<char>, resolved: Option<Seq<char>>) -> Seq<char> {
    if is_builtin_spec(name) {
        name + " is a shell builtin"@
    } else {
        match resolved {
            Some(dir) => name + " is "@ + dir + "/"@ + name,
            None => name + " not found"@,
        }
    }
}

/// Builds the `type` reply from the name and, for names that are not
/// built-ins, the directory the search found the name in, if any.
pub fn type_report(name: &str, resolved: Option<&str>) -> (r: String)
    ensures
        r@ == type_report_spec(name@, opt_str_view(resolved)),
{
    if is_builtin(name) {
        let mut out = name.to_owned();
        out.append(" is a shell builtin");
        out
    } else {
        match resolved {
            Some(dir) => {
                let mut out = name.to_owned();
                out.append(" is ");
                out.append(dir);
                out.append("/");
                out.append(name);
                out
            },
            None => {
                let mut out = name.to_owned();
                out.append(" not found");
                out
            },
        }
    }
}

/// The report when a line names no built-in and resolution found nothing.
pub open spec fn command_not_found_spec(input: Seq<char>) -> Seq<char> {
    input + ": command not found"@
}

/// Builds the unknown-command report for a whole input line.
pub fn command_not_found_line(input: &str) -> (r: String)
    ensures
        r@ == command_not_found_spec(input@),
{
    let mut out = input.to_owned();
    out.append(": command not found");
    out
}

/// The report when `cd` is pointed at a path that does not exist.
pub open spec fn cd_not_found_spec(path: Seq<char>) -> Seq<char> {
    path + ": No such file or directory"@
}

/// Builds the missing-directory report for `cd`.
pub fn cd_not_found_line(path: &str) -> (r: String)
    ensures
        r@ == cd_not_found_spec(path@),
{
    let mut out = path.to_owned();
    out.append(": No such file or directory");
    out
}

/// The one line printed before the interpreter dies of an unrecoverable
/// error.
pub open spec fn fatal_error_spec(msg: Seq<char>) -> Seq<char> {
    "fatal error: "@ + msg
}

/// Builds the fatal-error report.
pub fn fatal_error_line(msg: &str) -> (r: String)
    ensures
        r@ == fatal_error_spec(msg@),
{
    let mut out = "fatal error: ".to_owned();
    out.append(msg);
    out
}

/// Where `cd <path>` goes: the literal `~` means the home directory, which
/// must then be known; any other path is taken as written. `None` is the
/// fatal case of `~` with no home directory set.
pub open spec fn cd_target_spec(path: Seq<char>, home: Option<Seq<char>>) -> Option<Seq<char>> {
    if path == "~"@ {
        home
    } else {
        Some(path)
    }
}

/// Decides where `cd` goes, given the path argument and the value of the
/// home-directory variable, if set.
pub fn cd_target(path: &str, home: Option<&str>) -> (r: Option<String>)
    ensures
        match r {
            Some(t) => cd_target_spec(path@, opt_str_view(home)) == Some(t@),
            None => cd_target_spec(path@, opt_str_view(home)) is None,
        },
{
    if str_eq(path, "~") {
        match home {
            Some(h) => Some(h.to_owned()),
            None => None,
        }
    } else {
        Some(path.to_owned())
    }
}

} // verus!
