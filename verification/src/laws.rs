//! Laws that tie the interpreter's pieces together, each stated over the same
//! specification functions the executable contracts use, and proved once for
//! all inputs.

use vstd::prelude::*;
use crate::cmd::classify_spec;
use crate::cmd::CmdModel;
use crate::cmd::ParseError;
use crate::messages::cd_not_found_spec;
use crate::messages::cd_target_spec;
use crate::messages::command_not_found_spec;
use crate::messages::echo_line_spec;
use crate::messages::type_report_spec;
use crate::numbers::parse_i32_spec;
use crate::resolve::is_builtin_spec;
use crate::resolve::listing_contains;
use crate::resolve::resolution_ok;
use crate::text::lemma_find_char_at;
use crate::text::trim_start_spec;

verus! {

/// Law: `type` reports a built-in name as a shell builtin, and the report
/// does not depend on what the search path would have resolved the name to.
pub proof fn lemma_type_builtin_wins(
    name: Seq<char>,
    r1: Option<Seq<char>>,
    r2: Option<Seq<char>>,
)
    requires
        is_builtin_spec(name),
    ensures
        type_report_spec(name, r1) == name + " is a shell builtin"@,
        type_report_spec(name, r1) == type_report_spec(name, r2),
{
}

/// Law: a name that is no built-in and that no directory on the search path
/// holds resolves to nothing, `type` reports it `<name> not found`, and a
/// line that runs it is reported `<line>: command not found`.
pub proof fn lemma_unknown_name_reports(name: Seq<char>, listings: Seq<Seq<Seq<char>>>)
    requires
        !is_builtin_spec(name),
        forall|j: int| 0 <= j < listings.len() ==> !listing_contains(listings[j], name),
    ensures
        resolution_ok(listings, name, None),
        type_report_spec(name, None) == name + " not found"@,
        command_not_found_spec(name) == name + ": command not found"@,
{
}

/// Law: `echo <text>` classifies to exactly `text`, untrimmed and unsplit,
/// whatever `text` holds, and its reply is `text` followed by one newline.
pub proof fn lemma_echo_verbatim(text: Seq<char>)
    ensures
        classify_spec("echo "@ + text) == Ok::<CmdModel, ParseError>(CmdModel::Echo(text)),
        echo_line_spec(text) == text + "\n"@,
{
    reveal_strlit("echo ");
    reveal_strlit("echo");
    reveal_strlit("exit");
    let line = "echo "@ + text;
    assert(line[4] == ' ');
    assert forall|j: int| 0 <= j < 4 implies line[j] != ' ' by {
        assert(line[j] == "echo "@[j]);
    }
    lemma_find_char_at(line, ' ', 4);
    assert(line.take(4) =~= "echo"@);
    assert(line.skip(5) =~= text);
    assert("echo"@[1] != "exit"@[1]);
}

/// Law: `exit <arg>` never classifies to anything but an `Exit` command or a
/// reported argument error: a blank argument is the missing-code error, an
/// unreadable one the invalid-code error, and a readable one the exit value.
pub proof fn lemma_exit_argument(arg: Seq<char>)
    ensures
        trim_start_spec(arg).len() == 0 ==> classify_spec("exit "@ + arg) == Err::<
            CmdModel,
            ParseError,
        >(ParseError::ExitCodeMissing),
        trim_start_spec(arg).len() > 0 && parse_i32_spec(trim_start_spec(arg)) is None
            ==> classify_spec("exit "@ + arg) == Err::<CmdModel, ParseError>(
            ParseError::ExitCodeInvalid,
        ),
        parse_i32_spec(trim_start_spec(arg)) matches Some(v) ==> classify_spec("exit "@ + arg)
            == Ok::<CmdModel, ParseError>(CmdModel::Exit(v)),
{
    reveal_strlit("exit ");
    reveal_strlit("exit");
    let line = "exit "@ + arg;
    assert(line[4] == ' ');
    assert forall|j: int| 0 <= j < 4 implies line[j] != ' ' by {
        assert(line[j] == "exit "@[j]);
    }
    lemma_find_char_at(line, ' ', 4);
    assert(line.take(4) =~= "exit"@);
    assert(line.skip(5) =~= arg);
}

/// Law: `cd ~` goes to the home directory and nowhere else, `cd` to any other
/// path goes to that path as written, and a missing target is reported with
/// the not-found message; the working directory itself is only ever changed
/// to the decided target.
pub proof fn lemma_cd_rules(path: Seq<char>, home: Option<Seq<char>>)
    ensures
        path == "~"@ ==> cd_target_spec(path, home) == home,
        path != "~"@ ==> cd_target_spec(path, home) == Some(path),
        cd_not_found_spec(path) == path + ": No such file or directory"@,
{
}

/// Law: when two directories on the search path both hold the name, the one
/// listed first is the one a correct resolution reports: first match wins.
pub proof fn lemma_first_dir_wins(
    listings: Seq<Seq<Seq<char>>>,
    name: Seq<char>,
    r: Option<int>,
    i: int,
    j: int,
)
    requires
        resolution_ok(listings, name, r),
        0 <= i < j < listings.len(),
        listing_contains(listings[i], name),
        listing_contains(listings[j], name),
    ensures
        r matches Some(k) && k <= i,
{
    match r {
        None => {
            assert(!listing_contains(listings[i], name));
        },
        Some(k) => {
            if k > i {
                assert(!listing_contains(listings[i], name));
            }
        },
    }
}

} // verus!
