use minishell::cmd::Cmd;
use minishell::cmd::ParseError;
use minishell::messages::cd_not_found_line;
use minishell::messages::cd_target;
use minishell::messages::command_not_found_line;
use minishell::messages::echo_line;
use minishell::messages::fatal_error_line;
use minishell::messages::type_report;
use minishell::numbers::parse_i32;
use minishell::resolve::find_entry;
use minishell::resolve::is_builtin;
use minishell::resolve::resolve_in_dirs;
use minishell::text::split_on;
use minishell::text::str_eq;
use minishell::text::tokenize;
use minishell::text::trim_end;
use minishell::text::trim_start;

fn strings(words: &[&str]) -> Vec<String> {
    words.iter().map(|w| w.to_string()).collect()
}

#[test]
fn classify_echo_keeps_text_verbatim() {
    assert_eq!(
        Cmd::try_from("echo hello world"),
        Ok(Cmd::Echo("hello world"))
    );
    assert_eq!(
        Cmd::try_from("echo   spaced   out  "),
        Ok(Cmd::Echo("  spaced   out  "))
    );
}

#[test]
fn classify_type_trims_leading_space() {
    assert_eq!(Cmd::try_from("type echo"), Ok(Cmd::Type("echo")));
    assert_eq!(Cmd::try_from("type    ls"), Ok(Cmd::Type("ls")));
}

#[test]
fn classify_pwd_only_as_whole_line() {
    assert_eq!(Cmd::try_from("pwd"), Ok(Cmd::Pwd));
    assert_eq!(
        Cmd::try_from("pwd "),
        Ok(Cmd::External {
            cmd: "pwd",
            args: Some("")
        })
    );
}

#[test]
fn classify_cd() {
    assert_eq!(Cmd::try_from("cd /tmp"), Ok(Cmd::Cd("/tmp")));
    assert_eq!(Cmd::try_from("cd ~"), Ok(Cmd::Cd("~")));
    assert_eq!(Cmd::try_from("cd   ~"), Ok(Cmd::Cd("~")));
}

#[test]
fn classify_exit_codes() {
    assert_eq!(Cmd::try_from("exit 0"), Ok(Cmd::Exit(0)));
    assert_eq!(Cmd::try_from("exit 7"), Ok(Cmd::Exit(7)));
    assert_eq!(Cmd::try_from("exit 3"), Ok(Cmd::Exit(3)));
    assert_eq!(Cmd::try_from("exit -5"), Ok(Cmd::Exit(-5)));
    assert_eq!(Cmd::try_from("exit   42"), Ok(Cmd::Exit(42)));
    assert_eq!(Cmd::try_from("exit -2147483648"), Ok(Cmd::Exit(i32::MIN)));
    assert_eq!(Cmd::try_from("exit 2147483647"), Ok(Cmd::Exit(i32::MAX)));
}

#[test]
fn classify_exit_argument_errors_are_reported_not_crashes() {
    assert_eq!(Cmd::try_from("exit "), Err(ParseError::ExitCodeMissing));
    assert_eq!(Cmd::try_from("exit    "), Err(ParseError::ExitCodeMissing));
    assert_eq!(Cmd::try_from("exit abc"), Err(ParseError::ExitCodeInvalid));
    assert_eq!(Cmd::try_from("exit 1x"), Err(ParseError::ExitCodeInvalid));
    assert_eq!(
        Cmd::try_from("exit 2147483648"),
        Err(ParseError::ExitCodeInvalid)
    );
    assert_eq!(
        Cmd::try_from("exit -2147483649"),
        Err(ParseError::ExitCodeInvalid)
    );
}

#[test]
fn classify_bare_exit_is_external() {
    assert_eq!(
        Cmd::try_from("exit"),
        Ok(Cmd::External {
            cmd: "exit",
            args: None
        })
    );
}

#[test]
fn classify_empty_line_is_external_nothing() {
    assert_eq!(
        Cmd::try_from(""),
        Ok(Cmd::External {
            cmd: "",
            args: None
        })
    );
}

#[test]
fn classify_external_with_args() {
    assert_eq!(
        Cmd::try_from("ls -la /tmp"),
        Ok(Cmd::External {
            cmd: "ls",
            args: Some("-la /tmp")
        })
    );
}

#[test]
fn parse_error_messages() {
    assert_eq!(
        ParseError::ExitCodeMissing.message(),
        "exit code is required"
    );
    assert_eq!(
        ParseError::ExitCodeInvalid.message(),
        "failed to parse exit code"
    );
}

#[test]
fn parse_i32_shapes() {
    assert_eq!(parse_i32("13"), Some(13));
    assert_eq!(parse_i32("+13"), Some(13));
    assert_eq!(parse_i32("-0"), Some(0));
    assert_eq!(parse_i32(""), None);
    assert_eq!(parse_i32("+"), None);
    assert_eq!(parse_i32("-"), None);
    assert_eq!(parse_i32("1 2"), None);
    assert_eq!(parse_i32(" 1"), None);
    assert_eq!(parse_i32("2147483647"), Some(i32::MAX));
    assert_eq!(parse_i32("2147483648"), None);
    assert_eq!(parse_i32("-2147483648"), Some(i32::MIN));
    assert_eq!(parse_i32("-2147483649"), None);
    assert_eq!(parse_i32("0009"), Some(9));
}

#[test]
fn tokenize_splits_on_whitespace_runs() {
    assert_eq!(tokenize("a  b\t c"), strings(&["a", "b", "c"]));
    assert_eq!(tokenize(""), strings(&[]));
    assert_eq!(tokenize("   \t "), strings(&[]));
    assert_eq!(tokenize(" x "), strings(&["x"]));
    assert_eq!(tokenize("-la /tmp"), strings(&["-la", "/tmp"]));
}

#[test]
fn split_on_keeps_empty_pieces() {
    assert_eq!(split_on("a:b::c", ':'), strings(&["a", "b", "", "c"]));
    assert_eq!(split_on("", ':'), strings(&[""]));
    assert_eq!(split_on(":", ':'), strings(&["", ""]));
    assert_eq!(split_on("/usr/bin", ':'), strings(&["/usr/bin"]));
}

#[test]
fn trimming() {
    assert_eq!(trim_start(" \t x "), "x ");
    assert_eq!(trim_start("x"), "x");
    assert_eq!(trim_end("echo hi\n"), "echo hi");
    assert_eq!(trim_end("a\r\n"), "a");
    assert_eq!(trim_end(""), "");
}

#[test]
fn str_eq_by_characters() {
    assert!(str_eq("", ""));
    assert!(str_eq("abc", "abc"));
    assert!(!str_eq("abc", "abd"));
    assert!(!str_eq("abc", "ab"));
}

#[test]
fn builtins_are_recognized() {
    assert!(is_builtin("exit"));
    assert!(is_builtin("echo"));
    assert!(is_builtin("type"));
    assert!(is_builtin("pwd"));
    assert!(is_builtin("cd"));
    assert!(!is_builtin("ls"));
    assert!(!is_builtin("Echo"));
    assert!(!is_builtin(""));
}

#[test]
fn find_entry_first_match() {
    let entries = strings(&["foo", "bar", "bar"]);
    assert_eq!(find_entry(&entries, "bar"), Some(1));
    assert_eq!(find_entry(&entries, "foo"), Some(0));
    assert_eq!(find_entry(&entries, "baz"), None);
    assert_eq!(find_entry(&strings(&[]), "x"), None);
}

#[test]
fn resolution_first_directory_wins() {
    let listings = vec![
        strings(&["alpha", "prog"]),
        strings(&["prog"]),
    ];
    assert_eq!(resolve_in_dirs(&listings, "prog"), Some(0));
    assert_eq!(resolve_in_dirs(&listings, "alpha"), Some(0));
    assert_eq!(resolve_in_dirs(&listings, "beta"), None);
    let later = vec![strings(&["alpha"]), strings(&["prog"])];
    assert_eq!(resolve_in_dirs(&later, "prog"), Some(1));
}

#[test]
fn type_reports() {
    assert_eq!(type_report("echo", None), "echo is a shell builtin");
    // a same-named program on the search path does not change the report
    assert_eq!(type_report("echo", Some("/bin")), "echo is a shell builtin");
    assert_eq!(type_report("ls", Some("/bin")), "ls is /bin/ls");
    assert_eq!(
        type_report("nonexistent_cmd_xyz", None),
        "nonexistent_cmd_xyz not found"
    );
}

#[test]
fn echo_reply_is_verbatim_plus_newline() {
    assert_eq!(echo_line("hello world"), "hello world\n");
    assert_eq!(echo_line("  spaced  "), "  spaced  \n");
    assert_eq!(echo_line(""), "\n");
}

#[test]
fn error_lines() {
    assert_eq!(
        command_not_found_line("nosuch"),
        "nosuch: command not found"
    );
    assert_eq!(
        cd_not_found_line("/nope"),
        "/nope: No such file or directory"
    );
    assert_eq!(
        fatal_error_line("failed to parse exit code"),
        "fatal error: failed to parse exit code"
    );
}

#[test]
fn end_to_end_replies() {
    match Cmd::try_from("echo hello world") {
        Ok(Cmd::Echo(msg)) => assert_eq!(echo_line(msg), "hello world\n"),
        other => panic!("not an echo command: {:?}", other),
    }
    match Cmd::try_from("type echo") {
        Ok(Cmd::Type(name)) => {
            assert!(is_builtin(name));
            assert_eq!(type_report(name, None), "echo is a shell builtin");
        }
        other => panic!("not a type command: {:?}", other),
    }
    match Cmd::try_from("type nonexistent_cmd_xyz") {
        Ok(Cmd::Type(name)) => {
            assert!(!is_builtin(name));
            assert_eq!(type_report(name, None), "nonexistent_cmd_xyz not found");
        }
        other => panic!("not a type command: {:?}", other),
    }
    assert_eq!(Cmd::try_from("pwd"), Ok(Cmd::Pwd));
    assert_eq!(Cmd::try_from("exit 3"), Ok(Cmd::Exit(3)));
}

#[test]
fn cd_targets() {
    assert_eq!(cd_target("~", Some("/home/user")), Some("/home/user".to_string()));
    assert_eq!(cd_target("~", None), None);
    assert_eq!(cd_target("/tmp", None), Some("/tmp".to_string()));
    assert_eq!(cd_target("~x", Some("/h")), Some("~x".to_string()));
}
