//! Classifying one line of input: the line is split on its first space into a
//! command name and a raw argument remainder, the name is matched against the
//! built-in commands, and the result is a tagged command value.

use vstd::prelude::*;
use crate::numbers::parse_i32;
use crate::numbers::parse_i32_spec;
use crate::text::find_char;
use crate::text::find_char_spec;
use crate::text::trim_start;
use crate::text::trim_start_spec;
use crate::text::str_eq;

verus! {

/// Why a line failed to classify: `exit` demands one numeric argument, and a
/// bad one is a fatal argument error, distinct from an unknown command.
#[derive(Clone, Copy, Debug, PartialEq, Eq, Structural)]
pub enum ParseError {
    /// `exit` was given no argument at all.
    ExitCodeMissing,
    /// The argument of `exit` did not read as an `i32`.
    ExitCodeInvalid,
}

impl ParseError {
    /// The message reported when this error aborts the interpreter.
    pub open spec fn message_spec(self) -> Seq<char> {
        match self {
            ParseError::ExitCodeMissing => "exit code is required"@,
            ParseError::ExitCodeInvalid => "failed to parse exit code"@,
        }
    }

    /// Renders the report of this argument error.
    pub fn message(&self) -> (r: String)
        ensures
            r@ == self.message_spec(),
    {
        match self {
            ParseError::ExitCodeMissing => "exit code is required".to_owned(),
            ParseError::ExitCodeInvalid => "failed to parse exit code".to_owned(),
        }
    }
}

/// One line of input, classified. Each value lives for exactly one pass of
/// the interpreter's loop and borrows from the line it was read from.
#[derive(Debug, PartialEq, Eq)]
pub enum Cmd<'a> {
    /// `exit <code>`: terminate the process with this status.
    Exit(i32),
    /// `echo <message>`: print the message verbatim.
    Echo(&'a str),
    /// `type <name>`: report what running `name` would do.
    Type(&'a str),
    /// `pwd`, recognized only as the whole line: print the working directory.
    Pwd,
    /// `cd <path>`: change the working directory.
    Cd(&'a str),
    /// Anything else: a program to resolve and launch, with the remainder of
    /// the line kept verbatim until launch time tokenizes it.
    External { cmd: &'a str, args: Option<&'a str> },
}

/// The mathematical value of a classified command.
pub enum CmdModel {
    Exit(int),
    Echo(Seq<char>),
    Type(Seq<char>),
    Pwd,
    Cd(Seq<char>),
    External { cmd: Seq<char>, args: Option<Seq<char>> },
}

impl<'a> View for Cmd<'a> {
    type V = CmdModel;

    open spec fn view(&self) -> CmdModel {
        match *self {
            Cmd::Exit(code) => CmdModel::Exit(code as int),
            Cmd::Echo(msg) => CmdModel::Echo(msg@),
            Cmd::Type(name) => CmdModel::Type(name@),
            Cmd::Pwd => CmdModel::Pwd,
            Cmd::Cd(path) => CmdModel::Cd(path@),
            Cmd::External { cmd, args } => CmdModel::External {
                cmd: cmd@,
                args: match args {
                    Some(a) => Some(a@),
                    None => None,
                },
            },
        }
    }
}

/// What classifying `line` yields. With no space in the line, only the exact
/// word `pwd` is recognized; anything else is an external command without
/// arguments. With a space, the prefix picks the built-in, and the remainder
/// is its raw argument: kept verbatim for `echo` and for external commands,
/// trimmed of leading white space for `exit`, `type` and `cd`, and for `exit`
/// further read as an `i32`, an empty or unreadable argument being an error.
pub open spec fn classify_spec(line: Seq<char>) -> Result<CmdModel, ParseError> {
    match find_char_spec(line, ' ') {
        None => if line == "pwd"@ {
            Ok(CmdModel::Pwd)
        } else {
            Ok(CmdModel::External { cmd: line, args: None })
        },
        Some(i) => {
            let cmd = line.take(i);
            let args = line.skip(i + 1);
            if cmd == "exit"@ {
                let arg = trim_start_spec(args);
                if arg.len() == 0 {
                    Err(ParseError::ExitCodeMissing)
                } else {
                    match parse_i32_spec(arg) {
                        Some(v) => Ok(CmdModel::Exit(v)),
                        None => Err(ParseError::ExitCodeInvalid),
                    }
                }
            } else if cmd == "echo"@ {
                Ok(CmdModel::Echo(args))
            } else if cmd == "type"@ {
                Ok(CmdModel::Type(trim_start_spec(args)))
            } else if cmd == "cd"@ {
                Ok(CmdModel::Cd(trim_start_spec(args)))
            } else {
                Ok(CmdModel::External { cmd: cmd, args: Some(args) })
            }
        },
    }
}

impl<'a> Cmd<'a> {
    /// Classifies one trimmed line of input.
    pub fn try_from(input: &'a str) -> (r: Result<Cmd<'a>, ParseError>)
        ensures
            match r {
                Ok(c) => classify_spec(input@) == Ok::<CmdModel, ParseError>(c@),
                Err(e) => classify_spec(input@) == Err::<CmdModel, ParseError>(e),
            },
    {
        let n = input.unicode_len();
        match find_char(input, ' ') {
            None => {
                if str_eq(input, "pwd") {
                    Ok(Cmd::Pwd)
                } else {
                    Ok(Cmd::External { cmd: input, args: None })
                }
            },
            Some(i) => {
                let cmd = input.substring_char(0, i);
                let args = input.substring_char(i + 1, n);
                proof {
                    assert(cmd@ =~= input@.take(i as int));
                    assert(args@ =~= input@.skip(i + 1 as int));
                }
                if str_eq(cmd, "exit") {
                    let arg = trim_start(args);
                    if arg.unicode_len() == 0 {
                        Err(ParseError::ExitCodeMissing)
                    } else {
                        match parse_i32(arg) {
                            Some(code) => Ok(Cmd::Exit(code)),
                            None => Err(ParseError::ExitCodeInvalid),
                        }
                    }
                } else if str_eq(cmd, "echo") {
                    Ok(Cmd::Echo(args))
                } else if str_eq(cmd, "type") {
                    Ok(Cmd::Type(trim_start(args)))
                } else if str_eq(cmd, "cd") {
                    Ok(Cmd::Cd(trim_start(args)))
                } else {
                    Ok(Cmd::External { cmd: cmd, args: Some(args) })
                }
            },
        }
    }
}

} // verus!
