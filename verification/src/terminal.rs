use vstd::prelude::*;
use crate::commands::{all_white_space, is_trim_of, is_white_space, trim};

verus! {

/// A command of the terminal, as its help lists them.
#[derive(Clone, Copy, PartialEq, Eq, Debug)]
pub enum TerminalCommand {
    /// `get <service_name>`: show a service's credential.
    Get,
    /// `all`: list all stored services.
    All,
    /// `add`: add a new service.
    Add,
    /// `edit <service_name>`: edit a service.
    Edit,
    /// `delete <service_name>`: delete a service.
    Delete,
    /// `help`: show the help.
    Help,
    /// `clear`: clear the screen.
    Clear,
    /// `q`: quit the application.
    Quit,
    /// Anything else.
    Unknown,
}

/// The command that a word names.
pub open spec fn terminal_command_of(word: Seq<char>) -> TerminalCommand {
    if word == "get"@ {
        TerminalCommand::Get
    } else if word == "all"@ {
        TerminalCommand::All
    } else if word == "add"@ {
        TerminalCommand::Add
    } else if word == "edit"@ {
        TerminalCommand::Edit
    } else if word == "delete"@ {
        TerminalCommand::Delete
    } else if word == "help"@ {
        TerminalCommand::Help
    } else if word == "clear"@ {
        TerminalCommand::Clear
    } else if word == "q"@ {
        TerminalCommand::Quit
    } else {
        TerminalCommand::Unknown
    }
}

/// No character of `s` is white space.
pub open spec fn has_no_white_space(s: Seq<char>) -> bool {
    forall|k: int| 0 <= k < s.len() ==> !is_white_space(#[trigger] s[k])
}

/// `s[i]` is the first white-space character of `s`.
pub open spec fn first_white_space_at(s: Seq<char>, i: int) -> bool {
    &&& 0 <= i < s.len()
    &&& is_white_space(s[i])
    &&& has_no_white_space(s.take(i))
}

/// `before` and `after` are `s` split at its first white-space character,
/// which neither holds.
pub open spec fn splits_at_first_white_space(s: Seq<char>, before: Seq<char>, after: Seq<char>) -> bool {
    exists|i: int| #[trigger] first_white_space_at(s, i) && before == s.take(i) && after == s.skip(i + 1)
}

/// `str::split_once(char::is_whitespace)`: the text before and after the
/// first white-space character, or nothing where there is none.
#[verifier::external_body]
fn split_at_first_white_space(s: &str) -> (res: Option<(&str, &str)>)
    ensures
        res is None <==> has_no_white_space(s@),
        res matches Some(parts) ==> splits_at_first_white_space(s@, parts.0@, parts.1@),
{
    s.split_once(char::is_whitespace)
}

/// A line typed at the terminal: the command and the text after it.
pub struct CommandLine {
    pub command: TerminalCommand,
    pub argument: Option<String>,
}

/// `line` is read as `command` with `argument`: the line is trimmed; its
/// first word names the command; the rest, trimmed, is the argument, where
/// anything is left.
pub open spec fn reads_as(line: Seq<char>, command: TerminalCommand, argument: Option<Seq<char>>) -> bool {
    exists|t: Seq<char>|
        #[trigger] is_trim_of(t, line) && {
            ||| has_no_white_space(t) && command == terminal_command_of(t) && argument is None
            ||| exists|word: Seq<char>, rest: Seq<char>|
                #[trigger] splits_at_first_white_space(t, word, rest) && command
                    == terminal_command_of(word) && match argument {
                    None => all_white_space(rest),
                    Some(a) => a.len() > 0 && is_trim_of(a, rest),
                }
        }
}

/// Reads a line typed at the terminal.
pub fn parse_command(line: &str) -> (res: CommandLine)
    ensures
        reads_as(line@, res.command, match res.argument {
            Some(a) => Some(a@),
            None => None,
        }),
{
    let t = trim(line);
    match split_at_first_white_space(t) {
        None => {
            let command = command_word(t);
            let res = CommandLine { command, argument: None };
            assert(reads_as(line@, res.command, None));
            res
        },
        Some((word, rest)) => {
            let command = command_word(word);
            let argument_text = trim(rest);
            if argument_text.is_empty() {
                proof {
                    let (i, j) = choose|i: int, j: int| #[trigger] crate::commands::trim_bounds(rest@, i, j) && argument_text@ == rest@.subrange(i, j);
                    assert(all_white_space(rest@));
                    assert(splits_at_first_white_space(t@, word@, rest@));
                }
                CommandLine { command, argument: None }
            } else {
                let argument = argument_text.to_owned();
                proof {
                    assert(splits_at_first_white_space(t@, word@, rest@));
                }
                CommandLine { command, argument: Some(argument) }
            }
        },
    }
}

/// The command that a word names.
fn command_word(word: &str) -> (res: TerminalCommand)
    ensures
        res == terminal_command_of(word@),
{
    let w = word.to_owned();
    if w == String::from_str("get") {
        TerminalCommand::Get
    } else if w == String::from_str("all") {
        TerminalCommand::All
    } else if w == String::from_str("add") {
        TerminalCommand::Add
    } else if w == String::from_str("edit") {
        TerminalCommand::Edit
    } else if w == String::from_str("delete") {
        TerminalCommand::Delete
    } else if w == String::from_str("help") {
        TerminalCommand::Help
    } else if w == String::from_str("clear") {
        TerminalCommand::Clear
    } else if w == String::from_str("q") {
        TerminalCommand::Quit
    } else {
        TerminalCommand::Unknown
    }
}

} // verus!
