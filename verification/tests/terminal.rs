use iron_vault::terminal::{parse_command, TerminalCommand};

fn read(line: &str) -> (TerminalCommand, Option<String>) {
    let parsed = parse_command(line);
    (parsed.command, parsed.argument)
}

#[test]
fn commands_from_the_help() {
    assert_eq!(read("get github"), (TerminalCommand::Get, Some("github".to_string())));
    assert_eq!(read("all"), (TerminalCommand::All, None));
    assert_eq!(read("add"), (TerminalCommand::Add, None));
    assert_eq!(read("edit mail"), (TerminalCommand::Edit, Some("mail".to_string())));
    assert_eq!(read("delete bank"), (TerminalCommand::Delete, Some("bank".to_string())));
    assert_eq!(read("help"), (TerminalCommand::Help, None));
    assert_eq!(read("clear"), (TerminalCommand::Clear, None));
    assert_eq!(read("q"), (TerminalCommand::Quit, None));
}

#[test]
fn argument_is_the_trimmed_rest() {
    assert_eq!(read("  get   my service  \n"), (TerminalCommand::Get, Some("my service".to_string())));
    assert_eq!(read("get\tx"), (TerminalCommand::Get, Some("x".to_string())));
    assert_eq!(read("get "), (TerminalCommand::Get, None));
}

#[test]
fn unknown_words() {
    assert_eq!(read("GET x").0, TerminalCommand::Unknown);
    assert_eq!(read("quit").0, TerminalCommand::Unknown);
    assert_eq!(read("").0, TerminalCommand::Unknown);
    assert_eq!(read("   ").0, TerminalCommand::Unknown);
}
