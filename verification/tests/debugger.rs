use crusty::cli::LogLevel;
use crusty::gba::debugger::{CommandParseError, ContinueSubcommand, DebugSession, DebuggerCommand};

#[test]
fn test_parse_break_full() {
    let cmd = DebuggerCommand::parse("break 32");
    assert_eq!(cmd, Ok(DebuggerCommand::BreakPoint(50)));
}

#[test]
fn test_parse_break_short() {
    let cmd = DebuggerCommand::parse("b 32");
    assert_eq!(cmd, Ok(DebuggerCommand::BreakPoint(50)));
}

#[test]
fn test_parse_continue() {
    let cmd = DebuggerCommand::parse("continue");
    assert_eq!(
        cmd,
        Ok(DebuggerCommand::Continue(ContinueSubcommand::Endless))
    );
}

#[test]
fn test_parse_next() {
    let cmd = DebuggerCommand::parse("n");
    assert_eq!(cmd, Ok(DebuggerCommand::Next));
}

#[test]
fn parse_empty_line() {
    assert_eq!(
        DebuggerCommand::parse("   \t "),
        Err(CommandParseError::NoCommandGiven)
    );
    assert_eq!(DebuggerCommand::parse(""), Err(CommandParseError::NoCommandGiven));
}

#[test]
fn parse_write_read_and_counts() {
    assert_eq!(
        DebuggerCommand::parse("  write ff 3000000 "),
        Ok(DebuggerCommand::WriteMem(0xff, 0x3000000))
    );
    assert_eq!(
        DebuggerCommand::parse("r +A0"),
        Ok(DebuggerCommand::ReadMem(0xa0))
    );
    assert_eq!(
        DebuggerCommand::parse("c 12"),
        Ok(DebuggerCommand::Continue(ContinueSubcommand::For(12)))
    );
    assert_eq!(
        DebuggerCommand::parse("l warn"),
        Ok(DebuggerCommand::LogLevel(LogLevel::Warning))
    );
    assert_eq!(DebuggerCommand::parse("quit"), Ok(DebuggerCommand::Quit));
    assert_eq!(DebuggerCommand::parse("i"), Ok(DebuggerCommand::Info));
}

#[test]
fn parse_errors() {
    assert_eq!(
        DebuggerCommand::parse("b"),
        Err(CommandParseError::CommandMissingArguments("b".to_string()))
    );
    assert_eq!(
        DebuggerCommand::parse("break zz"),
        Err(CommandParseError::CommandNotRecognized("break".to_string()))
    );
    assert_eq!(
        DebuggerCommand::parse("w 10"),
        Err(CommandParseError::CommandMissingArguments("w 10".to_string()))
    );
    assert_eq!(
        DebuggerCommand::parse("read 100000000"),
        Err(CommandParseError::CommandNotRecognized("read 100000000".to_string()))
    );
    assert_eq!(
        DebuggerCommand::parse("c ten"),
        Err(CommandParseError::CommandNotRecognized("c ten".to_string()))
    );
    assert_eq!(
        DebuggerCommand::parse("l loud"),
        Err(CommandParseError::CommandNotRecognized("l loud".to_string()))
    );
    assert_eq!(
        DebuggerCommand::parse("next 1"),
        Err(CommandParseError::CommandNotRecognized(
            "Extra arguements not supported for command".to_string()
        ))
    );
    assert_eq!(
        DebuggerCommand::parse("jump"),
        Err(CommandParseError::CommandNotRecognized("jump".to_string()))
    );
    assert_eq!(
        DebuggerCommand::parse("r +"),
        Err(CommandParseError::CommandNotRecognized("r +".to_string()))
    );
}

#[test]
fn parse_error_messages() {
    assert_eq!(CommandParseError::NoCommandGiven.message(), "");
    assert_eq!(
        CommandParseError::CommandNotRecognized("x".to_string()).message(),
        "Command not recognized: x"
    );
    assert_eq!(
        CommandParseError::CommandMissingArguments("b".to_string()).message(),
        "Command missing arguements: b"
    );
}

#[test]
fn break_points_toggle() {
    let mut session = DebugSession::new();
    assert!(session.toggle_break_point(0x80));
    assert!(session.is_break_point(0x80));
    assert!(!session.keeps_running(0x80, None, 0));
    assert!(session.keeps_running(0x84, None, 1000));
    assert!(session.keeps_running(0x84, Some(3), 2));
    assert!(!session.keeps_running(0x84, Some(3), 3));
    assert!(!session.toggle_break_point(0x80));
    assert!(!session.is_break_point(0x80));
}
