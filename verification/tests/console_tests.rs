use nanogame3d::ccmd_system::{parse_command, parse_line, CommandError, ConsoleCommand};
use nanogame3d::consolewin::{ConsoleState, ConsoleWindowLogger, HistoryDirection, HistoryEdit, LogItem, LogItemType, LogLevel};

fn words(ws: &[&str]) -> Vec<String> {
    ws.iter().map(|w| w.to_string()).collect()
}

#[test]
fn console_history_walk() {
    let mut log: Vec<LogItem> = Vec::new();
    let mut con = ConsoleState::new();
    assert!(matches!(con.on_history(HistoryDirection::Up), HistoryEdit::Keep));
    con.submit("first", &mut log);
    con.submit("second", &mut log);
    match con.on_history(HistoryDirection::Up) {
        HistoryEdit::Replace(s) => assert_eq!(s, "second"),
        _ => panic!("expected the last command"),
    }
    match con.on_history(HistoryDirection::Up) {
        HistoryEdit::Replace(s) => assert_eq!(s, "first"),
        _ => panic!("expected the first command"),
    }
    assert!(matches!(con.on_history(HistoryDirection::Up), HistoryEdit::Keep));
    match con.on_history(HistoryDirection::Down) {
        HistoryEdit::Replace(s) => assert_eq!(s, "second"),
        _ => panic!("expected the last command"),
    }
    assert!(matches!(con.on_history(HistoryDirection::Down), HistoryEdit::Clear));
    assert!(matches!(con.on_history(HistoryDirection::Down), HistoryEdit::Keep));
}

#[test]
fn console_submit_logs_and_queues() {
    let mut log: Vec<LogItem> = Vec::new();
    let mut con = ConsoleState::new();
    assert!(con.can_submit());
    con.submit("set r_fov 90", &mut log);
    con.submit("cvarlist", &mut log);
    assert_eq!(log.len(), 2);
    assert_eq!(log[0].item, ">> set r_fov 90");
    assert_eq!(log[0].item_type, LogItemType::Command);
    let cmds = con.drain_commands();
    assert_eq!(cmds, vec!["set r_fov 90".to_string(), "cvarlist".to_string()]);
    assert!(con.drain_commands().is_empty());
}

#[test]
fn console_log_levels() {
    let mut log: Vec<LogItem> = Vec::new();
    let logger = ConsoleWindowLogger {};
    logger.log(&mut log, LogLevel::Warn, "careful".to_string());
    logger.log(&mut log, LogLevel::Debug, "noise".to_string());
    logger.log(&mut log, LogLevel::Error, "broken".to_string());
    logger.log(&mut log, LogLevel::Info, "note".to_string());
    assert_eq!(log.len(), 3);
    assert_eq!(log[0].item_type, LogItemType::Warn);
    assert_eq!(log[1].item_type, LogItemType::Error);
    assert_eq!(log[2].item_type, LogItemType::Info);
    assert_eq!(log[2].item, "note");
    assert!(!logger.enabled(LogLevel::Trace));
    assert!(logger.enabled(LogLevel::Info));
    let item = LogItem::new(LogItemType::Info, "x".to_string());
    assert_eq!(item.item, "x");
}

#[test]
fn console_commands_parse() {
    match parse_line("set r_fov \"90\"") {
        Ok(ConsoleCommand::SetCVar { name, value }) => {
            assert_eq!(name, "r_fov");
            assert_eq!(value, "90");
        }
        _ => panic!("expected set"),
    }
    match parse_line("test-vfx 'fx/my fire.ron' 1 -- -2.5 3") {
        Ok(ConsoleCommand::TestVfx { path, pos_x, pos_y, pos_z }) => {
            assert_eq!(path, "fx/my fire.ron");
            assert_eq!((pos_x.as_str(), pos_y.as_str(), pos_z.as_str()), ("1", "-2.5", "3"));
        }
        _ => panic!("expected test-vfx"),
    }
    assert!(matches!(parse_line("delete-entity 42"), Ok(ConsoleCommand::DeleteEntity { id: 42 })));
    assert!(matches!(parse_line("clear-cache"), Ok(ConsoleCommand::ClearCache)));
    assert!(matches!(parse_line("cvarlist"), Ok(ConsoleCommand::CvarList)));
}

#[test]
fn console_command_errors() {
    assert!(matches!(parse_line("set \"r_fov 90"), Err(CommandError::MismatchedQuotes)));
    assert!(matches!(parse_line(""), Err(CommandError::MissingCommand)));
    assert!(matches!(parse_line("jump"), Err(CommandError::UnknownCommand)));
    assert!(matches!(parse_line("set r_fov"), Err(CommandError::WrongArgumentCount)));
    assert!(matches!(parse_line("cvarlist all"), Err(CommandError::WrongArgumentCount)));
    assert!(matches!(parse_line("delete-entity -- -1"), Err(CommandError::InvalidNumber)));
    assert!(matches!(parse_line("delete-entity 4294967296"), Err(CommandError::InvalidNumber)));
    assert!(matches!(parse_command(&words(&["delete-entity", "+7"])), Ok(ConsoleCommand::DeleteEntity { id: 7 })));
}

#[test]
fn console_command_options() {
    assert!(matches!(parse_line("help"), Err(CommandError::HelpRequested)));
    assert!(matches!(parse_line("help set"), Err(CommandError::HelpRequested)));
    assert!(matches!(parse_line("help jump"), Err(CommandError::UnknownCommand)));
    assert!(matches!(parse_line("--help"), Err(CommandError::HelpRequested)));
    assert!(matches!(parse_line("-h"), Err(CommandError::HelpRequested)));
    assert!(matches!(parse_line("set -h"), Err(CommandError::HelpRequested)));
    assert!(matches!(parse_line("--verbose"), Err(CommandError::UnexpectedArgument)));
    assert!(matches!(parse_line("set x -1"), Err(CommandError::UnexpectedArgument)));
    assert!(matches!(parse_line("delete-entity -1"), Err(CommandError::UnexpectedArgument)));
    assert!(matches!(parse_line("test-vfx a 1 -2.5 3"), Err(CommandError::UnexpectedArgument)));
    assert!(matches!(parse_line("set a b c -h"), Err(CommandError::WrongArgumentCount)));
    match parse_line("set x -- -1") {
        Ok(ConsoleCommand::SetCVar { name, value }) => {
            assert_eq!(name, "x");
            assert_eq!(value, "-1");
        }
        _ => panic!("expected set"),
    }
    assert!(matches!(parse_line("set - --"), Err(CommandError::WrongArgumentCount)));
    match parse_line("set - -- --") {
        Ok(ConsoleCommand::SetCVar { name, value }) => {
            assert_eq!(name, "-");
            assert_eq!(value, "--");
        }
        _ => panic!("a lone '-' is a value, and so is a second '--'"),
    }
    assert!(matches!(parse_line("cvarlist --"), Ok(ConsoleCommand::CvarList)));
}
