use command_server::commands::{
    command_for_key, execute, format_response, frame, get_handler_for, handle_input,
    match_command, respond, CommandError, CommandHandler, CommandType, PingHandler,
};
use command_server::parser::ArgumentParser;
use command_server::text::{join_strings, split_words, to_chars};

#[test]
fn ping_without_arguments_answers_pong() {
    assert_eq!(execute(&CommandType::Ping, &[]).unwrap(), "PONG");
    assert_eq!(handle_input("PING").unwrap(), "PONG");
    assert_eq!(handle_input("PING\n").unwrap(), "PONG");
}

#[test]
fn ping_echoes_its_arguments() {
    assert_eq!(execute(&CommandType::Ping, &["hello", "world"]).unwrap(), "hello world");
    assert_eq!(handle_input("PING hello world").unwrap(), "hello world");
    assert_eq!(handle_input("PING   hello \t world \n").unwrap(), "hello world");
}

#[test]
fn command_names_ignore_case_and_surrounding_space() {
    assert_eq!(match_command("PING").unwrap(), CommandType::Ping);
    assert_eq!(match_command("ping").unwrap(), CommandType::Ping);
    assert_eq!(match_command("  PiNg\n").unwrap(), CommandType::Ping);
    assert_eq!(match_command("GET").unwrap(), CommandType::Get);
    assert_eq!(match_command("set").unwrap(), CommandType::Store);
    assert_eq!(handle_input("ping").unwrap(), "PONG");
}

#[test]
fn lowercase_keys_name_commands() {
    assert_eq!(command_for_key("ping"), Some(CommandType::Ping));
    assert_eq!(command_for_key("get"), Some(CommandType::Get));
    assert_eq!(command_for_key("set"), Some(CommandType::Store));
    assert_eq!(command_for_key("PING"), None);
    assert_eq!(command_for_key(""), None);
}

#[test]
fn unknown_command_is_an_error() {
    match match_command(" FOO ") {
        Err(CommandError::Unknown(name)) => assert_eq!(name, "FOO"),
        other => panic!("unexpected: {:?}", other),
    }
    let error = handle_input("FOO bar").unwrap_err();
    assert_eq!(error.message(), "Unknown command: FOO");
    assert_eq!(respond("FOO bar\n"), "Error: Unknown command: FOO\n");
    assert_eq!(respond("PING\n"), "PONG\n");
}

#[test]
fn empty_line_is_an_unknown_command() {
    assert_eq!(respond(""), "Error: Unknown command: \n");
    assert_eq!(respond("  \n"), "Error: Unknown command: \n");
}

#[test]
fn commands_without_a_handler_are_reported() {
    assert!(get_handler_for(&CommandType::Ping).is_ok());
    match get_handler_for(&CommandType::Get) {
        Err(CommandError::NotImplemented(kind)) => assert_eq!(kind, CommandType::Get),
        _ => panic!("GET has no handler"),
    }
    match execute(&CommandType::Store, &["k", "v"]) {
        Err(CommandError::NotImplemented(kind)) => assert_eq!(kind, CommandType::Store),
        _ => panic!("SET has no handler"),
    }
    assert_eq!(respond("GET x\n"), "Error: Get handler not implemented\n");
    assert_eq!(respond("set x y\n"), "Error: Set handler not implemented\n");
    assert_eq!(respond("PING abc\n"), "abc\n");
}

#[test]
fn ping_handler_parts() {
    let handler = PingHandler;
    assert_eq!(handler.name(), "PING");
    let parser = handler.parser();
    assert_eq!(parser.usage(), "Usage: PING [message...]");
    assert_eq!(
        parser.usage_with_details(),
        "Usage: PING [message...]\n  message (optional variadic): Custom response to send back to the client [default: PONG]"
    );
    let parsed = parser.parse(&["a", "b"]).unwrap();
    assert_eq!(handler.execute(&parsed).unwrap(), "a b");
    assert_eq!(handler.handle(&[]).unwrap(), "PONG");
    assert_eq!(handler.handle(&[" x "]).unwrap(), "x");
}

#[test]
fn responses_are_results_or_marked_errors() {
    assert_eq!(format_response(&Ok("PONG".to_string())), "PONG");
    assert_eq!(
        format_response(&Err(CommandError::Unknown("X".to_string()))),
        "Error: Unknown command: X"
    );
    assert_eq!(
        format_response(&Err(CommandError::NotImplemented(CommandType::Get))),
        "Error: Get handler not implemented"
    );
    assert_eq!(frame("abc"), "abc\n");
    assert_eq!(frame(""), "\n");
}

#[test]
fn words_are_split_at_whitespace_runs() {
    assert_eq!(split_words("PING hello  world\n"), vec!["PING", "hello", "world"]);
    assert_eq!(split_words("  a\tb\r\nc  "), vec!["a", "b", "c"]);
    assert_eq!(split_words("one"), vec!["one"]);
    assert!(split_words("").is_empty());
    assert!(split_words(" \n\t ").is_empty());
    assert_eq!(split_words("a\u{3000}b"), vec!["a", "b"]);
    assert_eq!(split_words("h\u{e9}llo w\u{f6}rld"), vec!["h\u{e9}llo", "w\u{f6}rld"]);
}

#[test]
fn strings_are_joined_with_the_separator_between() {
    let parts = vec!["a".to_string(), "b".to_string(), "c".to_string()];
    assert_eq!(join_strings(&parts, ", "), "a, b, c");
    assert_eq!(join_strings(&parts[..1], ", "), "a");
    assert_eq!(join_strings(&[], ", "), "");
    assert_eq!(join_strings(&vec!["".to_string(), "".to_string()], "-"), "-");
    assert_eq!(to_chars("h\u{e9}"), vec!['h', '\u{e9}']);
}

#[test]
fn argument_errors_are_answered_with_message_and_usage() {
    let parser = ArgumentParser::builder("GET").required("key", "The key").build();
    let error = CommandError::Argument(parser.parse(&[]).unwrap_err());
    assert_eq!(
        error.message(),
        "Missing required argument(s): key\nUsage: GET <key>\n  key (required single): The key"
    );
    assert_eq!(
        format_response(&Err(error)),
        "Error: Missing required argument(s): key\nUsage: GET <key>\n  key (required single): The key"
    );
}

#[test]
fn whitespace_is_the_unicode_white_space_set() {
    let listed = |n: u32| {
        (0x09..=0x0D).contains(&n)
            || n == 0x20
            || n == 0x85
            || n == 0xA0
            || n == 0x1680
            || (0x2000..=0x200A).contains(&n)
            || n == 0x2028
            || n == 0x2029
            || n == 0x202F
            || n == 0x205F
            || n == 0x3000
    };
    let mut text = String::new();
    for n in 0..=0x10FFFFu32 {
        if let Some(c) = char::from_u32(n) {
            text.clear();
            text.push('a');
            text.push(c);
            text.push('b');
            let parts = split_words(&text);
            assert_eq!(parts.len() == 2, listed(n), "code point {:#x}", n);
        }
    }
}
