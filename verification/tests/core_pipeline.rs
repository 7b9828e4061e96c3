use carik_bot::{
    Command, CommandAction, CommandRegistry, CommandService, Content, Message, MessageDispatcher,
    MessageParser, User,
};

#[test]
fn parse_simple_command() {
    let parser = MessageParser::new("/");
    let msg = parser.parse("chat", "/help", None);
    match &msg.content {
        Content::Command { name, args } => {
            assert_eq!(name.as_str(), "help");
            assert!(args.is_empty());
        },
        _ => panic!("expected a command"),
    }
}

#[test]
fn parse_command_with_args() {
    let parser = MessageParser::new("/");
    let msg = parser.parse("chat", "/echo a b", None);
    match &msg.content {
        Content::Command { name, args } => {
            assert_eq!(name.as_str(), "echo");
            assert_eq!(args, &vec!["a".to_string(), "b".to_string()]);
        },
        _ => panic!("expected a command"),
    }
}

#[test]
fn parse_plain_text() {
    let parser = MessageParser::new("/");
    let msg = parser.parse("chat", "hello", None);
    match &msg.content {
        Content::Text(t) => assert_eq!(t.as_str(), "hello"),
        _ => panic!("expected text"),
    }
}

#[test]
fn parse_keeps_sender_and_chat() {
    let parser = MessageParser::new("!");
    let user = User::new("u1");
    let msg = parser.parse("room", "!ping now", Some(user));
    assert_eq!(msg.chat_id, "room");
    assert_eq!(msg.sender.as_ref().unwrap().id, "u1");
    match &msg.content {
        Content::Command { name, args } => {
            assert_eq!(name.as_str(), "ping");
            assert_eq!(args, &vec!["now".to_string()]);
        },
        _ => panic!("expected a command"),
    }
}

#[test]
fn parse_callback_has_mandatory_sender() {
    let parser = MessageParser::new("/");
    let msg = parser.parse_callback("chat", "data-1", User::new("u2"));
    match &msg.content {
        Content::CallbackData(d) => assert_eq!(d.as_str(), "data-1"),
        _ => panic!("expected callback data"),
    }
    assert_eq!(msg.sender.as_ref().unwrap().id, "u2");
}

#[test]
fn empty_command_name_parses_to_empty() {
    let parser = MessageParser::new("/");
    let msg = parser.parse("chat", "/", None);
    match &msg.content {
        Content::Command { name, args } => {
            assert_eq!(name.as_str(), "");
            assert!(args.is_empty());
        },
        _ => panic!("expected a command"),
    }
}

#[test]
fn register_same_name_twice_keeps_second() {
    let mut registry = CommandRegistry::new();
    registry.register(
        Command::new("x").with_handler(CommandAction::Reply("first".to_string())),
    );
    registry.register(
        Command::new("x").with_handler(CommandAction::Reply("second".to_string())),
    );
    assert_eq!(registry.len(), 1);
    let cmd = registry.get("x").expect("command should exist");
    match &cmd.handler {
        Some(CommandAction::Reply(s)) => assert_eq!(s.as_str(), "second"),
        None => panic!("expected a handler"),
    }
}

#[test]
fn alias_lookup_is_case_insensitive() {
    let mut registry = CommandRegistry::new();
    registry.register(Command::new("help").with_aliases(vec!["h".to_string()]));
    assert!(registry.find("H").is_some());
    assert!(registry.find("help").is_some());
    assert!(registry.find("hel").is_none());
}

#[test]
fn find_prefers_registration_order() {
    let mut registry = CommandRegistry::new();
    registry.register(Command::new("first").with_aliases(vec!["x".to_string()]));
    registry.register(Command::new("second").with_aliases(vec!["x".to_string()]));
    let found = registry.find("x").expect("alias should match");
    assert_eq!(found.name.as_str(), "first");
}

#[test]
fn dispatcher_runs_help_command() {
    let mut dispatcher = MessageDispatcher::new("/");
    let reply = dispatcher.process_text("c1", "/help").expect("dispatch should succeed");
    assert!(!reply.is_empty());
    assert!(reply.contains("help"));
}

#[test]
fn dispatcher_echoes_plain_text() {
    let mut dispatcher = MessageDispatcher::new("/");
    let reply = dispatcher.process_text("c1", "hi").expect("dispatch should succeed");
    assert!(reply.contains("hi"));
    assert_eq!(reply, "Echo: hi");
}

#[test]
fn dispatcher_reports_unknown_commands() {
    let mut dispatcher = MessageDispatcher::new("/");
    let reply = dispatcher.process_text("c1", "/nosuch").expect("dispatch should succeed");
    assert_eq!(reply, "Unknown command: /nosuch");
}

#[test]
fn dispatcher_registered_command_replies() {
    let mut dispatcher = MessageDispatcher::new("/");
    dispatcher.register_command(
        Command::new("ping").with_handler(CommandAction::Reply("pong".to_string())),
    );
    let reply = dispatcher.process_text("c1", "/ping").expect("dispatch should succeed");
    assert_eq!(reply, "pong");
}

#[test]
fn service_handles_commands_and_rejects_unknown() {
    let mut service = CommandService::new("/");
    service.register_defaults();
    let msg = Message::from_command("c1", "help", vec![]);
    let reply = service.handle(&msg).expect("known command");
    assert!(reply.unwrap().contains("/help"));

    let unknown = Message::from_command("c1", "zzz", vec![]);
    assert!(service.handle(&unknown).is_err());

    let text = Message::from_text("c1", "just words");
    assert!(service.handle(&text).expect("non-command").is_none());
}

#[test]
fn service_help_lists_commands() {
    let mut service = CommandService::new("/");
    service.register_defaults();
    let all = service.get_help(None);
    assert!(all.starts_with("Available commands:"));
    assert!(all.contains("/help"));
    assert!(all.contains("/version"));

    let one = service.get_help(Some("help"));
    assert!(one.contains("/help - Show help message"));
    assert!(one.contains("Usage: /help [command]"));

    let missing = service.get_help(Some("nope"));
    assert_eq!(missing, "Command /nope not found");
}

#[test]
fn service_keeps_prefix() {
    let service = CommandService::new("!");
    assert_eq!(service.prefix(), "!");
}

#[test]
fn message_builders_set_fields() {
    let msg = Message::from_text("c9", "hey").with_platform("console");
    assert_eq!(msg.chat_id, "c9");
    assert_eq!(msg.platform, "console");
    assert_eq!(msg.id.len(), 36);
    assert!(msg.content.text().is_some());
    assert!(!msg.content.is_command());

    let cmd = Message::from_command("c9", "go", vec!["a".to_string()]);
    assert!(cmd.content.is_command());
    assert_eq!(cmd.message_type.as_str(), "command");
}

#[test]
fn user_display_name_prefers_username() {
    let u = User::new("id1").with_username("alice").with_name("Alice", Some("Smith"));
    assert_eq!(u.display_name(), "alice");
    let v = User::new("id2").with_name("Bob", Some("Stone"));
    assert_eq!(v.display_name(), "Bob Stone");
    let w = User::new("id3");
    assert_eq!(w.display_name(), "id3");
}
