use chatters::backends::{Contact, ContactId, Message, MessageAttachment, MessageContent};
use chatters::command_history::CommandLineHistory;
use chatters::commands::attachments::find_links;
use chatters::commands::navigation::{NextMessage, SelectMessage};
use chatters::commands::registry::{commands, complete_command, render_commands, CompletionStep, ExecuteCommand};
use chatters::commands::{expand_tilde, Command, CommandSuccess, Completion, Effect, Error};
use chatters::tui::command_line::Completions;
use chatters::tui::list::ListState;
use chatters::config::Config;
use chatters::hooks::Hooks;
use chatters::keybinds::{KeyCode, KeyEvent, KeyEvents, KeyModifiers};
use chatters::message::{BackendMessage, FrontendMessage};
use chatters::text::{shell_quote, sort_strings};
use chatters::tui::contacts::Contacts;
use chatters::tui::messages::Messages;
use chatters::tui::compose::Compose;
use chatters::tui::messages::Quote;
use chatters::tui::{biggest_duration_string, contact_row, indent_lines, message_header, truncate_or_pad, Mode, TuiState};
use chatters::util::{process_backend_message, KeyAction, KeyDriver, KeyStep};

fn user(id: u8, name: &str) -> Contact {
    Contact {
        id: ContactId::User(vec![id]),
        name: name.to_owned(),
        address: String::new(),
        last_message_timestamp: None,
        description: String::new(),
    }
}

fn text(ts: u64, sender: u8, body: &str) -> Message {
    Message {
        timestamp: ts,
        sender: vec![sender],
        contact_id: ContactId::User(vec![sender]),
        content: MessageContent::Text { text: body.to_owned(), attachments: Vec::new() },
        quote: None,
    }
}

fn state() -> TuiState {
    let mut s = TuiState::new("chatters".to_owned(), vec![9], Config::default(), "/tmp/c.toml".to_owned(), None);
    s.contacts = Contacts::new(vec![user(1, "alice"), user(2, "bob smith")]);
    s
}

fn key(code: KeyCode) -> KeyEvent {
    KeyEvent { code, modifiers: KeyModifiers::empty() }
}

/// Answers a key fully, typing into the command line as the program would.
fn press(s: &mut TuiState, config: &Config, k: KeyEvent) -> (bool, Vec<KeyAction>) {
    let mut driver = KeyDriver::new(k, 1000);
    let mut actions = Vec::new();
    loop {
        match driver.step(s, config) {
            KeyStep::Act(KeyAction::CommandLineInput(k)) => {
                if let KeyCode::Char(c) = k.code {
                    s.command_line.append_text(c.to_string());
                }
            }
            KeyStep::Act(a) => actions.push(a),
            KeyStep::Continue => {}
            KeyStep::Done(quit) => return (quit, actions),
            KeyStep::Stop(m) => panic!("stopped: {m}"),
        }
    }
}

#[test]
fn shell_quote_cases() {
    assert_eq!(shell_quote(""), "''");
    assert_eq!(shell_quote("abc"), "abc");
    assert_eq!(shell_quote("bob smith"), "'bob smith'");
    assert_eq!(shell_quote("it's"), "'it'\\''s'");
}

#[test]
fn duration_strings() {
    assert_eq!(biggest_duration_string(0), "now");
    assert_eq!(biggest_duration_string(1500), "1s");
    assert_eq!(biggest_duration_string(90_000), "1m");
    assert_eq!(biggest_duration_string(3 * 86_400_000), "3d");
    assert_eq!(biggest_duration_string(8 * 86_400_000), "1w");
    assert_eq!(biggest_duration_string(31 * 86_400_000), "1M");
    assert_eq!(biggest_duration_string(365 * 86_400_000), "1y");
}

#[test]
fn truncate_and_pad() {
    assert_eq!(truncate_or_pad("abc".to_owned(), 5), "abc  ");
    assert_eq!(truncate_or_pad("abcdef".to_owned(), 3), "abc");
    assert_eq!(truncate_or_pad("é".to_owned(), 4), "é  ");
}

#[test]
fn sorting_strings() {
    let v = vec!["b".to_owned(), "a".to_owned(), "ab".to_owned(), "a".to_owned()];
    assert_eq!(sort_strings(v), vec!["a", "a", "ab", "b"]);
}

#[test]
fn messages_in_order_with_reactions_and_edits() {
    let mut m = Messages::new();
    m.add_single(text(20, 1, "second"));
    m.add_single(text(10, 1, "first"));
    assert_eq!(m.len(), 2);
    assert_eq!(m.get_by_index(0).unwrap().content, "first");
    m.add_single(Message {
        timestamp: 30,
        sender: vec![2],
        contact_id: ContactId::User(vec![1]),
        content: MessageContent::Reaction {
            message_author: vec![1],
            timestamp: 10,
            reaction: "👍".to_owned(),
            remove: false,
        },
        quote: None,
    });
    assert_eq!(m.get_by_timestamp(10).unwrap().reactions.len(), 1);
    m.add_single(Message {
        timestamp: 20,
        sender: vec![1],
        contact_id: ContactId::User(vec![1]),
        content: MessageContent::Edit { timestamp: 40, text: "2nd".to_owned() },
        quote: None,
    });
    assert_eq!(m.get_by_timestamp(20).unwrap().edits[0].text, "2nd");
    assert!(m.get_by_timestamp(15).is_none());
    m.select_message(20);
    assert_eq!(m.selected().unwrap().timestamp, 20);
}

#[test]
fn reaction_to_unknown_message_is_ignored() {
    let mut m = Messages::new();
    m.add_single(text(10, 1, "hi"));
    m.add_single(Message {
        timestamp: 11,
        sender: vec![1],
        contact_id: ContactId::User(vec![1]),
        content: MessageContent::Reaction {
            message_author: vec![1],
            timestamp: 99,
            reaction: "x".to_owned(),
            remove: false,
        },
        quote: None,
    });
    assert_eq!(m.len(), 1);
    assert!(m.get_by_timestamp(10).unwrap().reactions.is_empty());
}

#[test]
fn rendered_message_lines() {
    let mut m = Messages::new();
    m.add_single(text(10, 1, "hello there"));
    let lines = m.get_by_index(0).unwrap().render(20);
    assert_eq!(lines, vec!["  hello there"]);
}

#[test]
fn contacts_lookup() {
    let c = Contacts::new(vec![user(1, "alice"), user(2, "bob")]);
    assert_eq!(c.contact_by_id(&vec![2]).unwrap().name, "bob");
    assert!(c.contact_by_id(&vec![3]).is_none());
    assert_eq!(c.position_by_name_prefix("bo"), Some(1));
    assert_eq!(c.index_by_id(&ContactId::User(vec![1])), Some(0));
}

#[test]
fn history_moves() {
    let mut h = CommandLineHistory::new();
    h.push("one".to_owned());
    h.push("two".to_owned());
    h.select_previous();
    assert_eq!(h.selected_command().unwrap(), "two");
    h.select_previous();
    h.select_next();
    assert_eq!(h.selected_command().unwrap(), "two");
    h.select_next();
    assert!(h.selected_command().is_none());
}

#[test]
fn error_messages() {
    assert_eq!(Error::MissingArgument("index".to_owned()).to_string(), "Missing argument index");
    assert_eq!(
        Error::InvalidArgument { arg: "item".to_owned(), value: "x".to_owned() }.to_string(),
        "Invalid argument \"item\" with value \"x\""
    );
    assert_eq!(Error::UnknownCommand("nope".to_owned()).to_string(), "Unknown command \"nope\"");
    assert_eq!(Error::NoMessageSelected.to_string(), "No message selected");
}

#[test]
fn commands_popup_text() {
    let (title, text) = render_commands();
    assert_eq!(title, "Commands");
    let lines: Vec<&str> = text.lines().collect();
    assert_eq!(lines.len(), commands().len());
    assert_eq!(lines[0], ":attach-files");
    let mut sorted = lines.clone();
    sorted.sort();
    assert_eq!(lines, sorted);
}

#[test]
fn links_in_text() {
    assert_eq!(find_links("see https://example.com/a now"), vec!["https://example.com/a"]);
    assert!(find_links("no links here").is_empty());
}

#[test]
fn tilde_expansion() {
    let home = Some("/home/me".to_owned());
    assert_eq!(expand_tilde("~", &home), "/home/me");
    assert_eq!(expand_tilde("~/notes.txt", &home), "/home/me/notes.txt");
    assert_eq!(expand_tilde("/etc", &home), "/etc");
}

#[test]
fn hook_environment() {
    let hooks = Hooks { on_new_message: Some("notify".to_owned()) };
    let (cmd, env) = hooks
        .do_on_new_message("chatters", &user(1, "alice"), &user(2, "bob"), &text(1, 2, "hi"))
        .unwrap();
    assert_eq!(cmd, "notify");
    assert_eq!(env[0], ("CHATTERS_APP_NAME".to_owned(), "chatters".to_owned()));
    assert_eq!(env[2], ("CHATTERS_MESSAGE_BODY".to_owned(), "hi".to_owned()));
    assert!(Hooks::new().do_on_new_message("c", &user(1, "a"), &user(1, "a"), &text(1, 1, "x")).is_none());
}

#[test]
fn select_message_from_the_end() {
    let mut s = state();
    s.messages.add_single(text(10, 1, "a"));
    s.messages.add_single(text(20, 1, "b"));
    let mut outbox = Vec::new();
    let cmd = SelectMessage { index: -1 };
    assert!(cmd.can_run(&s));
    cmd.execute(&mut s, &mut outbox).unwrap();
    assert_eq!(s.messages.list_state_selected(), Some(1));
    let next = NextMessage;
    next.execute(&mut s, &mut outbox).unwrap();
    assert_eq!(s.messages.list_state_selected(), Some(2));
    assert!(outbox.is_empty());
}

#[test]
fn command_line_runs_commands() {
    let config = Config::default();
    let mut s = state();
    let (quit, _) = press(&mut s, &config, key(KeyCode::Char(':')));
    assert!(!quit);
    assert!(matches!(s.mode, Mode::Command { .. }));
    for c in "select-contact bob".chars() {
        press(&mut s, &config, key(KeyCode::Char(c)));
    }
    let (quit, actions) = press(&mut s, &config, key(KeyCode::Enter));
    assert!(!quit);
    assert!(matches!(s.mode, Mode::Normal));
    assert_eq!(s.contacts.table_state_selected(), Some(1));
    assert_eq!(actions.len(), 1);
    match &actions[0] {
        KeyAction::Perform(Effect::Send(BackendMessage::LoadMessages { contact_id, .. })) => {
            assert!(contact_id.same_as(&ContactId::User(vec![2])));
        }
        other => panic!("unexpected {:?}", other),
    }
    press(&mut s, &config, key(KeyCode::Char(':')));
    for c in "quit".chars() {
        press(&mut s, &config, key(KeyCode::Char(c)));
    }
    let (quit, _) = press(&mut s, &config, key(KeyCode::Enter));
    assert!(quit);
}

#[test]
fn unknown_command_is_reported() {
    let config = Config::default();
    let mut s = state();
    s.mode = Mode::Command { previous: chatters::tui::BasicMode::Normal };
    s.command_line.set_text("frobnicate now".to_owned());
    let mut outbox = Vec::new();
    let res = ExecuteCommand.execute(&mut s, &mut outbox);
    match res {
        Err(Error::UnknownCommand(c)) => assert_eq!(c, "frobnicate"),
        other => panic!("unexpected {:?}", other),
    }
    assert_eq!(s.command_line.history.iter().len(), 1);
    let _ = config;
}

#[test]
fn key_bindings_run_their_keys() {
    let mut config = Config::default();
    config.keybinds.bind(Mode::Normal, KeyEvents::from_str("q").unwrap(), ":quit<enter>".to_owned());
    config.keybinds.bind(Mode::Normal, KeyEvents::from_str("gg").unwrap(), ":select-message 0<enter>".to_owned());
    let mut s = state();
    let (quit, _) = press(&mut s, &config, key(KeyCode::Char('g')));
    assert!(!quit);
    assert_eq!(s.key_events.0.len(), 1);
    let (quit, _) = press(&mut s, &config, key(KeyCode::Char('x')));
    assert!(!quit);
    assert_eq!(s.command_line.error, "Failed to find keybind for gx");
    let (quit, _) = press(&mut s, &config, key(KeyCode::Char('q')));
    assert!(quit);
}

#[test]
fn new_messages_move_their_contact_up() {
    let config = Config::default();
    let mut s = state();
    let mut outbox = Vec::new();
    s.contacts.select(Some(1));
    let stop = process_backend_message(&mut s, &config, "chatters", FrontendMessage::NewMessage { message: text(5, 2, "hey") }, &mut outbox);
    assert!(stop.is_none());
    assert_eq!(s.contacts.contact_or_group_by_index(0).unwrap().name, "bob smith");
    assert_eq!(s.contacts.table_state_selected(), Some(0));
    assert_eq!(s.messages.len(), 1);
    let stop = process_backend_message(
        &mut s,
        &config,
        "chatters",
        FrontendMessage::NewMessage { message: text(6, 7, "who") },
        &mut outbox,
    );
    assert!(stop.is_some());
}

#[test]
fn loaded_contacts_select_the_first() {
    let config = Config::default();
    let mut s = TuiState::new("c".to_owned(), vec![9], Config::default(), String::new(), None);
    let mut outbox = Vec::new();
    process_backend_message(&mut s, &config, "c", FrontendMessage::LoadedContacts { contacts: vec![user(1, "a")] }, &mut outbox);
    assert_eq!(s.contacts.table_state_selected(), Some(0));
    assert_eq!(outbox.len(), 1);
}

#[test]
fn attachments_line() {
    let a = MessageAttachment { name: "f.txt".to_owned(), size: 2048, index: 0, path: None };
    assert!(a.message_line().contains("f.txt"));
}

#[test]
fn loaded_messages_replace_those_shown() {
    let config = Config::default();
    let mut s = state();
    let mut outbox = Vec::new();
    s.contacts.select(Some(0));
    let stop = process_backend_message(
        &mut s,
        &config,
        "c",
        FrontendMessage::LoadedMessages { messages: vec![text(3, 1, "a"), text(4, 1, "b")] },
        &mut outbox,
    );
    assert!(stop.is_none());
    assert_eq!(s.messages.len(), 2);
    assert_eq!(s.messages.list_state_selected(), Some(usize::MAX));
    assert_eq!(s.contacts.contact_or_group_by_index(0).unwrap().last_message_timestamp, Some(4));
    assert!(outbox.is_empty());
    let stop = process_backend_message(
        &mut s,
        &config,
        "c",
        FrontendMessage::LoadedMessages { messages: vec![text(9, 2, "not this contact")] },
        &mut outbox,
    );
    assert!(stop.is_none());
    assert_eq!(s.messages.len(), 2);
}

#[test]
fn new_message_of_another_contact_runs_the_hook() {
    let mut config = Config::default();
    config.hooks.on_new_message = Some("notify".to_owned());
    let mut s = state();
    let mut outbox = Vec::new();
    s.contacts.select(Some(0));
    let stop = process_backend_message(&mut s, &config, "prog", FrontendMessage::NewMessage { message: text(5, 2, "hey") }, &mut outbox);
    assert!(stop.is_none());
    assert_eq!(s.contacts.table_state_selected(), Some(1));
    assert_eq!(s.messages.len(), 0);
    match &outbox[..] {
        [Effect::RunHook { command, env }] => {
            assert_eq!(command, "notify");
            assert_eq!(env[0], ("CHATTERS_APP_NAME".to_owned(), "prog".to_owned()));
            assert_eq!(env[3], ("CHATTERS_SENDER_NAME".to_owned(), "bob smith".to_owned()));
        }
        other => panic!("unexpected {other:?}"),
    }
}

#[test]
fn downloaded_attachment_records_its_path() {
    let config = Config::default();
    let mut s = state();
    let mut outbox = Vec::new();
    s.contacts.select(Some(0));
    let with_file = Message {
        timestamp: 7,
        sender: vec![1],
        contact_id: ContactId::User(vec![1]),
        content: MessageContent::Text {
            text: "file".to_owned(),
            attachments: vec![MessageAttachment { name: "f".to_owned(), size: 1, index: 3, path: None }],
        },
        quote: None,
    };
    process_backend_message(&mut s, &config, "c", FrontendMessage::LoadedMessages { messages: vec![with_file] }, &mut outbox);
    let stop = process_backend_message(
        &mut s,
        &config,
        "c",
        FrontendMessage::DownloadedAttachment {
            contact_id: ContactId::User(vec![1]),
            timestamp: 7,
            index: 3,
            file_path: "/tmp/f".to_owned(),
        },
        &mut outbox,
    );
    assert!(stop.is_none());
    let m = s.messages.get_by_timestamp(7).unwrap();
    assert_eq!(m.attachments[0].path.as_deref(), Some("/tmp/f"));
    let stop = process_backend_message(
        &mut s,
        &config,
        "c",
        FrontendMessage::DownloadedAttachment {
            contact_id: ContactId::User(vec![1]),
            timestamp: 7,
            index: 4,
            file_path: "/tmp/g".to_owned(),
        },
        &mut outbox,
    );
    assert!(stop.is_some());
}

#[test]
fn message_list_items() {
    let config = Config::default();
    let mut s = state();
    let mut outbox = Vec::new();
    s.contacts.select(Some(0));
    process_backend_message(&mut s, &config, "c", FrontendMessage::LoadedMessages { messages: vec![text(1000, 1, "hi")] }, &mut outbox);
    let m = s.messages.get_by_index(0).unwrap();
    let header = message_header(&s, m, 61_000).unwrap();
    assert_eq!(header, format!("alice{}1m ", " ".repeat(17)));
    let lines = indent_lines("ab ", vec!["x".to_owned(), "y".to_owned()]);
    assert_eq!(lines, vec!["ab x".to_owned(), "   y".to_owned()]);
    let (name, age) = contact_row(&user(1, "alice"), 5);
    assert_eq!(name, "alice");
    assert_eq!(age, "");
    let mut dated = user(1, "alice");
    dated.last_message_timestamp = Some(0);
    assert_eq!(contact_row(&dated, 3_600_000).1, "1h");
}

#[test]
fn compose_header_lines() {
    let mut c = Compose::new();
    assert_eq!(c.header_lines(), Some(Vec::new()));
    c.set_quote(Quote { timestamp: 1, sender: vec![1], text: "first\nsecond".to_owned() });
    c.attach_file("/tmp/x.txt".to_owned(), 5);
    let lines = c.header_lines().unwrap();
    assert_eq!(lines[0], "> first");
    assert_eq!(lines.len(), 2);
    let mut empty = Compose::new();
    empty.set_quote(Quote { timestamp: 1, sender: vec![1], text: String::new() });
    assert_eq!(empty.header_lines(), None);
}

#[test]
fn completing_cycles_through_the_command_names() {
    let mut s = state();
    s.command_line.set_text("select-".to_owned());
    assert!(matches!(complete_command(&mut s), CompletionStep::Done));
    let offered: Vec<String> = s.command_line.completions().iter().map(|c| c.append.clone()).collect();
    assert_eq!(offered.len(), 2);
    assert_eq!(s.command_line.text(), "select-");
    assert_eq!(s.command_line.selected_completion(), None);
    for (i, append) in offered.iter().enumerate() {
        assert!(matches!(complete_command(&mut s), CompletionStep::Done));
        assert_eq!(s.command_line.selected_completion(), Some(i));
        assert_eq!(s.command_line.text(), format!("select-{append}"));
        assert_eq!(s.command_line.text_without_completion(), "select-");
        assert_eq!(s.command_line.cursor_index(), 7 + append.chars().count());
    }
    assert!(matches!(complete_command(&mut s), CompletionStep::Done));
    assert_eq!(s.command_line.selected_completion(), None);
    assert_eq!(s.command_line.text(), "select-");
    assert_eq!(s.command_line.cursor_index(), 7);
}

#[test]
fn a_single_completion_is_typed_at_once() {
    let mut s = state();
    s.command_line.set_text("qui".to_owned());
    assert!(matches!(complete_command(&mut s), CompletionStep::Done));
    assert_eq!(s.command_line.text(), "quit");
    assert_eq!(s.command_line.completions().len(), 0);
    s.command_line.set_text("attach-files ~/do".to_owned());
    match complete_command(&mut s) {
        CompletionStep::Paths(p) => assert_eq!(p, "~/do"),
        other => panic!("unexpected {:?}", other),
    }
}

#[test]
fn typing_into_the_compose_box_and_the_command_line() {
    let mut c = Compose::new();
    for ch in "hi".chars() {
        c.input(key(KeyCode::Char(ch)));
    }
    c.input(key(KeyCode::Enter));
    c.input(key(KeyCode::Char('x')));
    assert_eq!(c.lines(), vec!["hi".to_owned(), "x".to_owned()]);
    assert_eq!(c.cursor_position(), (1, 1));
    let mut s = state();
    s.command_line.set_text("quit".to_owned());
    s.command_line.input(key(KeyCode::Char('!')));
    assert_eq!(s.command_line.text(), "quit!");
    assert_eq!(s.command_line.cursor_index(), 5);
}

#[test]
fn binding_keys_again_replaces_the_command() {
    let mut config = Config::default();
    config.keybinds.bind(Mode::Normal, KeyEvents::from_str("q").unwrap(), ":quit<enter>".to_owned());
    config.keybinds.bind(Mode::Normal, KeyEvents::from_str("x").unwrap(), ":react +1<enter>".to_owned());
    config.keybinds.bind(Mode::Normal, KeyEvents::from_str("q").unwrap(), ":reload-config<enter>".to_owned());
    assert_eq!(config.keybinds.normal.len(), 2);
    assert_eq!(config.keybinds.get(&KeyEvents::from_str("q").unwrap(), Mode::Normal), Ok(&":reload-config<enter>".to_owned()));
    assert_eq!(config.keybinds.popup.len(), 0);
}

#[test]
fn single_keys_read_back_from_their_text() {
    let ctrl = KeyModifiers { control: true, ..KeyModifiers::empty() };
    let keys = vec![
        key(KeyCode::Char('<')),
        KeyEvent { code: KeyCode::Char('>'), modifiers: ctrl },
        KeyEvent { code: KeyCode::Char('a'), modifiers: ctrl },
        KeyEvent { code: KeyCode::Char('A'), modifiers: KeyModifiers { shift: true, ..KeyModifiers::empty() } },
        key(KeyCode::Esc),
        KeyEvent { code: KeyCode::Up, modifiers: ctrl },
    ];
    for k in keys {
        let text = k.to_text();
        assert_eq!(KeyEvent::from_str(&text), Ok(k), "{text}");
    }
    assert_eq!(key(KeyCode::Char('<')).to_text(), "<");
    assert_eq!(KeyEvent { code: KeyCode::Char('>'), modifiers: ctrl }.to_text(), "<C->>");
}

#[test]
fn added_messages_stay_in_order_and_are_found() {
    let mut ms = Messages::new();
    ms.add_multiple(vec![text(30, 1, "c"), text(10, 1, "a"), text(20, 1, "b"), text(10, 1, "a2")]);
    assert_eq!(ms.len(), 3);
    let stamps: Vec<u64> = (0..3).map(|i| ms.get_by_index(i).unwrap().timestamp).collect();
    assert_eq!(stamps, vec![10, 20, 30]);
    assert_eq!(ms.get_by_timestamp(10).unwrap().content, "a2");
    match ms.get_mut_by_timestamp(20) {
        Some(m) => m.content = "changed".to_owned(),
        None => panic!("no message at 20"),
    }
    assert_eq!(ms.get_by_timestamp(20).unwrap().content, "changed");
    assert!(ms.get_mut_by_timestamp(15).is_none());
    assert_eq!(ms.len(), 3);
}

#[test]
fn tilde_expansion_joins_paths() {
    let home = Some("/home/me/".to_owned());
    assert_eq!(expand_tilde("~/notes.txt", &home), "/home/me/notes.txt");
    assert_eq!(expand_tilde("~//etc/x", &Some("/home/me".to_owned())), "/etc/x");
}

#[test]
fn typing_into_a_fresh_compose_box() {
    let mut s = state();
    s.compose.input(key(KeyCode::Char(':')));
    assert_eq!(s.compose.lines(), vec![":".to_owned()]);
    assert_eq!(s.command_line.text(), "");
}

#[test]
fn a_single_completion_leaves_none_offered() {
    let mut s = state();
    s.command_line.set_text("qu".to_owned());
    assert!(matches!(complete_command(&mut s), CompletionStep::Done));
    assert_eq!(s.command_line.text(), "quit");
    assert!(s.command_line.completions().is_empty());
    assert_eq!(s.command_line.completions_generated_for(), &Some("quit".to_owned()));
}

#[test]
fn a_completion_with_a_line_break_is_typed_across_lines() {
    let mut s = state();
    s.command_line.set_text("x".to_owned());
    s.command_line.completions = Completions {
        candidates: vec![Completion { display: "ab".to_owned(), append: "a\nb".to_owned() }],
        list_state: ListState::new(0, None),
        generated_for: Some("x".to_owned()),
    };
    s.command_line.select_next_completion();
    assert_eq!(s.command_line.selected_completion(), Some(0));
    assert_eq!(s.command_line.text(), "xa");
    assert_eq!(s.command_line.cursor_index(), 1);
}
