use chatters::backend_actor::{loaded_contacts, sort_contacts};
use chatters::backends::{Contact, ContactId, MessageContent, Quote};
use chatters::local::Local;
use chatters::message::FrontendMessage;
use chatters::signal::{
    add_body_ranges, attachment_name, body_ranges_fit, data_message_to_message, last_message_timestamp, parse_uuid, Envelope,
    ends_contact_sync, Received,
    profile_name, upload_spec, uuid_text, AttachmentPointer, Content, ContentBody, DataMessage, EditMessage,
    Mention, SignalQuote, SignalReaction, SignalState, Thread,
};

fn contact(name: &str, ts: Option<u64>, id: u8) -> Contact {
    Contact {
        id: ContactId::User(vec![id]),
        name: name.to_owned(),
        address: String::new(),
        last_message_timestamp: ts,
        description: String::new(),
    }
}

fn id_byte(c: &Contact) -> u8 {
    match &c.id {
        ContactId::User(v) => v[0],
        ContactId::Group(v) => v[0],
    }
}

#[test]
fn contacts_listed_latest_first_then_by_name() {
    let sorted = sort_contacts(vec![
        contact("zed", None, 1),
        contact("bob", Some(5), 2),
        contact("amy", Some(5), 3),
        contact("cat", Some(9), 4),
        contact("abe", None, 5),
    ]);
    let ids: Vec<u8> = sorted.iter().map(id_byte).collect();
    assert_eq!(ids, vec![4, 3, 2, 5, 1]);
}

#[test]
fn contacts_of_same_rank_keep_their_order() {
    let sorted = sort_contacts(vec![contact("same", Some(1), 1), contact("same", Some(1), 2), contact("same", Some(1), 3)]);
    let ids: Vec<u8> = sorted.iter().map(id_byte).collect();
    assert_eq!(ids, vec![1, 2, 3]);
}

#[test]
fn loaded_contacts_puts_groups_among_users() {
    let mut group = contact("team", Some(7), 9);
    group.id = ContactId::Group(vec![9]);
    match loaded_contacts(vec![contact("amy", Some(3), 1)], vec![group]) {
        FrontendMessage::LoadedContacts { contacts } => {
            assert_eq!(contacts.len(), 2);
            assert_eq!(contacts[0].name, "team");
            assert_eq!(contacts[1].name, "amy");
        }
        other => panic!("unexpected {other:?}"),
    }
}

#[test]
fn local_backend_conversation() {
    let local = Local::load();
    let users = local.users();
    assert_eq!(users.len(), 1);
    assert_eq!(users[0].name, "Self");
    assert!(local.groups().is_empty());
    let msgs = local.messages_at(1000);
    assert_eq!(msgs.len(), 53);
    assert_eq!(msgs[0].timestamp, 900);
    assert_eq!(msgs[1].timestamp, 910);
    match &msgs[2].content {
        MessageContent::Reaction { timestamp, reaction, remove, .. } => {
            assert_eq!(*timestamp, 900);
            assert_eq!(reaction, "\u{1F680}");
            assert!(!remove);
        }
        other => panic!("unexpected {other:?}"),
    }
    assert_eq!(msgs[3].timestamp, 951);
    assert_eq!(msgs[3].content.to_string(), "msg 49");
    assert_eq!(msgs[52].timestamp, 1000);
    assert_eq!(msgs[52].content.to_string(), "msg 0");
    let sent = local.send_message_at(5, ContactId::User(vec![0]), MessageContent::Edit { timestamp: 1, text: "x".to_owned() });
    assert_eq!(sent.timestamp, 5);
    assert_eq!(sent.sender, vec![0]);
    assert_eq!(local.self_id(), vec![0]);
}

#[test]
fn mentions_are_written_over_their_ranges() {
    let mut body = "hi XY there".to_owned();
    let ranges = vec![
        Mention { start: Some(3), length: Some(2), name: Some("Ann".to_owned()) },
        Mention { start: Some(0), length: Some(1), name: None },
    ];
    assert!(body_ranges_fit(&body, &ranges));
    add_body_ranges(&mut body, &ranges);
    assert_eq!(body, "hi @\"Ann\" there");
}

#[test]
fn mention_at_the_end_does_not_fit() {
    let ranges = vec![Mention { start: Some(3), length: Some(2), name: Some("Ann".to_owned()) }];
    assert!(!body_ranges_fit("hi XY", &ranges));
    let missing = vec![Mention { start: None, length: Some(2), name: Some("Ann".to_owned()) }];
    assert!(!body_ranges_fit("hi XY there", &missing));
}

fn pointer(name: Option<&str>, content_type: Option<&str>) -> AttachmentPointer {
    AttachmentPointer {
        file_name: name.map(|n| n.to_owned()),
        size: Some(10),
        digest: Some(vec![0xab; 10]),
        upload_timestamp: Some(42),
        content_type: content_type.map(|c| c.to_owned()),
    }
}

#[test]
fn attachment_names() {
    assert_eq!(attachment_name(&pointer(Some("photo.jpg"), None)), "42-abababababababab-photo.jpg");
    assert_eq!(attachment_name(&pointer(None, Some("image/png"))), "42-abababababababab.png");
    assert!(attachment_name(&pointer(Some("notes"), None)).starts_with("42-abababababababab-notes."));
    assert_eq!(attachment_name(&pointer(Some("notes"), Some("nonsense"))), "42-abababababababab-notes.bin");
    let short = AttachmentPointer {
        file_name: None,
        size: None,
        digest: Some(vec![1]),
        upload_timestamp: None,
        content_type: Some("nonsense".to_owned()),
    };
    assert_eq!(attachment_name(&short), "0-01.bin");
}

#[test]
fn uuids_round_trip() {
    let bytes: Vec<u8> = (0u8..16).collect();
    let text = uuid_text(&bytes);
    assert_eq!(text, "00010203-0405-0607-0809-0a0b0c0d0e0f");
    assert_eq!(parse_uuid(&text), Some(bytes));
    assert_eq!(parse_uuid("not a uuid"), None);
}

fn sender() -> Vec<u8> {
    vec![7; 16]
}

#[test]
fn data_message_with_text_attachment_and_quote() {
    let author = uuid_text(&vec![3; 16]);
    let dm = DataMessage {
        body: Some("hello Bo!".to_owned()),
        body_ranges: vec![Mention { start: Some(6), length: Some(2), name: Some("Bob".to_owned()) }],
        attachments: vec![pointer(None, Some("image/png")), pointer(Some("a.txt"), None)],
        quote: Some(SignalQuote { id: Some(11), author: Some(author), text: Some("earlier".to_owned()), body_ranges: Vec::new() }),
        reaction: None,
        timestamp: None,
    };
    let (msg, pointers) =
        data_message_to_message(99, &sender(), &Thread::Contact(vec![5; 16]), dm, 4, "/att", "fallback", &[true, false])
            .expect("shown");
    assert_eq!(pointers.len(), 2);
    assert_eq!(msg.timestamp, 99);
    assert_eq!(msg.sender, sender());
    match &msg.contact_id {
        ContactId::User(u) => assert_eq!(u, &vec![5; 16]),
        other => panic!("unexpected {other:?}"),
    }
    match &msg.content {
        MessageContent::Text { text, attachments } => {
            assert_eq!(text, "hello @\"Bob\"!");
            assert_eq!(attachments.len(), 2);
            assert_eq!(attachments[0].name, "fallback");
            assert_eq!(attachments[0].index, 4);
            assert_eq!(attachments[1].index, 4);
            assert_eq!(attachments[0].size, 10);
            assert_eq!(attachments[0].path.as_deref(), Some("/att/42-abababababababab.png"));
            assert_eq!(attachments[1].path, None);
            assert_eq!(attachments[1].name, "a.txt");
        }
        other => panic!("unexpected {other:?}"),
    }
    let q = msg.quote.expect("quote");
    assert_eq!(q.timestamp, 11);
    assert_eq!(q.sender, vec![3; 16]);
    assert_eq!(q.text, "earlier");
}

#[test]
fn data_message_with_reaction_or_nothing() {
    let reaction = DataMessage {
        body: None,
        body_ranges: Vec::new(),
        attachments: Vec::new(),
        quote: None,
        reaction: Some(SignalReaction {
            emoji: Some("+1".to_owned()),
            remove: None,
            target_author: Some(uuid_text(&vec![1; 16])),
            target_sent_timestamp: Some(8),
        }),
        timestamp: None,
    };
    let (msg, pointers) =
        data_message_to_message(3, &sender(), &Thread::Group(vec![2; 32]), reaction, 0, "/a", "f", &[]).expect("shown");
    assert!(pointers.is_empty());
    match msg.content {
        MessageContent::Reaction { message_author, timestamp, reaction, remove } => {
            assert_eq!(message_author, vec![1; 16]);
            assert_eq!(timestamp, 8);
            assert_eq!(reaction, "+1");
            assert!(!remove);
        }
        other => panic!("unexpected {other:?}"),
    }
    let empty = DataMessage {
        body: None,
        body_ranges: Vec::new(),
        attachments: Vec::new(),
        quote: None,
        reaction: None,
        timestamp: None,
    };
    assert!(data_message_to_message(3, &sender(), &Thread::Contact(vec![1; 16]), empty, 0, "/a", "f", &[]).is_none());
}

fn edit_content(ts: u64, target: u64) -> Content {
    Content {
        timestamp: ts,
        sender: sender(),
        thread: Thread::Contact(vec![1; 16]),
        body: ContentBody::Sent {
            message: None,
            edit: Some(EditMessage {
                target_sent_timestamp: Some(target),
                data_message: Some(DataMessage {
                    body: Some("fixed".to_owned()),
                    body_ranges: Vec::new(),
                    attachments: Vec::new(),
                    quote: None,
                    reaction: None,
                    timestamp: None,
                }),
            }),
        },
    }
}

#[test]
fn signal_state_receives_edits_and_keeps_pointers() {
    let mut state = SignalState::new(sender(), "Me".to_owned(), "/att".to_owned());
    let msg = state.try_receive(edit_content(20, 10), "f", &[]).expect("readable").expect("shown");
    assert_eq!(msg.timestamp, 10);
    match msg.content {
        MessageContent::Edit { timestamp, text } => {
            assert_eq!(timestamp, 20);
            assert_eq!(text, "fixed");
        }
        other => panic!("unexpected {other:?}"),
    }
    let with_attachment = Content {
        timestamp: 30,
        sender: sender(),
        thread: Thread::Contact(vec![1; 16]),
        body: ContentBody::Data(DataMessage {
            body: None,
            body_ranges: Vec::new(),
            attachments: vec![pointer(Some("x.pdf"), None)],
            quote: None,
            reaction: None,
            timestamp: None,
        }),
    };
    assert!(state.try_receive(with_attachment, "f", &[]).is_err());
    assert!(state.attachment_pointers.is_empty());
    let with_attachment = Content {
        timestamp: 30,
        sender: sender(),
        thread: Thread::Contact(vec![1; 16]),
        body: ContentBody::Data(DataMessage {
            body: None,
            body_ranges: Vec::new(),
            attachments: vec![pointer(Some("x.pdf"), None)],
            quote: None,
            reaction: None,
            timestamp: None,
        }),
    };
    assert!(state.try_receive(with_attachment, "f", &[false]).unwrap().is_some());
    assert_eq!(state.attachment_pointers.len(), 1);
    assert!(state.pointer(0).is_ok());
    assert!(matches!(state.pointer(1), Err(chatters::backends::Error::UnknownAttachment(1))));
}

#[test]
fn last_message_time_is_that_of_the_first_shown() {
    let other = Content { timestamp: 50, sender: sender(), thread: Thread::Contact(vec![1; 16]), body: ContentBody::Other };
    let contents = vec![other, edit_content(40, 35), edit_content(30, 25)];
    assert_eq!(last_message_timestamp(&contents), Some(35));
    assert_eq!(last_message_timestamp(&[]), None);
}

#[test]
fn users_groups_and_profile_names() {
    let state = SignalState::new(sender(), "Me Myself".to_owned(), "/att".to_owned());
    let me = state.user_contact(sender(), String::new(), None, Some(3)).expect("self listed");
    assert_eq!(me.name, "Me Myself");
    assert!(state.user_contact(vec![1; 16], String::new(), None, None).is_none());
    let bob = state.user_contact(vec![1; 16], "Bob".to_owned(), Some("+100".to_owned()), None).expect("listed");
    assert_eq!(bob.address, "+100");
    let group = SignalState::group_contact(vec![4; 32], "Team".to_owned(), None, Some(1));
    assert_eq!(group.name, "Team");
    assert_eq!(group.description, "");
    assert_eq!(profile_name(Some(("Ann".to_owned(), Some("Lee".to_owned())))), "Ann Lee");
    assert_eq!(profile_name(Some(("Ann".to_owned(), None))), "Ann");
    assert_eq!(profile_name(None), "Self");
}

#[test]
fn outgoing_messages() {
    let state = SignalState::new(sender(), "Me".to_owned(), "/att".to_owned());
    let quote = Quote { timestamp: 4, sender: vec![2; 16], text: "q".to_owned() };
    let (data, shown) = state.outgoing(
        77,
        &ContactId::User(vec![1; 16]),
        MessageContent::Text { text: "hi".to_owned(), attachments: Vec::new() },
        Some(&quote),
        vec![pointer(None, None)],
    );
    assert_eq!(data.body.as_deref(), Some("hi"));
    assert!(data.attachments.is_empty());
    assert_eq!(data.timestamp, Some(77));
    let q = data.quote.expect("quote");
    assert_eq!(q.author, Some(uuid_text(&vec![2; 16])));
    assert_eq!(q.id, Some(4));
    assert_eq!(shown.timestamp, 77);
    assert_eq!(shown.sender, sender());
    assert_eq!(shown.quote.expect("quote").text, "q");
    let (data, _) = state.outgoing(
        78,
        &ContactId::User(vec![1; 16]),
        MessageContent::Reaction { message_author: vec![6; 16], timestamp: 5, reaction: "x".to_owned(), remove: true },
        None,
        Vec::new(),
    );
    let r = data.reaction.expect("reaction");
    assert_eq!(r.target_author, Some(uuid_text(&vec![6; 16])));
    assert_eq!(r.remove, Some(true));
    assert_eq!(r.target_sent_timestamp, Some(5));
}

#[test]
fn upload_specs() {
    let (mime, name) = upload_spec("/tmp/cat.png");
    assert_eq!(mime, "image/png");
    assert_eq!(name.as_deref(), Some("cat.png"));
    let (mime, _) = upload_spec("/tmp/noext");
    assert_eq!(mime, "application/octet-stream");
}

#[test]
fn sorting_a_listing_changes_nothing() {
    let once = sort_contacts(vec![contact("b", Some(2), 1), contact("a", Some(2), 2), contact("c", None, 3), contact("d", Some(9), 4)]);
    let ids_once: Vec<u8> = once.iter().map(id_byte).collect();
    let twice = sort_contacts(once);
    let ids_twice: Vec<u8> = twice.iter().map(id_byte).collect();
    assert_eq!(ids_once, ids_twice);
    assert_eq!(ids_once, vec![4, 2, 1, 3]);
}

fn with_attachment(ts: u64, name: &str) -> Content {
    Content {
        timestamp: ts,
        sender: sender(),
        thread: Thread::Contact(vec![1; 16]),
        body: ContentBody::Data(DataMessage {
            body: Some("see".to_owned()),
            body_ranges: Vec::new(),
            attachments: vec![pointer(Some(name), None)],
            quote: None,
            reaction: None,
            timestamp: None,
        }),
    }
}

#[test]
fn a_conversation_is_read_in_order() {
    let mut state = SignalState::new(sender(), "Me".to_owned(), "/att".to_owned());
    let envelopes = vec![
        Envelope { content: with_attachment(10, "a.pdf"), fallback_name: "f".to_owned(), downloaded: vec![false] },
        Envelope {
            content: Content { timestamp: 11, sender: sender(), thread: Thread::Contact(vec![1; 16]), body: ContentBody::Other },
            fallback_name: "f".to_owned(),
            downloaded: Vec::new(),
        },
        Envelope { content: with_attachment(12, "b.pdf"), fallback_name: "f".to_owned(), downloaded: vec![false] },
    ];
    let messages = state.receive_all(envelopes);
    assert_eq!(messages.len(), 2);
    assert_eq!(messages[0].timestamp, 10);
    assert_eq!(messages[1].timestamp, 12);
    match &messages[1].content {
        MessageContent::Text { attachments, .. } => {
            assert_eq!(attachments[0].index, 1);
            assert_eq!(attachments[0].name, "b.pdf");
        }
        other => panic!("unexpected {other:?}"),
    }
    assert_eq!(state.attachment_pointers.len(), 2);
}

#[test]
fn threads_of_contacts() {
    let t = Thread::of_contact(&ContactId::User(vec![4; 16]));
    assert!(t.contact_id().same_as(&ContactId::User(vec![4; 16])));
    assert!(matches!(t, Thread::Contact(_)));
    let g = Thread::of_contact(&ContactId::Group(vec![5; 32]));
    assert!(matches!(g, Thread::Group(ref k) if k == &vec![5; 32]));
}

#[test]
fn background_sync_hears_new_messages() {
    let mut state = SignalState::new(sender(), "Me".to_owned(), "/att".to_owned());
    assert!(state.on_received(Received::QueueEmpty).is_none());
    assert!(state.on_received(Received::Contacts).is_none());
    let news = state.on_received(Received::Content(Envelope {
        content: with_attachment(15, "c.pdf"),
        fallback_name: "f".to_owned(),
        downloaded: vec![false],
    }));
    match news {
        Some(FrontendMessage::NewMessage { message }) => assert_eq!(message.timestamp, 15),
        other => panic!("unexpected {other:?}"),
    }
    assert_eq!(state.attachment_pointers.len(), 1);
    assert!(ends_contact_sync(&Received::Contacts));
    assert!(!ends_contact_sync(&Received::QueueEmpty));
}
