use chatters::backends::{ContactId, MessageAttachment, MessageContent, Quote};
use chatters::matrix::{
    answer_of, confirmation_answer, get_session_file, outgoing_text, session_file_of, request_step, retry_after, room_groups, room_users, sas_step,
    sent_message, BuildFailure, ClientSession, JoinedRoom, RequestState, RequestStep, SasState, SasStep,
};

fn room(id: &str, members: usize, display: Option<&str>, name: Option<&str>) -> JoinedRoom {
    JoinedRoom {
        room_id: id.to_owned(),
        joined_members: members,
        display_name: display.map(|s| s.to_owned()),
        name: name.map(|s| s.to_owned()),
    }
}

fn rooms() -> Vec<JoinedRoom> {
    vec![
        room("!a:example.org", 2, Some("Alice"), None),
        room("!team:example.org", 5, Some("Team"), Some("The team")),
        room("!b:example.org", 1, None, None),
    ]
}

#[test]
fn direct_rooms_are_users() {
    let users = room_users(&rooms());
    assert_eq!(users.len(), 2);
    assert!(users[0].id.same_as(&ContactId::User(b"!a:example.org".to_vec())));
    assert_eq!(users[0].name, "Alice");
    assert_eq!(users[0].last_message_timestamp, None);
    assert!(users[1].id.same_as(&ContactId::User(b"!b:example.org".to_vec())));
    assert_eq!(users[1].name, "!b:example.org");
    assert_eq!(users[1].address, "");
}

#[test]
fn larger_rooms_are_groups_under_their_name() {
    let groups = room_groups(&rooms());
    assert_eq!(groups.len(), 1);
    assert!(groups[0].id.same_as(&ContactId::Group(b"!team:example.org".to_vec())));
    assert_eq!(groups[0].name, "The team");
}

#[test]
fn every_room_is_listed_once() {
    let rs = rooms();
    assert_eq!(room_users(&rs).len() + room_groups(&rs).len(), rs.len());
}

#[test]
fn sending_a_text_answers_with_the_message() {
    let content = MessageContent::Text { text: "hi".to_owned(), attachments: Vec::<MessageAttachment>::new() };
    assert_eq!(outgoing_text(&content), "hi");
    let quoted = Quote { timestamp: 5, sender: vec![7], text: "earlier".to_owned() };
    let msg = sent_message(42, vec![1, 2], ContactId::User(vec![3]), content, Some(&quoted));
    assert_eq!(msg.timestamp, 42);
    assert_eq!(msg.sender, vec![1, 2]);
    assert!(msg.contact_id.same_as(&ContactId::User(vec![3])));
    let q = msg.quote.expect("a quote");
    assert_eq!(q.timestamp, 5);
    assert_eq!(q.sender, vec![7]);
    assert_eq!(q.text, "earlier");
    match msg.content {
        MessageContent::Text { text, .. } => assert_eq!(text, "hi"),
        other => panic!("unexpected {:?}", other),
    }
}

#[test]
fn answers_to_the_emoji_question() {
    assert_eq!(answer_of("yes"), Some(true));
    assert_eq!(answer_of("ok"), Some(true));
    assert_eq!(answer_of("false"), Some(false));
    assert_eq!(answer_of("Yes"), None);
    assert_eq!(confirmation_answer("  YES\n"), Some(true));
    assert_eq!(confirmation_answer("True"), Some(true));
    assert_eq!(confirmation_answer(" No "), Some(false));
    assert_eq!(confirmation_answer("maybe"), None);
    assert_eq!(confirmation_answer(""), None);
}

#[test]
fn verification_requests_wait_for_emojis() {
    assert!(matches!(request_step(&RequestState::Created), RequestStep::Wait));
    assert!(matches!(request_step(&RequestState::Ready), RequestStep::Wait));
    assert!(matches!(request_step(&RequestState::TransitionedToOther), RequestStep::Wait));
    assert!(matches!(request_step(&RequestState::TransitionedToSas), RequestStep::VerifyByEmojis));
    assert!(matches!(request_step(&RequestState::Done), RequestStep::Stop));
    assert!(matches!(request_step(&RequestState::Cancelled), RequestStep::Stop));
}

#[test]
fn emoji_verification_steps() {
    let emojis = vec![("🐶".to_owned(), "Dog".to_owned()), ("🔑".to_owned(), "Key".to_owned())];
    match sas_step(&SasState::KeysExchanged { emojis: Some(emojis) }) {
        SasStep::Compare(e) => {
            assert_eq!(e.len(), 2);
            assert_eq!(e[1].1, "Key");
        }
        other => panic!("unexpected {:?}", other),
    }
    assert!(matches!(sas_step(&SasState::Started), SasStep::Wait));
    assert!(matches!(sas_step(&SasState::Done), SasStep::Verified));
    match sas_step(&SasState::Cancelled { reason: "timeout".to_owned() }) {
        SasStep::Cancelled(r) => assert_eq!(r, "timeout"),
        other => panic!("unexpected {:?}", other),
    }
}

#[test]
fn homeserver_failures_worth_another_try() {
    assert!(retry_after(&BuildFailure::Url));
    assert!(retry_after(&BuildFailure::Http));
    assert!(retry_after(&BuildFailure::AutoDiscovery));
    assert!(!retry_after(&BuildFailure::Other));
}

#[test]
fn new_sessions_get_a_random_passphrase() {
    let a = ClientSession::new("https://example.org\n".to_owned(), "/tmp/db".to_owned());
    assert_eq!(a.homeserver, "https://example.org\n");
    assert_eq!(a.db_path, "/tmp/db");
    assert_eq!(a.passphrase.chars().count(), 32);
    assert!(a.passphrase.chars().all(|c| c.is_ascii_alphanumeric()));
    let b = ClientSession::new(String::new(), String::new());
    assert_ne!(a.passphrase, b.passphrase);
}

#[test]
fn the_session_file_sits_beside_the_data() {
    assert_eq!(get_session_file("/home/me/.local/share/chatters/matrix.db"), "/home/me/.local/share/chatters/session.json");
    assert_eq!(session_file_of("data/db"), Some("data/session.json".to_owned()));
    assert_eq!(session_file_of("/"), None);
}
