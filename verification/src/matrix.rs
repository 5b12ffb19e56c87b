//! The decisions of the Matrix backend: which joined rooms are listed as
//! users and which as groups, what sending a text answers with, how a device
//! verification goes on, how a typed answer is read, and which failures to
//! reach a homeserver are worth another try. The Matrix client does the
//! network work around them.
use vstd::prelude::*;

use crate::backends::{
    copy_bytes, copy_string, Contact, ContactId, ContactIdView, ContactView, Message, MessageContent, MessageData,
    Quote,
};
use crate::commands::{joined_path, path_join};
use crate::text::{str_eq, trim, trim_of};
use crate::tui::contacts::contact_views;
use rand::distr::Alphanumeric;
use rand::Rng;

verus! {

/// A room that the account has joined, as the Matrix client reports it.
#[derive(Debug)]
pub struct JoinedRoom {
    /// The room's identifier, such as `!abc:example.org`.
    pub room_id: String,
    /// How many members have joined it.
    pub joined_members: usize,
    /// The name the client computes for showing the room, where it could.
    pub display_name: Option<String>,
    /// The name the room was given, if any.
    pub name: Option<String>,
}

/// A [`JoinedRoom`] as a value.
pub struct JoinedRoomView {
    pub room_id: Seq<char>,
    pub joined_members: nat,
    pub display_name: Option<Seq<char>>,
    pub name: Option<Seq<char>>,
}

/// The text of an optional text.
pub open spec fn text_option(s: Option<String>) -> Option<Seq<char>> {
    match s {
        Some(t) => Some(t@),
        None => None,
    }
}

impl View for JoinedRoom {
    type V = JoinedRoomView;

    open spec fn view(&self) -> JoinedRoomView {
        JoinedRoomView {
            room_id: self.room_id@,
            joined_members: self.joined_members as nat,
            display_name: text_option(self.display_name),
            name: text_option(self.name),
        }
    }
}

/// The rooms as values.
pub open spec fn room_views(rooms: Seq<JoinedRoom>) -> Seq<JoinedRoomView> {
    rooms.map_values(|r: JoinedRoom| r@)
}

/// A room of at most two members is a conversation with one user.
pub open spec fn is_direct(r: JoinedRoomView) -> bool {
    r.joined_members <= 2
}

/// The user contact of a direct room: identified by the bytes of the room's
/// identifier, named by the room's display name, or by its identifier where
/// there is none; no message known yet.
pub open spec fn user_of_room(r: JoinedRoomView) -> ContactView {
    ContactView {
        id: ContactIdView::User(vstd::utf8::encode_utf8(r.room_id)),
        name: match r.display_name {
            Some(n) => n,
            None => r.room_id,
        },
        address: Seq::empty(),
        last_message_timestamp: None,
        description: Seq::empty(),
    }
}

/// The group contact of a room of more than two members, under the room's
/// name.
pub open spec fn group_of_room(r: JoinedRoomView) -> ContactView {
    ContactView {
        id: ContactIdView::Group(vstd::utf8::encode_utf8(r.room_id)),
        name: r.name->Some_0,
        address: Seq::empty(),
        last_message_timestamp: None,
        description: Seq::empty(),
    }
}

/// The users of the direct rooms, in the rooms' order.
pub open spec fn users_of_rooms(rooms: Seq<JoinedRoomView>) -> Seq<ContactView>
    decreases rooms.len(),
{
    if rooms.len() == 0 {
        Seq::empty()
    } else {
        let rest = users_of_rooms(rooms.drop_last());
        if is_direct(rooms.last()) {
            rest.push(user_of_room(rooms.last()))
        } else {
            rest
        }
    }
}

/// The groups of the other rooms, in the rooms' order.
pub open spec fn groups_of_rooms(rooms: Seq<JoinedRoomView>) -> Seq<ContactView>
    decreases rooms.len(),
{
    if rooms.len() == 0 {
        Seq::empty()
    } else {
        let rest = groups_of_rooms(rooms.drop_last());
        if is_direct(rooms.last()) {
            rest
        } else {
            rest.push(group_of_room(rooms.last()))
        }
    }
}

/// Every joined room is listed once: as a user when it is direct, else as a
/// group.
pub proof fn law_rooms_listed_once(rooms: Seq<JoinedRoomView>)
    ensures
        users_of_rooms(rooms).len() + groups_of_rooms(rooms).len() == rooms.len(),
    decreases rooms.len(),
{
    if rooms.len() > 0 {
        law_rooms_listed_once(rooms.drop_last());
    }
}

/// The bytes of a room's identifier.
fn room_id_bytes(room: &JoinedRoom) -> (res: Vec<u8>)
    ensures
        res@ == vstd::utf8::encode_utf8(room.room_id@),
{
    vstd::slice::slice_to_vec(room.room_id.as_str().as_bytes())
}

/// The users: one for each direct room.
pub fn room_users(rooms: &[JoinedRoom]) -> (res: Vec<Contact>)
    ensures
        contact_views(res@) == users_of_rooms(room_views(rooms@)),
{
    let mut res: Vec<Contact> = Vec::new();
    let mut i: usize = 0;
    while i < rooms.len()
        invariant
            i <= rooms.len(),
            contact_views(res@) == users_of_rooms(room_views(rooms@).take(i as int)),
        decreases rooms.len() - i,
    {
        let room = &rooms[i];
        let ghost before = res@;
        assert(room_views(rooms@).take(i + 1).drop_last() =~= room_views(rooms@).take(i as int));
        if room.joined_members <= 2 {
            let name = match &room.display_name {
                Some(n) => copy_string(n),
                None => copy_string(&room.room_id),
            };
            res.push(
                Contact {
                    id: ContactId::User(room_id_bytes(room)),
                    name,
                    address: String::new(),
                    last_message_timestamp: None,
                    description: String::new(),
                },
            );
            assert(contact_views(res@) =~= contact_views(before).push(user_of_room(rooms@[i as int]@)));
        }
        i = i + 1;
    }
    assert(room_views(rooms@).take(rooms.len() as int) =~= room_views(rooms@));
    res
}

/// Every room of more than two members has a name.
pub open spec fn groups_named(rooms: Seq<JoinedRoomView>) -> bool {
    forall|i: int| 0 <= i < rooms.len() && !is_direct(#[trigger] rooms[i]) ==> rooms[i].name is Some
}

/// The groups: one for each room of more than two members, which must have
/// a name.
pub fn room_groups(rooms: &[JoinedRoom]) -> (res: Vec<Contact>)
    requires
        groups_named(room_views(rooms@)),
    ensures
        contact_views(res@) == groups_of_rooms(room_views(rooms@)),
{
    let mut res: Vec<Contact> = Vec::new();
    let mut i: usize = 0;
    while i < rooms.len()
        invariant
            i <= rooms.len(),
            groups_named(room_views(rooms@)),
            contact_views(res@) == groups_of_rooms(room_views(rooms@).take(i as int)),
        decreases rooms.len() - i,
    {
        let room = &rooms[i];
        let ghost before = res@;
        assert(room_views(rooms@).take(i + 1).drop_last() =~= room_views(rooms@).take(i as int));
        if room.joined_members > 2 {
            assert(!is_direct(room_views(rooms@)[i as int]));
            let name = match &room.name {
                Some(n) => copy_string(n),
                None => {
                    assert(false);
                    String::new()
                },
            };
            res.push(
                Contact {
                    id: ContactId::Group(room_id_bytes(room)),
                    name,
                    address: String::new(),
                    last_message_timestamp: None,
                    description: String::new(),
                },
            );
            assert(contact_views(res@) =~= contact_views(before).push(group_of_room(rooms@[i as int]@)));
        }
        i = i + 1;
    }
    assert(room_views(rooms@).take(rooms.len() as int) =~= room_views(rooms@));
    res
}

/// The plain text that a room receives for a text message: its text. Only
/// texts are sent.
pub fn outgoing_text(content: &MessageContent) -> (res: String)
    requires
        content is Text,
    ensures
        content matches MessageContent::Text { text, .. } && res@ == text@,
{
    match content {
        MessageContent::Text { text, .. } => copy_string(text),
        _ => {
            assert(false);
            String::new()
        },
    }
}

/// The message that sending a text at the time `now` answers with: from the
/// user, to the contact, with the content, quoting a copy of the quoted
/// message.
pub fn sent_message(
    now: u64,
    self_id: Vec<u8>,
    contact: ContactId,
    content: MessageContent,
    quoting: Option<&Quote>,
) -> (res: Message)
    requires
        content is Text,
    ensures
        res@ == (MessageData {
            timestamp: now,
            sender: self_id@,
            contact_id: contact@,
            content: content@,
            quote: match quoting {
                Some(q) => Some(q@),
                None => None,
            },
        }),
{
    let quote = match quoting {
        Some(q) => Some(Quote { timestamp: q.timestamp, sender: copy_bytes(&q.sender), text: copy_string(&q.text) }),
        None => None,
    };
    Message { timestamp: now, sender: self_id, contact_id: contact, content, quote }
}

/// What `str::to_lowercase` gives for a text (by the Unicode `Lowercase`
/// mapping).
pub uninterp spec fn lowercase_text(s: Seq<char>) -> Seq<char>;

/// `str::to_lowercase`.
#[verifier::external_body]
fn lowercase_of(s: &str) -> (res: String)
    ensures
        res@ == lowercase_text(s@),
{
    s.to_lowercase()
}

/// How an answer, in lower case, reads: `yes`, `true` and `ok` confirm, `no`
/// and `false` refuse; anything else is no answer.
pub open spec fn answer_text(lowered: Seq<char>) -> Option<bool> {
    if lowered == "yes"@ || lowered == "true"@ || lowered == "ok"@ {
        Some(true)
    } else if lowered == "no"@ || lowered == "false"@ {
        Some(false)
    } else {
        None
    }
}

/// How an answer in lower case reads (see [`answer_text`]).
pub fn answer_of(lowered: &str) -> (res: Option<bool>)
    ensures
        res == answer_text(lowered@),
{
    if str_eq(lowered, "yes") || str_eq(lowered, "true") || str_eq(lowered, "ok") {
        Some(true)
    } else if str_eq(lowered, "no") || str_eq(lowered, "false") {
        Some(false)
    } else {
        None
    }
}

/// How a typed answer to "do the emojis match" reads: without the white
/// space around it and in lower case (see [`answer_text`]).
pub fn confirmation_answer(input: &str) -> (res: Option<bool>)
    ensures
        res == answer_text(lowercase_text(trim(input@))),
{
    let trimmed = trim_of(input);
    let lowered = lowercase_of(trimmed.as_str());
    answer_of(lowered.as_str())
}

/// Where a request to verify this device stands.
#[derive(Debug)]
pub enum RequestState {
    Created,
    Requested,
    Ready,
    /// It became a verification by comparing emojis.
    TransitionedToSas,
    /// It became a verification of another kind.
    TransitionedToOther,
    Done,
    Cancelled,
}

/// What to do on a change of a verification request.
#[derive(Debug)]
pub enum RequestStep {
    /// Wait for the next change.
    Wait,
    /// Go through the verification by emojis, then stop.
    VerifyByEmojis,
    /// Stop.
    Stop,
}

/// What to do on a change of a verification request: only a verification by
/// emojis is gone through; a finished or cancelled request ends it.
pub fn request_step(state: &RequestState) -> (res: RequestStep)
    ensures
        res == match state {
            RequestState::TransitionedToSas => RequestStep::VerifyByEmojis,
            RequestState::Done | RequestState::Cancelled => RequestStep::Stop,
            _ => RequestStep::Wait,
        },
{
    match state {
        RequestState::Created | RequestState::Requested | RequestState::Ready => RequestStep::Wait,
        RequestState::TransitionedToSas => RequestStep::VerifyByEmojis,
        RequestState::TransitionedToOther => RequestStep::Wait,
        RequestState::Done | RequestState::Cancelled => RequestStep::Stop,
    }
}

/// Where a verification by emojis stands.
#[derive(Debug)]
pub enum SasState {
    Created,
    Started,
    Accepted,
    /// The keys were exchanged: the emojis (symbol and description) to
    /// compare, where the other side offered them.
    KeysExchanged { emojis: Option<Vec<(String, String)>> },
    Confirmed,
    Done,
    Cancelled { reason: String },
}

/// What to do on a change of a verification by emojis.
#[derive(Debug)]
pub enum SasStep {
    /// Wait for the next change.
    Wait,
    /// Ask the user whether these emojis match those on the other device,
    /// then confirm or cancel by the answer.
    Compare(Vec<(String, String)>),
    /// Report the device verified, and stop.
    Verified,
    /// Report the verification cancelled for this reason, and stop.
    Cancelled(String),
}

/// The pairs of texts as values.
pub open spec fn pair_views(v: Seq<(String, String)>) -> Seq<(Seq<char>, Seq<char>)> {
    v.map_values(|p: (String, String)| (p.0@, p.1@))
}

/// Copies of pairs of texts.
fn copy_pairs(v: &Vec<(String, String)>) -> (res: Vec<(String, String)>)
    ensures
        pair_views(res@) == pair_views(v@),
{
    let mut res: Vec<(String, String)> = Vec::new();
    let mut i: usize = 0;
    while i < v.len()
        invariant
            i <= v.len(),
            pair_views(res@) == pair_views(v@).take(i as int),
        decreases v.len() - i,
    {
        let a = copy_string(&v[i].0);
        let b = copy_string(&v[i].1);
        let ghost before = res@;
        res.push((a, b));
        assert(pair_views(res@) =~= pair_views(before).push((v@[i as int].0@, v@[i as int].1@)));
        i = i + 1;
        assert(pair_views(res@) =~= pair_views(v@).take(i as int));
    }
    assert(pair_views(v@).take(v.len() as int) =~= pair_views(v@));
    res
}

/// What to do on a change of a verification by emojis: compare the emojis
/// once the keys are exchanged (only emojis are supported), report the end.
pub fn sas_step(state: &SasState) -> (res: SasStep)
    requires
        state is KeysExchanged ==> state->emojis is Some,
    ensures
        match state {
            SasState::KeysExchanged { emojis } => res is Compare && pair_views(res->Compare_0@) == pair_views(
                emojis->Some_0@,
            ),
            SasState::Done => res is Verified,
            SasState::Cancelled { reason } => res is Cancelled && res->Cancelled_0@ == reason@,
            _ => res is Wait,
        },
{
    match state {
        SasState::KeysExchanged { emojis } => match emojis {
            Some(e) => SasStep::Compare(copy_pairs(e)),
            None => {
                assert(false);
                SasStep::Wait
            },
        },
        SasState::Done => SasStep::Verified,
        SasState::Cancelled { reason } => SasStep::Cancelled(copy_string(reason)),
        SasState::Created | SasState::Started | SasState::Accepted | SasState::Confirmed => SasStep::Wait,
    }
}

/// Why a client for a homeserver could not be built.
#[derive(Debug)]
pub enum BuildFailure {
    AutoDiscovery,
    Url,
    Http,
    Other,
}

/// Whether to ask for another homeserver after a failure: when the
/// homeserver could not be found or reached; other failures end the linking.
pub fn retry_after(failure: &BuildFailure) -> (res: bool)
    ensures
        res == !(failure is Other),
{
    match failure {
        BuildFailure::AutoDiscovery | BuildFailure::Url | BuildFailure::Http => true,
        BuildFailure::Other => false,
    }
}

/// An ASCII letter or digit.
pub open spec fn is_ascii_alphanumeric(c: char) -> bool {
    ||| ('a' <= c && c <= 'z')
    ||| ('A' <= c && c <= 'Z')
    ||| ('0' <= c && c <= '9')
}

/// `count` characters drawn at random from the ASCII letters and digits
/// (`rand::rng().sample_iter(Alphanumeric)`, taken `count` times). Which ones
/// come out is chance: only their number and kind are stated.
#[verifier::external_body]
fn random_alphanumerics(count: usize) -> (res: String)
    ensures
        res@.len() == count,
        forall|i: int| 0 <= i < count ==> is_ascii_alphanumeric(#[trigger] res@[i]),
{
    rand::rng().sample_iter(Alphanumeric).take(count).map(char::from).collect()
}

/// What rebuilds a client: the homeserver, the path of its database, and the
/// database's passphrase.
#[derive(Debug)]
pub struct ClientSession {
    pub homeserver: String,
    pub db_path: String,
    pub passphrase: String,
}

impl ClientSession {
    /// A session for a homeserver and a database, with a new passphrase of
    /// 32 random ASCII letters and digits.
    pub fn new(homeserver: String, db_path: String) -> (res: ClientSession)
        ensures
            res.homeserver@ == homeserver@,
            res.db_path@ == db_path@,
            res.passphrase@.len() == 32,
            forall|i: int| 0 <= i < 32 ==> is_ascii_alphanumeric(#[trigger] res.passphrase@[i]),
    {
        let passphrase = random_alphanumerics(32);
        ClientSession { homeserver, db_path, passphrase }
    }
}

/// The directory that holds a path (`Path::parent`), where it has one.
pub uninterp spec fn parent_path(p: Seq<char>) -> Option<Seq<char>>;

/// `Path::parent` of a path: the path without its last part; `None` for the
/// root and for an empty path.
#[verifier::external_body]
fn path_parent(p: &str) -> (res: Option<String>)
    ensures
        match res {
            Some(q) => parent_path(p@) == Some(q@),
            None => parent_path(p@) is None,
        },
{
    std::path::Path::new(p).parent().map(|q| q.to_string_lossy().into_owned())
}

/// The file that keeps the Matrix session: `session.json` in the directory
/// that holds the data path.
pub fn get_session_file(path: &str) -> (res: String)
    requires
        parent_path(path@) is Some,
    ensures
        res@ == joined_path(parent_path(path@)->Some_0, "session.json"@),
{
    match path_parent(path) {
        Some(dir) => path_join(dir.as_str(), "session.json"),
        None => {
            assert(false);
            String::new()
        },
    }
}

/// The file that keeps the Matrix session (see [`get_session_file`]), for
/// a data path in a directory; `None` for one that has no directory above it.
pub fn session_file_of(path: &str) -> (res: Option<String>)
    ensures
        match parent_path(path@) {
            Some(dir) => res is Some && res->Some_0@ == joined_path(dir, "session.json"@),
            None => res is None,
        },
{
    match path_parent(path) {
        Some(_) => Some(get_session_file(path)),
        None => None,
    }
}

} // verus!
