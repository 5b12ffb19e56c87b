//! The data that chat backends exchange with the interface: contacts,
//! messages and their attachments, and the errors a backend reports.
use vstd::prelude::*;

use crate::text::{decimal, push_decimal, push_str};

verus! {

/// The identity of a contact: a user or a group, by the backend's bytes.
#[derive(Debug)]
pub enum ContactId {
    User(Vec<u8>),
    Group(Vec<u8>),
}

/// A [`ContactId`] as a value.
pub enum ContactIdView {
    User(Seq<u8>),
    Group(Seq<u8>),
}

impl View for ContactId {
    type V = ContactIdView;

    open spec fn view(&self) -> ContactIdView {
        match self {
            ContactId::User(v) => ContactIdView::User(v@),
            ContactId::Group(v) => ContactIdView::Group(v@),
        }
    }
}

/// Two byte vectors are equal.
pub fn bytes_eq(a: &Vec<u8>, b: &Vec<u8>) -> (res: bool)
    ensures
        res == (a@ == b@),
{
    if a.len() != b.len() {
        return false;
    }
    let mut i: usize = 0;
    while i < a.len()
        invariant
            a.len() == b.len(),
            i <= a.len(),
            forall|j: int| 0 <= j < i ==> a@[j] == b@[j],
        decreases a.len() - i,
    {
        if a[i] != b[i] {
            return false;
        }
        i = i + 1;
    }
    assert(a@ =~= b@);
    true
}

/// A copy of a byte vector.
pub fn copy_bytes(v: &Vec<u8>) -> (res: Vec<u8>)
    ensures
        res@ == v@,
{
    let mut res: Vec<u8> = Vec::new();
    let mut i: usize = 0;
    while i < v.len()
        invariant
            i <= v.len(),
            res@ == v@.take(i as int),
        decreases v.len() - i,
    {
        res.push(v[i]);
        i = i + 1;
        assert(res@ == v@.take(i as int));
    }
    assert(v@.take(v.len() as int) =~= v@);
    res
}

/// A copy of a string.
pub fn copy_string(s: &String) -> (res: String)
    ensures
        res@ == s@,
{
    s.clone()
}

/// The two lower-case hexadecimal digits of a byte.
pub open spec fn hex_digit(d: u8) -> char {
    if d < 10 {
        (('0' as u8) + d) as char
    } else {
        (('a' as u8) + d - 10) as char
    }
}

/// Lower-case hexadecimal text of bytes, two digits per byte, high digit first.
pub open spec fn hex_text(bytes: Seq<u8>) -> Seq<char>
    decreases bytes.len(),
{
    if bytes.len() == 0 {
        seq![]
    } else {
        hex_text(bytes.drop_last()) + seq![
            hex_digit(bytes.last() / 16),
            hex_digit(bytes.last() % 16),
        ]
    }
}

/// `hex::encode`: lower-case hexadecimal text of the bytes, two digits per
/// byte, high digit first.
#[verifier::external_body]
pub fn hex_encode(bytes: &Vec<u8>) -> (res: String)
    ensures
        res@ == hex_text(bytes@),
{
    hex::encode(bytes)
}

impl ContactId {
    /// A copy of the identity.
    pub fn duplicate(&self) -> (res: ContactId)
        ensures
            res@ == self@,
    {
        match self {
            ContactId::User(v) => ContactId::User(copy_bytes(v)),
            ContactId::Group(v) => ContactId::Group(copy_bytes(v)),
        }
    }

    /// Both identities name the same contact.
    pub fn same_as(&self, other: &ContactId) -> (res: bool)
        ensures
            res == (self@ == other@),
    {
        match (self, other) {
            (ContactId::User(a), ContactId::User(b)) => bytes_eq(a, b),
            (ContactId::Group(a), ContactId::Group(b)) => bytes_eq(a, b),
            _ => false,
        }
    }

    /// The text form of the identity (what `Display` writes): its kind and
    /// its bytes in hexadecimal.
    pub fn to_text(&self) -> (res: String)
        ensures
            res@ == contact_id_text(self@),
    {
        match self {
            ContactId::User(v) => {
                let mut s = crate::text::owned("User ");
                let h = hex_encode(v);
                push_str(&mut s, h.as_str());
                s
            },
            ContactId::Group(v) => {
                let mut s = crate::text::owned("Group ");
                let h = hex_encode(v);
                push_str(&mut s, h.as_str());
                s
            },
        }
    }
}

/// The text form of a contact identity.
pub open spec fn contact_id_text(id: ContactIdView) -> Seq<char> {
    match id {
        ContactIdView::User(v) => "User "@ + hex_text(v),
        ContactIdView::Group(v) => "Group "@ + hex_text(v),
    }
}

/// An attachment of a message: its name, its size in bytes, its index for the
/// backend, and where it was downloaded to, once it was.
#[derive(Debug)]
pub struct MessageAttachment {
    pub name: String,
    pub size: u64,
    pub index: usize,
    pub path: Option<String>,
}

/// A [`MessageAttachment`] as a value.
pub struct AttachmentView {
    pub name: Seq<char>,
    pub size: u64,
    pub index: usize,
    pub path: Option<Seq<char>>,
}

impl View for MessageAttachment {
    type V = AttachmentView;

    open spec fn view(&self) -> AttachmentView {
        AttachmentView {
            name: self.name@,
            size: self.size,
            index: self.index,
            path: match self.path {
                Some(p) => Some(p@),
                None => None,
            },
        }
    }
}

/// `Path::file_name`: the last component of a path, unless it is `..` or the
/// path ends in none.
pub uninterp spec fn path_file_name(path: Seq<char>) -> Option<Seq<char>>;

/// The last component of a path (`Path::new(path).file_name()`, as text).
#[verifier::external_body]
pub fn file_name_of(path: &str) -> (res: Option<String>)
    ensures
        match path_file_name(path@) {
            Some(n) => res is Some && res->0@ == n,
            None => res is None,
        },
{
    std::path::Path::new(path).file_name().map(|n| n.to_string_lossy().into_owned())
}

/// The size of an attachment in the largest unit that it exceeds: `GB`, `MB`
/// and `KB` are powers of a thousand, and the count is rounded down.
pub open spec fn human_size_text(size: u64) -> Seq<char> {
    if size > 1_000_000_000 {
        decimal((size / 1_000_000_000) as nat) + "GB"@
    } else if size > 1_000_000 {
        decimal((size / 1_000_000) as nat) + "MB"@
    } else if size > 1_000 {
        decimal((size / 1_000) as nat) + "KB"@
    } else {
        decimal(size as nat) + "B"@
    }
}

/// The line that shows an attachment under its message.
pub open spec fn attachment_line(a: AttachmentView) -> Seq<char> {
    let downloaded = match a.path {
        Some(p) => match path_file_name(p) {
            Some(n) => n,
            None => "not downloaded"@,
        },
        None => "not downloaded"@,
    };
    "+ "@ + a.name + " "@ + human_size_text(a.size) + " ("@ + downloaded + ")"@
}

impl MessageAttachment {
    /// The name of the downloaded file, if the attachment was downloaded.
    pub fn file_name(&self) -> (res: Option<String>)
        ensures
            match self@.path {
                Some(p) => match path_file_name(p) {
                    Some(n) => res is Some && res->0@ == n,
                    None => res is None,
                },
                None => res is None,
            },
    {
        match &self.path {
            Some(p) => file_name_of(p.as_str()),
            None => None,
        }
    }

    /// The size in a unit for people (see [`human_size_text`]).
    pub fn human_size(&self) -> (res: String)
        ensures
            res@ == human_size_text(self.size),
    {
        let size = self.size;
        let mut s = String::new();
        if size > 1_000_000_000 {
            push_decimal(&mut s, size / 1_000_000_000);
            push_str(&mut s, "GB");
        } else if size > 1_000_000 {
            push_decimal(&mut s, size / 1_000_000);
            push_str(&mut s, "MB");
        } else if size > 1_000 {
            push_decimal(&mut s, size / 1_000);
            push_str(&mut s, "KB");
        } else {
            push_decimal(&mut s, size);
            push_str(&mut s, "B");
        }
        assert(s@ =~= human_size_text(size));
        s
    }

    /// The line shown for the attachment (see [`attachment_line`]).
    pub fn message_line(&self) -> (res: String)
        ensures
            res@ == attachment_line(self@),
    {
        let downloaded = match self.file_name() {
            Some(n) => n,
            None => crate::text::owned("not downloaded"),
        };
        let mut s = crate::text::owned("+ ");
        push_str(&mut s, self.name.as_str());
        push_str(&mut s, " ");
        let h = self.human_size();
        push_str(&mut s, h.as_str());
        push_str(&mut s, " (");
        push_str(&mut s, downloaded.as_str());
        push_str(&mut s, ")");
        s
    }

    /// A copy of the attachment.
    pub fn duplicate(&self) -> (res: MessageAttachment)
        ensures
            res@ == self@,
    {
        MessageAttachment {
            name: copy_string(&self.name),
            size: self.size,
            index: self.index,
            path: match &self.path {
                Some(p) => Some(copy_string(p)),
                None => None,
            },
        }
    }
}

/// Copies of a list of attachments.
pub fn copy_attachments(v: &[MessageAttachment]) -> (res: Vec<MessageAttachment>)
    ensures
        res@.len() == v@.len(),
        forall|i: int| 0 <= i < v@.len() ==> #[trigger] res@[i]@ == v@[i]@,
        attachments_view(res@) == attachments_view(v@),
{
    let mut res: Vec<MessageAttachment> = Vec::new();
    let mut i: usize = 0;
    while i < v.len()
        invariant
            i <= v.len(),
            res@.len() == i,
            forall|j: int| 0 <= j < i ==> #[trigger] res@[j]@ == v@[j]@,
        decreases v.len() - i,
    {
        res.push(v[i].duplicate());
        i = i + 1;
    }
    assert(attachments_view(res@) =~= attachments_view(v@));
    res
}

/// A message that another message replies to.
#[derive(Debug)]
pub struct Quote {
    pub timestamp: u64,
    pub sender: Vec<u8>,
    pub text: String,
}

/// A [`Quote`] as a value.
pub struct QuoteData {
    pub timestamp: u64,
    pub sender: Seq<u8>,
    pub text: Seq<char>,
}

impl View for Quote {
    type V = QuoteData;

    open spec fn view(&self) -> QuoteData {
        QuoteData { timestamp: self.timestamp, sender: self.sender@, text: self.text@ }
    }
}

/// A contact or a group, as the backend lists it.
#[derive(Debug)]
pub struct Contact {
    pub id: ContactId,
    pub name: String,
    pub address: String,
    pub last_message_timestamp: Option<u64>,
    pub description: String,
}

/// A [`Contact`] as a value.
pub struct ContactView {
    pub id: ContactIdView,
    pub name: Seq<char>,
    pub address: Seq<char>,
    pub last_message_timestamp: Option<u64>,
    pub description: Seq<char>,
}

impl View for Contact {
    type V = ContactView;

    open spec fn view(&self) -> ContactView {
        ContactView {
            id: self.id@,
            name: self.name@,
            address: self.address@,
            last_message_timestamp: self.last_message_timestamp,
            description: self.description@,
        }
    }
}

impl Contact {
    /// A copy of the contact.
    pub fn duplicate(&self) -> (res: Contact)
        ensures
            res@ == self@,
    {
        Contact {
            id: self.id.duplicate(),
            name: copy_string(&self.name),
            address: copy_string(&self.address),
            last_message_timestamp: self.last_message_timestamp,
            description: copy_string(&self.description),
        }
    }
}

/// What a message carries: text with attachments, a reaction to another
/// message, or a new text for an earlier message.
#[derive(Debug)]
pub enum MessageContent {
    Text { text: String, attachments: Vec<MessageAttachment> },
    Reaction { message_author: Vec<u8>, timestamp: u64, reaction: String, remove: bool },
    Edit { timestamp: u64, text: String },
}

/// A [`MessageContent`] as a value.
pub enum ContentData {
    Text { text: Seq<char>, attachments: Seq<AttachmentView> },
    Reaction { message_author: Seq<u8>, timestamp: u64, reaction: Seq<char>, remove: bool },
    Edit { timestamp: u64, text: Seq<char> },
}

/// The values of a list of attachments.
pub open spec fn attachments_view(v: Seq<MessageAttachment>) -> Seq<AttachmentView> {
    v.map_values(|a: MessageAttachment| a@)
}

impl View for MessageContent {
    type V = ContentData;

    open spec fn view(&self) -> ContentData {
        match self {
            MessageContent::Text { text, attachments } => ContentData::Text {
                text: text@,
                attachments: attachments_view(attachments@),
            },
            MessageContent::Reaction { message_author, timestamp, reaction, remove } =>
                ContentData::Reaction {
                message_author: message_author@,
                timestamp: *timestamp,
                reaction: reaction@,
                remove: *remove,
            },
            MessageContent::Edit { timestamp, text } => ContentData::Edit {
                timestamp: *timestamp,
                text: text@,
            },
        }
    }
}

impl MessageContent {
    /// The text of the content: the message text, the reaction, or the new text.
    pub fn to_string(&self) -> (res: String)
        ensures
            res@ == match self {
                MessageContent::Text { text, .. } => text@,
                MessageContent::Reaction { reaction, .. } => reaction@,
                MessageContent::Edit { text, .. } => text@,
            },
    {
        match self {
            MessageContent::Text { text, .. } => copy_string(text),
            MessageContent::Reaction { reaction, .. } => copy_string(reaction),
            MessageContent::Edit { text, .. } => copy_string(text),
        }
    }
}

/// A message as a backend delivers it.
#[derive(Debug)]
pub struct Message {
    pub timestamp: u64,
    pub sender: Vec<u8>,
    pub contact_id: ContactId,
    pub content: MessageContent,
    pub quote: Option<Quote>,
}

/// A [`Message`] as a value.
pub struct MessageData {
    pub timestamp: u64,
    pub sender: Seq<u8>,
    pub contact_id: ContactIdView,
    pub content: ContentData,
    pub quote: Option<QuoteData>,
}

impl View for Message {
    type V = MessageData;

    open spec fn view(&self) -> MessageData {
        MessageData {
            timestamp: self.timestamp,
            sender: self.sender@,
            contact_id: self.contact_id@,
            content: self.content@,
            quote: match self.quote {
                Some(q) => Some(q@),
                None => None,
            },
        }
    }
}

/// What a backend can fail with.
#[derive(Debug)]
pub enum Error {
    Unlinked,
    UnknownAttachment(usize),
    Failure(String),
}

impl Error {
    /// The message of the error (what `Display` writes for it).
    pub fn to_string(&self) -> (res: String)
        ensures
            res@ == match self {
                Error::Unlinked => "unlinked"@,
                Error::UnknownAttachment(i) => "Unknown attachment with index "@ + decimal(
                    *i as nat,
                ),
                Error::Failure(s) => "A failure occurred: "@ + s@,
            },
    {
        match self {
            Error::Unlinked => crate::text::owned("unlinked"),
            Error::UnknownAttachment(i) => {
                let mut s = crate::text::owned("Unknown attachment with index ");
                push_decimal(&mut s, *i as u64);
                s
            },
            Error::Failure(f) => {
                let mut s = crate::text::owned("A failure occurred: ");
                push_str(&mut s, f.as_str());
                s
            },
        }
    }
}

/// The time now, in milliseconds since the Unix epoch, as the system clock
/// (`SystemTime::now`, then `duration_since(UNIX_EPOCH)`) gives it: `None`
/// where the clock reads earlier than the epoch. Nothing is promised of the
/// value: it is whatever the clock says.
#[verifier::external_body]
pub fn timestamp() -> Option<u64> {
    std::time::SystemTime::now().duration_since(std::time::UNIX_EPOCH).ok().map(|d| d.as_millis() as u64)
}

} // verus!
