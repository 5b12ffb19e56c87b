//! How the Signal backend reads the protocol's messages into the
//! interface's, names downloaded attachments, lists contacts and groups, and
//! writes outgoing messages. The protocol's records are held here as plain
//! values: what the backend reads of them.
use vstd::prelude::*;

use crate::backends::{
    copy_bytes, copy_string, hex_encode, hex_text, path_file_name, Contact, ContactId, ContactIdView, ContactView,
    Error, Message, MessageAttachment, MessageContent, Quote,
};
use crate::commands::{joined_path, path_join};
use crate::text::{chars_of, debug_quoted, debug_text, decimal, owned, push_decimal, push_str, string_of, texts};

verus! {

/// The conversation a message belongs to: a contact's, by the contact's
/// UUID bytes, or a group's, by its master key bytes.
#[derive(Debug)]
pub enum Thread {
    Contact(Vec<u8>),
    Group(Vec<u8>),
}

/// The identity the interface knows the conversation by.
pub open spec fn thread_id(t: Thread) -> ContactIdView {
    match t {
        Thread::Contact(u) => ContactIdView::User(u@),
        Thread::Group(k) => ContactIdView::Group(k@),
    }
}

impl Thread {
    /// The identity the interface knows the conversation by.
    pub fn contact_id(&self) -> (res: ContactId)
        ensures
            res@ == thread_id(*self),
    {
        match self {
            Thread::Contact(u) => ContactId::User(copy_bytes(u)),
            Thread::Group(k) => ContactId::Group(copy_bytes(k)),
        }
    }
}

/// A range of a message's text, in characters. `name` is the name of the
/// contact that the range mentions, where it is a mention of a contact that
/// the store knows; other ranges (styles, unknown contacts) have none.
#[derive(Debug)]
pub struct Mention {
    pub start: Option<u32>,
    pub length: Option<u32>,
    pub name: Option<String>,
}

/// A [`Mention`] as a value.
pub struct MentionView {
    pub start: Option<u32>,
    pub length: Option<u32>,
    pub name: Option<Seq<char>>,
}

impl View for Mention {
    type V = MentionView;

    open spec fn view(&self) -> MentionView {
        MentionView {
            start: self.start,
            length: self.length,
            name: match self.name {
                Some(n) => Some(n@),
                None => None,
            },
        }
    }
}

/// The values of a list of mentions.
pub open spec fn mention_views(v: Seq<Mention>) -> Seq<MentionView> {
    v.map_values(|m: Mention| m@)
}

/// How a mention of a contact reads: `@` and the name as `{:?}` writes it.
pub open spec fn mention_text(name: Seq<char>) -> Seq<char> {
    "@"@ + debug_text(name)
}

/// The mention can be written into the text: a range with a name has a
/// start and a length, and a character follows its end.
pub open spec fn mention_fits(body: Seq<char>, m: MentionView) -> bool {
    m.name is Some ==> (m.start is Some && m.length is Some && m.start->0 + m.length->0 < body.len())
}

/// The text with the mention written over its range.
pub open spec fn with_mention(body: Seq<char>, m: MentionView) -> Seq<char> {
    match m.name {
        Some(n) => {
            let start = m.start->0 as int;
            let end = start + m.length->0;
            body.take(start) + mention_text(n) + body.skip(end)
        },
        None => body,
    }
}

/// The text with the mentions written over their ranges, one after the
/// other; each range is read in the text that the ones before it left.
pub open spec fn with_mentions(body: Seq<char>, ms: Seq<MentionView>) -> Seq<char>
    decreases ms.len(),
{
    if ms.len() == 0 {
        body
    } else {
        with_mention(with_mentions(body, ms.drop_last()), ms.last())
    }
}

/// Each mention can be written into the text that the ones before it left.
pub open spec fn mentions_fit(body: Seq<char>, ms: Seq<MentionView>) -> bool
    decreases ms.len(),
{
    ms.len() == 0 || (mentions_fit(body, ms.drop_last()) && mention_fits(with_mentions(body, ms.drop_last()), ms.last()))
}

/// Mentions that fit, cut short, still fit.
proof fn lemma_mentions_fit_prefix(body: Seq<char>, ms: Seq<MentionView>, k: int)
    requires
        mentions_fit(body, ms),
        0 <= k <= ms.len(),
    ensures
        mentions_fit(body, ms.take(k)),
    decreases ms.len(),
{
    if k == ms.len() {
        assert(ms.take(k) =~= ms);
    } else {
        lemma_mentions_fit_prefix(body, ms.drop_last(), k);
        assert(ms.drop_last().take(k) =~= ms.take(k));
    }
}

/// The text with the mentions written in, or `None` where one of them does
/// not fit.
fn apply_mentions(body: &str, ranges: &[Mention]) -> (res: Option<String>)
    ensures
        res is Some <==> mentions_fit(body@, mention_views(ranges@)),
        res matches Some(t) ==> t@ == with_mentions(body@, mention_views(ranges@)),
{
    let ghost ms = mention_views(ranges@);
    let mut text = chars_of(body);
    let mut i: usize = 0;
    while i < ranges.len()
        invariant
            i <= ranges.len(),
            ms == mention_views(ranges@),
            mentions_fit(body@, ms.take(i as int)),
            text@ == with_mentions(body@, ms.take(i as int)),
        decreases ranges.len() - i,
    {
        assert(ms.take(i + 1).drop_last() =~= ms.take(i as int));
        assert(ms.take(i + 1).last() == ranges@[i as int]@);
        let m = &ranges[i];
        match &m.name {
            Some(name) => {
                let (start, length) = match (m.start, m.length) {
                    (Some(s), Some(l)) => (s, l),
                    _ => {
                        proof {
                            if mentions_fit(body@, ms) {
                                lemma_mentions_fit_prefix(body@, ms, i + 1);
                            }
                        }
                        return None;
                    },
                };
                if start as usize >= text.len() || length as usize >= text.len() - start as usize {
                    proof {
                        if mentions_fit(body@, ms) {
                            lemma_mentions_fit_prefix(body@, ms, i + 1);
                        }
                    }
                    return None;
                }
                let end = start as usize + length as usize;
                let mut next: Vec<char> = Vec::new();
                let mut k: usize = 0;
                while k < start as usize
                    invariant
                        k <= start as usize,
                        (start as usize) < text.len(),
                        next@ == text@.take(k as int),
                    decreases start as usize - k,
                {
                    next.push(text[k]);
                    k = k + 1;
                    assert(next@ =~= text@.take(k as int));
                }
                let mut mention = owned("@");
                let quoted = debug_quoted(name.as_str());
                push_str(&mut mention, quoted.as_str());
                proof {
                    reveal_strlit("@");
                }
                let mc = chars_of(mention.as_str());
                let mut k: usize = 0;
                let ghost head = next@;
                while k < mc.len()
                    invariant
                        k <= mc.len(),
                        next@ == head + mc@.take(k as int),
                    decreases mc.len() - k,
                {
                    next.push(mc[k]);
                    k = k + 1;
                    assert(next@ =~= head + mc@.take(k as int));
                }
                assert(mc@.take(mc.len() as int) =~= mc@);
                let ghost mid = next@;
                let mut k: usize = end;
                while k < text.len()
                    invariant
                        end <= k <= text.len(),
                        next@ == mid + text@.subrange(end as int, k as int),
                    decreases text.len() - k,
                {
                    next.push(text[k]);
                    k = k + 1;
                    assert(next@ =~= mid + text@.subrange(end as int, k as int));
                }
                assert(next@ =~= text@.take(start as int) + mention_text(name@) + text@.skip(end as int));
                text = next;
            },
            None => {},
        }
        i = i + 1;
    }
    assert(ms.take(ranges.len() as int) =~= ms);
    Some(string_of(&text))
}

/// The mentions can be written into the text (see [`mentions_fit`]).
pub fn body_ranges_fit(body: &str, ranges: &[Mention]) -> (res: bool)
    ensures
        res == mentions_fit(body@, mention_views(ranges@)),
{
    apply_mentions(body, ranges).is_some()
}

/// Writes the mentions into the text (see [`with_mentions`]).
pub fn add_body_ranges(body: &mut String, ranges: &[Mention])
    requires
        mentions_fit(old(body)@, mention_views(ranges@)),
    ensures
        final(body)@ == with_mentions(old(body)@, mention_views(ranges@)),
{
    match apply_mentions(body.as_str(), ranges) {
        Some(t) => {
            *body = t;
        },
        None => {},
    }
}

} // verus!

verus! {

/// `Uuid::parse_str`: the 16 bytes of a UUID written in one of the forms
/// the crate reads (hyphenated, simple, braced, URN), or `None`.
pub uninterp spec fn uuid_parsed(s: Seq<char>) -> Option<Seq<u8>>;

/// The hyphenated lower-case form of a UUID (`8-4-4-4-12` hex digits), as
/// `Uuid`'s `Display` writes it.
pub open spec fn uuid_hyphenated(b: Seq<u8>) -> Seq<char> {
    let h = hex_text(b);
    h.subrange(0, 8) + "-"@ + h.subrange(8, 12) + "-"@ + h.subrange(12, 16) + "-"@ + h.subrange(16, 20) + "-"@
        + h.subrange(20, 32)
}

/// `uuid::Uuid::parse_str`, as bytes: a UUID that parses has 16 bytes, and
/// the hyphenated form of 16 bytes parses back to them.
#[verifier::external_body]
pub fn parse_uuid(s: &str) -> (res: Option<Vec<u8>>)
    ensures
        match res {
            Some(b) => uuid_parsed(s@) == Some(b@) && b@.len() == 16,
            None => uuid_parsed(s@) is None,
        },
        forall|b: Seq<u8>|
            #![trigger uuid_hyphenated(b)]
            b.len() == 16 && s@ == uuid_hyphenated(b) ==> res is Some && res->0@ == b,
{
    match uuid::Uuid::parse_str(s) {
        Ok(u) => Some(u.as_bytes().to_vec()),
        Err(_) => None,
    }
}

/// `Uuid::to_string` on the UUID of the 16 bytes: the hyphenated
/// lower-case form.
#[verifier::external_body]
pub fn uuid_text(bytes: &Vec<u8>) -> (res: String)
    requires
        bytes@.len() == 16,
    ensures
        res@ == uuid_hyphenated(bytes@),
{
    match uuid::Uuid::from_slice(bytes) {
        Ok(u) => u.to_string(),
        Err(_) => String::new(),
    }
}

/// `mime_guess::get_mime_extensions_str`: the file extensions known for a
/// MIME type, the usual one first, or `None` for a type the crate does not
/// know.
pub uninterp spec fn mime_extensions(mime: Seq<char>) -> Option<Seq<Seq<char>>>;

/// The file extensions known for a MIME type (see [`mime_extensions`]).
#[verifier::external_body]
fn mime_extensions_of(mime: &str) -> (res: Option<Vec<String>>)
    ensures
        match res {
            Some(v) => mime_extensions(mime@) == Some(texts(v@)),
            None => mime_extensions(mime@) is None,
        },
{
    mime_guess::get_mime_extensions_str(mime).map(|exts| exts.iter().map(|e| e.to_string()).collect())
}

/// A name with an extension, as `Path::extension` finds one: its file name
/// holds a `.` after its first character.
pub open spec fn has_extension(name: Seq<char>) -> bool {
    match path_file_name(name) {
        Some(f) => exists|i: int| 0 < i < f.len() && f[i] == '.',
        None => false,
    }
}

/// `Path::new(name).extension().is_some()`.
#[verifier::external_body]
fn path_has_extension(name: &str) -> (res: bool)
    ensures
        res == has_extension(name@),
{
    std::path::Path::new(name).extension().is_some()
}

/// Where an attachment of a message is stored on the server, as far as the
/// backend reads it.
#[derive(Debug)]
pub struct AttachmentPointer {
    pub file_name: Option<String>,
    pub size: Option<u32>,
    pub digest: Option<Vec<u8>>,
    pub upload_timestamp: Option<u64>,
    pub content_type: Option<String>,
}

/// An [`AttachmentPointer`] as a value.
pub struct PointerView {
    pub file_name: Option<Seq<char>>,
    pub size: Option<u32>,
    pub digest: Option<Seq<u8>>,
    pub upload_timestamp: Option<u64>,
    pub content_type: Option<Seq<char>>,
}

impl View for AttachmentPointer {
    type V = PointerView;

    open spec fn view(&self) -> PointerView {
        PointerView {
            file_name: match self.file_name {
                Some(n) => Some(n@),
                None => None,
            },
            size: self.size,
            digest: match self.digest {
                Some(d) => Some(d@),
                None => None,
            },
            upload_timestamp: self.upload_timestamp,
            content_type: match self.content_type {
                Some(t) => Some(t@),
                None => None,
            },
        }
    }
}

/// The values of a list of attachment pointers.
pub open spec fn pointer_views(v: Seq<AttachmentPointer>) -> Seq<PointerView> {
    v.map_values(|p: AttachmentPointer| p@)
}

/// The first 16 hexadecimal digits of the attachment's digest (all of them
/// where there are fewer).
pub open spec fn digest_hash(p: PointerView) -> Seq<char> {
    let h = hex_text(
        match p.digest {
            Some(d) => d,
            None => Seq::empty(),
        },
    );
    if h.len() <= 16 {
        h
    } else {
        h.take(16)
    }
}

/// The extension for an attachment whose name has none: the usual one of its
/// MIME type (`application/octet-stream` when it has none), or `bin`.
pub open spec fn default_extension(content_type: Option<Seq<char>>) -> Seq<char> {
    match mime_extensions(
        match content_type {
            Some(t) => t,
            None => "application/octet-stream"@,
        },
    ) {
        Some(exts) => if exts.len() > 0 {
            exts[0]
        } else {
            "bin"@
        },
        None => "bin"@,
    }
}

/// The name a downloaded attachment is stored under: its upload time, the
/// start of its digest and its own name, joined by `-`, then `.` and the
/// extension of its type where its own name has none.
pub open spec fn stored_name(p: PointerView) -> Seq<char> {
    let base = decimal(
        match p.upload_timestamp {
            Some(t) => t,
            None => 0,
        } as nat,
    ) + "-"@ + digest_hash(p) + match p.file_name {
        Some(n) => "-"@ + n,
        None => Seq::empty(),
    };
    if p.file_name matches Some(n) && has_extension(n) {
        base
    } else {
        base + "."@ + default_extension(p.content_type)
    }
}

/// The name a downloaded attachment is stored under (see [`stored_name`]).
pub fn attachment_name(p: &AttachmentPointer) -> (res: String)
    ensures
        res@ == stored_name(p@),
{
    proof {
        reveal_strlit("-");
        reveal_strlit(".");
        reveal_strlit("bin");
        reveal_strlit("application/octet-stream");
    }
    let digest = match &p.digest {
        Some(d) => copy_bytes(d),
        None => Vec::new(),
    };
    let hex = chars_of(hex_encode(&digest).as_str());
    let mut hash: Vec<char> = Vec::new();
    let mut i: usize = 0;
    while i < hex.len() && i < 16
        invariant
            i <= hex.len(),
            i <= 16,
            hash@ == hex@.take(i as int),
        decreases 16 - i,
    {
        hash.push(hex[i]);
        i = i + 1;
        assert(hash@ =~= hex@.take(i as int));
    }
    assert(hash@ == digest_hash(p@)) by {
        assert(digest@ == match p@.digest {
            Some(d) => d,
            None => Seq::<u8>::empty(),
        });
        if hex@.len() <= 16 {
            assert(hex@.take(hex@.len() as int) =~= hex@);
        }
    }
    let mut name = String::new();
    push_decimal(
        &mut name,
        match p.upload_timestamp {
            Some(t) => t,
            None => 0,
        },
    );
    push_str(&mut name, "-");
    push_str(&mut name, string_of(&hash).as_str());
    match &p.file_name {
        Some(n) => {
            push_str(&mut name, "-");
            push_str(&mut name, n.as_str());
        },
        None => {},
    }
    let named_with_extension = match &p.file_name {
        Some(n) => path_has_extension(n.as_str()),
        None => false,
    };
    if named_with_extension {
        return name;
    }
    let extension = match mime_extensions_of(
        match &p.content_type {
            Some(t) => t.as_str(),
            None => "application/octet-stream",
        },
    ) {
        Some(exts) => if exts.len() > 0 {
            copy_string(&exts[0])
        } else {
            owned("bin")
        },
        None => owned("bin"),
    };
    push_str(&mut name, ".");
    push_str(&mut name, extension.as_str());
    name
}

/// Where a downloaded attachment is stored: its name (see [`stored_name`])
/// within the directory of attachments.
pub fn attachment_path(dir: &str, p: &AttachmentPointer) -> (res: String)
    ensures
        res@ == joined_path(dir@, stored_name(p@)),
{
    let name = attachment_name(p);
    path_join(dir, name.as_str())
}

} // verus!

verus! {

/// A quoted message, as a data message carries it.
#[derive(Debug)]
pub struct SignalQuote {
    pub id: Option<u64>,
    pub author: Option<String>,
    pub text: Option<String>,
    pub body_ranges: Vec<Mention>,
}

/// A [`SignalQuote`] as a value.
pub struct SignalQuoteView {
    pub id: Option<u64>,
    pub author: Option<Seq<char>>,
    pub text: Option<Seq<char>>,
    pub body_ranges: Seq<MentionView>,
}

/// A text of an optional string, empty where there is none.
pub open spec fn or_empty(s: Option<String>) -> Option<Seq<char>> {
    match s {
        Some(t) => Some(t@),
        None => None,
    }
}

impl View for SignalQuote {
    type V = SignalQuoteView;

    open spec fn view(&self) -> SignalQuoteView {
        SignalQuoteView {
            id: self.id,
            author: or_empty(self.author),
            text: or_empty(self.text),
            body_ranges: mention_views(self.body_ranges@),
        }
    }
}

/// A reaction, as a data message carries it.
#[derive(Debug)]
pub struct SignalReaction {
    pub emoji: Option<String>,
    pub remove: Option<bool>,
    pub target_author: Option<String>,
    pub target_sent_timestamp: Option<u64>,
}

/// A [`SignalReaction`] as a value.
pub struct SignalReactionView {
    pub emoji: Option<Seq<char>>,
    pub remove: Option<bool>,
    pub target_author: Option<Seq<char>>,
    pub target_sent_timestamp: Option<u64>,
}

impl View for SignalReaction {
    type V = SignalReactionView;

    open spec fn view(&self) -> SignalReactionView {
        SignalReactionView {
            emoji: or_empty(self.emoji),
            remove: self.remove,
            target_author: or_empty(self.target_author),
            target_sent_timestamp: self.target_sent_timestamp,
        }
    }
}

/// A data message of the protocol, as far as the backend reads or writes it.
#[derive(Debug)]
pub struct DataMessage {
    pub body: Option<String>,
    pub body_ranges: Vec<Mention>,
    pub attachments: Vec<AttachmentPointer>,
    pub quote: Option<SignalQuote>,
    pub reaction: Option<SignalReaction>,
    pub timestamp: Option<u64>,
}

/// A [`DataMessage`] as a value.
pub struct DataView {
    pub body: Option<Seq<char>>,
    pub body_ranges: Seq<MentionView>,
    pub attachments: Seq<PointerView>,
    pub quote: Option<SignalQuoteView>,
    pub reaction: Option<SignalReactionView>,
    pub timestamp: Option<u64>,
}

impl View for DataMessage {
    type V = DataView;

    open spec fn view(&self) -> DataView {
        DataView {
            body: or_empty(self.body),
            body_ranges: mention_views(self.body_ranges@),
            attachments: pointer_views(self.attachments@),
            quote: match self.quote {
                Some(q) => Some(q@),
                None => None,
            },
            reaction: match self.reaction {
                Some(r) => Some(r@),
                None => None,
            },
            timestamp: self.timestamp,
        }
    }
}

/// The text, or the empty text where there is none.
pub open spec fn text_or_empty(s: Option<Seq<char>>) -> Seq<char> {
    match s {
        Some(t) => t,
        None => Seq::empty(),
    }
}

/// A data message that the interface shows as text: it has a body,
/// attachments or a quote.
pub open spec fn shows_text(dm: DataView) -> bool {
    dm.body is Some || dm.attachments.len() > 0 || dm.quote is Some
}

/// A data message that the backend can read without stopping: a text has no
/// reaction, sizes for its attachments (and one answer per attachment to
/// whether it is downloaded), mentions that fit, and a quote whose author is
/// a UUID; a reaction with an emoji names the author and time of its target.
pub open spec fn data_convertible(dm: DataView, downloaded_count: nat) -> bool {
    if shows_text(dm) {
        &&& dm.reaction is None
        &&& forall|i: int| 0 <= i < dm.attachments.len() ==> (#[trigger] dm.attachments[i]).size is Some
        &&& downloaded_count == dm.attachments.len()
        &&& mentions_fit(text_or_empty(dm.body), dm.body_ranges)
        &&& dm.quote matches Some(q) ==> mentions_fit(text_or_empty(q.text), q.body_ranges) && uuid_parsed(
            text_or_empty(q.author),
        ) is Some
    } else {
        match dm.reaction {
            Some(r) => r.emoji is Some ==> (r.target_author is Some && uuid_parsed(r.target_author->0) is Some
                && r.target_sent_timestamp is Some),
            None => true,
        }
    }
}

/// How the interface shows an attachment of a data message: by its own
/// name (`fallback` where it has none), at the index the message's
/// attachments start at, with its stored path where it is downloaded.
pub open spec fn shown_attachment(
    p: PointerView,
    index: usize,
    dir: Seq<char>,
    fallback: Seq<char>,
    downloaded: bool,
) -> crate::backends::AttachmentView {
    crate::backends::AttachmentView {
        name: match p.file_name {
            Some(n) => n,
            None => fallback,
        },
        size: p.size->0 as u64,
        index,
        path: if downloaded {
            Some(joined_path(dir, stored_name(p)))
        } else {
            None
        },
    }
}

/// The message the interface shows for a data message, if any: a text with
/// its mentions written in, its attachments and its quote; or a reaction
/// that has an emoji.
pub open spec fn data_message_shown(
    timestamp: u64,
    sender: Seq<u8>,
    thread: ContactIdView,
    dm: DataView,
    first_index: usize,
    dir: Seq<char>,
    fallback: Seq<char>,
    downloaded: Seq<bool>,
) -> Option<crate::backends::MessageData> {
    if shows_text(dm) {
        Some(
            crate::backends::MessageData {
                timestamp,
                sender,
                contact_id: thread,
                content: crate::backends::ContentData::Text {
                    text: with_mentions(text_or_empty(dm.body), dm.body_ranges),
                    attachments: Seq::new(
                        dm.attachments.len(),
                        |i: int| shown_attachment(dm.attachments[i], first_index, dir, fallback, downloaded[i]),
                    ),
                },
                quote: match dm.quote {
                    Some(q) => Some(
                        crate::backends::QuoteData {
                            timestamp: match q.id {
                                Some(id) => id,
                                None => 0,
                            },
                            sender: uuid_parsed(text_or_empty(q.author))->0,
                            text: with_mentions(text_or_empty(q.text), q.body_ranges),
                        },
                    ),
                    None => None,
                },
            },
        )
    } else {
        match dm.reaction {
            Some(r) => match r.emoji {
                Some(emoji) => Some(
                    crate::backends::MessageData {
                        timestamp,
                        sender,
                        contact_id: thread,
                        content: crate::backends::ContentData::Reaction {
                            message_author: uuid_parsed(r.target_author->0)->0,
                            timestamp: r.target_sent_timestamp->0,
                            reaction: emoji,
                            remove: r.remove == Some(true),
                        },
                        quote: None,
                    },
                ),
                None => None,
            },
            None => None,
        }
    }
}

/// The values of a list of attachments.
pub open spec fn attachment_views(v: Seq<MessageAttachment>) -> Seq<crate::backends::AttachmentView> {
    crate::backends::attachments_view(v)
}

/// Reads a data message into the message the interface shows (see
/// [`data_message_shown`]), with the attachment pointers to keep for
/// downloads: those of a text, none otherwise. Every attachment of the
/// message gets the index `first_index`; `downloaded[i]` tells whether the
/// `i`-th attachment is stored (see [`attachment_path`]) in `dir`.
pub fn data_message_to_message(
    timestamp: u64,
    sender: &Vec<u8>,
    thread: &Thread,
    dm: DataMessage,
    first_index: usize,
    dir: &str,
    fallback_name: &str,
    downloaded: &[bool],
) -> (res: Option<(Message, Vec<AttachmentPointer>)>)
    requires
        data_convertible(dm@, downloaded@.len()),
    ensures
        match data_message_shown(
            timestamp,
            sender@,
            thread_id(*thread),
            dm@,
            first_index,
            dir@,
            fallback_name@,
            downloaded@,
        ) {
            Some(m) => match res {
                Some((msg, pointers)) => msg@ == m && pointer_views(pointers@) == (if shows_text(dm@) {
                    dm@.attachments
                } else {
                    Seq::empty()
                }),
                None => false,
            },
            None => res is None,
        },
{
    let ghost d = dm@;
    let DataMessage { body, body_ranges, attachments, quote, reaction, timestamp: _ } = dm;
    let shows = body.is_some() || attachments.len() > 0 || quote.is_some();
    if shows {
        let mut converted: Vec<MessageAttachment> = Vec::new();
        let mut i: usize = 0;
        while i < attachments.len()
            invariant
                i <= attachments.len(),
                d.attachments == pointer_views(attachments@),
                downloaded@.len() == attachments.len(),
                forall|k: int| 0 <= k < d.attachments.len() ==> (#[trigger] d.attachments[k]).size is Some,
                attachment_views(converted@) == Seq::new(
                    i as nat,
                    |k: int| shown_attachment(d.attachments[k], first_index, dir@, fallback_name@, downloaded@[k]),
                ),
            decreases attachments.len() - i,
        {
            let p = &attachments[i];
            assert(p@ == d.attachments[i as int]);
            let name = match &p.file_name {
                Some(n) => copy_string(n),
                None => owned(fallback_name),
            };
            let size = match p.size {
                Some(s) => s as u64,
                None => 0,
            };
            let path = if downloaded[i] {
                Some(attachment_path(dir, p))
            } else {
                None
            };
            let ghost before = converted@;
            converted.push(MessageAttachment { name, size, index: first_index, path });
            i = i + 1;
            assert(attachment_views(converted@) =~= Seq::new(
                i as nat,
                |k: int| shown_attachment(d.attachments[k], first_index, dir@, fallback_name@, downloaded@[k]),
            )) by {
                assert(attachment_views(converted@) =~= attachment_views(before).push(converted@[i - 1]@));
            }
        }
        let mut text = match body {
            Some(b) => b,
            None => String::new(),
        };
        add_body_ranges(&mut text, body_ranges.as_slice());
        let q = match quote {
            Some(q) => {
                let SignalQuote { id, author, text: quoted, body_ranges: quote_ranges } = q;
                let mut qt = match quoted {
                    Some(t) => t,
                    None => String::new(),
                };
                add_body_ranges(&mut qt, quote_ranges.as_slice());
                let author_text = match author {
                    Some(a) => a,
                    None => String::new(),
                };
                let sender_bytes = match parse_uuid(author_text.as_str()) {
                    Some(b) => b,
                    None => Vec::new(),
                };
                Some(
                    Quote {
                        timestamp: match id {
                            Some(x) => x,
                            None => 0,
                        },
                        sender: sender_bytes,
                        text: qt,
                    },
                )
            },
            None => None,
        };
        let msg = Message {
            timestamp,
            sender: copy_bytes(sender),
            contact_id: thread.contact_id(),
            content: MessageContent::Text { text, attachments: converted },
            quote: q,
        };
        Some((msg, attachments))
    } else {
        match reaction {
            Some(r) => {
                let SignalReaction { emoji, remove, target_author, target_sent_timestamp } = r;
                match emoji {
                    None => None,
                    Some(e) => {
                        let author_text = match target_author {
                            Some(a) => a,
                            None => String::new(),
                        };
                        let author = match parse_uuid(author_text.as_str()) {
                            Some(b) => b,
                            None => Vec::new(),
                        };
                        let msg = Message {
                            timestamp,
                            sender: copy_bytes(sender),
                            contact_id: thread.contact_id(),
                            content: MessageContent::Reaction {
                                message_author: author,
                                timestamp: match target_sent_timestamp {
                                    Some(t) => t,
                                    None => 0,
                                },
                                reaction: e,
                                remove: match remove {
                                    Some(b) => b,
                                    None => false,
                                },
                            },
                            quote: None,
                        };
                        Some((msg, Vec::new()))
                    },
                }
            },
            None => None,
        }
    }
}

} // verus!

verus! {

/// A message sent from another of the user's devices that edits an earlier
/// one.
#[derive(Debug)]
pub struct EditMessage {
    pub target_sent_timestamp: Option<u64>,
    pub data_message: Option<DataMessage>,
}

/// An [`EditMessage`] as a value.
pub struct EditMessageView {
    pub target_sent_timestamp: Option<u64>,
    pub data_message: Option<DataView>,
}

impl View for EditMessage {
    type V = EditMessageView;

    open spec fn view(&self) -> EditMessageView {
        EditMessageView {
            target_sent_timestamp: self.target_sent_timestamp,
            data_message: match self.data_message {
                Some(d) => Some(d@),
                None => None,
            },
        }
    }
}

/// What a received envelope carries: a data message, a copy of a message
/// sent from another of the user's devices (or of an edit made there), or
/// something the interface does not show.
#[derive(Debug)]
pub enum ContentBody {
    Data(DataMessage),
    Sent { message: Option<DataMessage>, edit: Option<EditMessage> },
    Other,
}

/// A [`ContentBody`] as a value.
pub enum ContentBodyView {
    Data(DataView),
    Sent { message: Option<DataView>, edit: Option<EditMessageView> },
    Other,
}

impl View for ContentBody {
    type V = ContentBodyView;

    open spec fn view(&self) -> ContentBodyView {
        match self {
            ContentBody::Data(d) => ContentBodyView::Data(d@),
            ContentBody::Sent { message, edit } => ContentBodyView::Sent {
                message: match message {
                    Some(d) => Some(d@),
                    None => None,
                },
                edit: match edit {
                    Some(e) => Some(e@),
                    None => None,
                },
            },
            ContentBody::Other => ContentBodyView::Other,
        }
    }
}

/// A received envelope: when it was sent, by whom (UUID bytes), in which
/// conversation, and what it carries.
#[derive(Debug)]
pub struct Content {
    pub timestamp: u64,
    pub sender: Vec<u8>,
    pub thread: Thread,
    pub body: ContentBody,
}

/// A [`Content`] as a value.
pub struct ContentView {
    pub timestamp: u64,
    pub sender: Seq<u8>,
    pub thread: ContactIdView,
    pub body: ContentBodyView,
}

impl View for Content {
    type V = ContentView;

    open spec fn view(&self) -> ContentView {
        ContentView {
            timestamp: self.timestamp,
            sender: self.sender@,
            thread: thread_id(self.thread),
            body: self.body@,
        }
    }
}

/// The data message of an envelope that is read as one: a data message, or
/// the copy of a message sent from another device.
pub open spec fn carried_data(c: ContentView) -> Option<DataView> {
    match c.body {
        ContentBodyView::Data(dm) => Some(dm),
        ContentBodyView::Sent { message, .. } => message,
        ContentBodyView::Other => None,
    }
}

/// The attachments of an envelope's data message that shows as text.
pub open spec fn carried_attachment_count(c: ContentView) -> nat {
    match carried_data(c) {
        Some(dm) => dm.attachments.len(),
        None => 0,
    }
}

/// The data message that an envelope carries, if any (see [`carried_data`]).
pub fn extract_data_message(content: &Content) -> (res: Option<&DataMessage>)
    ensures
        match carried_data(content@) {
            Some(dm) => res is Some && res->0@ == dm,
            None => res is None,
        },
{
    match &content.body {
        ContentBody::Data(dm) => Some(dm),
        ContentBody::Sent { message: Some(dm), .. } => Some(dm),
        _ => None,
    }
}

/// An envelope that the backend can read without stopping (see
/// [`data_convertible`]).
pub open spec fn content_convertible(c: ContentView, downloaded_count: nat) -> bool {
    match carried_data(c) {
        Some(dm) => data_convertible(dm, downloaded_count),
        None => true,
    }
}

/// The new text of an edit: the target's time and the edited body, where
/// both are there.
pub open spec fn edit_text(e: EditMessageView) -> Option<(u64, Seq<char>)> {
    match e.target_sent_timestamp {
        Some(t) => match e.data_message {
            Some(d) => match d.body {
                Some(text) => Some((t, text)),
                None => None,
            },
            None => None,
        },
        None => None,
    }
}

/// The message the interface shows for an envelope, if any: that of its
/// data message (see [`data_message_shown`]), or for an edit, a message at
/// the edited message's time whose content is the new text, at the
/// envelope's time.
pub open spec fn content_shown(
    c: ContentView,
    first_index: usize,
    dir: Seq<char>,
    fallback: Seq<char>,
    downloaded: Seq<bool>,
) -> Option<crate::backends::MessageData> {
    match carried_data(c) {
        Some(dm) => data_message_shown(c.timestamp, c.sender, c.thread, dm, first_index, dir, fallback, downloaded),
        None => match c.body {
            ContentBodyView::Sent { edit: Some(e), .. } => match edit_text(e) {
                Some((t, text)) => Some(
                    crate::backends::MessageData {
                        timestamp: t,
                        sender: c.sender,
                        contact_id: c.thread,
                        content: crate::backends::ContentData::Edit { timestamp: c.timestamp, text },
                        quote: None,
                    },
                ),
                None => None,
            },
            _ => None,
        },
    }
}

/// The attachment pointers that reading an envelope keeps: those of a data
/// message that shows as text.
pub open spec fn content_pointers(c: ContentView) -> Seq<PointerView> {
    match carried_data(c) {
        Some(dm) => if shows_text(dm) {
            dm.attachments
        } else {
            Seq::empty()
        },
        None => Seq::empty(),
    }
}

/// Reads an envelope into the message the interface shows (see
/// [`content_shown`]), with the attachment pointers to keep (see
/// [`content_pointers`]).
pub fn signal_message_to_message(
    content: Content,
    first_index: usize,
    dir: &str,
    fallback_name: &str,
    downloaded: &[bool],
) -> (res: Option<(Message, Vec<AttachmentPointer>)>)
    requires
        content_convertible(content@, downloaded@.len()),
    ensures
        match content_shown(content@, first_index, dir@, fallback_name@, downloaded@) {
            Some(m) => match res {
                Some((msg, pointers)) => msg@ == m && pointer_views(pointers@) == content_pointers(content@),
                None => false,
            },
            None => res is None,
        },
{
    let Content { timestamp, sender, thread, body } = content;
    match body {
        ContentBody::Data(dm) => data_message_to_message(
            timestamp,
            &sender,
            &thread,
            dm,
            first_index,
            dir,
            fallback_name,
            downloaded,
        ),
        ContentBody::Sent { message: Some(dm), .. } => data_message_to_message(
            timestamp,
            &sender,
            &thread,
            dm,
            first_index,
            dir,
            fallback_name,
            downloaded,
        ),
        ContentBody::Sent { message: None, edit: Some(e) } => {
            let EditMessage { target_sent_timestamp, data_message } = e;
            match (target_sent_timestamp, data_message) {
                (Some(t), Some(d)) => match d.body {
                    Some(text) => {
                        let msg = Message {
                            timestamp: t,
                            sender: copy_bytes(&sender),
                            contact_id: thread.contact_id(),
                            content: MessageContent::Edit { timestamp, text },
                            quote: None,
                        };
                        Some((msg, Vec::new()))
                    },
                    None => None,
                },
                _ => None,
            }
        },
        _ => None,
    }
}

/// The name of the user's profile: the given name, then the family name
/// after a space where there is one; `Self` without a profile name.
pub fn profile_name(name: Option<(String, Option<String>)>) -> (res: String)
    ensures
        res@ == match name {
            Some((given, family)) => match family {
                Some(f) => given@ + " "@ + f@,
                None => given@,
            },
            None => "Self"@,
        },
{
    proof {
        reveal_strlit(" ");
        reveal_strlit("Self");
    }
    match name {
        Some((given, family)) => match family {
            Some(f) => {
                let mut s = given;
                push_str(&mut s, " ");
                push_str(&mut s, f.as_str());
                s
            },
            None => given,
        },
        None => owned("Self"),
    }
}

/// What the Signal backend keeps besides its store: the user's UUID bytes
/// and profile name, the attachment pointers of the messages read so far
/// (an attachment's index is its pointer's place here), and the directory
/// where downloaded attachments are stored.
#[derive(Debug)]
pub struct SignalState {
    pub self_uuid: Vec<u8>,
    pub self_name: String,
    pub attachment_pointers: Vec<AttachmentPointer>,
    pub attachments_dir: String,
}

impl SignalState {
    /// The state of a backend just loaded: no pointers yet.
    pub fn new(self_uuid: Vec<u8>, self_name: String, attachments_dir: String) -> (res: SignalState)
        ensures
            res.self_uuid == self_uuid,
            res.self_name == self_name,
            res.attachment_pointers@.len() == 0,
            res.attachments_dir == attachments_dir,
    {
        SignalState { self_uuid, self_name, attachment_pointers: Vec::new(), attachments_dir }
    }

    /// Reads an envelope (see [`signal_message_to_message`]), its
    /// attachments numbered from the pointers kept so far, and keeps its
    /// attachment pointers after them.
    pub fn receive(&mut self, content: Content, fallback_name: &str, downloaded: &[bool]) -> (res: Option<Message>)
        requires
            content_convertible(content@, downloaded@.len()),
        ensures
            final(self).self_uuid == old(self).self_uuid,
            final(self).self_name == old(self).self_name,
            final(self).attachments_dir == old(self).attachments_dir,
            match content_shown(
                content@,
                old(self).attachment_pointers@.len() as usize,
                old(self).attachments_dir@,
                fallback_name@,
                downloaded@,
            ) {
                Some(m) => res is Some && res->0@ == m && pointer_views(final(self).attachment_pointers@) == pointer_views(
                    old(self).attachment_pointers@,
                ) + content_pointers(content@),
                None => res is None && pointer_views(final(self).attachment_pointers@) == pointer_views(
                    old(self).attachment_pointers@,
                ),
            },
    {
        let first_index = self.attachment_pointers.len();
        match signal_message_to_message(content, first_index, self.attachments_dir.as_str(), fallback_name, downloaded) {
            Some((msg, pointers)) => {
                let ghost before = self.attachment_pointers@;
                let ghost added = pointers@;
                let mut pointers = pointers;
                self.attachment_pointers.append(&mut pointers);
                assert(pointer_views(self.attachment_pointers@) =~= pointer_views(before) + pointer_views(added));
                Some(msg)
            },
            None => None,
        }
    }

    /// The pointer of the attachment with the index, or the error that no
    /// attachment has it.
    pub fn pointer(&self, index: usize) -> (res: Result<&AttachmentPointer, Error>)
        ensures
            index < self.attachment_pointers@.len() ==> res is Ok && *res->Ok_0 == self.attachment_pointers@[index as int],
            index >= self.attachment_pointers@.len() ==> res == Err::<&AttachmentPointer, Error>(Error::UnknownAttachment(index)),
    {
        if index < self.attachment_pointers.len() {
            Ok(&self.attachment_pointers[index])
        } else {
            Err(Error::UnknownAttachment(index))
        }
    }

    /// The contact for a user of the store, if it is listed: the user
    /// themself under their profile name, another user under their name
    /// unless it is empty; the address is the phone number, if known.
    pub fn user_contact(
        &self,
        uuid: Vec<u8>,
        name: String,
        phone: Option<String>,
        last_message_timestamp: Option<u64>,
    ) -> (res: Option<Contact>)
        ensures
            uuid@ != self.self_uuid@ && name@.len() == 0 ==> res is None,
            uuid@ == self.self_uuid@ || name@.len() > 0 ==> res is Some && res->0@ == (ContactView {
                id: ContactIdView::User(uuid@),
                name: if uuid@ == self.self_uuid@ {
                    self.self_name@
                } else {
                    name@
                },
                address: text_or_empty(or_empty(phone)),
                last_message_timestamp,
                description: Seq::empty(),
            }),
    {
        let is_self = crate::backends::bytes_eq(&uuid, &self.self_uuid);
        let shown = if is_self {
            copy_string(&self.self_name)
        } else if chars_of(name.as_str()).len() == 0 {
            return None;
        } else {
            name
        };
        Some(
            Contact {
                id: ContactId::User(uuid),
                name: shown,
                address: match phone {
                    Some(p) => p,
                    None => String::new(),
                },
                last_message_timestamp,
                description: String::new(),
            },
        )
    }

    /// The contact for a group of the store: by its master key and title,
    /// with its description, if any.
    pub fn group_contact(
        key: Vec<u8>,
        title: String,
        description: Option<String>,
        last_message_timestamp: Option<u64>,
    ) -> (res: Contact)
        ensures
            res@ == (ContactView {
                id: ContactIdView::Group(key@),
                name: title@,
                address: Seq::empty(),
                last_message_timestamp,
                description: text_or_empty(or_empty(description)),
            }),
    {
        Contact {
            id: ContactId::Group(key),
            name: title,
            address: String::new(),
            last_message_timestamp,
            description: match description {
                Some(d) => d,
                None => String::new(),
            },
        }
    }
}

} // verus!

verus! {

/// The text of an optional string, the empty text where there is none.
fn str_or_empty(s: &Option<String>) -> (res: &str)
    ensures
        res@ == text_or_empty(or_empty(*s)),
{
    proof {
        reveal_strlit("");
    }
    match s {
        Some(t) => t.as_str(),
        None => "",
    }
}

/// The data message can be read without stopping (see [`data_convertible`]).
pub fn data_convertible_exec(dm: &DataMessage, downloaded_count: usize) -> (res: bool)
    ensures
        res == data_convertible(dm@, downloaded_count as nat),
{
    let shows = dm.body.is_some() || dm.attachments.len() > 0 || dm.quote.is_some();
    if shows {
        if dm.reaction.is_some() {
            return false;
        }
        let mut i: usize = 0;
        while i < dm.attachments.len()
            invariant
                i <= dm.attachments.len(),
                forall|k: int| 0 <= k < i ==> (#[trigger] dm@.attachments[k]).size is Some,
            decreases dm.attachments.len() - i,
        {
            assert(dm@.attachments[i as int] == dm.attachments@[i as int]@);
            if dm.attachments[i].size.is_none() {
                return false;
            }
            i = i + 1;
        }
        if downloaded_count != dm.attachments.len() {
            return false;
        }
        if !body_ranges_fit(str_or_empty(&dm.body), dm.body_ranges.as_slice()) {
            return false;
        }
        match &dm.quote {
            Some(q) => body_ranges_fit(str_or_empty(&q.text), q.body_ranges.as_slice()) && parse_uuid(
                str_or_empty(&q.author),
            ).is_some(),
            None => true,
        }
    } else {
        match &dm.reaction {
            Some(r) => match &r.emoji {
                Some(_) => match &r.target_author {
                    Some(a) => parse_uuid(a.as_str()).is_some() && r.target_sent_timestamp.is_some(),
                    None => false,
                },
                None => true,
            },
            None => true,
        }
    }
}

/// The envelope can be read without stopping (see [`content_convertible`]).
pub fn content_convertible_exec(content: &Content, downloaded_count: usize) -> (res: bool)
    ensures
        res == content_convertible(content@, downloaded_count as nat),
{
    match &content.body {
        ContentBody::Data(dm) => data_convertible_exec(dm, downloaded_count),
        ContentBody::Sent { message: Some(dm), .. } => data_convertible_exec(dm, downloaded_count),
        _ => true,
    }
}

/// The time of the message the interface shows for an envelope, if any.
pub open spec fn shown_timestamp(c: ContentView) -> Option<u64> {
    match carried_data(c) {
        Some(dm) => if shows_text(dm) || (dm.reaction is Some && dm.reaction->0.emoji is Some) {
            Some(c.timestamp)
        } else {
            None
        },
        None => match c.body {
            ContentBodyView::Sent { edit: Some(e), .. } => match edit_text(e) {
                Some((t, _)) => Some(t),
                None => None,
            },
            _ => None,
        },
    }
}

/// The values of a list of envelopes.
pub open spec fn content_views(v: Seq<Content>) -> Seq<ContentView> {
    v.map_values(|c: Content| c@)
}

/// The time of the first envelope that shows a message.
pub open spec fn first_shown_timestamp(cs: Seq<ContentView>) -> Option<u64>
    decreases cs.len(),
{
    if cs.len() == 0 {
        None
    } else {
        match shown_timestamp(cs[0]) {
            Some(t) => Some(t),
            None => first_shown_timestamp(cs.drop_first()),
        }
    }
}

/// The envelopes up to the first that shows a message can be read without
/// stopping.
pub open spec fn scan_convertible(cs: Seq<ContentView>) -> bool
    decreases cs.len(),
{
    cs.len() == 0 || (content_convertible(cs[0], carried_attachment_count(cs[0])) && (shown_timestamp(cs[0]) is Some
        || scan_convertible(cs.drop_first())))
}

/// The time of the message the interface shows for an envelope (see
/// [`shown_timestamp`]).
fn shown_timestamp_exec(c: &Content) -> (res: Option<u64>)
    ensures
        res == shown_timestamp(c@),
{
    match extract_data_message(c) {
        Some(dm) => {
            let shows = dm.body.is_some() || dm.attachments.len() > 0 || dm.quote.is_some();
            let reacts = match &dm.reaction {
                Some(r) => r.emoji.is_some(),
                None => false,
            };
            if shows || reacts {
                Some(c.timestamp)
            } else {
                None
            }
        },
        None => match &c.body {
            ContentBody::Sent { edit: Some(e), .. } => match (&e.target_sent_timestamp, &e.data_message) {
                (Some(t), Some(d)) => if d.body.is_some() {
                    Some(*t)
                } else {
                    None
                },
                _ => None,
            },
            _ => None,
        },
    }
}

/// The time of the last message of a conversation: that of the first
/// envelope, newest first, that shows a message.
pub fn last_message_timestamp(newest_first: &[Content]) -> (res: Option<u64>)
    requires
        scan_convertible(content_views(newest_first@)),
    ensures
        res == first_shown_timestamp(content_views(newest_first@)),
{
    let ghost all = content_views(newest_first@);
    assert(all.skip(0) =~= all);
    let mut i: usize = 0;
    while i < newest_first.len()
        invariant
            i <= newest_first.len(),
            all == content_views(newest_first@),
            first_shown_timestamp(all) == first_shown_timestamp(all.skip(i as int)),
        decreases newest_first.len() - i,
    {
        let ghost rest = all.skip(i as int);
        assert(rest[0] == newest_first@[i as int]@);
        assert(rest.drop_first() =~= all.skip(i + 1));
        match shown_timestamp_exec(&newest_first[i]) {
            Some(t) => {
                return Some(t);
            },
            None => {},
        }
        i = i + 1;
    }
    None
}

/// The envelopes up to the first that shows a message can be read without
/// stopping (see [`scan_convertible`]).
pub fn scan_convertible_exec(newest_first: &[Content]) -> (res: bool)
    ensures
        res == scan_convertible(content_views(newest_first@)),
{
    let ghost all = content_views(newest_first@);
    assert(all.skip(0) =~= all);
    let mut i: usize = 0;
    while i < newest_first.len()
        invariant
            i <= newest_first.len(),
            all == content_views(newest_first@),
            scan_convertible(all) == scan_convertible(all.skip(i as int)),
        decreases newest_first.len() - i,
    {
        let ghost rest = all.skip(i as int);
        assert(rest[0] == newest_first@[i as int]@);
        assert(rest.drop_first() =~= all.skip(i + 1));
        let c = &newest_first[i];
        let count = match &c.body {
            ContentBody::Data(dm) => dm.attachments.len(),
            ContentBody::Sent { message: Some(dm), .. } => dm.attachments.len(),
            _ => 0,
        };
        if !content_convertible_exec(c, count) {
            return false;
        }
        if shown_timestamp_exec(c).is_some() {
            return true;
        }
        i = i + 1;
    }
    true
}

impl SignalState {
    /// Reads an envelope as [`SignalState::receive`] does, where it can be
    /// read without stopping; otherwise the state stays and the error tells
    /// why the backend stops.
    pub fn try_receive(&mut self, content: Content, fallback_name: &str, downloaded: &[bool]) -> (res: Result<
        Option<Message>,
        String,
    >)
        ensures
            !content_convertible(content@, downloaded@.len()) ==> res is Err && *final(self) == *old(self),
            content_convertible(content@, downloaded@.len()) ==> {
                &&& res is Ok
                &&& final(self).self_uuid == old(self).self_uuid
                &&& final(self).self_name == old(self).self_name
                &&& final(self).attachments_dir == old(self).attachments_dir
                &&& match content_shown(
                    content@,
                    old(self).attachment_pointers@.len() as usize,
                    old(self).attachments_dir@,
                    fallback_name@,
                    downloaded@,
                ) {
                    Some(m) => res->Ok_0 is Some && res->Ok_0->0@ == m && pointer_views(
                        final(self).attachment_pointers@,
                    ) == pointer_views(old(self).attachment_pointers@) + content_pointers(content@),
                    None => res->Ok_0 is None && pointer_views(final(self).attachment_pointers@) == pointer_views(
                        old(self).attachment_pointers@,
                    ),
                }
            },
    {
        if !content_convertible_exec(&content, downloaded.len()) {
            return Err(owned("a message from Signal cannot be read"));
        }
        Ok(self.receive(content, fallback_name, downloaded))
    }
}

} // verus!

verus! {

/// The time of the message that reading an envelope shows is the one that
/// [`shown_timestamp`] gives, and an envelope shows a message exactly when
/// it gives one: so the time of a conversation's last message is that of the
/// first envelope, newest first, that reading shows.
pub proof fn law_shown_timestamp(
    c: ContentView,
    first_index: usize,
    dir: Seq<char>,
    fallback: Seq<char>,
    downloaded: Seq<bool>,
)
    ensures
        match content_shown(c, first_index, dir, fallback, downloaded) {
            Some(m) => shown_timestamp(c) == Some(m.timestamp),
            None => shown_timestamp(c) is None,
        },
{
}

/// The quote that an outgoing message carries for a quoted message: its
/// time, its author's UUID in hyphenated form and its text.
pub open spec fn outgoing_quote(q: crate::backends::QuoteData) -> SignalQuoteView {
    SignalQuoteView {
        id: Some(q.timestamp),
        author: Some(uuid_hyphenated(q.sender)),
        text: Some(q.text),
        body_ranges: Seq::empty(),
    }
}

/// A content that the backend can send without stopping: not an edit, and
/// UUIDs of 16 bytes for the quoted author and the author of a reaction's
/// target.
pub open spec fn sendable(content: crate::backends::ContentData, quoting: Option<crate::backends::QuoteData>) -> bool {
    &&& !(content is Edit)
    &&& quoting matches Some(q) ==> q.sender.len() == 16
    &&& content matches crate::backends::ContentData::Reaction { message_author, .. } ==> message_author.len() == 16
}

/// The data message that sending a content writes at the time `now`: a text
/// with the uploaded attachments (none where it has no attachments), or a
/// reaction to the target by its author's UUID; each with the quote.
pub open spec fn outgoing_data(
    now: u64,
    content: crate::backends::ContentData,
    quoting: Option<crate::backends::QuoteData>,
    uploaded: Seq<PointerView>,
) -> DataView {
    let quote = match quoting {
        Some(q) => Some(outgoing_quote(q)),
        None => None,
    };
    match content {
        crate::backends::ContentData::Text { text, attachments } => DataView {
            body: Some(text),
            body_ranges: Seq::empty(),
            attachments: if attachments.len() == 0 {
                Seq::empty()
            } else {
                uploaded
            },
            quote,
            reaction: None,
            timestamp: Some(now),
        },
        crate::backends::ContentData::Reaction { message_author, timestamp, reaction, remove } => DataView {
            body: None,
            body_ranges: Seq::empty(),
            attachments: Seq::empty(),
            quote,
            reaction: Some(
                SignalReactionView {
                    emoji: Some(reaction),
                    remove: Some(remove),
                    target_author: Some(uuid_hyphenated(message_author)),
                    target_sent_timestamp: Some(timestamp),
                },
            ),
            timestamp: Some(now),
        },
        crate::backends::ContentData::Edit { .. } => DataView {
            body: None,
            body_ranges: Seq::empty(),
            attachments: Seq::empty(),
            quote,
            reaction: None,
            timestamp: Some(now),
        },
    }
}

/// The value of an optional quote.
pub open spec fn quote_view(q: Option<&Quote>) -> Option<crate::backends::QuoteData> {
    match q {
        Some(q) => Some(q@),
        None => None,
    }
}

/// No mentions.
fn no_mentions() -> (res: Vec<Mention>)
    ensures
        mention_views(res@) == Seq::<MentionView>::empty(),
{
    let v: Vec<Mention> = Vec::new();
    assert(mention_views(v@) =~= Seq::<MentionView>::empty());
    v
}

/// No attachment pointers.
fn no_pointers() -> (res: Vec<AttachmentPointer>)
    ensures
        pointer_views(res@) == Seq::<PointerView>::empty(),
{
    let v: Vec<AttachmentPointer> = Vec::new();
    assert(pointer_views(v@) =~= Seq::<PointerView>::empty());
    v
}

/// A copy of a quote.
fn copy_quote(q: &Quote) -> (res: Quote)
    ensures
        res@ == q@,
{
    Quote { timestamp: q.timestamp, sender: copy_bytes(&q.sender), text: copy_string(&q.text) }
}

impl SignalState {
    /// What sending a content to a contact at the time `now` writes: the
    /// data message for the protocol (see [`outgoing_data`]), and the
    /// message the interface shows, from the user, with a copy of the quote.
    pub fn outgoing(
        &self,
        now: u64,
        contact: &ContactId,
        content: MessageContent,
        quoting: Option<&Quote>,
        uploaded: Vec<AttachmentPointer>,
    ) -> (res: (DataMessage, Message))
        requires
            sendable(content@, quote_view(quoting)),
        ensures
            res.0@ == outgoing_data(now, content@, quote_view(quoting), pointer_views(uploaded@)),
            res.1@ == (crate::backends::MessageData {
                timestamp: now,
                sender: self.self_uuid@,
                contact_id: contact@,
                content: content@,
                quote: quote_view(quoting),
            }),
    {
        let quote = match quoting {
            Some(q) => Some(
                SignalQuote {
                    id: Some(q.timestamp),
                    author: Some(uuid_text(&q.sender)),
                    text: Some(copy_string(&q.text)),
                    body_ranges: no_mentions(),
                },
            ),
            None => None,
        };
        let data = match &content {
            MessageContent::Text { text, attachments } => DataMessage {
                body: Some(copy_string(text)),
                body_ranges: no_mentions(),
                attachments: if attachments.len() == 0 {
                    no_pointers()
                } else {
                    uploaded
                },
                quote,
                reaction: None,
                timestamp: Some(now),
            },
            MessageContent::Reaction { message_author, timestamp, reaction, remove } => DataMessage {
                body: None,
                body_ranges: no_mentions(),
                attachments: no_pointers(),
                quote,
                reaction: Some(
                    SignalReaction {
                        emoji: Some(copy_string(reaction)),
                        remove: Some(*remove),
                        target_author: Some(uuid_text(message_author)),
                        target_sent_timestamp: Some(*timestamp),
                    },
                ),
                timestamp: Some(now),
            },
            MessageContent::Edit { .. } => DataMessage {
                body: None,
                body_ranges: no_mentions(),
                attachments: no_pointers(),
                quote,
                reaction: None,
                timestamp: Some(now),
            },
        };
        let shown_quote = match quoting {
            Some(q) => Some(copy_quote(q)),
            None => None,
        };
        let msg = Message {
            timestamp: now,
            sender: copy_bytes(&self.self_uuid),
            contact_id: contact.duplicate(),
            content,
            quote: shown_quote,
        };
        (data, msg)
    }
}

/// `mime_guess::from_path(path).first()`: the usual MIME type of the path's
/// extension, as text, or `None` for a path without a known extension.
pub uninterp spec fn guessed_mime(path: Seq<char>) -> Option<Seq<char>>;

/// The usual MIME type of the path's extension (see [`guessed_mime`]).
#[verifier::external_body]
fn guess_mime(path: &str) -> (res: Option<String>)
    ensures
        match res {
            Some(m) => guessed_mime(path@) == Some(m@),
            None => guessed_mime(path@) is None,
        },
{
    mime_guess::from_path(path).first().map(|m| m.to_string())
}

/// How an attachment is announced when it is uploaded: the MIME type its
/// path suggests (`application/octet-stream` where it suggests none), and
/// its file name.
pub fn upload_spec(path: &str) -> (res: (String, Option<String>))
    ensures
        res.0@ == match guessed_mime(path@) {
            Some(m) => m,
            None => "application/octet-stream"@,
        },
        match path_file_name(path@) {
            Some(n) => res.1 is Some && res.1->0@ == n,
            None => res.1 is None,
        },
{
    let content_type = match guess_mime(path) {
        Some(m) => m,
        None => owned("application/octet-stream"),
    };
    (content_type, crate::backends::file_name_of(path))
}

} // verus!

verus! {

/// A text sent without attachments or a quote reads back as the same text:
/// the data message that sending writes (see [`outgoing_data`]) shows, for
/// any sender and conversation, as a text message with that text at the
/// sending time.
pub proof fn law_sent_text_reads_back(
    now: u64,
    text: Seq<char>,
    uploaded: Seq<PointerView>,
    sender: Seq<u8>,
    thread: ContactIdView,
    first_index: usize,
    dir: Seq<char>,
    fallback: Seq<char>,
)
    ensures
        data_message_shown(
            now,
            sender,
            thread,
            outgoing_data(
                now,
                crate::backends::ContentData::Text { text, attachments: Seq::empty() },
                None,
                uploaded,
            ),
            first_index,
            dir,
            fallback,
            Seq::empty(),
        ) == Some(
            crate::backends::MessageData {
                timestamp: now,
                sender,
                contact_id: thread,
                content: crate::backends::ContentData::Text { text, attachments: Seq::empty() },
                quote: None,
            },
        ),
{
    let dm = outgoing_data(
        now,
        crate::backends::ContentData::Text { text, attachments: Seq::empty() },
        None,
        uploaded,
    );
    assert(dm.body_ranges.len() == 0);
    assert(with_mentions(text, dm.body_ranges) == text);
    assert(Seq::new(
        dm.attachments.len(),
        |i: int| shown_attachment(dm.attachments[i], first_index, dir, fallback, Seq::<bool>::empty()[i]),
    ) =~= Seq::<crate::backends::AttachmentView>::empty());
}

} // verus!

verus! {

impl Thread {
    /// The conversation of a contact the interface knows: a user's by their
    /// 16 UUID bytes, a group's by its 32 master key bytes.
    pub fn of_contact(contact: &ContactId) -> (res: Thread)
        requires
            match contact@ {
                ContactIdView::User(u) => u.len() == 16,
                ContactIdView::Group(k) => k.len() == 32,
            },
        ensures
            thread_id(res) == contact@,
    {
        match contact {
            ContactId::User(u) => Thread::Contact(copy_bytes(u)),
            ContactId::Group(k) => Thread::Group(copy_bytes(k)),
        }
    }
}

/// An envelope of the store with what reading it needs from around it: the
/// name to show for a sender the store does not know, and which of its
/// attachments were downloaded already.
#[derive(Debug)]
pub struct Envelope {
    pub content: Content,
    pub fallback_name: String,
    pub downloaded: Vec<bool>,
}

/// An [`Envelope`] as a value.
pub struct EnvelopeView {
    pub content: ContentView,
    pub fallback_name: Seq<char>,
    pub downloaded: Seq<bool>,
}

impl View for Envelope {
    type V = EnvelopeView;

    open spec fn view(&self) -> EnvelopeView {
        EnvelopeView { content: self.content@, fallback_name: self.fallback_name@, downloaded: self.downloaded@ }
    }
}

/// The envelopes as values.
pub open spec fn envelope_views(v: Seq<Envelope>) -> Seq<EnvelopeView> {
    v.map_values(|e: Envelope| e@)
}

/// The messages as values.
pub open spec fn message_data(v: Seq<Message>) -> Seq<crate::backends::MessageData> {
    v.map_values(|m: Message| m@)
}

/// Every envelope can be read (see [`content_convertible`]).
pub open spec fn envelopes_convertible(envs: Seq<EnvelopeView>) -> bool {
    forall|i: int| 0 <= i < envs.len() ==> content_convertible(#[trigger] envs[i].content, envs[i].downloaded.len())
}

/// Reading envelopes in order, their attachments numbered on from `first`:
/// the messages they show, and the attachment pointers of those messages.
pub open spec fn envelopes_shown(envs: Seq<EnvelopeView>, first: nat, dir: Seq<char>) -> (
    Seq<crate::backends::MessageData>,
    Seq<PointerView>,
)
    decreases envs.len(),
{
    if envs.len() == 0 {
        (Seq::empty(), Seq::empty())
    } else {
        let (ms, ps) = envelopes_shown(envs.drop_last(), first, dir);
        let e = envs.last();
        match content_shown(e.content, (first + ps.len()) as usize, dir, e.fallback_name, e.downloaded) {
            Some(m) => (ms.push(m), ps + content_pointers(e.content)),
            None => (ms, ps),
        }
    }
}

impl SignalState {
    /// Reads the envelopes of a conversation in order (see
    /// [`SignalState::receive`]): the messages they show, each envelope's
    /// attachments numbered after the pointers kept before it.
    pub fn receive_all(&mut self, envelopes: Vec<Envelope>) -> (res: Vec<Message>)
        requires
            envelopes_convertible(envelope_views(envelopes@)),
        ensures
            final(self).self_uuid == old(self).self_uuid,
            final(self).self_name == old(self).self_name,
            final(self).attachments_dir == old(self).attachments_dir,
            ({
                let (ms, ps) = envelopes_shown(
                    envelope_views(envelopes@),
                    old(self).attachment_pointers@.len(),
                    old(self).attachments_dir@,
                );
                &&& message_data(res@) == ms
                &&& pointer_views(final(self).attachment_pointers@) == pointer_views(old(self).attachment_pointers@) + ps
            }),
    {
        let ghost envs = envelope_views(envelopes@);
        let ghost first = self.attachment_pointers@.len();
        let ghost dir = self.attachments_dir@;
        let mut res: Vec<Message> = Vec::new();
        let mut rest = envelopes;
        let count: usize = rest.len();
        let ghost total = count as nat;
        let mut i: usize = 0;
        while rest.len() > 0
            invariant
                i + rest@.len() == total,
                total == envs.len(),
                total <= usize::MAX,
                forall|k: int| 0 <= k < rest@.len() ==> #[trigger] rest@[k]@ == envs[i + k],
                envelopes_convertible(envs),
                self.self_uuid == old(self).self_uuid,
                self.self_name == old(self).self_name,
                self.attachments_dir == old(self).attachments_dir,
                dir == self.attachments_dir@,
                first == old(self).attachment_pointers@.len(),
                ({
                    let (ms, ps) = envelopes_shown(envs.take(i as int), first, dir);
                    &&& message_data(res@) == ms
                    &&& pointer_views(self.attachment_pointers@) == pointer_views(old(self).attachment_pointers@) + ps
                }),
            decreases rest.len(),
        {
            let env = rest.remove(0);
            let ghost ev = env@;
            assert(ev == envs[i as int]);
            assert(envs.take(i + 1).drop_last() =~= envs.take(i as int));
            assert(envs.take(i + 1).last() == envs[i as int]);
            assert(content_convertible(envs[i as int].content, envs[i as int].downloaded.len()));
            let ghost before_res = res@;
            let ghost before_ptrs = self.attachment_pointers@;
            let got = self.receive(env.content, env.fallback_name.as_str(), env.downloaded.as_slice());
            match got {
                Some(m) => {
                    res.push(m);
                    assert(message_data(res@) =~= message_data(before_res).push(res@.last()@));
                },
                None => {},
            }
            proof {
                let (ms0, ps0) = envelopes_shown(envs.take(i as int), first, dir);
                assert(pointer_views(before_ptrs).len() == before_ptrs.len());
                assert(pointer_views(old(self).attachment_pointers@).len() == first);
                assert(before_ptrs.len() == first + ps0.len());
                assert(pointer_views(self.attachment_pointers@) =~= pointer_views(old(self).attachment_pointers@)
                    + envelopes_shown(envs.take(i + 1), first, dir).1);
            }
            i = i + 1;
        }
        assert(envs.take(total as int) =~= envs);
        res
    }
}


/// What the store hands the backend while it syncs: word that the queue is
/// empty, word that the contacts were synced, or an envelope.
#[derive(Debug)]
pub enum Received {
    QueueEmpty,
    Contacts,
    Content(Envelope),
}

/// Syncing the contacts ends once the store says they were synced.
pub fn ends_contact_sync(r: &Received) -> (res: bool)
    ensures
        res == (r is Contacts),
{
    match r {
        Received::Contacts => true,
        _ => false,
    }
}

impl SignalState {
    /// What the interface hears of something received while syncing in the
    /// background: the message an envelope shows, as news (see
    /// [`SignalState::receive`]); nothing otherwise.
    pub fn on_received(&mut self, r: Received) -> (res: Option<crate::message::FrontendMessage>)
        requires
            r matches Received::Content(e) ==> content_convertible(e.content@, e.downloaded@.len()),
        ensures
            final(self).self_uuid == old(self).self_uuid,
            final(self).self_name == old(self).self_name,
            final(self).attachments_dir == old(self).attachments_dir,
            match r {
                Received::Content(e) => match content_shown(
                    e.content@,
                    old(self).attachment_pointers@.len() as usize,
                    old(self).attachments_dir@,
                    e.fallback_name@,
                    e.downloaded@,
                ) {
                    Some(m) => res matches Some(crate::message::FrontendMessage::NewMessage { message }) && message@
                        == m && pointer_views(final(self).attachment_pointers@) == pointer_views(
                        old(self).attachment_pointers@,
                    ) + content_pointers(e.content@),
                    None => res is None && pointer_views(final(self).attachment_pointers@) == pointer_views(
                        old(self).attachment_pointers@,
                    ),
                },
                _ => res is None && *final(self) == *old(self),
            },
    {
        match r {
            Received::Content(e) => match self.receive(e.content, e.fallback_name.as_str(), e.downloaded.as_slice()) {
                Some(message) => Some(crate::message::FrontendMessage::NewMessage { message }),
                None => None,
            },
            _ => None,
        }
    }
}

} // verus!
