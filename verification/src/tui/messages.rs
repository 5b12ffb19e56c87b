//! The messages of the selected contact, as the interface keeps and shows
//! them: ordered by timestamp, with reactions and edits folded in.
use vstd::prelude::*;

use crate::backends::{
    attachments_view, copy_attachments, copy_bytes, copy_string, AttachmentView, ContactId,
    ContactIdView, ContentData, MessageAttachment, MessageContent, MessageData, QuoteData,
};
use crate::text::{
    chars_of, decimal, first_line, first_line_of, push_char, push_decimal, push_str, string_of,
    lemma_texts_push, text_lt, texts, trim, trim_of, vec_text_lt, lemma_text_lt_irreflexive, lemma_text_lt_total,
    lemma_text_lt_transitive,
};
use crate::tui::list::ListState;

verus! {

/// The message that a message replies to.
#[derive(Debug)]
pub struct Quote {
    pub timestamp: u64,
    pub sender: Vec<u8>,
    pub text: String,
}

impl View for Quote {
    type V = QuoteData;

    open spec fn view(&self) -> QuoteData {
        QuoteData { timestamp: self.timestamp, sender: self.sender@, text: self.text@ }
    }
}

impl Quote {
    /// A copy of the quote.
    pub fn duplicate(&self) -> (res: Quote)
        ensures
            res@ == self@,
    {
        Quote {
            timestamp: self.timestamp,
            sender: copy_bytes(&self.sender),
            text: copy_string(&self.text),
        }
    }
}

/// An emoji that someone put on a message.
#[derive(Debug)]
pub struct Reaction {
    pub author: Vec<u8>,
    pub emoji: String,
}

/// A [`Reaction`] as a value.
pub struct ReactionView {
    pub author: Seq<u8>,
    pub emoji: Seq<char>,
}

impl View for Reaction {
    type V = ReactionView;

    open spec fn view(&self) -> ReactionView {
        ReactionView { author: self.author@, emoji: self.emoji@ }
    }
}

/// A later text for a message.
#[derive(Debug)]
pub struct MessageEdit {
    pub timestamp: u64,
    pub text: String,
}

/// A [`MessageEdit`] as a value.
pub struct EditView {
    pub timestamp: u64,
    pub text: Seq<char>,
}

impl View for MessageEdit {
    type V = EditView;

    open spec fn view(&self) -> EditView {
        EditView { timestamp: self.timestamp, text: self.text@ }
    }
}

/// A message as the interface shows it.
#[derive(Debug)]
pub struct Message {
    pub timestamp: u64,
    pub sender: Vec<u8>,
    pub contact_id: ContactId,
    pub content: String,
    pub reactions: Vec<Reaction>,
    pub attachments: Vec<MessageAttachment>,
    pub quote: Option<Quote>,
    pub edits: Vec<MessageEdit>,
}

/// A [`Message`] as a value.
pub struct MessageView {
    pub timestamp: u64,
    pub sender: Seq<u8>,
    pub contact_id: ContactIdView,
    pub content: Seq<char>,
    pub reactions: Seq<ReactionView>,
    pub attachments: Seq<AttachmentView>,
    pub quote: Option<QuoteData>,
    pub edits: Seq<EditView>,
}

/// The values of a list of reactions.
pub open spec fn reactions_view(v: Seq<Reaction>) -> Seq<ReactionView> {
    v.map_values(|r: Reaction| r@)
}

/// The values of a list of edits.
pub open spec fn edits_view(v: Seq<MessageEdit>) -> Seq<EditView> {
    v.map_values(|e: MessageEdit| e@)
}

impl View for Message {
    type V = MessageView;

    open spec fn view(&self) -> MessageView {
        MessageView {
            timestamp: self.timestamp,
            sender: self.sender@,
            contact_id: self.contact_id@,
            content: self.content@,
            reactions: reactions_view(self.reactions@),
            attachments: attachments_view(self.attachments@),
            quote: match self.quote {
                Some(q) => Some(q@),
                None => None,
            },
            edits: edits_view(self.edits@),
        }
    }
}

/// How often `emoji` occurs among the reactions.
pub open spec fn emoji_count(rs: Seq<ReactionView>, emoji: Seq<char>) -> nat
    decreases rs.len(),
{
    if rs.len() == 0 {
        0
    } else {
        emoji_count(rs.drop_last(), emoji) + if rs.last().emoji == emoji {
            1nat
        } else {
            0nat
        }
    }
}

/// Some reaction is `emoji`.
pub open spec fn has_emoji(rs: Seq<ReactionView>, emoji: Seq<char>) -> bool {
    exists|j: int| 0 <= j < rs.len() && rs[j].emoji == emoji
}

/// `names` lists each emoji among the reactions once, in the order of strings,
/// and `counts` says how often each occurs.
pub open spec fn reaction_tally(rs: Seq<ReactionView>, names: Seq<Seq<char>>, counts: Seq<nat>) -> bool {
    &&& names.len() == counts.len()
    &&& forall|i: int, j: int| 0 <= i < j < names.len() ==> text_lt(names[i], names[j])
    &&& forall|e: Seq<char>| has_emoji(rs, e) <==> names.contains(e)
    &&& forall|i: int| 0 <= i < names.len() ==> counts[i] == emoji_count(rs, #[trigger] names[i])
}

/// One entry of the reaction line: the emoji, and `x` and its count when
/// there is more than one.
pub open spec fn tally_entry(name: Seq<char>, count: nat) -> Seq<char> {
    if count > 1 {
        name + seq!['x'] + decimal(count)
    } else {
        name
    }
}

/// The entries of the reaction line, separated by spaces.
pub open spec fn tally_text(names: Seq<Seq<char>>, counts: Seq<nat>) -> Seq<char>
    decreases names.len(),
{
    if names.len() == 0 {
        seq![]
    } else if names.len() == 1 {
        tally_entry(names[0], counts[0])
    } else {
        tally_text(names.drop_last(), counts.drop_last()) + seq![' '] + tally_entry(
            names.last(),
            counts.last(),
        )
    }
}

/// The line that sums up the reactions of a message: `r`, then each emoji
/// once in the order of strings, with its count when more than one.
pub open spec fn reaction_line(rs: Seq<ReactionView>, line: Seq<char>) -> bool {
    exists|names: Seq<Seq<char>>, counts: Seq<nat>|
        reaction_tally(rs, names, counts) && line == "r "@ + tally_text(names, counts)
}

/// The text of a message that gets wrapped: the trimmed text of its last edit,
/// or its own trimmed text when it was never edited.
pub open spec fn body_text(m: MessageView) -> Seq<char> {
    if m.edits.len() > 0 {
        trim(m.edits.last().text)
    } else {
        trim(m.content)
    }
}

/// The lines of a message's body, from its wrapped text: after an edit the
/// first line is marked with `e`; every other line is indented by two.
pub open spec fn body_lines(m: MessageView, wrapped: Seq<Seq<char>>) -> Seq<Seq<char>> {
    if m.edits.len() > 0 {
        Seq::new(
            wrapped.len(),
            |i: int|
                if i == 0 {
                    "e "@ + wrapped[i]
                } else {
                    "  "@ + wrapped[i]
                },
        )
    } else if m.content.len() > 0 {
        Seq::new(wrapped.len(), |i: int| "  "@ + wrapped[i])
    } else {
        seq![]
    }
}

/// The line for the quoted message: `>` and the first line of its text.
pub open spec fn quote_lines(m: MessageView) -> Seq<Seq<char>> {
    match m.quote {
        Some(q) => match first_line(q.text) {
            Some(l) => seq!["> "@ + l],
            None => seq![],
        },
        None => seq![],
    }
}

/// The lines that show a message, given its wrapped body: the quote, the
/// attachments, the body, and the reactions.
pub open spec fn rendered(m: MessageView, wrapped: Seq<Seq<char>>, lines: Seq<Seq<char>>) -> bool {
    let head = quote_lines(m) + Seq::new(
        m.attachments.len(),
        |i: int| crate::backends::attachment_line(m.attachments[i]),
    ) + body_lines(m, wrapped);
    if m.reactions.len() > 0 {
        &&& lines.len() == head.len() + 1
        &&& lines.subrange(0, head.len() as int) == head
        &&& reaction_line(m.reactions, lines.last())
    } else {
        lines == head
    }
}

/// `textwrap::wrap`: the lines of `text` wrapped to `width` columns.
pub uninterp spec fn wrapped_lines(text: Seq<char>, width: usize) -> Seq<Seq<char>>;

/// Wraps text into lines of at most `width` columns (`textwrap::wrap` with
/// default options).
#[verifier::external_body]
pub fn wrap_text(text: &str, width: usize) -> (res: Vec<String>)
    ensures
        texts(res@) == wrapped_lines(text@, width),
{
    textwrap::wrap(text, textwrap::Options::new(width)).into_iter().map(|l| l.into_owned()).collect()
}

/// The emojis of the reactions, each once in the order of strings, with
/// their counts.
fn tally(rs: &Vec<Reaction>) -> (res: (Vec<Vec<char>>, Vec<usize>))
    ensures
        reaction_tally(
            reactions_view(rs@),
            res.0@.map_values(|v: Vec<char>| v@),
            res.1@.map_values(|c: usize| c as nat),
        ),
{
    let ghost rv = reactions_view(rs@);
    let mut names: Vec<Vec<char>> = Vec::new();
    let mut counts: Vec<usize> = Vec::new();
    let mut k: usize = 0;
    while k < rs.len()
        invariant
            k <= rs.len(),
            rv == reactions_view(rs@),
            rv.len() == rs.len(),
            names.len() == counts.len(),
            forall|i: int| 0 <= i < counts.len() ==> counts@[i] <= k,
            reaction_tally(
                rv.take(k as int),
                names@.map_values(|v: Vec<char>| v@),
                counts@.map_values(|c: usize| c as nat),
            ),
        decreases rs.len() - k,
    {
        let x = chars_of(rs[k].emoji.as_str());
        let ghost pre = rv.take(k as int);
        let ghost post = rv.take(k + 1);
        let ghost ns = names@.map_values(|v: Vec<char>| v@);
        let ghost cs = counts@.map_values(|c: usize| c as nat);
        proof {
            assert(post.drop_last() =~= pre);
            assert(post.last().emoji == x@);
            assert forall|e: Seq<char>| e != x@ implies emoji_count(post, e) == emoji_count(pre, e) by {}
            assert(emoji_count(post, x@) == emoji_count(pre, x@) + 1);
            assert forall|e: Seq<char>| has_emoji(post, e) <==> (has_emoji(pre, e) || e == x@) by {
                if has_emoji(post, e) {
                    let j = choose|j: int| 0 <= j < post.len() && post[j].emoji == e;
                    if j < k {
                        assert(pre[j] == post[j]);
                    }
                }
                if has_emoji(pre, e) {
                    let j = choose|j: int| 0 <= j < pre.len() && pre[j].emoji == e;
                    assert(post[j] == pre[j]);
                }
                if e == x@ {
                    assert(post[k as int].emoji == e);
                }
            }
        }
        let mut p: usize = 0;
        let mut found = false;
        while p < names.len()
            invariant_except_break
                p <= names.len(),
                names.len() == counts.len(),
                ns == names@.map_values(|v: Vec<char>| v@),
                forall|i: int| 0 <= i < p ==> ns[i] != x@,
                !found,
            ensures
                p <= names.len(),
                names.len() == counts.len(),
                ns == names@.map_values(|v: Vec<char>| v@),
                forall|i: int| 0 <= i < p ==> ns[i] != x@,
                found ==> p < names.len() && ns[p as int] == x@,
                !found ==> p == names.len(),
            decreases names.len() - p,
        {
            if crate::text::seq_eq(&names[p], &x) {
                found = true;
                break;
            }
            p = p + 1;
        }
        if found {
            assert(ns[p as int] == x@);
            let c = counts[p];
            counts.set(p, c + 1);
            proof {
                let ns2 = names@.map_values(|v: Vec<char>| v@);
                let cs2 = counts@.map_values(|c: usize| c as nat);
                assert(ns2 =~= ns);
                assert forall|i: int| 0 <= i < ns2.len() implies cs2[i] == emoji_count(post, #[trigger] ns2[i]) by {
                    if i != p {
                        assert(ns[i] != ns[p as int]) by {
                            if ns[i] == ns[p as int] {
                                if i < p {
                                    assert(text_lt(ns[i], ns[p as int]));
                                } else {
                                    assert(text_lt(ns[p as int], ns[i]));
                                }
                                lemma_text_lt_irreflexive(ns[i]);
                            }
                        }
                    }
                }
                assert forall|e: Seq<char>| has_emoji(post, e) <==> ns2.contains(e) by {
                    if e == x@ {
                        assert(ns2[p as int] == e);
                    }
                }
            }
        } else {
            let mut q: usize = 0;
            while q < names.len() && !vec_text_lt(&x, &names[q])
                invariant
                    q <= names.len(),
                    ns == names@.map_values(|v: Vec<char>| v@),
                    forall|i: int| 0 <= i < q ==> !text_lt(x@, ns[i]),
                decreases names.len() - q,
            {
                q = q + 1;
            }
            names.insert(q, x);
            counts.insert(q, 1);
            proof {
                let ns2 = names@.map_values(|v: Vec<char>| v@);
                let cs2 = counts@.map_values(|c: usize| c as nat);
                assert(ns2 =~= ns.insert(q as int, x@));
                assert(cs2 =~= cs.insert(q as int, 1nat));
                assert forall|i: int| 0 <= i < q implies text_lt(ns[i], x@) by {
                    lemma_text_lt_total(ns[i], x@);
                }
                assert forall|i: int| q <= i < ns.len() implies text_lt(x@, ns[i]) by {
                    if i > q {
                        lemma_text_lt_transitive(x@, ns[q as int], ns[i]);
                    }
                }
                assert forall|i: int, j: int| 0 <= i < j < ns2.len() implies text_lt(ns2[i], ns2[j]) by {
                    if i < q && j == q {
                    } else if i < q && j > q {
                        assert(ns2[j] == ns[j - 1]);
                    } else if i == q {
                        assert(ns2[j] == ns[j - 1]);
                    } else if i > q {
                        assert(ns2[j] == ns[j - 1]);
                        assert(ns2[i] == ns[i - 1]);
                    }
                }
                assert forall|i: int| 0 <= i < ns2.len() implies cs2[i] == emoji_count(post, #[trigger] ns2[i]) by {
                    if i < q {
                        assert(ns2[i] != x@);
                    } else if i > q {
                        assert(ns2[i] == ns[i - 1]);
                        assert(ns2[i] != x@);
                    } else {
                        assert(!has_emoji(pre, x@));
                        lemma_count_absent(pre, x@);
                    }
                }
                assert forall|e: Seq<char>| has_emoji(post, e) <==> ns2.contains(e) by {
                    if ns2.contains(e) {
                        let i = choose|i: int| 0 <= i < ns2.len() && ns2[i] == e;
                        if i < q {
                            assert(ns.contains(e));
                        } else if i > q {
                            assert(ns[i - 1] == e);
                            assert(ns.contains(e));
                        }
                    }
                    if has_emoji(pre, e) {
                        let i = choose|i: int| 0 <= i < ns.len() && ns[i] == e;
                        if i < q {
                            assert(ns2[i] == e);
                        } else {
                            assert(ns2[i + 1] == e);
                        }
                    }
                    if e == x@ {
                        assert(ns2[q as int] == e);
                    }
                }
            }
        }
        k = k + 1;
    }
    assert(rv.take(rs.len() as int) =~= rv);
    (names, counts)
}

proof fn lemma_count_absent(rs: Seq<ReactionView>, e: Seq<char>)
    requires
        !has_emoji(rs, e),
    ensures
        emoji_count(rs, e) == 0,
    decreases rs.len(),
{
    if rs.len() > 0 {
        assert forall|j: int| 0 <= j < rs.drop_last().len() implies rs.drop_last()[j].emoji != e by {
            assert(rs[j] == rs.drop_last()[j]);
        }
        assert(rs[rs.len() - 1].emoji != e);
        lemma_count_absent(rs.drop_last(), e);
    }
}

/// The reaction line of a message (see [`reaction_line`]).
fn reactions_text(rs: &Vec<Reaction>) -> (res: String)
    ensures
        reaction_line(reactions_view(rs@), res@),
{
    let (names, counts) = tally(rs);
    let ghost ns = names@.map_values(|v: Vec<char>| v@);
    let ghost cs = counts@.map_values(|c: usize| c as nat);
    let mut s = crate::text::owned("r ");
    let mut i: usize = 0;
    while i < names.len()
        invariant
            i <= names.len(),
            names.len() == counts.len(),
            ns == names@.map_values(|v: Vec<char>| v@),
            cs == counts@.map_values(|c: usize| c as nat),
            s@ == "r "@ + tally_text(ns.take(i as int), cs.take(i as int)),
        decreases names.len() - i,
    {
        let ghost before = s@;
        if i > 0 {
            push_char(&mut s, ' ');
        }
        let name = string_of(&names[i]);
        push_str(&mut s, name.as_str());
        if counts[i] > 1 {
            push_char(&mut s, 'x');
            push_decimal(&mut s, counts[i] as u64);
        }
        proof {
            let n2 = ns.take(i + 1);
            let c2 = cs.take(i + 1);
            assert(n2.drop_last() =~= ns.take(i as int));
            assert(c2.drop_last() =~= cs.take(i as int));
            if i == 0 {
                assert(tally_text(ns.take(0), cs.take(0)) == Seq::<char>::empty());
            }
            assert(s@ =~= "r "@ + tally_text(n2, c2));
        }
        i = i + 1;
    }
    assert(ns.take(names.len() as int) =~= ns);
    assert(cs.take(names.len() as int) =~= cs);
    s
}

impl Message {
    /// The text that gets wrapped when the message is shown (see [`body_text`]).
    pub fn body(&self) -> (res: String)
        ensures
            res@ == body_text(self@),
    {
        if self.edits.len() > 0 {
            trim_of(self.edits[self.edits.len() - 1].text.as_str())
        } else {
            trim_of(self.content.as_str())
        }
    }

    /// The lines that show the message, wrapped to `width` columns.
    pub fn render(&self, width: usize) -> (res: Vec<String>)
        ensures
            rendered(
                self@,
                wrapped_lines(body_text(self@), width),
                texts(res@),
            ),
    {
        let body = self.body();
        let wrapped = wrap_text(body.as_str(), width);
        self.render_wrapped(&wrapped)
    }

    /// The lines that show the message, given the lines of its wrapped body
    /// (see [`rendered`]).
    pub fn render_wrapped(&self, wrapped: &Vec<String>) -> (res: Vec<String>)
        ensures
            rendered(self@, texts(wrapped@), texts(res@)),
    {
        let ghost m = self@;
        let ghost w = texts(wrapped@);
        let mut lines: Vec<String> = Vec::new();
        if let Some(quote) = &self.quote {
            if let Some(line) = first_line_of(quote.text.as_str()) {
                let mut l = crate::text::owned("> ");
                push_str(&mut l, line.as_str());
                lines.push(l);
            }
        }
        assert(texts(lines@) =~= quote_lines(m));
        let ghost ql = quote_lines(m);
        let mut i: usize = 0;
        while i < self.attachments.len()
            invariant
                i <= self.attachments.len(),
                m == self@,
                texts(lines@) == ql + Seq::new(
                    i as nat,
                    |j: int| crate::backends::attachment_line(m.attachments[j]),
                ),
            decreases self.attachments.len() - i,
        {
            assert(m.attachments[i as int] == self.attachments@[i as int]@);
            let ghost prev = lines@;
            lines.push(self.attachments[i].message_line());
            assert(lines@ == prev.push(lines@.last()));
            proof {
                lemma_texts_push(prev, lines@.last());
            }
            i = i + 1;
            assert(texts(lines@) =~= ql + Seq::new(
                i as nat,
                |j: int| crate::backends::attachment_line(m.attachments[j]),
            ));
        }
        let ghost head1 = texts(lines@);
        let marked = self.edits.len() > 0;
        if marked || !self.content.as_str().is_empty() {
            let mut j: usize = 0;
            while j < wrapped.len()
                invariant
                    j <= wrapped.len(),
                    m == self@,
                    w == texts(wrapped@),
                    marked == (m.edits.len() > 0),
                    marked || m.content.len() > 0,
                    texts(lines@) == head1 + body_lines(m, w).take(j as int),
                decreases wrapped.len() - j,
            {
                let mut l = if marked && j == 0 {
                    crate::text::owned("e ")
                } else {
                    crate::text::owned("  ")
                };
                push_str(&mut l, wrapped[j].as_str());
                assert(w[j as int] == wrapped@[j as int]@);
                assert(l@ == body_lines(m, w)[j as int]);
                let ghost prev = lines@;
                lines.push(l);
                proof {
                    lemma_texts_push(prev, lines@.last());
                }
                j = j + 1;
                assert(texts(lines@) =~= head1 + body_lines(m, w).take(
                    j as int,
                ));
            }
            assert(body_lines(m, w).take(wrapped.len() as int) =~= body_lines(m, w));
        } else {
            assert(texts(lines@) =~= head1 + body_lines(m, w));
        }
        let ghost head = texts(lines@);
        if self.reactions.len() > 0 {
            let r = reactions_text(&self.reactions);
            lines.push(r);
            assert(texts(lines@).subrange(0, head.len() as int) =~= head);
        }
        lines
    }
}

/// The values of a list of messages.
pub open spec fn message_views(v: Seq<Message>) -> Seq<MessageView> {
    v.map_values(|m: Message| m@)
}

/// The messages are in order of strictly increasing timestamps, so no two
/// share a timestamp.
pub open spec fn sorted_by_timestamp(v: Seq<MessageView>) -> bool {
    forall|i: int, j: int| 0 <= i < j < v.len() ==> v[i].timestamp < v[j].timestamp
}

/// Some message has the timestamp.
pub open spec fn has_timestamp(v: Seq<MessageView>, ts: u64) -> bool {
    exists|i: int| 0 <= i < v.len() && v[i].timestamp == ts
}

/// The index of the message with the timestamp (meaningful when there is one).
pub open spec fn index_of_timestamp(v: Seq<MessageView>, ts: u64) -> int {
    choose|i: int| 0 <= i < v.len() && v[i].timestamp == ts
}

/// The number of messages older than the timestamp: where a message with it
/// goes in the order.
pub open spec fn older_count(v: Seq<MessageView>, ts: u64) -> int
    decreases v.len(),
{
    if v.len() == 0 {
        0
    } else {
        older_count(v.drop_last(), ts) + if v.last().timestamp < ts {
            1int
        } else {
            0int
        }
    }
}

/// A message from the backend with text, as the interface keeps it: no
/// reactions or edits yet.
pub open spec fn text_message(msg: MessageData, text: Seq<char>, attachments: Seq<AttachmentView>) -> MessageView {
    MessageView {
        timestamp: msg.timestamp,
        sender: msg.sender,
        contact_id: msg.contact_id,
        content: text,
        reactions: seq![],
        attachments,
        quote: msg.quote,
        edits: seq![],
    }
}

/// The index of the first reaction by `author`, if any.
pub open spec fn reaction_by(rs: Seq<ReactionView>, author: Seq<u8>) -> Option<int> {
    if exists|p: int| 0 <= p < rs.len() && rs[p].author == author {
        Some(choose|p: int| 0 <= p < rs.len() && rs[p].author == author && forall|q: int| 0 <= q < p ==> rs[q].author != author)
    } else {
        None
    }
}

/// The reactions after a reaction by `author`: an earlier reaction by the same
/// author goes (when removing, only if it is the same emoji), and unless
/// removing the new one is added at the end.
pub open spec fn react(rs: Seq<ReactionView>, author: Seq<u8>, emoji: Seq<char>, remove: bool) -> Seq<ReactionView> {
    let kept = match reaction_by(rs, author) {
        Some(p) => if (remove && rs[p].emoji == emoji) || !remove {
            rs.remove(p)
        } else {
            rs
        },
        None => rs,
    };
    if !remove {
        kept.push(ReactionView { author, emoji })
    } else {
        kept
    }
}

/// What a message from the backend does to the messages shown: a text is put
/// in its place by timestamp (replacing one with the same timestamp), a
/// reaction changes the reactions of the message it is for, if that is shown,
/// and an edit adds a text to the message with the same timestamp.
pub open spec fn apply_message(v: Seq<MessageView>, msg: MessageData) -> Seq<MessageView> {
    match msg.content {
        ContentData::Text { text, attachments } => {
            let m = text_message(msg, text, attachments);
            if has_timestamp(v, msg.timestamp) {
                v.update(index_of_timestamp(v, msg.timestamp), m)
            } else {
                v.insert(older_count(v, msg.timestamp), m)
            }
        },
        ContentData::Reaction { message_author, timestamp, reaction, remove } => {
            if has_timestamp(v, timestamp) {
                let i = index_of_timestamp(v, timestamp);
                v.update(
                    i,
                    MessageView {
                        reactions: react(v[i].reactions, message_author, reaction, remove),
                        ..v[i]
                    },
                )
            } else {
                v
            }
        },
        ContentData::Edit { timestamp, text } => {
            let i = index_of_timestamp(v, msg.timestamp);
            v.update(
                i,
                MessageView {
                    edits: v[i].edits.push(EditView { timestamp, text }),
                    ..v[i]
                },
            )
        },
    }
}

/// A message from the backend can be applied: a reaction to a shown message
/// names that message's sender as its author, and an edit is for a shown
/// message. (Otherwise the interface stops.)
pub open spec fn applicable(v: Seq<MessageView>, msg: MessageData) -> bool {
    match msg.content {
        ContentData::Text { .. } => true,
        ContentData::Reaction { message_author, timestamp, .. } => has_timestamp(v, timestamp)
            ==> v[index_of_timestamp(v, timestamp)].sender == message_author,
        ContentData::Edit { .. } => has_timestamp(v, msg.timestamp),
    }
}

/// The messages after applying a list of backend messages in order.
pub open spec fn apply_all(v: Seq<MessageView>, msgs: Seq<MessageData>) -> Seq<MessageView>
    decreases msgs.len(),
{
    if msgs.len() == 0 {
        v
    } else {
        apply_all(apply_message(v, msgs[0]), msgs.drop_first())
    }
}

/// Every backend message of the list can be applied in turn.
pub open spec fn all_applicable(v: Seq<MessageView>, msgs: Seq<MessageData>) -> bool
    decreases msgs.len(),
{
    if msgs.len() == 0 {
        true
    } else {
        applicable(v, msgs[0]) && all_applicable(apply_message(v, msgs[0]), msgs.drop_first())
    }
}

/// The values of a list of backend messages.
pub open spec fn incoming_views(v: Seq<crate::backends::Message>) -> Seq<MessageData> {
    v.map_values(|m: crate::backends::Message| m@)
}

/// The message with the timestamp, where one is shown, has an attachment
/// with the backend's index.
pub open spec fn attachment_known(v: Seq<MessageView>, timestamp: u64, index: usize) -> bool {
    has_timestamp(v, timestamp) ==> exists|a: int|
        0 <= a < v[index_of_timestamp(v, timestamp)].attachments.len() && v[index_of_timestamp(
            v,
            timestamp,
        )].attachments[a].index == index
}

/// The messages with the path of a downloaded attachment recorded: the first
/// attachment with the backend's index of the message with the timestamp,
/// where one is shown.
pub open spec fn with_attachment_path(v: Seq<MessageView>, timestamp: u64, index: usize, path: Seq<char>) -> Seq<
    MessageView,
> {
    if !has_timestamp(v, timestamp) {
        v
    } else {
        let i = index_of_timestamp(v, timestamp);
        let atts = v[i].attachments;
        let a = choose|a: int|
            0 <= a < atts.len() && atts[a].index == index && forall|b: int| 0 <= b < a ==> atts[b].index != index;
        v.update(i, MessageView { attachments: atts.update(a, AttachmentView { path: Some(path), ..atts[a] }), ..v[i] })
    }
}

/// The messages of a contact, ordered by timestamp, and which one is selected.
#[derive(Debug)]
pub struct Messages {
    messages: Vec<Message>,
    pub state: ListState,
}

proof fn lemma_older_count_sorted(v: Seq<MessageView>, ts: u64, k: int)
    requires
        sorted_by_timestamp(v),
        0 <= k <= v.len(),
        forall|i: int| 0 <= i < k ==> v[i].timestamp < ts,
        forall|i: int| k <= i < v.len() ==> v[i].timestamp >= ts,
    ensures
        older_count(v, ts) == k,
    decreases v.len(),
{
    if v.len() > 0 {
        if k == v.len() {
            lemma_older_count_sorted(v.drop_last(), ts, k - 1);
        } else {
            lemma_older_count_sorted(v.drop_last(), ts, k);
        }
    }
}

proof fn lemma_index_of_timestamp(v: Seq<MessageView>, i: int)
    requires
        sorted_by_timestamp(v),
        0 <= i < v.len(),
    ensures
        has_timestamp(v, v[i].timestamp),
        index_of_timestamp(v, v[i].timestamp) == i,
{
    let k = index_of_timestamp(v, v[i].timestamp);
    if k < i {
    } else if k > i {
    }
}

impl Messages {
    /// No messages, nothing selected.
    pub fn new() -> (res: Self)
        ensures
            res.view_seq().len() == 0,
            res.wf(),
            res.list_state().selected_spec() is None,
            res.list_state().offset_spec() == 0,
    {
        Messages { messages: Vec::new(), state: ListState::default() }
    }

    /// The messages, ordered by timestamp.
    pub closed spec fn view_seq(&self) -> Seq<MessageView> {
        message_views(self.messages@)
    }

    /// Which message is selected, and the scroll offset.
    pub closed spec fn list_state(&self) -> ListState {
        self.state
    }

    /// The messages are ordered by strictly increasing timestamp.
    pub open spec fn wf(&self) -> bool {
        sorted_by_timestamp(self.view_seq())
    }

    /// The place of the message with the timestamp, or where it would go.
    fn find(&self, ts: u64) -> (res: (bool, usize))
        requires
            self.wf(),
        ensures
            res.0 ==> res.1 < self.view_seq().len() && self.view_seq()[res.1 as int].timestamp == ts,
            !res.0 ==> !has_timestamp(self.view_seq(), ts) && res.1 == older_count(
                self.view_seq(),
                ts,
            ),
    {
        let ghost v = self.view_seq();
        let mut i: usize = 0;
        while i < self.messages.len() && self.messages[i].timestamp < ts
            invariant
                i <= self.messages.len(),
                v == self.view_seq(),
                v.len() == self.messages.len(),
                sorted_by_timestamp(v),
                forall|j: int| 0 <= j < i ==> v[j].timestamp < ts,
            decreases self.messages.len() - i,
        {
            assert(v[i as int] == self.messages@[i as int]@);
            i = i + 1;
        }
        if i < self.messages.len() {
            assert(v[i as int] == self.messages@[i as int]@);
        }
        if i < self.messages.len() && self.messages[i].timestamp == ts {
            (true, i)
        } else {
            proof {
                assert forall|j: int| i <= j < v.len() implies v[j].timestamp >= ts by {
                    if j > i {
                        assert(v[i as int].timestamp < v[j].timestamp);
                    }
                }
                lemma_older_count_sorted(v, ts, i as int);
                if has_timestamp(v, ts) {
                    let j = choose|j: int| 0 <= j < v.len() && v[j].timestamp == ts;
                    if j > i {
                        assert(v[i as int].timestamp < v[j].timestamp);
                    }
                }
            }
            (false, i)
        }
    }

    /// Adds one message from the backend (see [`apply_message`]).
    pub fn add_single(&mut self, message: crate::backends::Message)
        requires
            old(self).wf(),
            applicable(old(self).view_seq(), message@),
        ensures
            final(self).wf(),
            final(self).view_seq() == apply_message(old(self).view_seq(), message@),
            final(self).list_state() == old(self).list_state(),
    {
        self.apply(&message);
    }

    /// Whether a message from the backend can be applied now (see
    /// [`applicable`]).
    pub fn can_apply(&self, message: &crate::backends::Message) -> (res: bool)
        requires
            self.wf(),
        ensures
            res == applicable(self.view_seq(), message@),
    {
        match &message.content {
            MessageContent::Text { .. } => true,
            MessageContent::Reaction { message_author, timestamp, .. } => {
                let (found, i) = self.find(*timestamp);
                if found {
                    proof {
                        lemma_index_of_timestamp(self.view_seq(), i as int);
                    }
                    assert(self.view_seq()[i as int] == self.messages@[i as int]@);
                    crate::backends::bytes_eq(&self.messages[i].sender, message_author)
                } else {
                    true
                }
            },
            MessageContent::Edit { .. } => {
                let (found, _) = self.find(message.timestamp);
                found
            },
        }
    }

    /// Adds the messages from the backend in order (see [`apply_all`]) as
    /// long as each can be applied; `false` when one could not (the messages
    /// before it are added).
    pub fn try_add_multiple(&mut self, messages: Vec<crate::backends::Message>) -> (res: bool)
        requires
            old(self).wf(),
        ensures
            final(self).wf(),
            final(self).list_state() == old(self).list_state(),
            res == all_applicable(old(self).view_seq(), incoming_views(messages@)),
            res ==> final(self).view_seq() == apply_all(old(self).view_seq(), incoming_views(messages@)),
    {
        let ghost all = incoming_views(messages@);
        let mut k: usize = 0;
        assert(all.skip(0) =~= all);
        while k < messages.len()
            invariant
                k <= messages.len(),
                all == incoming_views(messages@),
                self.wf(),
                self.state == old(self).state,
                all_applicable(old(self).view_seq(), all) == all_applicable(self.view_seq(), all.skip(k as int)),
                apply_all(old(self).view_seq(), all) == apply_all(self.view_seq(), all.skip(k as int)),
            decreases messages.len() - k,
        {
            let ghost rest = all.skip(k as int);
            assert(rest[0] == messages@[k as int]@);
            assert(rest.drop_first() =~= all.skip(k + 1));
            if !self.can_apply(&messages[k]) {
                return false;
            }
            self.apply(&messages[k]);
            k = k + 1;
        }
        assert(all.skip(k as int) =~= Seq::<MessageData>::empty());
        true
    }

    /// Adds the messages from the backend in order (see [`apply_all`]).
    pub fn add_multiple(&mut self, messages: Vec<crate::backends::Message>)
        requires
            old(self).wf(),
            all_applicable(old(self).view_seq(), incoming_views(messages@)),
        ensures
            final(self).wf(),
            final(self).view_seq() == apply_all(old(self).view_seq(), incoming_views(messages@)),
            final(self).list_state() == old(self).list_state(),
    {
        let ghost all = incoming_views(messages@);
        let mut k: usize = 0;
        assert(all.skip(0) =~= all);
        while k < messages.len()
            invariant
                k <= messages.len(),
                all == incoming_views(messages@),
                self.wf(),
                self.state == old(self).state,
                all_applicable(self.view_seq(), all.skip(k as int)),
                apply_all(old(self).view_seq(), all) == apply_all(self.view_seq(), all.skip(k as int)),
            decreases messages.len() - k,
        {
            let ghost rest = all.skip(k as int);
            assert(rest[0] == messages@[k as int]@);
            assert(rest.drop_first() =~= all.skip(k + 1));
            self.apply(&messages[k]);
            k = k + 1;
        }
        assert(all.skip(k as int) =~= Seq::<MessageData>::empty());
    }

    fn apply(&mut self, message: &crate::backends::Message)
        requires
            old(self).wf(),
            applicable(old(self).view_seq(), message@),
        ensures
            final(self).wf(),
            final(self).view_seq() == apply_message(old(self).view_seq(), message@),
            final(self).list_state() == old(self).list_state(),
    {
        let ghost v = self.view_seq();
        match &message.content {
            MessageContent::Text { text, attachments } => {
                let m = Message {
                    timestamp: message.timestamp,
                    sender: copy_bytes(&message.sender),
                    contact_id: message.contact_id.duplicate(),
                    content: copy_string(text),
                    reactions: Vec::new(),
                    attachments: copy_attachments(attachments),
                    quote: match &message.quote {
                        Some(q) => Some(Quote {
                            timestamp: q.timestamp,
                            sender: copy_bytes(&q.sender),
                            text: copy_string(&q.text),
                        }),
                        None => None,
                    },
                    edits: Vec::new(),
                };
                proof {
                    assert(reactions_view(m.reactions@) =~= Seq::<ReactionView>::empty());
                    assert(edits_view(m.edits@) =~= Seq::<EditView>::empty());
                    assert(attachments_view(m.attachments@) =~= attachments_view(attachments@));
                }
                assert(m@ == text_message(message@, text@, attachments_view(attachments@)));
                let (found, i) = self.find(message.timestamp);
                if found {
                    self.messages.set(i, m);
                    proof {
                        lemma_index_of_timestamp(v, i as int);
                        assert(self.view_seq() =~= v.update(i as int, m@));
                    }
                } else {
                    proof {
                        lemma_older_bound(v, message.timestamp);
                    }
                    self.messages.insert(i, m);
                    proof {
                        assert(self.view_seq() =~= v.insert(i as int, m@));
                    }
                }
                proof {
                    let w = self.view_seq();
                    assert forall|a: int, b: int| 0 <= a < b < w.len() implies w[a].timestamp < w[b].timestamp by {
                        if !found {
                            assert(forall|j: int| 0 <= j < i ==> v[j].timestamp < message.timestamp) by {
                                assert forall|j: int| 0 <= j < i implies v[j].timestamp < message.timestamp by {
                                    lemma_older_prefix(v, message.timestamp, j);
                                }
                            }
                            assert(forall|j: int| i <= j < v.len() ==> v[j].timestamp > message.timestamp) by {
                                assert forall|j: int| i <= j < v.len() implies v[j].timestamp > message.timestamp by {
                                    lemma_older_suffix(v, message.timestamp, j);
                                    if v[j].timestamp == message.timestamp {
                                        assert(has_timestamp(v, message.timestamp));
                                    }
                                }
                            }
                        }
                    }
                }
            },
            MessageContent::Reaction { message_author, timestamp, reaction, remove } => {
                let (found, i) = self.find(*timestamp);
                if found {
                    proof {
                        lemma_index_of_timestamp(v, i as int);
                    }
                    let mut m = self.messages.remove(i);
                    assert(m@ == v[i as int]);
                    let ghost rs = reactions_view(m.reactions@);
                    let mut p: usize = 0;
                    let mut found_reaction = false;
                    while p < m.reactions.len()
                        invariant_except_break
                            p <= m.reactions.len(),
                            rs == reactions_view(m.reactions@),
                            forall|q: int| 0 <= q < p ==> rs[q].author != message_author@,
                            !found_reaction,
                        ensures
                            p <= m.reactions.len(),
                            rs == reactions_view(m.reactions@),
                            forall|q: int| 0 <= q < p ==> rs[q].author != message_author@,
                            found_reaction ==> p < m.reactions.len() && rs[p as int].author == message_author@,
                            !found_reaction ==> p == m.reactions.len(),
                        decreases m.reactions.len() - p,
                    {
                        assert(rs[p as int] == m.reactions@[p as int]@);
                        if crate::backends::bytes_eq(&m.reactions[p].author, message_author) {
                            found_reaction = true;
                            break;
                        }
                        p = p + 1;
                    }
                    proof {
                        if found_reaction {
                            let k = choose|q: int| 0 <= q < rs.len() && rs[q].author == message_author@ && forall|r: int| 0 <= r < q ==> rs[r].author != message_author@;
                            assert(0 <= p < rs.len() && rs[p as int].author == message_author@ && forall|r: int| 0 <= r < p ==> rs[r].author != message_author@);
                            if k < p {
                            } else if k > p {
                            }
                            assert(reaction_by(rs, message_author@) == Some(p as int));
                        } else {
                            assert(reaction_by(rs, message_author@) is None);
                        }
                    }
                    if found_reaction {
                        assert(rs[p as int] == m.reactions@[p as int]@);
                        if (*remove && crate::text::str_eq(m.reactions[p].emoji.as_str(), reaction.as_str()))
                            || !*remove {
                            m.reactions.remove(p);
                            assert(reactions_view(m.reactions@) =~= rs.remove(p as int));
                        }
                    }
                    let ghost kept = reactions_view(m.reactions@);
                    if !*remove {
                        m.reactions.push(Reaction { author: copy_bytes(message_author), emoji: copy_string(reaction) });
                        assert(reactions_view(m.reactions@) =~= kept.push(ReactionView { author: message_author@, emoji: reaction@ }));
                    }
                    self.messages.insert(i, m);
                    proof {
                        assert(self.view_seq() =~= v.update(i as int, m@));
                    }
                } else {
                }
            },
            MessageContent::Edit { timestamp, text } => {
                let (found, i) = self.find(message.timestamp);
                proof {
                    if !found {
                        assert(false);
                    }
                    lemma_index_of_timestamp(v, i as int);
                }
                let mut m = self.messages.remove(i);
                assert(m@ == v[i as int]);
                let ghost es = edits_view(m.edits@);
                m.edits.push(MessageEdit { timestamp: *timestamp, text: copy_string(text) });
                assert(edits_view(m.edits@) =~= es.push(EditView { timestamp: *timestamp, text: text@ }));
                self.messages.insert(i, m);
                proof {
                    assert(self.view_seq() =~= v.update(i as int, m@));
                }
            },
        }
    }

    /// The message at a place in the order.
    pub fn get_by_index(&self, index: usize) -> (res: Option<&Message>)
        ensures
            match res {
                Some(m) => index < self.view_seq().len() && m@ == self.view_seq()[index as int],
                None => index >= self.view_seq().len(),
            },
    {
        if index < self.messages.len() {
            Some(&self.messages[index])
        } else {
            None
        }
    }

    /// The message with the timestamp.
    pub fn get_by_timestamp(&self, timestamp: u64) -> (res: Option<&Message>)
        requires
            self.wf(),
        ensures
            match res {
                Some(m) => has_timestamp(self.view_seq(), timestamp) && m@ == self.view_seq()[index_of_timestamp(self.view_seq(), timestamp)],
                None => !has_timestamp(self.view_seq(), timestamp),
            },
    {
        let (found, i) = self.find(timestamp);
        if found {
            proof {
                lemma_index_of_timestamp(self.view_seq(), i as int);
            }
            Some(&self.messages[i])
        } else {
            None
        }
    }

    /// The message with the timestamp, to change in place: the messages
    /// after are those before with that one as it is left; nothing changes
    /// without one.
    pub fn get_mut_by_timestamp(&mut self, timestamp: u64) -> (res: Option<&mut Message>)
        requires
            old(self).wf(),
        ensures
            match res {
                Some(m) => {
                    let i = index_of_timestamp(old(self).view_seq(), timestamp);
                    &&& has_timestamp(old(self).view_seq(), timestamp)
                    &&& (*m)@ == old(self).view_seq()[i]
                    &&& final(self).view_seq() == old(self).view_seq().update(i, (*final(m))@)
                    &&& final(self).list_state() == old(self).list_state()
                },
                None => !has_timestamp(old(self).view_seq(), timestamp) && *final(self) == *old(self),
            },
    {
        let (found, i) = self.find(timestamp);
        if found {
            proof {
                lemma_index_of_timestamp(self.view_seq(), i as int);
            }
            Some(&mut self.messages[i])
        } else {
            None
        }
    }

    /// The selected place.
    pub fn list_state_selected(&self) -> (res: Option<usize>)
        ensures
            res == self.list_state().selected_spec(),
    {
        self.state.selected()
    }

    /// Selects a message by its place, or none.
    pub fn select(&mut self, index: Option<usize>)
        ensures
            final(self).view_seq() == old(self).view_seq(),
            final(self).wf() == old(self).wf(),
            final(self).list_state().selected_spec() == index,
            final(self).list_state().offset_spec() == old(self).list_state().offset_spec(),
    {
        self.state.select(index);
    }

    /// Selects the next message, or the first when none is selected.
    pub fn select_next(&mut self)
        requires
            old(self).list_state().selected_spec() != Some(usize::MAX),
        ensures
            final(self).view_seq() == old(self).view_seq(),
            final(self).wf() == old(self).wf(),
            final(self).list_state().selected_spec() == Some(
                match old(self).list_state().selected_spec() {
                    Some(i) => (i + 1) as usize,
                    None => 0usize,
                },
            ),
            final(self).list_state().offset_spec() == old(self).list_state().offset_spec(),
    {
        self.state.select_next();
    }

    /// Selects the previous message, staying on the first.
    pub fn select_previous(&mut self)
        ensures
            final(self).view_seq() == old(self).view_seq(),
            final(self).wf() == old(self).wf(),
            final(self).list_state().selected_spec() == match old(self).list_state().selected_spec() {
                Some(i) => Some(if i == 0 {
                    0usize
                } else {
                    (i - 1) as usize
                }),
                None => None,
            },
            final(self).list_state().offset_spec() == old(self).list_state().offset_spec(),
    {
        self.state.select_previous();
    }

    /// Selects the last message, whatever the number turns out to be.
    pub fn select_last(&mut self)
        ensures
            final(self).view_seq() == old(self).view_seq(),
            final(self).wf() == old(self).wf(),
            final(self).list_state().selected_spec() == Some(usize::MAX),
            final(self).list_state().offset_spec() == old(self).list_state().offset_spec(),
    {
        self.state.select_last();
    }

    /// Replaces the selection and the offset (as drawing the list leaves them).
    pub fn set_list_state(&mut self, state: ListState)
        ensures
            final(self).view_seq() == old(self).view_seq(),
            final(self).wf() == old(self).wf(),
            final(self).list_state() == state,
    {
        self.state = state;
    }

    /// Forgets all messages; the selection stays.
    pub fn clear(&mut self)
        ensures
            final(self).view_seq().len() == 0,
            final(self).wf(),
            final(self).list_state() == old(self).list_state(),
    {
        self.messages.clear();
        assert(self.view_seq() =~= Seq::<MessageView>::empty());
    }

    /// There are no messages.
    pub fn is_empty(&self) -> (res: bool)
        ensures
            res == (self.view_seq().len() == 0),
    {
        self.messages.len() == 0
    }

    /// The number of messages.
    pub fn len(&self) -> (res: usize)
        ensures
            res == self.view_seq().len(),
    {
        self.messages.len()
    }

    /// The selected message, when the selection is on a message.
    pub fn selected(&self) -> (res: Option<&Message>)
        ensures
            match self.list_state().selected_spec() {
                Some(i) => match res {
                    Some(m) => i < self.view_seq().len() && m@ == self.view_seq()[i as int],
                    None => i >= self.view_seq().len(),
                },
                None => res is None,
            },
    {
        match self.state.selected() {
            Some(i) => self.get_by_index(i),
            None => None,
        }
    }

    /// Selects the message with the timestamp, if there is one.
    pub fn select_message(&mut self, timestamp: u64)
        requires
            old(self).wf(),
        ensures
            final(self).wf(),
            final(self).view_seq() == old(self).view_seq(),
            final(self).list_state().offset_spec() == old(self).list_state().offset_spec(),
            has_timestamp(old(self).view_seq(), timestamp) ==> final(self).list_state().selected_spec() == Some(
                index_of_timestamp(old(self).view_seq(), timestamp) as usize,
            ),
            !has_timestamp(old(self).view_seq(), timestamp) ==> final(self).list_state().selected_spec()
                == old(self).list_state().selected_spec(),
    {
        let (found, i) = self.find(timestamp);
        if found {
            proof {
                lemma_index_of_timestamp(self.view_seq(), i as int);
            }
            self.state.select(Some(i));
        }
    }

    /// Whether the message with the timestamp, if there is one, has an
    /// attachment with the backend's index.
    pub fn has_attachment(&self, timestamp: u64, index: usize) -> (res: bool)
        requires
            self.wf(),
        ensures
            res == attachment_known(self.view_seq(), timestamp, index),
    {
        let (found, i) = self.find(timestamp);
        if !found {
            return true;
        }
        proof {
            lemma_index_of_timestamp(self.view_seq(), i as int);
        }
        let m = &self.messages[i];
        assert(m@ == self.view_seq()[i as int]);
        let ghost atts = attachments_view(m.attachments@);
        let mut a: usize = 0;
        while a < m.attachments.len()
            invariant
                a <= m.attachments.len(),
                atts == attachments_view(m.attachments@),
                has_timestamp(self.view_seq(), timestamp),
                index_of_timestamp(self.view_seq(), timestamp) == i,
                i < self.view_seq().len(),
                self.view_seq()[i as int].attachments == atts,
                forall|b: int| 0 <= b < a ==> atts[b].index != index,
            decreases m.attachments.len() - a,
        {
            assert(atts[a as int] == m.attachments@[a as int]@);
            if m.attachments[a].index == index {
                assert(atts[a as int].index == index);
                return true;
            }
            a = a + 1;
        }
        false
    }

    /// Records where an attachment of the message with the timestamp was
    /// downloaded to: its first attachment with the backend's index gets the path.
    pub fn set_attachment_path(&mut self, timestamp: u64, index: usize, path: String)
        requires
            old(self).wf(),
            attachment_known(old(self).view_seq(), timestamp, index),
        ensures
            final(self).wf(),
            final(self).list_state() == old(self).list_state(),
            final(self).view_seq() == with_attachment_path(old(self).view_seq(), timestamp, index, path@),
    {
        let ghost v = self.view_seq();
        let (found, i) = self.find(timestamp);
        if !found {
            return;
        }
        proof {
            lemma_index_of_timestamp(v, i as int);
        }
        let mut m = self.messages.remove(i);
        assert(m@ == v[i as int]);
        let ghost atts = attachments_view(m.attachments@);
        let mut a: usize = 0;
        while a < m.attachments.len() && m.attachments[a].index != index
            invariant
                a <= m.attachments.len(),
                atts == attachments_view(m.attachments@),
                forall|b: int| 0 <= b < a ==> atts[b].index != index,
            decreases m.attachments.len() - a,
        {
            assert(atts[a as int] == m.attachments@[a as int]@);
            a = a + 1;
        }
        proof {
            if a == m.attachments.len() {
                let w = choose|w: int| 0 <= w < atts.len() && atts[w].index == index;
                assert(false);
            }
            assert(atts[a as int] == m.attachments@[a as int]@);
            let k = choose|k: int| 0 <= k < atts.len() && atts[k].index == index && forall|b: int| 0 <= b < k ==> atts[b].index != index;
            assert(0 <= a < atts.len() && atts[a as int].index == index && forall|b: int| 0 <= b < a ==> atts[b].index != index);
            if k < a {
            } else if k > a {
            }
        }
        let mut att = m.attachments.remove(a);
        att.path = Some(path);
        m.attachments.insert(a, att);
        assert(attachments_view(m.attachments@) =~= atts.update(a as int, AttachmentView { path: Some(path@), ..atts[a as int] }));
        self.messages.insert(i, m);
        assert(self.view_seq() =~= v.update(i as int, m@));
    }
}

proof fn lemma_older_prefix(v: Seq<MessageView>, ts: u64, j: int)
    requires
        sorted_by_timestamp(v),
        0 <= j < older_count(v, ts),
    ensures
        v[j].timestamp < ts,
    decreases v.len(),
{
    lemma_older_bound(v, ts);
    if v.len() > 0 {
        let w = v.drop_last();
        if v.last().timestamp < ts {
            if j < w.len() {
                assert(v[j] == w[j]);
                assert(v[j].timestamp < v.last().timestamp);
            }
        } else {
            lemma_older_bound(w, ts);
            assert(v[j] == w[j]);
            lemma_older_prefix(w, ts, j);
        }
    }
}

proof fn lemma_older_suffix(v: Seq<MessageView>, ts: u64, j: int)
    requires
        sorted_by_timestamp(v),
        older_count(v, ts) <= j < v.len(),
    ensures
        v[j].timestamp >= ts,
    decreases v.len(),
{
    lemma_older_bound(v, ts);
    let w = v.drop_last();
    if v.last().timestamp < ts {
        lemma_older_all(v, ts);
    } else if j < v.len() - 1 {
        assert(v[j] == w[j]);
        assert(sorted_by_timestamp(w));
        lemma_older_suffix(w, ts, j);
    }
}

proof fn lemma_older_bound(v: Seq<MessageView>, ts: u64)
    ensures
        0 <= older_count(v, ts) <= v.len(),
    decreases v.len(),
{
    if v.len() > 0 {
        lemma_older_bound(v.drop_last(), ts);
    }
}

proof fn lemma_older_all(v: Seq<MessageView>, ts: u64)
    requires
        sorted_by_timestamp(v),
        v.len() > 0,
        v.last().timestamp < ts,
    ensures
        older_count(v, ts) == v.len(),
{
    lemma_older_sorted_all(v, ts);
}

proof fn lemma_older_sorted_all(v: Seq<MessageView>, ts: u64)
    requires
        forall|i: int| 0 <= i < v.len() ==> v[i].timestamp < ts || (sorted_by_timestamp(v) && v.last().timestamp < ts),
        sorted_by_timestamp(v),
        v.len() > 0 ==> v.last().timestamp < ts,
    ensures
        older_count(v, ts) == v.len(),
    decreases v.len(),
{
    if v.len() > 0 {
        let w = v.drop_last();
        if w.len() > 0 {
            assert(w.last() == v[v.len() - 2]);
            assert(v[v.len() - 2].timestamp < v.last().timestamp);
        }
        lemma_older_sorted_all(w, ts);
    }
}

/// Putting a message into its place by timestamp keeps the order.
proof fn lemma_insert_sorted(v: Seq<MessageView>, m: MessageView)
    requires
        sorted_by_timestamp(v),
        !has_timestamp(v, m.timestamp),
    ensures
        sorted_by_timestamp(v.insert(older_count(v, m.timestamp), m)),
        0 <= older_count(v, m.timestamp) <= v.len(),
{
    lemma_older_bound(v, m.timestamp);
    let k = older_count(v, m.timestamp);
    let w = v.insert(k, m);
    assert forall|a: int, b: int| 0 <= a < b < w.len() implies w[a].timestamp < w[b].timestamp by {
        if a < k {
            lemma_older_prefix(v, m.timestamp, a);
        }
        if b > k {
            lemma_older_suffix(v, m.timestamp, b - 1);
            if v[b - 1].timestamp == m.timestamp {
                assert(has_timestamp(v, m.timestamp));
            }
        }
        if a > k {
            assert(w[a] == v[a - 1] && w[b] == v[b - 1]);
        } else if a < k && b < k {
            assert(w[a] == v[a] && w[b] == v[b]);
        } else if a < k && b > k {
            assert(w[a] == v[a] && w[b] == v[b - 1]);
        }
    }
}

/// A message from the backend that can be applied keeps the messages in
/// order of their timestamps.
pub proof fn law_apply_keeps_order(v: Seq<MessageView>, msg: MessageData)
    requires
        sorted_by_timestamp(v),
        applicable(v, msg),
    ensures
        sorted_by_timestamp(apply_message(v, msg)),
{
    match msg.content {
        ContentData::Text { text, attachments } => {
            let m = text_message(msg, text, attachments);
            if has_timestamp(v, msg.timestamp) {
                let i = index_of_timestamp(v, msg.timestamp);
                let w = v.update(i, m);
                assert forall|a: int, b: int| 0 <= a < b < w.len() implies w[a].timestamp < w[b].timestamp by {
                    assert(v[a].timestamp < v[b].timestamp);
                }
            } else {
                lemma_insert_sorted(v, m);
            }
        },
        ContentData::Reaction { timestamp, .. } => {
            if has_timestamp(v, timestamp) {
                let w = apply_message(v, msg);
                assert forall|a: int, b: int| 0 <= a < b < w.len() implies w[a].timestamp < w[b].timestamp by {
                    assert(v[a].timestamp < v[b].timestamp);
                }
            }
        },
        ContentData::Edit { .. } => {
            let w = apply_message(v, msg);
            assert forall|a: int, b: int| 0 <= a < b < w.len() implies w[a].timestamp < w[b].timestamp by {
                assert(v[a].timestamp < v[b].timestamp);
            }
        },
    }
}

/// After a text message from the backend, the message shown at its
/// timestamp is that text, with no reactions or edits yet.
pub proof fn law_text_message_found(v: Seq<MessageView>, msg: MessageData)
    requires
        sorted_by_timestamp(v),
        msg.content is Text,
    ensures
        has_timestamp(apply_message(v, msg), msg.timestamp),
        apply_message(v, msg)[index_of_timestamp(apply_message(v, msg), msg.timestamp)] == text_message(
            msg,
            msg.content->Text_text,
            msg.content->Text_attachments,
        ),
{
    let m = text_message(msg, msg.content->Text_text, msg.content->Text_attachments);
    law_apply_keeps_order(v, msg);
    let w = apply_message(v, msg);
    if has_timestamp(v, msg.timestamp) {
        let i = index_of_timestamp(v, msg.timestamp);
        assert(w[i] == m);
        lemma_index_of_timestamp(w, i);
    } else {
        lemma_older_bound(v, msg.timestamp);
        let k = older_count(v, msg.timestamp);
        assert(w[k] == m);
        lemma_index_of_timestamp(w, k);
    }
}

/// A reaction to a message that is not shown changes nothing.
pub proof fn law_reaction_to_unknown_message(v: Seq<MessageView>, msg: MessageData)
    requires
        msg.content is Reaction,
        !has_timestamp(v, msg.content->Reaction_timestamp),
    ensures
        apply_message(v, msg) == v,
{
}

/// The timestamps of the messages shown.
pub open spec fn shown_timestamps(v: Seq<MessageView>) -> Set<u64> {
    Set::new(|t: u64| has_timestamp(v, t))
}

/// The timestamps of the text messages of a list from the backend.
pub open spec fn text_timestamps(msgs: Seq<MessageData>) -> Set<u64> {
    Set::new(|t: u64| exists|i: int| 0 <= i < msgs.len() && msgs[i].content is Text && msgs[i].timestamp == t)
}

/// The timestamps that one message from the backend adds: its own, for a
/// text.
pub open spec fn added_timestamps(msg: MessageData) -> Set<u64> {
    if msg.content is Text {
        set![msg.timestamp]
    } else {
        Set::empty()
    }
}

/// One message from the backend adds its timestamp to those shown when it
/// is a text, and otherwise keeps them.
proof fn lemma_apply_timestamps(v: Seq<MessageView>, msg: MessageData)
    requires
        sorted_by_timestamp(v),
        applicable(v, msg),
    ensures
        shown_timestamps(apply_message(v, msg)) == shown_timestamps(v) + added_timestamps(msg),
{
    let w = apply_message(v, msg);
    match msg.content {
        ContentData::Text { text, attachments } => {
            if !has_timestamp(v, msg.timestamp) {
                lemma_older_bound(v, msg.timestamp);
                let k = older_count(v, msg.timestamp);
                assert forall|t: u64| #[trigger] has_timestamp(w, t) == (has_timestamp(v, t) || t == msg.timestamp) by {
                    if has_timestamp(v, t) {
                        let j = choose|j: int| 0 <= j < v.len() && v[j].timestamp == t;
                        if j < k {
                            assert(w[j].timestamp == t);
                        } else {
                            assert(w[j + 1].timestamp == t);
                        }
                    }
                    if t == msg.timestamp {
                        assert(w[k].timestamp == t);
                    }
                    if has_timestamp(w, t) {
                        let j = choose|j: int| 0 <= j < w.len() && w[j].timestamp == t;
                        if j < k {
                            assert(v[j].timestamp == t);
                        } else if j > k {
                            assert(v[j - 1].timestamp == t);
                        }
                    }
                }
            } else {
                let i = index_of_timestamp(v, msg.timestamp);
                assert forall|t: u64| #[trigger] has_timestamp(w, t) == has_timestamp(v, t) by {
                    if has_timestamp(v, t) {
                        let j = choose|j: int| 0 <= j < v.len() && v[j].timestamp == t;
                        assert(w[j].timestamp == t);
                    }
                    if has_timestamp(w, t) {
                        let j = choose|j: int| 0 <= j < w.len() && w[j].timestamp == t;
                        assert(v[j].timestamp == t);
                    }
                }
            }
        },
        _ => {
            assert forall|t: u64| #[trigger] has_timestamp(w, t) == has_timestamp(v, t) by {
                if has_timestamp(v, t) {
                    let j = choose|j: int| 0 <= j < v.len() && v[j].timestamp == t;
                    assert(w[j].timestamp == t);
                }
                if has_timestamp(w, t) {
                    let j = choose|j: int| 0 <= j < w.len() && w[j].timestamp == t;
                    assert(v[j].timestamp == t);
                }
            }
        },
    }
    assert(shown_timestamps(w) =~= shown_timestamps(v) + added_timestamps(msg));
}

/// After any list of messages from the backend that can be applied in turn,
/// the messages shown are still in order of strictly increasing timestamp,
/// and their timestamps are those shown before and those of the texts added.
pub proof fn law_additions_keep_order_and_texts(v: Seq<MessageView>, msgs: Seq<MessageData>)
    requires
        sorted_by_timestamp(v),
        all_applicable(v, msgs),
    ensures
        sorted_by_timestamp(apply_all(v, msgs)),
        shown_timestamps(apply_all(v, msgs)) == shown_timestamps(v) + text_timestamps(msgs),
    decreases msgs.len(),
{
    if msgs.len() == 0 {
        assert(text_timestamps(msgs) =~= Set::<u64>::empty());
        assert(shown_timestamps(v) + text_timestamps(msgs) =~= shown_timestamps(v));
    } else {
        let w = apply_message(v, msgs[0]);
        law_apply_keeps_order(v, msgs[0]);
        lemma_apply_timestamps(v, msgs[0]);
        law_additions_keep_order_and_texts(w, msgs.drop_first());
        let rest = msgs.drop_first();
        assert forall|t: u64| #[trigger] text_timestamps(msgs).contains(t) == (added_timestamps(msgs[0]).contains(t)
            || text_timestamps(rest).contains(t)) by {
            if text_timestamps(rest).contains(t) {
                let i = choose|i: int| 0 <= i < rest.len() && rest[i].content is Text && rest[i].timestamp == t;
                assert(msgs[i + 1] == rest[i]);
            }
            if added_timestamps(msgs[0]).contains(t) {
                assert(msgs[0].content is Text && msgs[0].timestamp == t);
            }
            if text_timestamps(msgs).contains(t) {
                let i = choose|i: int| 0 <= i < msgs.len() && msgs[i].content is Text && msgs[i].timestamp == t;
                if i > 0 {
                    assert(rest[i - 1] == msgs[i]);
                }
            }
        }
        assert(text_timestamps(msgs) =~= added_timestamps(msgs[0]) + text_timestamps(rest));
        assert(shown_timestamps(v) + text_timestamps(msgs) =~= (shown_timestamps(v) + added_timestamps(msgs[0]))
            + text_timestamps(rest));
    }
}

/// No author has more than one reaction.
pub open spec fn one_reaction_per_author(rs: Seq<ReactionView>) -> bool {
    forall|i: int, j: int| 0 <= i < j < rs.len() ==> #[trigger] rs[i].author != #[trigger] rs[j].author
}

/// A reaction replaces the author's own earlier reaction, whatever its
/// emoji: afterwards the new one comes last, no other reaction by that
/// author is left, and the reactions of other authors stay. It keeps each
/// author to one reaction.
pub proof fn law_reaction_replaces_the_authors_own(rs: Seq<ReactionView>, author: Seq<u8>, emoji: Seq<char>)
    requires
        one_reaction_per_author(rs),
    ensures
        ({
            let r = react(rs, author, emoji, false);
            &&& r.len() > 0
            &&& r.last() == (ReactionView { author, emoji })
            &&& forall|i: int| 0 <= i < r.len() - 1 ==> r[i].author != author
            &&& forall|x: ReactionView| x.author != author ==> (r.contains(x) == rs.contains(x))
            &&& one_reaction_per_author(r)
        }),
{
    let r = react(rs, author, emoji, false);
    match reaction_by(rs, author) {
        Some(p) => {
            let kept = rs.remove(p);
            assert(r == kept.push(ReactionView { author, emoji }));
            assert forall|i: int| 0 <= i < kept.len() implies kept[i].author != author by {
                if i < p {
                    assert(kept[i] == rs[i]);
                } else {
                    assert(kept[i] == rs[i + 1]);
                    assert(rs[p].author != rs[i + 1].author);
                }
            }
            assert forall|x: ReactionView| x.author != author implies r.contains(x) == rs.contains(x) by {
                if rs.contains(x) {
                    let i = choose|i: int| 0 <= i < rs.len() && rs[i] == x;
                    if i < p {
                        assert(r[i] == x);
                    } else {
                        assert(i != p);
                        assert(r[i - 1] == x);
                    }
                }
                if r.contains(x) {
                    let i = choose|i: int| 0 <= i < r.len() && r[i] == x;
                    if i < p {
                        assert(rs[i] == x);
                    } else {
                        assert(rs[i + 1] == x);
                    }
                }
            }
            assert forall|i: int, j: int| 0 <= i < j < r.len() implies #[trigger] r[i].author != #[trigger] r[j].author by {
                if j < kept.len() {
                    let a = if i < p { i } else { i + 1 };
                    let b = if j < p { j } else { j + 1 };
                    assert(kept[i] == rs[a]);
                    assert(kept[j] == rs[b]);
                }
            }
        },
        None => {
            assert(r == rs.push(ReactionView { author, emoji }));
            assert forall|i: int| 0 <= i < rs.len() implies rs[i].author != author by {
                if rs[i].author == author {
                    assert(exists|q: int| 0 <= q < rs.len() && rs[q].author == author);
                }
            }
            assert forall|x: ReactionView| x.author != author implies r.contains(x) == rs.contains(x) by {
                if rs.contains(x) {
                    let i = choose|i: int| 0 <= i < rs.len() && rs[i] == x;
                    assert(r[i] == x);
                }
                if r.contains(x) {
                    let i = choose|i: int| 0 <= i < r.len() && r[i] == x;
                    assert(i < rs.len());
                    assert(rs[i] == x);
                }
            }
        },
    }
}

/// Taking back a reaction removes the author's reaction when it is that
/// emoji, so no reaction by the author is left; otherwise nothing changes.
pub proof fn law_reaction_taken_back(rs: Seq<ReactionView>, author: Seq<u8>, emoji: Seq<char>)
    requires
        one_reaction_per_author(rs),
    ensures
        rs.contains(ReactionView { author, emoji }) ==> forall|i: int|
            0 <= i < react(rs, author, emoji, true).len() ==> react(rs, author, emoji, true)[i].author != author,
        !rs.contains(ReactionView { author, emoji }) ==> react(rs, author, emoji, true) == rs,
{
    let r = react(rs, author, emoji, true);
    if rs.contains(ReactionView { author, emoji }) {
        let k = choose|k: int| 0 <= k < rs.len() && rs[k] == ReactionView { author, emoji };
        assert(rs[k].author == author);
        let p = reaction_by(rs, author)->Some_0;
        if p != k {
            if p < k {
                assert(rs[p].author != rs[k].author);
            } else {
                assert(rs[k].author != rs[p].author);
            }
        }
        assert forall|i: int| 0 <= i < r.len() implies r[i].author != author by {
            if i < p {
                assert(r[i] == rs[i]);
                assert(rs[i].author != rs[p].author);
            } else {
                assert(r[i] == rs[i + 1]);
                assert(rs[p].author != rs[i + 1].author);
            }
        }
    } else {
        match reaction_by(rs, author) {
            Some(p) => {
                assert(rs[p].author == author);
                if rs[p].emoji == emoji {
                    assert(rs[p] == ReactionView { author, emoji });
                }
            },
            None => {},
        }
    }
}

/// Adding a reaction from the backend to a shown message, whose reactions
/// hold one per author, leaves the message's reactions with the new one
/// last and no other by its author.
pub proof fn law_added_reaction_replaces_earlier(v: Seq<MessageView>, msg: MessageData)
    requires
        sorted_by_timestamp(v),
        msg.content matches ContentData::Reaction { timestamp, remove, .. } && !remove && has_timestamp(v, timestamp)
            && one_reaction_per_author(v[index_of_timestamp(v, timestamp)].reactions),
    ensures
        ({
            let ts = msg.content->Reaction_timestamp;
            let author = msg.content->Reaction_message_author;
            let rs = apply_message(v, msg)[index_of_timestamp(v, ts)].reactions;
            &&& rs.last() == (ReactionView { author, emoji: msg.content->Reaction_reaction })
            &&& forall|i: int| 0 <= i < rs.len() - 1 ==> rs[i].author != author
        }),
{
    let ts = msg.content->Reaction_timestamp;
    let i = index_of_timestamp(v, ts);
    law_reaction_replaces_the_authors_own(
        v[i].reactions,
        msg.content->Reaction_message_author,
        msg.content->Reaction_reaction,
    );
}

/// An edited message shows the text of its last edit, trimmed: whatever the
/// message first said and whatever the earlier edits said, two messages
/// whose last edits agree show the same text.
pub proof fn law_edited_message_shows_last_edit(m: MessageView, n: MessageView)
    requires
        m.edits.len() > 0,
    ensures
        body_text(m) == trim(m.edits.last().text),
        n.edits.len() > 0 && n.edits.last().text == m.edits.last().text ==> body_text(n) == body_text(m),
        m.content != m.edits.last().text && trim(m.content) != trim(m.edits.last().text) ==> body_text(m) != trim(
            m.content,
        ),
{
}

} // verus!
