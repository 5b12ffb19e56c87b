//! The box where a message is written: its text, the message it replies to,
//! and the files attached to it.
use vstd::prelude::*;

use crate::backends::{
    attachment_line, attachments_view, file_name_of, path_file_name, AttachmentView, MessageAttachment, QuoteData,
};
use crate::text::{first_line, first_line_of, owned, push_str, texts};
use crate::tui::messages::Quote;
use crate::keybinds::KeyEvent;
use crate::tui::textarea::{
    editor_key,
    breaks_line, cursor_in_text, line_with, lines_broken, lines_for, textarea_cursor, textarea_cursor_of,
    textarea_empty, textarea_from_lines, textarea_input, textarea_lines, textarea_lines_of, textarea_selecting,
    typed_char, Editor,
};

verus! {

/// The message being written.
#[derive(Debug)]
pub struct Compose {
    textarea: Editor,
    quote: Option<Quote>,
    attachments: Vec<MessageAttachment>,
}

/// The value of an optional quote.
pub open spec fn quote_view(q: Option<Quote>) -> Option<QuoteData> {
    match q {
        Some(q) => Some(q@),
        None => None,
    }
}

/// The number of rows the box takes: the quote, one per attachment, the text
/// (at least one row), and the border above; the counts of attachments and
/// of lines are taken as `u16`, so modulo 2^16.
pub open spec fn compose_height(has_quote: bool, attachments: nat, lines: nat) -> int {
    (if has_quote {
        1int
    } else {
        0int
    }) + attachments % 0x10000 + (if lines > 1 {
        lines as int
    } else {
        1int
    }) % 0x10000 + 1
}

/// The lines shown above the text of the box: the quote's first line after
/// `> `, where there is a quote, then the line of each attachment.
pub open spec fn compose_header(quote: Option<QuoteData>, attachments: Seq<AttachmentView>) -> Seq<Seq<char>> {
    (match quote {
        Some(q) => seq!["> "@ + first_line(q.text)->0],
        None => Seq::empty(),
    }) + Seq::new(attachments.len(), |k: int| attachment_line(attachments[k]))
}

impl Compose {
    /// The lines of the text.
    pub closed spec fn text_lines(&self) -> Seq<Seq<char>> {
        textarea_lines(self.textarea)
    }

    /// The cursor in the text.
    pub closed spec fn cursor(&self) -> (int, int) {
        textarea_cursor(self.textarea)
    }

    /// Whether a selection has been started in the text.
    pub closed spec fn selecting(&self) -> bool {
        textarea_selecting(self.textarea)
    }

    /// The message replied to.
    pub closed spec fn quote_spec(&self) -> Option<QuoteData> {
        quote_view(self.quote)
    }

    /// The files attached.
    pub closed spec fn attachments_spec(&self) -> Seq<AttachmentView> {
        attachments_view(self.attachments@)
    }

    /// An empty box.
    pub fn new() -> (res: Self)
        ensures
            res.text_lines() == seq![Seq::<char>::empty()],
            res.cursor() == (0int, 0int),
            !res.selecting(),
            res.quote_spec() is None,
            res.attachments_spec().len() == 0,
    {
        let res = Compose { textarea: textarea_empty(), quote: None, attachments: Vec::new() };
        assert(res.attachments_spec() =~= seq![]);
        res
    }

    /// Replaces the text by the lines, the cursor at the start.
    pub fn set_text(&mut self, lines: Vec<String>)
        ensures
            final(self).text_lines() == lines_for(texts(lines@)),
            final(self).cursor() == (0int, 0int),
            !final(self).selecting(),
            final(self).quote_spec() == old(self).quote_spec(),
            final(self).attachments_spec() == old(self).attachments_spec(),
    {
        self.textarea = textarea_from_lines(lines);
    }

    /// Replies to the message.
    pub fn set_quote(&mut self, quote: Quote)
        ensures
            final(self).quote_spec() == Some(quote@),
            final(self).text_lines() == old(self).text_lines(),
            final(self).cursor() == old(self).cursor(),
            final(self).attachments_spec() == old(self).attachments_spec(),
    {
        self.quote = Some(quote);
    }

    /// The message replied to.
    pub fn quote(&self) -> (res: &Option<Quote>)
        ensures
            quote_view(*res) == self.quote_spec(),
    {
        &self.quote
    }

    /// The files attached.
    pub fn attachments(&self) -> (res: &[MessageAttachment])
        ensures
            attachments_view(res@) == self.attachments_spec(),
    {
        self.attachments.as_slice()
    }

    /// Attaches the file at the path, of the given size, named by the last
    /// part of the path. A path without a last part (such as one ending in
    /// `..`) attaches nothing and gives `false`.
    pub fn attach_file(&mut self, path: String, size: u64) -> (attached: bool)
        ensures
            attached == (path_file_name(path@) is Some),
            attached ==> final(self).attachments_spec() == old(self).attachments_spec().push(
                AttachmentView { name: path_file_name(path@)->Some_0, index: 0, size, path: Some(path@) },
            ),
            !attached ==> final(self).attachments_spec() == old(self).attachments_spec(),
            final(self).text_lines() == old(self).text_lines(),
            final(self).cursor() == old(self).cursor(),
            final(self).quote_spec() == old(self).quote_spec(),
    {
        match file_name_of(path.as_str()) {
            Some(name) => {
                let ghost before = self.attachments@;
                self.attachments.push(MessageAttachment { name, index: 0, size, path: Some(path) });
                assert(attachments_view(self.attachments@) =~= attachments_view(before).push(
                    self.attachments@.last()@,
                ));
                true
            },
            None => false,
        }
    }

    /// Removes the attachment at the index; an index past the end does nothing.
    pub fn detach_file(&mut self, index: usize)
        ensures
            final(self).attachments_spec() == if index < old(self).attachments_spec().len() {
                old(self).attachments_spec().remove(index as int)
            } else {
                old(self).attachments_spec()
            },
            final(self).text_lines() == old(self).text_lines(),
            final(self).cursor() == old(self).cursor(),
            final(self).quote_spec() == old(self).quote_spec(),
    {
        if index >= self.attachments.len() {
            return;
        }
        let ghost before = self.attachments@;
        self.attachments.remove(index);
        assert(attachments_view(self.attachments@) =~= attachments_view(before).remove(index as int));
    }

    /// The lines of the text.
    pub fn lines(&self) -> (res: Vec<String>)
        ensures
            texts(res@) == self.text_lines(),
            res@.len() >= 1,
    {
        textarea_lines_of(&self.textarea)
    }

    /// The cursor: its row and its column in characters.
    pub fn cursor_position(&self) -> (res: (usize, usize))
        ensures
            (res.0 as int, res.1 as int) == self.cursor(),
    {
        textarea_cursor_of(&self.textarea)
    }

    /// Edits the text by a key; the quote and the attachments stay. With no
    /// selection and the cursor in the text, a character key types the
    /// character at the cursor and a line-break key breaks the line there
    /// (see [`typed_char`], [`breaks_line`]).
    pub fn input(&mut self, key: KeyEvent)
        ensures
            final(self).quote_spec() == old(self).quote_spec(),
            final(self).attachments_spec() == old(self).attachments_spec(),
            ({
                let lines = old(self).text_lines();
                let (row, col) = old(self).cursor();
                !old(self).selecting() && cursor_in_text(lines, (row, col)) ==> {
                    &&& typed_char(key) matches Some(c) ==> {
                        &&& final(self).text_lines() == lines.update(row, line_with(lines[row], col, seq![c]))
                        &&& final(self).cursor() == (row, col + 1)
                        &&& !final(self).selecting()
                    }
                    &&& breaks_line(key) ==> {
                        &&& final(self).text_lines() == lines_broken(lines, row, col)
                        &&& final(self).cursor() == (row + 1, 0int)
                        &&& !final(self).selecting()
                    }
                }
            }),
    {
        let m = key.modifiers;
        textarea_input(&mut self.textarea, editor_key(key.code), m.control, m.alt, m.shift);
    }

    /// Empties the box: no text, no quote, no attachments.
    pub fn clear(&mut self)
        ensures
            final(self).text_lines() == seq![Seq::<char>::empty()],
            final(self).cursor() == (0int, 0int),
            !final(self).selecting(),
            final(self).quote_spec() is None,
            final(self).attachments_spec().len() == 0,
    {
        self.textarea = textarea_empty();
        self.quote = None;
        self.attachments.clear();
    }

    /// The lines shown above the text: the first line of the quoted text
    /// after `> `, then a line per attachment (see
    /// [`crate::backends::attachment_line`]); `None` where a quoted text
    /// has no line (an empty text), which the box cannot show.
    pub fn header_lines(&self) -> (res: Option<Vec<String>>)
        ensures
            match res {
                Some(v) => texts(v@) == compose_header(self.quote_spec(), self.attachments_spec()),
                None => self.quote_spec() matches Some(q) && first_line(q.text) is None,
            },
    {
        proof {
            reveal_strlit("> ");
        }
        let mut lines: Vec<String> = Vec::new();
        match &self.quote {
            Some(q) => match first_line_of(q.text.as_str()) {
                Some(l) => {
                    let mut line = owned("> ");
                    push_str(&mut line, l.as_str());
                    lines.push(line);
                },
                None => {
                    return None;
                },
            },
            None => {},
        }
        let ghost head = texts(lines@);
        let ghost atts = self.attachments_spec();
        let mut i: usize = 0;
        while i < self.attachments.len()
            invariant
                i <= self.attachments.len(),
                atts == attachments_view(self.attachments@),
                texts(lines@) == head + Seq::new(i as nat, |k: int| attachment_line(atts[k])),
            decreases self.attachments.len() - i,
        {
            let ghost before = lines@;
            lines.push(self.attachments[i].message_line());
            i = i + 1;
            assert(texts(lines@) =~= texts(before).push(lines@.last()@));
            assert(texts(lines@) =~= head + Seq::new(i as nat, |k: int| attachment_line(atts[k])));
        }
        assert(head + Seq::new(i as nat, |k: int| attachment_line(atts[k])) =~= compose_header(
            self.quote_spec(),
            atts,
        ));
        Some(lines)
    }

    /// The number of rows the box takes (see [`compose_height`]), or `None`
    /// where the sum does not fit in a `u16` (an arithmetic overflow).
    pub fn height(&self) -> (res: Option<u16>)
        ensures
            ({
                let h = compose_height(
                    self.quote_spec() is Some,
                    self.attachments_spec().len(),
                    self.text_lines().len(),
                );
                match res {
                    Some(v) => v == h,
                    None => h > u16::MAX,
                }
            }),
    {
        let lines = textarea_lines_of(&self.textarea);
        let q: u64 = if self.quote.is_some() { 1 } else { 0 };
        let a: usize = self.attachments.len();
        let l: usize = if lines.len() > 1 { lines.len() } else { 1 };
        let total: u64 = q + (a % 0x10000) as u64 + (l % 0x10000) as u64 + 1;
        if total > 0xFFFF {
            None
        } else {
            Some(total as u16)
        }
    }
}

impl Default for Compose {
    fn default() -> (res: Self)
        ensures
            res.text_lines() == seq![Seq::<char>::empty()],
            res.cursor() == (0int, 0int),
            !res.selecting(),
            res.quote_spec() is None,
            res.attachments_spec().len() == 0,
    {
        Compose::new()
    }
}

} // verus!
