//! The text editor of `tui_textarea`, as the compose box and the command
//! line use it: its lines and its cursor are what the contracts speak of.
use vstd::prelude::*;

use crate::keybinds::{KeyCode, KeyEvent};
use crate::text::texts;

use tui_textarea::{CursorMove, Input, Key, TextArea};

verus! {

/// A text editor (`tui_textarea::TextArea`): the lines it holds, a cursor,
/// and how it edits on keys. Verus does not take the declaration of the
/// editor's type itself, so it is held here, out of Verus's sight.
#[verifier::external_body]
#[derive(Debug)]
pub struct Editor {
    inner: TextArea<'static>,
}


/// The lines that a text area holds.
pub uninterp spec fn textarea_lines(t: Editor) -> Seq<Seq<char>>;

/// The cursor of a text area: its row and its column in characters.
pub uninterp spec fn textarea_cursor(t: Editor) -> (int, int);

/// Whether a text area has a selection started (`TextArea::is_selecting`).
pub uninterp spec fn textarea_selecting(t: Editor) -> bool;

/// A line with `n` characters taken out from column `col` on.
pub open spec fn line_without(line: Seq<char>, col: int, n: int) -> Seq<char> {
    line.take(col) + line.skip(col + n)
}

/// A line with `s` put in at column `col`.
pub open spec fn line_with(line: Seq<char>, col: int, s: Seq<char>) -> Seq<char> {
    line.take(col) + s + line.skip(col)
}

/// A text that goes into a line as it is: no line break in it, and no
/// carriage return at its end (the editor drops one there).
pub open spec fn fits_on_line(s: Seq<char>) -> bool {
    &&& !s.contains('\n')
    &&& !(s.len() > 0 && s.last() == '\r')
}

/// The cursor stands on one of the lines, at most at its end.
pub open spec fn cursor_in_text(lines: Seq<Seq<char>>, cursor: (int, int)) -> bool {
    &&& 0 <= cursor.0 < lines.len()
    &&& 0 <= cursor.1 <= lines[cursor.0].len()
}

/// The lines of a text area made from a list of lines: an empty list gives
/// one empty line.
pub open spec fn lines_for(lines: Seq<Seq<char>>) -> Seq<Seq<char>> {
    if lines.len() == 0 {
        seq![Seq::<char>::empty()]
    } else {
        lines
    }
}

/// `TextArea::new`: the text area holds the lines (one empty line for none)
/// with the cursor at the start and no selection.
#[verifier::external_body]
pub(crate) fn textarea_from_lines(lines: Vec<String>) -> (t: Editor)
    ensures
        textarea_lines(t) == lines_for(texts(lines@)),
        textarea_cursor(t) == (0int, 0int),
        !textarea_selecting(t),
{
    Editor { inner: TextArea::new(lines) }
}

/// `TextArea::default`: one empty line, the cursor at the start, no
/// selection.
#[verifier::external_body]
pub(crate) fn textarea_empty() -> (t: Editor)
    ensures
        textarea_lines(t) == seq![Seq::<char>::empty()],
        textarea_cursor(t) == (0int, 0int),
        !textarea_selecting(t),
{
    Editor { inner: TextArea::default() }
}

/// `TextArea::lines`, copied: a text area always holds at least one line.
#[verifier::external_body]
pub(crate) fn textarea_lines_of(t: &Editor) -> (res: Vec<String>)
    ensures
        texts(res@) == textarea_lines(*t),
        res@.len() >= 1,
{
    t.inner.lines().to_vec()
}

/// `TextArea::cursor`.
#[verifier::external_body]
pub(crate) fn textarea_cursor_of(t: &Editor) -> (res: (usize, usize))
    ensures
        (res.0 as int, res.1 as int) == textarea_cursor(*t),
{
    t.inner.cursor()
}

/// `TextArea::clone`: the copy holds the same lines, cursor and selection.
#[verifier::external_body]
pub(crate) fn textarea_copy(t: &Editor) -> (res: Editor)
    ensures
        textarea_lines(res) == textarea_lines(*t),
        textarea_cursor(res) == textarea_cursor(*t),
        textarea_selecting(res) == textarea_selecting(*t),
{
    Editor { inner: t.inner.clone() }
}

/// `TextArea::move_cursor(CursorMove::End)`: the cursor goes to the end of
/// its line; the lines stay, and a selection stays started or not.
#[verifier::external_body]
pub(crate) fn textarea_move_to_end(t: &mut Editor)
    ensures
        textarea_lines(*final(t)) == textarea_lines(*old(t)),
        textarea_selecting(*final(t)) == textarea_selecting(*old(t)),
        textarea_cursor(*final(t)) == (
            textarea_cursor(*old(t)).0,
            textarea_lines(*old(t))[textarea_cursor(*old(t)).0].len() as int,
        ),
{
    t.inner.move_cursor(CursorMove::End);
}

/// `TextArea::move_cursor(CursorMove::Back)`: the cursor goes one character
/// back, to the end of the line above from the start of a line, and stays at
/// the start of the first line; the lines stay, and a selection stays
/// started or not.
#[verifier::external_body]
pub(crate) fn textarea_move_back(t: &mut Editor)
    ensures
        textarea_lines(*final(t)) == textarea_lines(*old(t)),
        textarea_selecting(*final(t)) == textarea_selecting(*old(t)),
        ({
            let (row, col) = textarea_cursor(*old(t));
            textarea_cursor(*final(t)) == if col > 0 {
                (row, col - 1)
            } else if row > 0 {
                (row - 1, textarea_lines(*old(t))[row - 1].len() as int)
            } else {
                (row, col)
            }
        }),
{
    t.inner.move_cursor(CursorMove::Back);
}

/// `TextArea::delete_str`: with no selection, removes `chars` characters
/// from the cursor on, the cursor staying where it is; afterwards no
/// selection is left. Not stated here: what a selection, where there is one,
/// takes away, and a removal that runs past the end of the cursor's line.
#[verifier::external_body]
pub(crate) fn textarea_delete_str(t: &mut Editor, chars: usize)
    ensures
        !textarea_selecting(*final(t)),
        ({
            let lines = textarea_lines(*old(t));
            let (row, col) = textarea_cursor(*old(t));
            !textarea_selecting(*old(t)) && cursor_in_text(lines, (row, col)) && col + chars
                <= lines[row].len() ==> {
                &&& textarea_lines(*final(t)) == lines.update(row, line_without(lines[row], col, chars as int))
                &&& textarea_cursor(*final(t)) == (row, col)
            }
        }),
{
    t.inner.delete_str(chars);
}

/// A text cut at its line breaks (`str::split('\n')`): one piece more than
/// there are breaks.
pub open spec fn split_breaks(s: Seq<char>) -> Seq<Seq<char>>
    decreases s.len(),
{
    if s.len() == 0 {
        seq![Seq::<char>::empty()]
    } else {
        let rest = split_breaks(s.drop_first());
        if s[0] == '\n' {
            seq![Seq::<char>::empty()] + rest
        } else {
            rest.update(0, seq![s[0]] + rest[0])
        }
    }
}

/// A piece without a carriage return at its end.
pub open spec fn without_cr(p: Seq<char>) -> Seq<char> {
    if p.len() > 0 && p.last() == '\r' {
        p.drop_last()
    } else {
        p
    }
}

/// The lines a text puts into the editor: its pieces between line breaks,
/// each without a carriage return at its end.
pub open spec fn text_pieces(s: Seq<char>) -> Seq<Seq<char>> {
    split_breaks(s).map_values(|p: Seq<char>| without_cr(p))
}

/// The lines after a text is put in at `(row, col)`: a single piece goes
/// into the line; otherwise the line is split there, its start followed by
/// the first piece, then the middle pieces as lines, then the last piece
/// followed by the rest of the line.
pub open spec fn lines_with_text(lines: Seq<Seq<char>>, row: int, col: int, s: Seq<char>) -> Seq<Seq<char>> {
    let ps = text_pieces(s);
    let line = lines[row];
    if ps.len() == 1 {
        lines.update(row, line_with(line, col, ps[0]))
    } else {
        lines.take(row) + seq![line.take(col) + ps[0]] + ps.subrange(1, ps.len() - 1) + seq![
            ps.last() + line.skip(col),
        ] + lines.skip(row + 1)
    }
}

/// Where the cursor stands after a text is put in at `(row, col)`: after
/// it.
pub open spec fn cursor_after_text(row: int, col: int, s: Seq<char>) -> (int, int) {
    let ps = text_pieces(s);
    if ps.len() == 1 {
        (row, col + ps[0].len())
    } else {
        (row + ps.len() - 1, ps.last().len() as int)
    }
}

/// A text without line breaks is one piece.
proof fn lemma_split_no_breaks(s: Seq<char>)
    requires
        !s.contains('\n'),
    ensures
        split_breaks(s) == seq![s],
    decreases s.len(),
{
    if s.len() > 0 {
        let r = s.drop_first();
        assert forall|i: int| 0 <= i < r.len() implies r[i] != '\n' by {
            assert(r[i] == s[i + 1]);
        }
        lemma_split_no_breaks(r);
        assert(s[0] != '\n');
        assert(seq![s[0]] + r =~= s);
        assert(split_breaks(s) =~= seq![s]);
    } else {
        assert(s =~= Seq::<char>::empty());
    }
}

/// A text that fits on a line is put into the cursor's line.
pub proof fn lemma_text_fits(lines: Seq<Seq<char>>, row: int, col: int, s: Seq<char>)
    requires
        fits_on_line(s),
    ensures
        text_pieces(s) == seq![s],
        lines_with_text(lines, row, col, s) == lines.update(row, line_with(lines[row], col, s)),
        cursor_after_text(row, col, s) == (row, col + s.len()),
{
    lemma_split_no_breaks(s);
    assert(without_cr(s) == s);
    assert(text_pieces(s) =~= seq![s]);
}

/// `TextArea::insert_str`: with no selection, puts the text in at the
/// cursor (see [`lines_with_text`]), the cursor moving to its end;
/// afterwards no selection is left. Not stated here: what a selection,
/// where there is one, becomes.
#[verifier::external_body]
pub(crate) fn textarea_insert_str(t: &mut Editor, s: String)
    ensures
        !textarea_selecting(*final(t)),
        ({
            let lines = textarea_lines(*old(t));
            let (row, col) = textarea_cursor(*old(t));
            !textarea_selecting(*old(t)) && cursor_in_text(lines, (row, col)) ==> {
                &&& textarea_lines(*final(t)) == lines_with_text(lines, row, col, s@)
                &&& textarea_cursor(*final(t)) == cursor_after_text(row, col, s@)
            }
        }),
{
    t.inner.insert_str(s);
}

/// A key as the text editor knows it (`tui_textarea::Key`, those variants
/// that a keyboard gives).
#[derive(Debug, Clone, Copy, PartialEq, Eq, Structural)]
pub enum EditorKey {
    Char(char),
    F(u8),
    Backspace,
    Enter,
    Left,
    Right,
    Up,
    Down,
    Tab,
    Delete,
    Home,
    End,
    PageUp,
    PageDown,
    Esc,
    Null,
}

/// The editor's key for a key of the keyboard, as `tui_textarea` converts
/// the terminal's keys: the keys it knows keep their name, others are
/// `Null`.
pub open spec fn editor_key_of(code: KeyCode) -> EditorKey {
    match code {
        KeyCode::Char(c) => EditorKey::Char(c),
        KeyCode::F(n) => EditorKey::F(n),
        KeyCode::Backspace => EditorKey::Backspace,
        KeyCode::Enter => EditorKey::Enter,
        KeyCode::Left => EditorKey::Left,
        KeyCode::Right => EditorKey::Right,
        KeyCode::Up => EditorKey::Up,
        KeyCode::Down => EditorKey::Down,
        KeyCode::Tab => EditorKey::Tab,
        KeyCode::Delete => EditorKey::Delete,
        KeyCode::Home => EditorKey::Home,
        KeyCode::End => EditorKey::End,
        KeyCode::PageUp => EditorKey::PageUp,
        KeyCode::PageDown => EditorKey::PageDown,
        KeyCode::Esc => EditorKey::Esc,
        _ => EditorKey::Null,
    }
}

/// The editor's key for a key of the keyboard (see [`editor_key_of`]).
pub fn editor_key(code: KeyCode) -> (res: EditorKey)
    ensures
        res == editor_key_of(code),
{
    match code {
        KeyCode::Char(c) => EditorKey::Char(c),
        KeyCode::F(n) => EditorKey::F(n),
        KeyCode::Backspace => EditorKey::Backspace,
        KeyCode::Enter => EditorKey::Enter,
        KeyCode::Left => EditorKey::Left,
        KeyCode::Right => EditorKey::Right,
        KeyCode::Up => EditorKey::Up,
        KeyCode::Down => EditorKey::Down,
        KeyCode::Tab => EditorKey::Tab,
        KeyCode::Delete => EditorKey::Delete,
        KeyCode::Home => EditorKey::Home,
        KeyCode::End => EditorKey::End,
        KeyCode::PageUp => EditorKey::PageUp,
        KeyCode::PageDown => EditorKey::PageDown,
        KeyCode::Esc => EditorKey::Esc,
        _ => EditorKey::Null,
    }
}

/// An editor key that types a character: a character other than a line
/// break, without control or alt.
pub open spec fn types_char(key: EditorKey, ctrl: bool, alt: bool) -> Option<char> {
    match key {
        EditorKey::Char(c) => if !ctrl && !alt && c != '\n' && c != '\r' {
            Some(c)
        } else {
            None
        },
        _ => None,
    }
}

/// An editor key that breaks the line: Enter, a line break character
/// without control or alt, or control-M without alt.
pub open spec fn editor_breaks_line(key: EditorKey, ctrl: bool, alt: bool) -> bool {
    match key {
        EditorKey::Enter => true,
        EditorKey::Char(c) => !alt && ((ctrl && c == 'm') || (!ctrl && (c == '\n' || c == '\r'))),
        _ => false,
    }
}

/// A key of the keyboard that types a character into the editor.
pub open spec fn typed_char(key: KeyEvent) -> Option<char> {
    types_char(editor_key_of(key.code), key.modifiers.control, key.modifiers.alt)
}

/// A key of the keyboard that breaks the line in the editor.
pub open spec fn breaks_line(key: KeyEvent) -> bool {
    editor_breaks_line(editor_key_of(key.code), key.modifiers.control, key.modifiers.alt)
}

/// The lines with the line `row` broken at column `col`.
pub open spec fn lines_broken(lines: Seq<Seq<char>>, row: int, col: int) -> Seq<Seq<char>> {
    lines.update(row, lines[row].take(col)).insert(row + 1, lines[row].skip(col))
}

/// What a key does to the editor's text, where there is no selection and
/// the cursor stands in the text: a character key types the character at
/// the cursor, which moves one column on; a line-break key breaks the line
/// at the cursor, which moves to the start of the new line; either leaves no
/// selection.
pub open spec fn key_edit(before: Editor, after: Editor, key: EditorKey, ctrl: bool, alt: bool) -> bool {
    let lines = textarea_lines(before);
    let (row, col) = textarea_cursor(before);
    !textarea_selecting(before) && cursor_in_text(lines, (row, col)) ==> {
        &&& types_char(key, ctrl, alt) matches Some(c) ==> {
            &&& textarea_lines(after) == lines.update(row, line_with(lines[row], col, seq![c]))
            &&& textarea_cursor(after) == (row, col + 1)
            &&& !textarea_selecting(after)
        }
        &&& editor_breaks_line(key, ctrl, alt) ==> {
            &&& textarea_lines(after) == lines_broken(lines, row, col)
            &&& textarea_cursor(after) == (row + 1, 0int)
            &&& !textarea_selecting(after)
        }
    }
}

/// `TextArea::input` of a key with its control, alt and shift state (see
/// [`key_edit`]). Not stated here: what the other keys do (the editor's
/// other bindings), and what these do to a selection.
#[verifier::external_body]
pub(crate) fn textarea_input(t: &mut Editor, key: EditorKey, ctrl: bool, alt: bool, shift: bool)
    ensures
        key_edit(*old(t), *final(t), key, ctrl, alt),
{
    let key = match key {
        EditorKey::Char(c) => Key::Char(c), EditorKey::F(n) => Key::F(n), EditorKey::Backspace => Key::Backspace,
        EditorKey::Enter => Key::Enter, EditorKey::Left => Key::Left, EditorKey::Right => Key::Right,
        EditorKey::Up => Key::Up, EditorKey::Down => Key::Down, EditorKey::Tab => Key::Tab,
        EditorKey::Delete => Key::Delete, EditorKey::Home => Key::Home, EditorKey::End => Key::End,
        EditorKey::PageUp => Key::PageUp, EditorKey::PageDown => Key::PageDown, EditorKey::Esc => Key::Esc,
        EditorKey::Null => Key::Null,
    };
    t.inner.input(Input { key, ctrl, alt, shift });
}

} // verus!
