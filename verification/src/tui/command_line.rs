//! The command line at the bottom: the text being typed, the last error,
//! the completions offered, and the history of commands run.
use vstd::prelude::*;

use crate::command_history::CommandLineHistory;
use crate::commands::{completion_views, Completion, CompletionView};
use crate::text::{owned, texts};
use crate::tui::list::ListState;
use crate::tui::textarea::{
    editor_key,
    cursor_after_text, cursor_in_text, fits_on_line, lemma_text_fits, line_with, line_without, lines_with_text, textarea_copy, textarea_cursor,
    textarea_cursor_of, textarea_delete_str, textarea_empty, textarea_from_lines, textarea_input,
    textarea_insert_str, textarea_lines, textarea_lines_of, textarea_move_back,
    textarea_move_to_end, textarea_selecting, Editor,
};
use crate::keybinds::KeyEvent;
use crate::tui::textarea::{breaks_line, lines_broken, typed_char};

verus! {

/// The completions offered for a command line, the one chosen, and the line
/// they were made for.
#[derive(Debug)]
pub struct Completions {
    pub candidates: Vec<Completion>,
    pub list_state: ListState,
    pub generated_for: Option<String>,
}

impl Completions {
    /// The chosen completion, if any, is one of the candidates.
    pub open spec fn wf(&self) -> bool {
        match self.list_state.selected_spec() {
            Some(i) => i < self.candidates@.len(),
            None => true,
        }
    }

    /// The line the completions were made for.
    pub open spec fn generated_for_spec(&self) -> Option<Seq<char>> {
        match self.generated_for {
            Some(s) => Some(s@),
            None => None,
        }
    }

    /// The completion chosen after the next: the first when none is chosen,
    /// none after the last; the same when there are no completions.
    pub open spec fn next_selection(&self) -> Option<usize> {
        if self.candidates@.len() == 0 {
            self.list_state.selected_spec()
        } else {
            match self.list_state.selected_spec() {
                Some(i) => if i + 1 == self.candidates@.len() {
                    None
                } else {
                    Some((i + 1) as usize)
                },
                None => Some(0usize),
            }
        }
    }

    /// No completions.
    pub fn new() -> (res: Self)
        ensures
            res.candidates@.len() == 0,
            res.list_state.selected_spec() is None,
            res.list_state.offset_spec() == 0,
            res.generated_for is None,
            res.wf(),
    {
        Completions { candidates: Vec::new(), list_state: ListState::new(0, None), generated_for: None }
    }

    /// The completions offered.
    pub fn candidates(&self) -> (res: &[Completion])
        ensures
            res@ == self.candidates@,
    {
        self.candidates.as_slice()
    }

    /// Offers new completions, made for the given line, with none chosen;
    /// completions made for the same line already stay as they are.
    pub fn set_completions(&mut self, completions: Vec<Completion>, generated_for: String)
        requires
            old(self).wf(),
        ensures
            final(self).wf(),
            old(self).generated_for_spec() == Some(generated_for@) ==> *final(self) == *old(self),
            old(self).generated_for_spec() != Some(generated_for@) ==> {
                &&& final(self).candidates@ == completions@
                &&& final(self).list_state.selected_spec() is None
                &&& final(self).list_state.offset_spec() == old(self).list_state.offset_spec()
                &&& final(self).generated_for_spec() == Some(generated_for@)
            },
    {
        let same = match &self.generated_for {
            Some(g) => crate::text::str_eq(g.as_str(), generated_for.as_str()),
            None => false,
        };
        if !same {
            self.list_state.select(None);
            self.candidates = completions;
            self.generated_for = Some(generated_for);
        }
    }

    /// Offers no completions.
    pub fn clear(&mut self)
        ensures
            final(self).candidates@.len() == 0,
            final(self).list_state.selected_spec() is None,
            final(self).list_state.offset_spec() == old(self).list_state.offset_spec(),
            final(self).generated_for is None,
            final(self).wf(),
    {
        self.candidates.clear();
        self.list_state.select(None);
        self.generated_for = None;
    }

    /// Chooses the next completion: the first when none is chosen, none
    /// after the last; nothing happens when there are no completions.
    pub fn select_next(&mut self)
        requires
            old(self).wf(),
        ensures
            final(self).wf(),
            final(self).candidates@ == old(self).candidates@,
            final(self).generated_for_spec() == old(self).generated_for_spec(),
            final(self).list_state.offset_spec() == old(self).list_state.offset_spec(),
            final(self).list_state.selected_spec() == old(self).next_selection(),
    {
        if self.candidates.len() == 0 {
            return;
        }
        match self.list_state.selected() {
            Some(index) => {
                let new_index = index + 1;
                if new_index == self.candidates.len() {
                    self.list_state.select(None);
                } else {
                    self.list_state.select(Some(new_index));
                }
            },
            None => {
                self.list_state.select(Some(0));
            },
        }
    }
}

impl Default for Completions {
    fn default() -> (res: Self)
        ensures
            res.candidates@.len() == 0,
            res.list_state.selected_spec() is None,
            res.generated_for is None,
    {
        Completions::new()
    }
}

/// The command line.
#[derive(Debug)]
pub struct CommandLine {
    pub command: Editor,
    pub error: String,
    pub completions: Completions,
    pub history: CommandLineHistory,
}

impl CommandLine {
    /// The lines of the text typed (a command is its first line).
    pub open spec fn text_lines(&self) -> Seq<Seq<char>> {
        textarea_lines(self.command)
    }

    /// The cursor in the text typed.
    pub open spec fn cursor(&self) -> (int, int) {
        textarea_cursor(self.command)
    }

    /// Whether a selection has been started in the text typed.
    pub open spec fn selecting(&self) -> bool {
        textarea_selecting(self.command)
    }

    /// How many characters the chosen completion appended (none chosen: 0).
    pub open spec fn appended_len(&self) -> int {
        match self.completions.list_state.selected_spec() {
            Some(i) => self.completions.candidates@[i as int]@.append.len() as int,
            None => 0,
        }
    }

    /// The lines with the `n` characters before the cursor taken out.
    pub open spec fn lines_without_before_cursor(&self, n: int) -> Seq<Seq<char>> {
        let (row, col) = self.cursor();
        self.text_lines().update(row, line_without(self.text_lines()[row], col - n, n))
    }

    /// The first line without what the chosen completion appended.
    pub open spec fn line_without_completion(&self) -> Seq<char> {
        match self.completions.list_state.selected_spec() {
            Some(_) => self.lines_without_before_cursor(self.appended_len())[0],
            None => self.text_lines()[0],
        }
    }

    /// How the text changes when the next completion is chosen (`after`): with
    /// no selection and the cursor in the text, past what the chosen
    /// completion appended, that is taken out before the cursor and what the
    /// newly chosen one appends is typed (see [`lines_with_text`]).
    pub open spec fn next_completion_typed(&self, after: CommandLine) -> bool {
        self.plain_cursor_after(self.appended_len()) ==> {
            let (row, col) = self.cursor();
            let n = self.appended_len();
            let mid = self.lines_without_before_cursor(n);
            match after.completions.list_state.selected_spec() {
                Some(j) => {
                    let add = after.completions.candidates@[j as int]@.append;
                    &&& after.text_lines() == lines_with_text(mid, row, col - n, add)
                    &&& after.cursor() == cursor_after_text(row, col - n, add)
                },
                None => {
                    &&& after.text_lines() == mid
                    &&& after.cursor() == (row, col - n)
                },
            }
        }
    }

    /// Whether the line without the chosen completion is known: none is
    /// chosen, or the cursor stands plainly after what it appended.
    pub open spec fn completion_known(&self) -> bool {
        self.completions.list_state.selected_spec() is None || self.plain_cursor_after(self.appended_len())
    }

    /// With no selection and the cursor in the text, at least `n` characters
    /// after the start of its line.
    pub open spec fn plain_cursor_after(&self, n: int) -> bool {
        &&& !self.selecting()
        &&& cursor_in_text(self.text_lines(), self.cursor())
        &&& n <= self.cursor().1
    }

    /// An empty command line.
    pub fn new() -> (res: Self)
        ensures
            res.text_lines() == seq![Seq::<char>::empty()],
            res.cursor() == (0int, 0int),
            !res.selecting(),
            res.error@.len() == 0,
            res.completions.candidates@.len() == 0,
            res.completions.list_state.selected_spec() is None,
            res.completions.generated_for is None,
            res.history@.commands.len() == 0,
            res.history@.selected is None,
    {
        CommandLine {
            command: textarea_empty(),
            error: String::new(),
            completions: Completions::new(),
            history: CommandLineHistory::new(),
        }
    }

    /// The text typed: the first line.
    pub fn text(&self) -> (res: String)
        ensures
            res@ == self.text_lines()[0],
    {
        let lines = textarea_lines_of(&self.command);
        owned(lines[0].as_str())
    }

    /// The text typed, without what the chosen completion appended: as many
    /// characters as the completion appended are taken out before the
    /// cursor. With no completion chosen, this is the text.
    pub fn text_without_completion(&self) -> (res: String)
        requires
            self.completions.wf(),
        ensures
            self.completions.list_state.selected_spec() is None ==> res@ == self.text_lines()[0],
            self.completions.list_state.selected_spec() is Some && self.plain_cursor_after(
                self.appended_len(),
            ) ==> res@ == self.lines_without_before_cursor(self.appended_len())[0],
    {
        match self.completions.list_state.selected() {
            Some(i) => {
                let char_count = crate::text::chars_of(self.completions.candidates[i].append.as_str()).len();
                let mut textarea = textarea_copy(&self.command);
                let ghost (row, col) = textarea_cursor(self.command);
                let mut k: usize = 0;
                while k < char_count
                    invariant
                        k <= char_count,
                        char_count == self.appended_len(),
                        textarea_lines(textarea) == self.text_lines(),
                        textarea_selecting(textarea) == self.selecting(),
                        (row, col) == self.cursor(),
                        self.plain_cursor_after(self.appended_len()) ==> textarea_cursor(textarea) == (
                            row,
                            col - k,
                        ),
                    decreases char_count - k,
                {
                    textarea_move_back(&mut textarea);
                    k = k + 1;
                }
                textarea_delete_str(&mut textarea, char_count);
                let lines = textarea_lines_of(&textarea);
                owned(lines[0].as_str())
            },
            None => self.text(),
        }
    }

    /// Replaces the text by one line, the cursor at its end.
    pub fn set_text(&mut self, text: String)
        ensures
            final(self).text_lines() == seq![text@],
            final(self).cursor() == (0int, text@.len() as int),
            !final(self).selecting(),
            final(self).error == old(self).error,
            final(self).completions == old(self).completions,
            final(self).history == old(self).history,
    {
        let ghost t = text@;
        let mut lines: Vec<String> = Vec::new();
        lines.push(text);
        assert(texts(lines@) =~= seq![t]);
        self.command = textarea_from_lines(lines);
        textarea_move_to_end(&mut self.command);
    }

    /// Types the text at the cursor.
    pub fn append_text(&mut self, text: String)
        ensures
            !final(self).selecting(),
            old(self).plain_cursor_after(0) ==> {
                let (row, col) = old(self).cursor();
                &&& final(self).text_lines() == lines_with_text(old(self).text_lines(), row, col, text@)
                &&& final(self).cursor() == cursor_after_text(row, col, text@)
            },
            final(self).error == old(self).error,
            final(self).completions == old(self).completions,
            final(self).history == old(self).history,
    {
        textarea_insert_str(&mut self.command, text);
    }

    /// Empties the line, the error and the completions, and leaves the
    /// history's selection.
    pub fn clear(&mut self)
        ensures
            final(self).text_lines() == seq![Seq::<char>::empty()],
            final(self).cursor() == (0int, 0int),
            !final(self).selecting(),
            final(self).error@.len() == 0,
            final(self).completions.candidates@.len() == 0,
            final(self).completions.list_state.selected_spec() is None,
            final(self).completions.list_state.offset_spec() == old(self).completions.list_state.offset_spec(),
            final(self).completions.generated_for is None,
            final(self).history@.commands == old(self).history@.commands,
            final(self).history@.selected is None,
    {
        self.command = textarea_empty();
        self.error = String::new();
        self.completions.clear();
        self.history.clear_selection();
    }

    /// The column of the cursor.
    pub fn cursor_index(&self) -> (res: usize)
        ensures
            res as int == self.cursor().1,
    {
        let (_row, col) = textarea_cursor_of(&self.command);
        col
    }

    /// Edits the line by a key; the completions offered go. With no
    /// selection and the cursor in the text, a character key types the
    /// character at the cursor and a line-break key breaks the line there
    /// (see [`typed_char`], [`breaks_line`]).
    pub fn input(&mut self, key: KeyEvent)
        ensures
            final(self).error == old(self).error,
            final(self).history == old(self).history,
            final(self).completions.candidates@.len() == 0,
            final(self).completions.list_state.selected_spec() is None,
            final(self).completions.generated_for is None,
            old(self).plain_cursor_after(0) ==> ({
                let lines = old(self).text_lines();
                let (row, col) = old(self).cursor();
                &&& typed_char(key) matches Some(c) ==> {
                    &&& final(self).text_lines() == lines.update(row, line_with(lines[row], col, seq![c]))
                    &&& final(self).cursor() == (row, col + 1)
                    &&& !final(self).selecting()
                }
                &&& breaks_line(key) ==> {
                    &&& final(self).text_lines() == lines_broken(lines, row, col)
                    &&& final(self).cursor() == (row + 1, 0int)
                    &&& !final(self).selecting()
                }
            }),
    {
        self.completions.clear();
        let m = key.modifiers;
        textarea_input(&mut self.command, editor_key(key.code), m.control, m.alt, m.shift);
    }

    /// The completions offered.
    pub fn completions(&self) -> (res: &[Completion])
        ensures
            res@ == self.completions.candidates@,
    {
        self.completions.candidates()
    }

    /// Offers completions made for the text as it is without the chosen
    /// completion (see [`Completions::set_completions`]).
    pub fn set_completions(&mut self, completions: Vec<Completion>)
        requires
            old(self).completions.wf(),
        ensures
            final(self).completions.wf(),
            final(self).text_lines() == old(self).text_lines(),
            final(self).cursor() == old(self).cursor(),
            final(self).error == old(self).error,
            final(self).history == old(self).history,
            final(self).completions == old(self).completions || (final(self).completions.candidates@
                == completions@ && final(self).completions.list_state.selected_spec() is None),
            old(self).completion_known() ==> ({
                let line = old(self).line_without_completion();
                &&& old(self).completions.generated_for_spec() == Some(line) ==> final(self).completions
                    == old(self).completions
                &&& old(self).completions.generated_for_spec() != Some(line) ==> {
                    &&& final(self).completions.candidates@ == completions@
                    &&& final(self).completions.list_state.selected_spec() is None
                    &&& final(self).completions.generated_for_spec() == Some(line)
                }
            }),
    {
        let generated_for = self.text_without_completion();
        self.completions.set_completions(completions, generated_for);
    }

    /// The index of the chosen completion.
    pub fn selected_completion(&self) -> (res: Option<usize>)
        ensures
            res == self.completions.list_state.selected_spec(),
    {
        self.completions.list_state.selected()
    }

    /// Chooses the next completion (see [`Completions::select_next`]): what
    /// the last one appended is taken out before the cursor and what the new
    /// one appends is typed.
    pub fn select_next_completion(&mut self)
        requires
            old(self).completions.wf(),
        ensures
            final(self).completions.wf(),
            final(self).completions.candidates@ == old(self).completions.candidates@,
            final(self).completions.generated_for_spec() == old(self).completions.generated_for_spec(),
            final(self).completions.list_state.selected_spec() == old(self).completions.next_selection(),
            final(self).error == old(self).error,
            final(self).history == old(self).history,
            old(self).next_completion_typed(*final(self)),
            !old(self).selecting() ==> !final(self).selecting(),
    {
        let ghost (row, col) = textarea_cursor(self.command);
        let ghost n = old(self).appended_len();
        let ghost plain = old(self).plain_cursor_after(n);
        proof {
            if plain && n == 0 {
                let line = old(self).text_lines()[row];
                assert(line_without(line, col, 0) =~= line);
                assert(old(self).lines_without_before_cursor(0) =~= old(self).text_lines());
            }
        }
        let last = match self.completions.list_state.selected() {
            Some(i) => Some(self.completions.candidates[i].duplicate()),
            None => None,
        };
        self.completions.select_next();
        let ghost comps = self.completions;
        if let Some(last) = last {
            let char_count = crate::text::chars_of(last.append.as_str()).len();
            let mut k: usize = 0;
            while k < char_count
                invariant
                    k <= char_count,
                    char_count == n,
                    n == old(self).appended_len(),
                    plain == old(self).plain_cursor_after(n),
                    self.completions == comps,
                    self.error == old(self).error,
                    self.history == old(self).history,
                    textarea_lines(self.command) == old(self).text_lines(),
                    textarea_selecting(self.command) == old(self).selecting(),
                    (row, col) == old(self).cursor(),
                    plain ==> textarea_cursor(self.command) == (row, col - k),
                decreases char_count - k,
            {
                textarea_move_back(&mut self.command);
                k = k + 1;
            }
            textarea_delete_str(&mut self.command, char_count);
        }
        if let Some(i) = self.completions.list_state.selected() {
            let comp = self.completions.candidates[i].duplicate();
            textarea_insert_str(&mut self.command, comp.append);
        }
    }

    /// The line the completions offered were made for.
    pub fn completions_generated_for(&self) -> (res: &Option<String>)
        ensures
            res == &self.completions.generated_for,
    {
        &self.completions.generated_for
    }
}

/// Choosing the next completion leaves the line without the chosen
/// completion as it was (so completions made for that line stay offered),
/// and it stays known: where there is no selection, the cursor stands
/// plainly after what the chosen completion appended, and the newly chosen
/// one fits on a line.
pub proof fn law_next_completion_keeps_line(before: CommandLine, after: CommandLine)
    requires
        before.completions.wf(),
        before.plain_cursor_after(before.appended_len()),
        after.completions.candidates@ == before.completions.candidates@,
        after.completions.list_state.selected_spec() == before.completions.next_selection(),
        !after.selecting(),
        before.next_completion_typed(after),
        match after.completions.list_state.selected_spec() {
            Some(j) => fits_on_line(after.completions.candidates@[j as int]@.append),
            None => true,
        },
    ensures
        after.completion_known(),
        after.line_without_completion() == before.line_without_completion(),
{
    let (row, col) = before.cursor();
    let n = before.appended_len();
    let lines = before.text_lines();
    let mid = before.lines_without_before_cursor(n);
    let m = mid[row];
    assert(m =~= lines[row].take(col - n) + lines[row].skip(col));
    if n == 0 {
        assert(line_without(lines[row], col, 0) =~= lines[row]);
        assert(mid =~= lines);
    }
    match after.completions.list_state.selected_spec() {
        Some(j) => {
            let add = after.completions.candidates@[j as int]@.append;
            lemma_text_fits(mid, row, col - n, add);
            let a = line_with(m, col - n, add);
            assert(after.text_lines() == mid.update(row, a));
            assert(after.appended_len() == add.len());
            assert(line_without(a, col - n, add.len() as int) =~= m);
            assert(after.lines_without_before_cursor(add.len() as int) =~= mid);
        },
        None => {
            assert(after.appended_len() == 0);
            assert(line_without(m, col - n, 0) =~= m);
            assert(after.text_lines() == mid);
        },
    }
}

impl Default for CommandLine {
    fn default() -> (res: Self)
        ensures
            res.text_lines() == seq![Seq::<char>::empty()],
            res.cursor() == (0int, 0int),
            !res.selecting(),
            res.error@.len() == 0,
            res.completions.candidates@.len() == 0,
            res.completions.list_state.selected_spec() is None,
            res.completions.generated_for is None,
            res.history@.commands.len() == 0,
            res.history@.selected is None,
    {
        CommandLine::new()
    }
}

} // verus!
