//! Commands that move around: quitting, choosing contacts and messages, and
//! switching modes.
use vstd::prelude::*;

use crate::commands::{
    after_contact_changed, arguments_items, check_unused_args, complete_from_list, completions_from,
    completion_views, contact_change, effect_views, index_or_string, last_shell_part, only_name, pushed,
    run_result, unit_result, unused_result, Command, CommandSuccess, Completion, Effect, EffectView, Error,
    ErrorView, IndexOrString, IndexOrStringView,
};
use crate::text::{decimal, decimal_string, is_prefix, owned, parse_isize, parse_signed, texts};
use crate::tui::contacts::{first_index, name_starts_with};
use crate::tui::{BasicMode, Mode, TuiState};
use pico_args::Arguments;

verus! {

/// `m` is `s` with the row `sel` of the contacts selected (offset kept).
pub open spec fn contacts_selected(s: TuiState, m: TuiState, sel: usize) -> bool {
    &&& m == TuiState { contacts: m.contacts, ..s }
    &&& m.contacts.view_seq() == s.contacts.view_seq()
    &&& m.contacts.user_entries() == s.contacts.user_entries()
    &&& m.contacts.table_state().selected_spec() == Some(sel)
    &&& m.contacts.table_state().offset_spec() == s.contacts.table_state().offset_spec()
}

/// `t` comes from `s` by selecting the row `sel` of the contacts and then
/// showing that contact's messages (see [`contact_change`]).
pub open spec fn contact_selection_moved(s: TuiState, t: TuiState, sel: usize, e: Seq<EffectView>) -> bool {
    exists|m: TuiState|
        #![trigger contacts_selected(s, m, sel)]
        contacts_selected(s, m, sel) && contact_change(m, s.contacts.table_state().selected_spec(), t, e)
}

/// `t` is `s` with the selection of messages set to `sel` (offset kept).
pub open spec fn messages_selected(s: TuiState, t: TuiState, sel: Option<usize>) -> bool {
    &&& t == TuiState { messages: t.messages, ..s }
    &&& t.messages.view_seq() == s.messages.view_seq()
    &&& t.messages.list_state().selected_spec() == sel
    &&& t.messages.list_state().offset_spec() == s.messages.list_state().offset_spec()
}

/// Leaves the interface.
#[derive(Debug)]
pub struct Quit;

impl Command for Quit {
    open spec fn runs_in(&self, s: TuiState) -> bool {
        true
    }

    fn can_run(&self, s: &TuiState) -> (res: bool) {
        true
    }

    /// What running the command does.
    open spec fn executed(
        &self,
        before: TuiState,
        after: TuiState,
        effects_before: Seq<Effect>,
        effects_after: Seq<Effect>,
        res: Result<CommandSuccess, Error>,
    ) -> bool {
        &&& res == Ok::<CommandSuccess, Error>(CommandSuccess::Quit)
        &&& after == before
        &&& effects_after == effects_before
    }

    fn execute(&self, tui_state: &mut TuiState, outbox: &mut Vec<Effect>) -> (res: Result<CommandSuccess, Error>)
    {
        Ok(CommandSuccess::Quit)
    }

    /// What reading the arguments does.
    open spec fn parsed(&self, after: Self, args: Seq<Seq<char>>, res: Result<(), Error>) -> bool {
        &&& unit_result(res) == unused_result(args)
    }

    fn parse(&mut self, args: Arguments) -> (res: Result<(), Error>)
    {
        check_unused_args(args)
    }

    fn default() -> Self {
        Quit
    }

    fn names(&self) -> (res: Vec<&'static str>)
        ensures
            only_name(res@, "quit"@),
    {
        vec!["quit"]
    }

    fn complete(&self, tui_state: &TuiState, args: &str) -> (res: Vec<Completion>)
        ensures
            res@.len() == 0,
    {
        Vec::new()
    }
}

/// Selects the next contact and shows its messages.
#[derive(Debug)]
pub struct NextContact;

/// The row after the selected one (the first with none; it stops at the
/// largest index).
pub open spec fn next_row(sel: Option<usize>) -> usize {
    match sel {
        Some(i) => if i == usize::MAX {
            i
        } else {
            (i + 1) as usize
        },
        None => 0usize,
    }
}

/// The row before the selected one (the last possible with none; it stops
/// at the first).
pub open spec fn previous_row(sel: Option<usize>) -> usize {
    match sel {
        Some(i) => if i == 0 {
            0usize
        } else {
            (i - 1) as usize
        },
        None => usize::MAX,
    }
}

impl Command for NextContact {
    open spec fn runs_in(&self, s: TuiState) -> bool {
        true
    }

    fn can_run(&self, s: &TuiState) -> (res: bool) {
        true
    }

    /// What running the command does.
    open spec fn executed(
        &self,
        before: TuiState,
        after: TuiState,
        effects_before: Seq<Effect>,
        effects_after: Seq<Effect>,
        res: Result<CommandSuccess, Error>,
    ) -> bool {
        &&& res == Ok::<CommandSuccess, Error>(CommandSuccess::Nothing)
        &&& exists|e: Seq<EffectView>|
                #![trigger pushed(effects_before, effects_after, e)]
                pushed(effects_before, effects_after, e) && contact_selection_moved(
                    before,
                    after,
                    next_row(before.contacts.table_state().selected_spec()),
                    e,
                )
    }

    fn execute(&self, tui_state: &mut TuiState, outbox: &mut Vec<Effect>) -> (res: Result<CommandSuccess, Error>)
    {
        let ghost s = *tui_state;
        let last_selected = tui_state.contacts.table_state_selected();
        tui_state.contacts.select_next();
        let ghost m = *tui_state;
        assert(contacts_selected(s, m, next_row(last_selected)));
        after_contact_changed(tui_state, outbox, last_selected);
        Ok(CommandSuccess::Nothing)
    }

    /// What reading the arguments does.
    open spec fn parsed(&self, after: Self, args: Seq<Seq<char>>, res: Result<(), Error>) -> bool {
        &&& unit_result(res) == unused_result(args)
    }

    fn parse(&mut self, args: Arguments) -> (res: Result<(), Error>)
    {
        check_unused_args(args)
    }

    fn default() -> Self {
        NextContact
    }

    fn names(&self) -> (res: Vec<&'static str>)
        ensures
            only_name(res@, "next-contact"@),
    {
        vec!["next-contact"]
    }

    fn complete(&self, tui_state: &TuiState, args: &str) -> (res: Vec<Completion>)
        ensures
            res@.len() == 0,
    {
        Vec::new()
    }
}

/// Selects the previous contact and shows its messages.
#[derive(Debug)]
pub struct PrevContact;

impl Command for PrevContact {
    open spec fn runs_in(&self, s: TuiState) -> bool {
        true
    }

    fn can_run(&self, s: &TuiState) -> (res: bool) {
        true
    }

    /// What running the command does.
    open spec fn executed(
        &self,
        before: TuiState,
        after: TuiState,
        effects_before: Seq<Effect>,
        effects_after: Seq<Effect>,
        res: Result<CommandSuccess, Error>,
    ) -> bool {
        &&& res == Ok::<CommandSuccess, Error>(CommandSuccess::Nothing)
        &&& exists|e: Seq<EffectView>|
                #![trigger pushed(effects_before, effects_after, e)]
                pushed(effects_before, effects_after, e) && contact_selection_moved(
                    before,
                    after,
                    previous_row(before.contacts.table_state().selected_spec()),
                    e,
                )
    }

    fn execute(&self, tui_state: &mut TuiState, outbox: &mut Vec<Effect>) -> (res: Result<CommandSuccess, Error>)
    {
        let ghost s = *tui_state;
        let last_selected = tui_state.contacts.table_state_selected();
        tui_state.contacts.select_previous();
        let ghost m = *tui_state;
        assert(contacts_selected(s, m, previous_row(last_selected)));
        after_contact_changed(tui_state, outbox, last_selected);
        Ok(CommandSuccess::Nothing)
    }

    /// What reading the arguments does.
    open spec fn parsed(&self, after: Self, args: Seq<Seq<char>>, res: Result<(), Error>) -> bool {
        &&& unit_result(res) == unused_result(args)
    }

    fn parse(&mut self, args: Arguments) -> (res: Result<(), Error>)
    {
        check_unused_args(args)
    }

    fn default() -> Self {
        PrevContact
    }

    fn names(&self) -> (res: Vec<&'static str>)
        ensures
            only_name(res@, "prev-contact"@),
    {
        vec!["prev-contact"]
    }

    fn complete(&self, tui_state: &TuiState, args: &str) -> (res: Vec<Completion>)
        ensures
            res@.len() == 0,
    {
        Vec::new()
    }
}

/// Selects the next message.
#[derive(Debug)]
pub struct NextMessage;

impl Command for NextMessage {
    /// The selection is not at the largest index (moving on would overflow).
    open spec fn runs_in(&self, s: TuiState) -> bool {
        s.messages.list_state().selected_spec() != Some(usize::MAX)
    }

    fn can_run(&self, s: &TuiState) -> (res: bool) {
        s.messages.list_state_selected() != Some(usize::MAX)
    }

    /// What running the command does.
    open spec fn executed(
        &self,
        before: TuiState,
        after: TuiState,
        effects_before: Seq<Effect>,
        effects_after: Seq<Effect>,
        res: Result<CommandSuccess, Error>,
    ) -> bool {
        &&& res == Ok::<CommandSuccess, Error>(CommandSuccess::Nothing)
        &&& effects_after == effects_before
        &&& messages_selected(
                before,
                after,
                Some(
                    match before.messages.list_state().selected_spec() {
                        Some(i) => (i + 1) as usize,
                        None => 0usize,
                    },
                ),
            )
    }

    fn execute(&self, tui_state: &mut TuiState, outbox: &mut Vec<Effect>) -> (res: Result<CommandSuccess, Error>)
    {
        tui_state.messages.select_next();
        Ok(CommandSuccess::Nothing)
    }

    /// What reading the arguments does.
    open spec fn parsed(&self, after: Self, args: Seq<Seq<char>>, res: Result<(), Error>) -> bool {
        &&& unit_result(res) == unused_result(args)
    }

    fn parse(&mut self, args: Arguments) -> (res: Result<(), Error>)
    {
        check_unused_args(args)
    }

    fn default() -> Self {
        NextMessage
    }

    fn names(&self) -> (res: Vec<&'static str>)
        ensures
            only_name(res@, "next-message"@),
    {
        vec!["next-message"]
    }

    fn complete(&self, tui_state: &TuiState, args: &str) -> (res: Vec<Completion>)
        ensures
            res@.len() == 0,
    {
        Vec::new()
    }
}

/// Selects the previous message.
#[derive(Debug)]
pub struct PrevMessage;

impl Command for PrevMessage {
    open spec fn runs_in(&self, s: TuiState) -> bool {
        true
    }

    fn can_run(&self, s: &TuiState) -> (res: bool) {
        true
    }

    /// What running the command does.
    open spec fn executed(
        &self,
        before: TuiState,
        after: TuiState,
        effects_before: Seq<Effect>,
        effects_after: Seq<Effect>,
        res: Result<CommandSuccess, Error>,
    ) -> bool {
        &&& res == Ok::<CommandSuccess, Error>(CommandSuccess::Nothing)
        &&& effects_after == effects_before
        &&& messages_selected(
                before,
                after,
                match before.messages.list_state().selected_spec() {
                    Some(i) => Some(
                        if i == 0 {
                            0usize
                        } else {
                            (i - 1) as usize
                        },
                    ),
                    None => None,
                },
            )
    }

    fn execute(&self, tui_state: &mut TuiState, outbox: &mut Vec<Effect>) -> (res: Result<CommandSuccess, Error>)
    {
        tui_state.messages.select_previous();
        Ok(CommandSuccess::Nothing)
    }

    /// What reading the arguments does.
    open spec fn parsed(&self, after: Self, args: Seq<Seq<char>>, res: Result<(), Error>) -> bool {
        &&& unit_result(res) == unused_result(args)
    }

    fn parse(&mut self, args: Arguments) -> (res: Result<(), Error>)
    {
        check_unused_args(args)
    }

    fn default() -> Self {
        PrevMessage
    }

    fn names(&self) -> (res: Vec<&'static str>)
        ensures
            only_name(res@, "prev-message"@),
    {
        vec!["prev-message"]
    }

    fn complete(&self, tui_state: &TuiState, args: &str) -> (res: Vec<Completion>)
        ensures
            res@.len() == 0,
    {
        Vec::new()
    }
}

/// Selects the message at an index; a negative index counts from the end.
#[derive(Debug)]
pub struct SelectMessage {
    pub index: isize,
}

/// The place selected for an index among `n` messages: the index itself, or
/// for a negative index `n` less its size modulo `n`.
pub open spec fn message_place(index: isize, n: nat) -> usize {
    if index >= 0 {
        index as usize
    } else {
        (n - ((-index) as int) % (n as int)) as usize
    }
}

/// The first argument read by `read`, if there is one that reads.
pub open spec fn first_arg<T>(items: Seq<Seq<char>>, read: spec_fn(Seq<char>) -> Option<T>) -> Option<T> {
    if items.len() > 0 {
        read(items[0])
    } else {
        None
    }
}

impl Command for SelectMessage {
    /// A negative index needs some messages, and a size (so not the
    /// smallest `isize`).
    open spec fn runs_in(&self, s: TuiState) -> bool {
        self.index >= 0 || (self.index != isize::MIN && s.messages.view_seq().len() > 0)
    }

    fn can_run(&self, s: &TuiState) -> (res: bool) {
        self.index >= 0 || (self.index != isize::MIN && s.messages.len() > 0)
    }

    /// What running the command does.
    open spec fn executed(
        &self,
        before: TuiState,
        after: TuiState,
        effects_before: Seq<Effect>,
        effects_after: Seq<Effect>,
        res: Result<CommandSuccess, Error>,
    ) -> bool {
        &&& res == Ok::<CommandSuccess, Error>(CommandSuccess::Nothing)
        &&& effects_after == effects_before
        &&& messages_selected(
                before,
                after,
                Some(message_place(self.index, before.messages.view_seq().len())),
            )
    }

    fn execute(&self, tui_state: &mut TuiState, outbox: &mut Vec<Effect>) -> (res: Result<CommandSuccess, Error>)
    {
        if self.index < 0 {
            let abs_index: usize = (-self.index) as usize;
            let num_messages = tui_state.messages.len();
            tui_state.messages.select(Some(num_messages - (abs_index % num_messages)));
        } else {
            let abs_index: usize = self.index as usize;
            tui_state.messages.select(Some(abs_index));
        }
        Ok(CommandSuccess::Nothing)
    }

    /// What reading the arguments does.
    open spec fn parsed(&self, after: Self, args: Seq<Seq<char>>, res: Result<(), Error>) -> bool {
        &&& ({
                let items = args;
                match first_arg(items, |a: Seq<char>| parse_signed(a, isize::MIN as int, isize::MAX as int)) {
                    Some(n) => after.index == n && unit_result(res) == unused_result(items.drop_first()),
                    None => after == *self && unit_result(res) == Err::<(), ErrorView>(
                        ErrorView::MissingArgument("index"@),
                    ),
                }
            })
    }

    fn parse(&mut self, args: Arguments) -> (res: Result<(), Error>)
    {
        let mut args = args;
        let first = crate::commands::arguments_next_free(&mut args);
        let index = match first {
            Some(a) => parse_isize(a.as_str()),
            None => None,
        };
        match index {
            Some(index) => {
                *self = SelectMessage { index };
                check_unused_args(args)
            },
            None => Err(Error::MissingArgument(owned("index"))),
        }
    }

    fn default() -> (res: Self)
        ensures
            res.index == 0,
    {
        SelectMessage { index: 0 }
    }

    fn names(&self) -> (res: Vec<&'static str>)
        ensures
            only_name(res@, "select-message"@),
    {
        vec!["select-message"]
    }

    fn complete(&self, tui_state: &TuiState, args: &str) -> (res: Vec<Completion>)
        ensures
            res@.len() == 0,
    {
        Vec::new()
    }
}

/// Selects a contact by its row or by the start of its name, and shows its
/// messages.
#[derive(Debug)]
pub struct SelectContact {
    pub item: IndexOrString,
}

/// The row that an item names: its index, or the first contact whose name
/// starts with its text.
pub open spec fn contact_row(s: TuiState, item: IndexOrStringView) -> Option<usize> {
    match item {
        IndexOrStringView::Index(i) => Some(i),
        IndexOrStringView::Str(name) => match first_index(s.contacts.view_seq(), name_starts_with(name)) {
            Some(i) => Some(i as usize),
            None => None,
        },
    }
}

/// The candidates to complete a contact: the names, then the rows.
pub open spec fn contact_candidates(s: TuiState) -> Seq<Seq<char>> {
    Seq::new(s.contacts.view_seq().len(), |i: int| s.contacts.view_seq()[i].name) + Seq::new(
        s.contacts.view_seq().len(),
        |i: int| decimal(i as nat),
    )
}

impl Command for SelectContact {
    open spec fn runs_in(&self, s: TuiState) -> bool {
        true
    }

    fn can_run(&self, s: &TuiState) -> (res: bool) {
        true
    }

    /// What running the command does.
    open spec fn executed(
        &self,
        before: TuiState,
        after: TuiState,
        effects_before: Seq<Effect>,
        effects_after: Seq<Effect>,
        res: Result<CommandSuccess, Error>,
    ) -> bool {
        &&& match contact_row(before, self.item@) {
                Some(row) => res == Ok::<CommandSuccess, Error>(CommandSuccess::Nothing) && exists|e: Seq<EffectView>|
                    #![trigger pushed(effects_before, effects_after, e)]
                    pushed(effects_before, effects_after, e) && contact_selection_moved(
                        before,
                        after,
                        row,
                        e,
                    ),
                None => run_result(res) == Err::<CommandSuccess, ErrorView>(
                    ErrorView::InvalidArgument { arg: "item"@, value: self.item@->Str_0 },
                ) && after == before && effects_after == effects_before,
            }
    }

    fn execute(&self, tui_state: &mut TuiState, outbox: &mut Vec<Effect>) -> (res: Result<CommandSuccess, Error>)
    {
        let ghost s = *tui_state;
        let last_selected = tui_state.contacts.table_state_selected();
        let index = match &self.item {
            IndexOrString::Index(index) => *index,
            IndexOrString::Str(name) => {
                match tui_state.contacts.position_by_name_prefix(name.as_str()) {
                    Some(i) => i,
                    None => {
                        return Err(Error::InvalidArgument { arg: owned("item"), value: owned(name.as_str()) });
                    },
                }
            },
        };
        tui_state.contacts.select(Some(index));
        let ghost m = *tui_state;
        assert(contacts_selected(s, m, index));
        after_contact_changed(tui_state, outbox, last_selected);
        Ok(CommandSuccess::Nothing)
    }

    /// What reading the arguments does.
    open spec fn parsed(&self, after: Self, args: Seq<Seq<char>>, res: Result<(), Error>) -> bool {
        &&& ({
                let items = args;
                if items.len() > 0 {
                    after.item@ == index_or_string(items[0]) && unit_result(res) == unused_result(
                        items.drop_first(),
                    )
                } else {
                    after.item@ == self.item@ && unit_result(res) == Err::<(), ErrorView>(
                        ErrorView::MissingArgument("item"@),
                    )
                }
            })
    }

    fn parse(&mut self, args: Arguments) -> (res: Result<(), Error>)
    {
        let mut args = args;
        match crate::commands::arguments_next_free(&mut args) {
            Some(a) => {
                let item = IndexOrString::from_str(a.as_str());
                match item {
                    Ok(item) => {
                        self.item = item;
                    },
                    Err(_) => {},
                }
                check_unused_args(args)
            },
            None => Err(Error::MissingArgument(owned("item"))),
        }
    }

    fn default() -> (res: Self)
        ensures
            res.item == IndexOrString::Index(0),
    {
        SelectContact { item: IndexOrString::Index(0) }
    }

    fn names(&self) -> (res: Vec<&'static str>)
        ensures
            only_name(res@, "select-contact"@),
    {
        vec!["select-contact"]
    }

    fn complete(&self, tui_state: &TuiState, args: &str) -> (res: Vec<Completion>)
        ensures
            completion_views(res@) == completions_from(last_shell_part(args@), contact_candidates(*tui_state)),
    {
        let contacts = tui_state.contacts.iter_contacts_and_groups();
        let ghost v = tui_state.contacts.view_seq();
        let mut names: Vec<String> = Vec::new();
        let mut i: usize = 0;
        while i < contacts.len()
            invariant
                i <= contacts.len(),
                crate::tui::contacts::contact_views(contacts@) == v,
                texts(names@) == Seq::new(i as nat, |k: int| v[k].name),
            decreases contacts.len() - i,
        {
            assert(v[i as int] == contacts@[i as int]@);
            let ghost prev = names@;
            names.push(owned(contacts[i].name.as_str()));
            proof {
                crate::text::lemma_texts_push(prev, names@.last());
            }
            i = i + 1;
            assert(texts(names@) =~= Seq::new(i as nat, |k: int| v[k].name));
        }
        let ghost head = texts(names@);
        let mut j: usize = 0;
        while j < contacts.len()
            invariant
                j <= contacts.len(),
                crate::tui::contacts::contact_views(contacts@) == v,
                texts(names@) == head + Seq::new(j as nat, |k: int| decimal(k as nat)),
            decreases contacts.len() - j,
        {
            let ghost prev = names@;
            names.push(decimal_string(j as u64));
            proof {
                crate::text::lemma_texts_push(prev, names@.last());
            }
            j = j + 1;
            assert(texts(names@) =~= head + Seq::new(j as nat, |k: int| decimal(k as nat)));
        }
        assert(texts(names@) =~= contact_candidates(*tui_state));
        complete_from_list(args, names.as_slice())
    }
}

/// Goes back to normal mode: closes the popup, forgets the keys typed and
/// empties the command line.
#[derive(Debug)]
pub struct NormalMode;

/// The state in normal mode (see [`NormalMode`]).
pub open spec fn normal_mode_state(s: TuiState, t: TuiState) -> bool {
    &&& t == TuiState {
        mode: Mode::Normal,
        popup: None,
        key_events: t.key_events,
        command_line: t.command_line,
        ..s
    }
    &&& t.key_events.0@.len() == 0
    &&& t.command_line.text_lines() == seq![Seq::<char>::empty()]
    &&& t.command_line.cursor() == (0int, 0int)
    &&& t.command_line.error@.len() == 0
    &&& t.command_line.completions.candidates@.len() == 0
    &&& t.command_line.completions.list_state.selected_spec() is None
    &&& t.command_line.completions.list_state.offset_spec() == s.command_line.completions.list_state.offset_spec()
    &&& t.command_line.completions.generated_for is None
    &&& t.command_line.history@.commands == s.command_line.history@.commands
    &&& t.command_line.history@.selected is None
}

impl NormalMode {
    /// Goes back to normal mode (see [`normal_mode_state`]).
    pub fn enter(tui_state: &mut TuiState)
        requires
            old(tui_state).wf(),
        ensures
            final(tui_state).wf(),
            normal_mode_state(*old(tui_state), *final(tui_state)),
    {
        tui_state.mode = Mode::Normal;
        tui_state.popup = None;
        tui_state.key_events = crate::keybinds::KeyEvents(Vec::new());
        tui_state.command_line.clear();
    }
}

impl Command for NormalMode {
    open spec fn runs_in(&self, s: TuiState) -> bool {
        true
    }

    fn can_run(&self, s: &TuiState) -> (res: bool) {
        true
    }

    /// What running the command does.
    open spec fn executed(
        &self,
        before: TuiState,
        after: TuiState,
        effects_before: Seq<Effect>,
        effects_after: Seq<Effect>,
        res: Result<CommandSuccess, Error>,
    ) -> bool {
        &&& res == Ok::<CommandSuccess, Error>(CommandSuccess::Nothing)
        &&& effects_after == effects_before
        &&& normal_mode_state(before, after)
    }

    fn execute(&self, tui_state: &mut TuiState, outbox: &mut Vec<Effect>) -> (res: Result<CommandSuccess, Error>)
    {
        NormalMode::enter(tui_state);
        Ok(CommandSuccess::Nothing)
    }

    /// What reading the arguments does.
    open spec fn parsed(&self, after: Self, args: Seq<Seq<char>>, res: Result<(), Error>) -> bool {
        &&& unit_result(res) == unused_result(args)
    }

    fn parse(&mut self, args: Arguments) -> (res: Result<(), Error>)
    {
        check_unused_args(args)
    }

    fn default() -> Self {
        NormalMode
    }

    fn names(&self) -> (res: Vec<&'static str>)
        ensures
            only_name(res@, "mode-normal"@),
    {
        vec!["mode-normal"]
    }

    fn complete(&self, tui_state: &TuiState, args: &str) -> (res: Vec<Completion>)
        ensures
            res@.len() == 0,
    {
        Vec::new()
    }
}

/// Opens the command line, remembering the mode to return to.
#[derive(Debug)]
pub struct CommandMode;

/// The mode that command mode returns to from a mode.
pub open spec fn basic_mode_of(mode: Mode) -> BasicMode {
    match mode {
        Mode::Normal => BasicMode::Normal,
        Mode::Command { previous } => previous,
        Mode::Compose => BasicMode::Compose,
        Mode::Popup => BasicMode::Popup,
    }
}

impl Command for CommandMode {
    open spec fn runs_in(&self, s: TuiState) -> bool {
        true
    }

    fn can_run(&self, s: &TuiState) -> (res: bool) {
        true
    }

    /// What running the command does.
    open spec fn executed(
        &self,
        before: TuiState,
        after: TuiState,
        effects_before: Seq<Effect>,
        effects_after: Seq<Effect>,
        res: Result<CommandSuccess, Error>,
    ) -> bool {
        &&& res == Ok::<CommandSuccess, Error>(CommandSuccess::Nothing)
        &&& effects_after == effects_before
        &&& after.command_line.error@.len() == 0
        &&& after == (TuiState {
                mode: Mode::Command { previous: basic_mode_of(before.mode) },
                command_line: after.command_line,
                ..before
            })
        &&& after.command_line == (crate::tui::command_line::CommandLine {
                error: after.command_line.error,
                ..before.command_line
            })
    }

    fn execute(&self, tui_state: &mut TuiState, outbox: &mut Vec<Effect>) -> (res: Result<CommandSuccess, Error>)
    {
        let previous = match tui_state.mode {
            Mode::Normal => BasicMode::Normal,
            Mode::Command { previous } => previous,
            Mode::Compose => BasicMode::Compose,
            Mode::Popup => BasicMode::Popup,
        };
        tui_state.mode = Mode::Command { previous };
        tui_state.command_line.error = String::new();
        Ok(CommandSuccess::Nothing)
    }

    /// What reading the arguments does.
    open spec fn parsed(&self, after: Self, args: Seq<Seq<char>>, res: Result<(), Error>) -> bool {
        &&& unit_result(res) == unused_result(args)
    }

    fn parse(&mut self, args: Arguments) -> (res: Result<(), Error>)
    {
        check_unused_args(args)
    }

    fn default() -> Self {
        CommandMode
    }

    fn names(&self) -> (res: Vec<&'static str>)
        ensures
            only_name(res@, "mode-command"@),
    {
        vec!["mode-command"]
    }

    fn complete(&self, tui_state: &TuiState, args: &str) -> (res: Vec<Completion>)
        ensures
            res@.len() == 0,
    {
        Vec::new()
    }
}

/// Moves to the compose box.
#[derive(Debug)]
pub struct ComposeMode;

impl Command for ComposeMode {
    open spec fn runs_in(&self, s: TuiState) -> bool {
        true
    }

    fn can_run(&self, s: &TuiState) -> (res: bool) {
        true
    }

    /// What running the command does.
    open spec fn executed(
        &self,
        before: TuiState,
        after: TuiState,
        effects_before: Seq<Effect>,
        effects_after: Seq<Effect>,
        res: Result<CommandSuccess, Error>,
    ) -> bool {
        &&& res == Ok::<CommandSuccess, Error>(CommandSuccess::Nothing)
        &&& effects_after == effects_before
        &&& after == (TuiState { mode: Mode::Compose, ..before })
    }

    fn execute(&self, tui_state: &mut TuiState, outbox: &mut Vec<Effect>) -> (res: Result<CommandSuccess, Error>)
    {
        tui_state.mode = Mode::Compose;
        Ok(CommandSuccess::Nothing)
    }

    /// What reading the arguments does.
    open spec fn parsed(&self, after: Self, args: Seq<Seq<char>>, res: Result<(), Error>) -> bool {
        &&& unit_result(res) == unused_result(args)
    }

    fn parse(&mut self, args: Arguments) -> (res: Result<(), Error>)
    {
        check_unused_args(args)
    }

    fn default() -> Self {
        ComposeMode
    }

    fn names(&self) -> (res: Vec<&'static str>)
        ensures
            only_name(res@, "mode-compose"@),
    {
        vec!["mode-compose"]
    }

    fn complete(&self, tui_state: &TuiState, args: &str) -> (res: Vec<Completion>)
        ensures
            res@.len() == 0,
    {
        Vec::new()
    }
}

} // verus!
