//! Commands that open popups, and the one that scrolls them.
use vstd::prelude::*;

use crate::commands::{
    arguments_items, arguments_next_free, check_unused_args, only_name, run_result, unit_result, unused_result,
    Command, CommandSuccess, Completion, Effect, Error, ErrorView,
};
use crate::text::{owned, parse_i16, parse_signed};
use crate::tui::{Mode, Popup, PopupType, TuiState};
use crate::commands::navigation::first_arg;
use pico_args::Arguments;

verus! {

/// `t` is `s` with the popup of the type open, not scrolled, in popup mode.
pub open spec fn popup_opened(s: TuiState, t: TuiState, typ: PopupType) -> bool {
    t == TuiState { popup: Some(Popup { typ, scroll: 0 }), mode: Mode::Popup, ..s }
}

/// Opens a popup about the selected message.
#[derive(Debug)]
pub struct MessageInfo;

impl Command for MessageInfo {
    open spec fn runs_in(&self, s: TuiState) -> bool {
        true
    }

    fn can_run(&self, s: &TuiState) -> (res: bool) {
        true
    }

    /// What running the command does.
    open spec fn executed(
        &self,
        before: TuiState,
        after: TuiState,
        effects_before: Seq<Effect>,
        effects_after: Seq<Effect>,
        res: Result<CommandSuccess, Error>,
    ) -> bool {
        &&& effects_after == effects_before
        &&& match before.selected_message() {
                None => run_result(res) == Err::<CommandSuccess, ErrorView>(ErrorView::NoMessageSelected)
                    && after == before,
                Some(m) => res == Ok::<CommandSuccess, Error>(CommandSuccess::Nothing) && popup_opened(
                    before,
                    after,
                    PopupType::MessageInfo { timestamp: m.timestamp },
                ),
            }
    }

    fn execute(&self, tui_state: &mut TuiState, outbox: &mut Vec<Effect>) -> (res: Result<CommandSuccess, Error>)
    {
        let timestamp = match tui_state.messages.selected() {
            Some(m) => m.timestamp,
            None => {
                return Err(Error::NoMessageSelected);
            },
        };
        tui_state.popup = Some(Popup::new(PopupType::MessageInfo { timestamp }));
        tui_state.mode = Mode::Popup;
        Ok(CommandSuccess::Nothing)
    }

    /// What reading the arguments does.
    open spec fn parsed(&self, after: Self, args: Seq<Seq<char>>, res: Result<(), Error>) -> bool {
        &&& unit_result(res) == unused_result(args)
    }

    fn parse(&mut self, args: Arguments) -> (res: Result<(), Error>)
    {
        check_unused_args(args)
    }

    fn default() -> Self {
        MessageInfo
    }

    fn names(&self) -> (res: Vec<&'static str>)
        ensures
            only_name(res@, "message-info"@),
    {
        vec!["message-info"]
    }

    fn complete(&self, tui_state: &TuiState, args: &str) -> (res: Vec<Completion>)
        ensures
            res@.len() == 0,
    {
        Vec::new()
    }
}

/// Opens a popup about the selected contact.
#[derive(Debug)]
pub struct ContactInfo;

impl Command for ContactInfo {
    open spec fn runs_in(&self, s: TuiState) -> bool {
        true
    }

    fn can_run(&self, s: &TuiState) -> (res: bool) {
        true
    }

    /// What running the command does.
    open spec fn executed(
        &self,
        before: TuiState,
        after: TuiState,
        effects_before: Seq<Effect>,
        effects_after: Seq<Effect>,
        res: Result<CommandSuccess, Error>,
    ) -> bool {
        &&& effects_after == effects_before
        &&& match before.selected_contact() {
                None => run_result(res) == Err::<CommandSuccess, ErrorView>(ErrorView::NoContactSelected)
                    && after == before,
                Some(c) => {
                    &&& res == Ok::<CommandSuccess, Error>(CommandSuccess::Nothing)
                    &&& after.popup is Some
                    &&& after.popup->Some_0.typ is ContactInfo
                    &&& after.popup->Some_0.typ->id@ == c.id
                    &&& popup_opened(before, after, after.popup->Some_0.typ)
                },
            }
    }

    fn execute(&self, tui_state: &mut TuiState, outbox: &mut Vec<Effect>) -> (res: Result<CommandSuccess, Error>)
    {
        let id = match tui_state.contacts.selected() {
            Some(c) => c.id.duplicate(),
            None => {
                return Err(Error::NoContactSelected);
            },
        };
        tui_state.popup = Some(Popup::new(PopupType::ContactInfo { id }));
        tui_state.mode = Mode::Popup;
        Ok(CommandSuccess::Nothing)
    }

    /// What reading the arguments does.
    open spec fn parsed(&self, after: Self, args: Seq<Seq<char>>, res: Result<(), Error>) -> bool {
        &&& unit_result(res) == unused_result(args)
    }

    fn parse(&mut self, args: Arguments) -> (res: Result<(), Error>)
    {
        check_unused_args(args)
    }

    fn default() -> Self {
        ContactInfo
    }

    fn names(&self) -> (res: Vec<&'static str>)
        ensures
            only_name(res@, "contact-info"@),
    {
        vec!["contact-info"]
    }

    fn complete(&self, tui_state: &TuiState, args: &str) -> (res: Vec<Completion>)
        ensures
            res@.len() == 0,
    {
        Vec::new()
    }
}

/// Opens the popup of key bindings.
#[derive(Debug)]
pub struct Keybindings;

impl Command for Keybindings {
    open spec fn runs_in(&self, s: TuiState) -> bool {
        true
    }

    fn can_run(&self, s: &TuiState) -> (res: bool) {
        true
    }

    /// What running the command does.
    open spec fn executed(
        &self,
        before: TuiState,
        after: TuiState,
        effects_before: Seq<Effect>,
        effects_after: Seq<Effect>,
        res: Result<CommandSuccess, Error>,
    ) -> bool {
        &&& res == Ok::<CommandSuccess, Error>(CommandSuccess::Nothing)
        &&& effects_after == effects_before
        &&& popup_opened(before, after, PopupType::Keybinds)
    }

    fn execute(&self, tui_state: &mut TuiState, outbox: &mut Vec<Effect>) -> (res: Result<CommandSuccess, Error>)
    {
        tui_state.popup = Some(Popup::new(PopupType::Keybinds));
        tui_state.mode = Mode::Popup;
        Ok(CommandSuccess::Nothing)
    }

    /// What reading the arguments does.
    open spec fn parsed(&self, after: Self, args: Seq<Seq<char>>, res: Result<(), Error>) -> bool {
        &&& unit_result(res) == unused_result(args)
    }

    fn parse(&mut self, args: Arguments) -> (res: Result<(), Error>)
    {
        check_unused_args(args)
    }

    fn default() -> Self {
        Keybindings
    }

    fn names(&self) -> (res: Vec<&'static str>)
        ensures
            only_name(res@, "keybindings"@),
    {
        vec!["keybindings"]
    }

    fn complete(&self, tui_state: &TuiState, args: &str) -> (res: Vec<Completion>)
        ensures
            res@.len() == 0,
    {
        Vec::new()
    }
}

/// Opens the popup listing the commands.
#[derive(Debug)]
pub struct Commands;

impl Command for Commands {
    open spec fn runs_in(&self, s: TuiState) -> bool {
        true
    }

    fn can_run(&self, s: &TuiState) -> (res: bool) {
        true
    }

    /// What running the command does.
    open spec fn executed(
        &self,
        before: TuiState,
        after: TuiState,
        effects_before: Seq<Effect>,
        effects_after: Seq<Effect>,
        res: Result<CommandSuccess, Error>,
    ) -> bool {
        &&& res == Ok::<CommandSuccess, Error>(CommandSuccess::Nothing)
        &&& effects_after == effects_before
        &&& popup_opened(before, after, PopupType::Commands)
    }

    fn execute(&self, tui_state: &mut TuiState, outbox: &mut Vec<Effect>) -> (res: Result<CommandSuccess, Error>)
    {
        tui_state.popup = Some(Popup::new(PopupType::Commands));
        tui_state.mode = Mode::Popup;
        Ok(CommandSuccess::Nothing)
    }

    /// What reading the arguments does.
    open spec fn parsed(&self, after: Self, args: Seq<Seq<char>>, res: Result<(), Error>) -> bool {
        &&& unit_result(res) == unused_result(args)
    }

    fn parse(&mut self, args: Arguments) -> (res: Result<(), Error>)
    {
        check_unused_args(args)
    }

    fn default() -> Self {
        Commands
    }

    fn names(&self) -> (res: Vec<&'static str>)
        ensures
            only_name(res@, "commands"@),
    {
        vec!["commands"]
    }

    fn complete(&self, tui_state: &TuiState, args: &str) -> (res: Vec<Completion>)
        ensures
            res@.len() == 0,
    {
        Vec::new()
    }
}

/// Opens the popup of the command history.
#[derive(Debug)]
pub struct CommandHistory;

impl Command for CommandHistory {
    open spec fn runs_in(&self, s: TuiState) -> bool {
        true
    }

    fn can_run(&self, s: &TuiState) -> (res: bool) {
        true
    }

    /// What running the command does.
    open spec fn executed(
        &self,
        before: TuiState,
        after: TuiState,
        effects_before: Seq<Effect>,
        effects_after: Seq<Effect>,
        res: Result<CommandSuccess, Error>,
    ) -> bool {
        &&& res == Ok::<CommandSuccess, Error>(CommandSuccess::Nothing)
        &&& effects_after == effects_before
        &&& popup_opened(before, after, PopupType::CommandHistory)
    }

    fn execute(&self, tui_state: &mut TuiState, outbox: &mut Vec<Effect>) -> (res: Result<CommandSuccess, Error>)
    {
        tui_state.popup = Some(Popup::new(PopupType::CommandHistory));
        tui_state.mode = Mode::Popup;
        Ok(CommandSuccess::Nothing)
    }

    /// What reading the arguments does.
    open spec fn parsed(&self, after: Self, args: Seq<Seq<char>>, res: Result<(), Error>) -> bool {
        &&& unit_result(res) == unused_result(args)
    }

    fn parse(&mut self, args: Arguments) -> (res: Result<(), Error>)
    {
        check_unused_args(args)
    }

    fn default() -> Self {
        CommandHistory
    }

    fn names(&self) -> (res: Vec<&'static str>)
        ensures
            only_name(res@, "command-history"@),
    {
        vec!["command-history"]
    }

    fn complete(&self, tui_state: &TuiState, args: &str) -> (res: Vec<Completion>)
        ensures
            res@.len() == 0,
    {
        Vec::new()
    }
}

/// Scrolls the open popup by a number of lines (up for a negative number).
#[derive(Debug)]
pub struct ScrollPopup {
    pub amount: i16,
}

/// The scroll after moving by an amount: down without bound, up stopping at
/// the top.
pub open spec fn scrolled_by(scroll: u16, amount: i16) -> int {
    if amount > 0 {
        scroll + amount
    } else if amount < 0 {
        if scroll + amount >= 0 {
            scroll + amount
        } else {
            0
        }
    } else {
        scroll as int
    }
}

impl Command for ScrollPopup {
    /// A popup is open, and scrolling down stays within `u16`.
    open spec fn runs_in(&self, s: TuiState) -> bool {
        s.popup is Some && scrolled_by(s.popup->Some_0.scroll, self.amount) <= u16::MAX
    }

    fn can_run(&self, s: &TuiState) -> (res: bool) {
        match &s.popup {
            Some(p) => self.amount <= 0 || (p.scroll as u32) + (self.amount as u32) <= 0xFFFF,
            None => false,
        }
    }

    /// What running the command does.
    open spec fn executed(
        &self,
        before: TuiState,
        after: TuiState,
        effects_before: Seq<Effect>,
        effects_after: Seq<Effect>,
        res: Result<CommandSuccess, Error>,
    ) -> bool {
        &&& res == Ok::<CommandSuccess, Error>(CommandSuccess::Nothing)
        &&& effects_after == effects_before
        &&& after.popup is Some
        &&& after.popup->Some_0.typ == before.popup->Some_0.typ
        &&& after.popup->Some_0.scroll == scrolled_by(before.popup->Some_0.scroll, self.amount)
        &&& after == (TuiState { popup: after.popup, ..before })
    }

    fn execute(&self, tui_state: &mut TuiState, outbox: &mut Vec<Effect>) -> (res: Result<CommandSuccess, Error>)
    {
        let mut popup = tui_state.popup.take().unwrap();
        if self.amount > 0 {
            popup.scroll = popup.scroll + self.amount as u16;
        } else if self.amount < 0 {
            let up: u16 = if self.amount == i16::MIN {
                32768
            } else {
                (-self.amount) as u16
            };
            popup.scroll = popup.scroll.saturating_sub(up);
        }
        tui_state.popup = Some(popup);
        Ok(CommandSuccess::Nothing)
    }

    /// What reading the arguments does.
    open spec fn parsed(&self, after: Self, args: Seq<Seq<char>>, res: Result<(), Error>) -> bool {
        &&& ({
                let items = args;
                match first_arg(items, |a: Seq<char>| parse_signed(a, i16::MIN as int, i16::MAX as int)) {
                    Some(n) => after.amount == n && unit_result(res) == unused_result(items.drop_first()),
                    None => after == *self && unit_result(res) == Err::<(), ErrorView>(
                        ErrorView::MissingArgument("amount"@),
                    ),
                }
            })
    }

    fn parse(&mut self, args: Arguments) -> (res: Result<(), Error>)
    {
        let mut args = args;
        let amount = match arguments_next_free(&mut args) {
            Some(a) => parse_i16(a.as_str()),
            None => None,
        };
        match amount {
            Some(amount) => {
                *self = ScrollPopup { amount };
                check_unused_args(args)
            },
            None => Err(Error::MissingArgument(owned("amount"))),
        }
    }

    fn default() -> (res: Self)
        ensures
            res.amount == 0,
    {
        ScrollPopup { amount: 0 }
    }

    fn names(&self) -> (res: Vec<&'static str>)
        ensures
            only_name(res@, "scroll-popup"@),
    {
        vec!["scroll-popup"]
    }

    fn complete(&self, tui_state: &TuiState, args: &str) -> (res: Vec<Completion>)
        ensures
            res@.len() == 0,
    {
        Vec::new()
    }
}

} // verus!
