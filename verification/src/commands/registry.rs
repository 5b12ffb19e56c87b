//! The commands that the command line knows, running a command line, and
//! completing one.
use vstd::prelude::*;

use crate::commands::attachments::{
    attachment_candidates, link_candidates, AttachFiles, DetachFiles, DownloadAttachments, OpenAttachments, OpenLink,
};
use crate::commands::messaging::{
    forward_candidates, ClearCompose, ComposeInEditor, Forward, GotoQuoted, NextCommand, PipeMessage, PrevCommand, React, ReloadConfig,
    ReloadContacts, ReloadMessages, Reply, SendMessage, Unreact,
};
use crate::commands::navigation::{
    contact_candidates, ComposeMode, NextContact, NextMessage, NormalMode, PrevContact, PrevMessage, Quit, SelectContact, SelectMessage,
};
use crate::commands::popups::{CommandHistory, Commands, ContactInfo, Keybindings, MessageInfo, ScrollPopup};
use crate::commands::{
    arguments_items, arguments_of, arguments_subcommand, check_unused_args, complete_from_list, completion_views,
    completions_from, effect_views, last_shell_part, only_name, run_result, unit_result, unused_result, Command,
    CommandSuccess, Completion, CompletionView, Effect, EffectView, Error, ErrorView, IndexOrString, IndexOrStringView,
};
use crate::text::{
    chars_of, has_char, is_prefix, join, join_strings, owned, push_str, shell_split, shell_words_of, sort_strings,
    sorted_of, str_eq, string_of_range, texts,
};
use crate::tui::command_line::CommandLine;
use crate::tui::textarea::{cursor_after_text, lines_with_text};
use crate::tui::{BasicMode, Mode, TuiState};
use pico_args::Arguments;

verus! {

/// Any command that the command line can run by name.
#[derive(Debug)]
pub enum AnyCommand {
    Quit(Quit),
    NextContact(NextContact),
    PrevContact(PrevContact),
    NextMessage(NextMessage),
    PrevMessage(PrevMessage),
    SelectMessage(SelectMessage),
    SelectContact(SelectContact),
    NormalMode(NormalMode),
    ComposeMode(ComposeMode),
    SendMessage(SendMessage),
    React(React),
    Unreact(Unreact),
    ReloadContacts(ReloadContacts),
    ReloadMessages(ReloadMessages),
    ReloadConfig(ReloadConfig),
    ComposeInEditor(ComposeInEditor),
    ClearCompose(ClearCompose),
    DownloadAttachments(DownloadAttachments),
    OpenAttachments(OpenAttachments),
    OpenLink(OpenLink),
    MessageInfo(MessageInfo),
    ContactInfo(ContactInfo),
    Keybindings(Keybindings),
    Commands(Commands),
    CommandHistory(CommandHistory),
    Reply(Reply),
    ScrollPopup(ScrollPopup),
    AttachFiles(AttachFiles),
    DetachFiles(DetachFiles),
    GotoQuoted(GotoQuoted),
    PipeMessage(PipeMessage),
    Forward(Forward),
}

/// The names of the commands, in the order of [`commands`].
pub open spec fn command_names() -> Seq<Seq<char>> {
    seq![
        "quit"@,
        "next-contact"@,
        "prev-contact"@,
        "next-message"@,
        "prev-message"@,
        "select-message"@,
        "select-contact"@,
        "mode-normal"@,
        "mode-compose"@,
        "send-message"@,
        "react"@,
        "unreact"@,
        "reload-contacts"@,
        "reload-messages"@,
        "reload-config"@,
        "compose-in-editor"@,
        "clear-compose"@,
        "download-attachments"@,
        "open-attachments"@,
        "open-link"@,
        "message-info"@,
        "contact-info"@,
        "keybindings"@,
        "commands"@,
        "command-history"@,
        "reply"@,
        "scroll-popup"@,
        "attach-files"@,
        "detach-files"@,
        "goto-quoted"@,
        "pipe-message"@,
        "forward"@,
    ]
}

/// The index of a command in [`command_names`]: its kind.
pub open spec fn kind_of(c: AnyCommand) -> int {
    match c {
        AnyCommand::Quit(_) => 0,
        AnyCommand::NextContact(_) => 1,
        AnyCommand::PrevContact(_) => 2,
        AnyCommand::NextMessage(_) => 3,
        AnyCommand::PrevMessage(_) => 4,
        AnyCommand::SelectMessage(_) => 5,
        AnyCommand::SelectContact(_) => 6,
        AnyCommand::NormalMode(_) => 7,
        AnyCommand::ComposeMode(_) => 8,
        AnyCommand::SendMessage(_) => 9,
        AnyCommand::React(_) => 10,
        AnyCommand::Unreact(_) => 11,
        AnyCommand::ReloadContacts(_) => 12,
        AnyCommand::ReloadMessages(_) => 13,
        AnyCommand::ReloadConfig(_) => 14,
        AnyCommand::ComposeInEditor(_) => 15,
        AnyCommand::ClearCompose(_) => 16,
        AnyCommand::DownloadAttachments(_) => 17,
        AnyCommand::OpenAttachments(_) => 18,
        AnyCommand::OpenLink(_) => 19,
        AnyCommand::MessageInfo(_) => 20,
        AnyCommand::ContactInfo(_) => 21,
        AnyCommand::Keybindings(_) => 22,
        AnyCommand::Commands(_) => 23,
        AnyCommand::CommandHistory(_) => 24,
        AnyCommand::Reply(_) => 25,
        AnyCommand::ScrollPopup(_) => 26,
        AnyCommand::AttachFiles(_) => 27,
        AnyCommand::DetachFiles(_) => 28,
        AnyCommand::GotoQuoted(_) => 29,
        AnyCommand::PipeMessage(_) => 30,
        AnyCommand::Forward(_) => 31,
    }
}

impl AnyCommand {
    /// What running the command does (see each command's
    /// [`Command::executed`]).
    pub open spec fn executed(
        &self,
        before: TuiState,
        after: TuiState,
        effects_before: Seq<Effect>,
        effects_after: Seq<Effect>,
        res: Result<CommandSuccess, Error>,
    ) -> bool {
        match self {
            AnyCommand::Quit(c) => c.executed(before, after, effects_before, effects_after, res),
            AnyCommand::NextContact(c) => c.executed(before, after, effects_before, effects_after, res),
            AnyCommand::PrevContact(c) => c.executed(before, after, effects_before, effects_after, res),
            AnyCommand::NextMessage(c) => c.executed(before, after, effects_before, effects_after, res),
            AnyCommand::PrevMessage(c) => c.executed(before, after, effects_before, effects_after, res),
            AnyCommand::SelectMessage(c) => c.executed(before, after, effects_before, effects_after, res),
            AnyCommand::SelectContact(c) => c.executed(before, after, effects_before, effects_after, res),
            AnyCommand::NormalMode(c) => c.executed(before, after, effects_before, effects_after, res),
            AnyCommand::ComposeMode(c) => c.executed(before, after, effects_before, effects_after, res),
            AnyCommand::SendMessage(c) => c.executed(before, after, effects_before, effects_after, res),
            AnyCommand::React(c) => c.executed(before, after, effects_before, effects_after, res),
            AnyCommand::Unreact(c) => c.executed(before, after, effects_before, effects_after, res),
            AnyCommand::ReloadContacts(c) => c.executed(before, after, effects_before, effects_after, res),
            AnyCommand::ReloadMessages(c) => c.executed(before, after, effects_before, effects_after, res),
            AnyCommand::ReloadConfig(c) => c.executed(before, after, effects_before, effects_after, res),
            AnyCommand::ComposeInEditor(c) => c.executed(before, after, effects_before, effects_after, res),
            AnyCommand::ClearCompose(c) => c.executed(before, after, effects_before, effects_after, res),
            AnyCommand::DownloadAttachments(c) => c.executed(before, after, effects_before, effects_after, res),
            AnyCommand::OpenAttachments(c) => c.executed(before, after, effects_before, effects_after, res),
            AnyCommand::OpenLink(c) => c.executed(before, after, effects_before, effects_after, res),
            AnyCommand::MessageInfo(c) => c.executed(before, after, effects_before, effects_after, res),
            AnyCommand::ContactInfo(c) => c.executed(before, after, effects_before, effects_after, res),
            AnyCommand::Keybindings(c) => c.executed(before, after, effects_before, effects_after, res),
            AnyCommand::Commands(c) => c.executed(before, after, effects_before, effects_after, res),
            AnyCommand::CommandHistory(c) => c.executed(before, after, effects_before, effects_after, res),
            AnyCommand::Reply(c) => c.executed(before, after, effects_before, effects_after, res),
            AnyCommand::ScrollPopup(c) => c.executed(before, after, effects_before, effects_after, res),
            AnyCommand::AttachFiles(c) => c.executed(before, after, effects_before, effects_after, res),
            AnyCommand::DetachFiles(c) => c.executed(before, after, effects_before, effects_after, res),
            AnyCommand::GotoQuoted(c) => c.executed(before, after, effects_before, effects_after, res),
            AnyCommand::PipeMessage(c) => c.executed(before, after, effects_before, effects_after, res),
            AnyCommand::Forward(c) => c.executed(before, after, effects_before, effects_after, res),
        }
    }

    /// What reading the arguments does: the command stays of its kind (see
    /// each command's [`Command::parsed`]).
    pub open spec fn parsed(&self, after: AnyCommand, args: Seq<Seq<char>>, res: Result<(), Error>) -> bool {
        match self {
            AnyCommand::Quit(c) => match after {
                AnyCommand::Quit(d) => c.parsed(d, args, res),
                _ => false,
            },
            AnyCommand::NextContact(c) => match after {
                AnyCommand::NextContact(d) => c.parsed(d, args, res),
                _ => false,
            },
            AnyCommand::PrevContact(c) => match after {
                AnyCommand::PrevContact(d) => c.parsed(d, args, res),
                _ => false,
            },
            AnyCommand::NextMessage(c) => match after {
                AnyCommand::NextMessage(d) => c.parsed(d, args, res),
                _ => false,
            },
            AnyCommand::PrevMessage(c) => match after {
                AnyCommand::PrevMessage(d) => c.parsed(d, args, res),
                _ => false,
            },
            AnyCommand::SelectMessage(c) => match after {
                AnyCommand::SelectMessage(d) => c.parsed(d, args, res),
                _ => false,
            },
            AnyCommand::SelectContact(c) => match after {
                AnyCommand::SelectContact(d) => c.parsed(d, args, res),
                _ => false,
            },
            AnyCommand::NormalMode(c) => match after {
                AnyCommand::NormalMode(d) => c.parsed(d, args, res),
                _ => false,
            },
            AnyCommand::ComposeMode(c) => match after {
                AnyCommand::ComposeMode(d) => c.parsed(d, args, res),
                _ => false,
            },
            AnyCommand::SendMessage(c) => match after {
                AnyCommand::SendMessage(d) => c.parsed(d, args, res),
                _ => false,
            },
            AnyCommand::React(c) => match after {
                AnyCommand::React(d) => c.parsed(d, args, res),
                _ => false,
            },
            AnyCommand::Unreact(c) => match after {
                AnyCommand::Unreact(d) => c.parsed(d, args, res),
                _ => false,
            },
            AnyCommand::ReloadContacts(c) => match after {
                AnyCommand::ReloadContacts(d) => c.parsed(d, args, res),
                _ => false,
            },
            AnyCommand::ReloadMessages(c) => match after {
                AnyCommand::ReloadMessages(d) => c.parsed(d, args, res),
                _ => false,
            },
            AnyCommand::ReloadConfig(c) => match after {
                AnyCommand::ReloadConfig(d) => c.parsed(d, args, res),
                _ => false,
            },
            AnyCommand::ComposeInEditor(c) => match after {
                AnyCommand::ComposeInEditor(d) => c.parsed(d, args, res),
                _ => false,
            },
            AnyCommand::ClearCompose(c) => match after {
                AnyCommand::ClearCompose(d) => c.parsed(d, args, res),
                _ => false,
            },
            AnyCommand::DownloadAttachments(c) => match after {
                AnyCommand::DownloadAttachments(d) => c.parsed(d, args, res),
                _ => false,
            },
            AnyCommand::OpenAttachments(c) => match after {
                AnyCommand::OpenAttachments(d) => c.parsed(d, args, res),
                _ => false,
            },
            AnyCommand::OpenLink(c) => match after {
                AnyCommand::OpenLink(d) => c.parsed(d, args, res),
                _ => false,
            },
            AnyCommand::MessageInfo(c) => match after {
                AnyCommand::MessageInfo(d) => c.parsed(d, args, res),
                _ => false,
            },
            AnyCommand::ContactInfo(c) => match after {
                AnyCommand::ContactInfo(d) => c.parsed(d, args, res),
                _ => false,
            },
            AnyCommand::Keybindings(c) => match after {
                AnyCommand::Keybindings(d) => c.parsed(d, args, res),
                _ => false,
            },
            AnyCommand::Commands(c) => match after {
                AnyCommand::Commands(d) => c.parsed(d, args, res),
                _ => false,
            },
            AnyCommand::CommandHistory(c) => match after {
                AnyCommand::CommandHistory(d) => c.parsed(d, args, res),
                _ => false,
            },
            AnyCommand::Reply(c) => match after {
                AnyCommand::Reply(d) => c.parsed(d, args, res),
                _ => false,
            },
            AnyCommand::ScrollPopup(c) => match after {
                AnyCommand::ScrollPopup(d) => c.parsed(d, args, res),
                _ => false,
            },
            AnyCommand::AttachFiles(c) => match after {
                AnyCommand::AttachFiles(d) => c.parsed(d, args, res),
                _ => false,
            },
            AnyCommand::DetachFiles(c) => match after {
                AnyCommand::DetachFiles(d) => c.parsed(d, args, res),
                _ => false,
            },
            AnyCommand::GotoQuoted(c) => match after {
                AnyCommand::GotoQuoted(d) => c.parsed(d, args, res),
                _ => false,
            },
            AnyCommand::PipeMessage(c) => match after {
                AnyCommand::PipeMessage(d) => c.parsed(d, args, res),
                _ => false,
            },
            AnyCommand::Forward(c) => match after {
                AnyCommand::Forward(d) => c.parsed(d, args, res),
                _ => false,
            },
        }
    }

    /// The command's arguments are at their defaults.
    pub open spec fn at_defaults(&self) -> bool {
        match self {
            AnyCommand::SelectMessage(c) => c.index == 0,
            AnyCommand::SelectContact(c) => c.item == IndexOrString::Index(0),
            AnyCommand::React(c) => c.emoji_spec().len() == 0,
            AnyCommand::DownloadAttachments(c) => c.item_spec() is None,
            AnyCommand::OpenAttachments(c) => c.item_spec() is None,
            AnyCommand::OpenLink(c) => c.item_spec() == IndexOrStringView::Index(0),
            AnyCommand::ScrollPopup(c) => c.amount == 0,
            AnyCommand::AttachFiles(c) => c.paths_spec().len() == 0,
            AnyCommand::DetachFiles(c) => c.indices_spec().len() == 0,
            AnyCommand::PipeMessage(c) => c.command_spec().len() == 0,
            AnyCommand::Forward(c) => c.contact_name_spec().len() == 0,
            _ => true,
        }
    }
}

/// The commands with their arguments at their defaults, in order.
pub fn commands() -> (res: Vec<AnyCommand>)
    ensures
        res@.len() == command_names().len(),
        forall|i: int| 0 <= i < res@.len() ==> kind_of(#[trigger] res@[i]) == i && res@[i].at_defaults(),
{
    let mut v: Vec<AnyCommand> = Vec::new();
    v.push(AnyCommand::Quit(Quit::default()));
    v.push(AnyCommand::NextContact(NextContact::default()));
    v.push(AnyCommand::PrevContact(PrevContact::default()));
    v.push(AnyCommand::NextMessage(NextMessage::default()));
    v.push(AnyCommand::PrevMessage(PrevMessage::default()));
    v.push(AnyCommand::SelectMessage(SelectMessage::default()));
    v.push(AnyCommand::SelectContact(SelectContact::default()));
    v.push(AnyCommand::NormalMode(NormalMode::default()));
    v.push(AnyCommand::ComposeMode(ComposeMode::default()));
    v.push(AnyCommand::SendMessage(SendMessage::default()));
    v.push(AnyCommand::React(React::default()));
    v.push(AnyCommand::Unreact(Unreact::default()));
    v.push(AnyCommand::ReloadContacts(ReloadContacts::default()));
    v.push(AnyCommand::ReloadMessages(ReloadMessages::default()));
    v.push(AnyCommand::ReloadConfig(ReloadConfig::default()));
    v.push(AnyCommand::ComposeInEditor(ComposeInEditor::default()));
    v.push(AnyCommand::ClearCompose(ClearCompose::default()));
    v.push(AnyCommand::DownloadAttachments(DownloadAttachments::default()));
    v.push(AnyCommand::OpenAttachments(OpenAttachments::default()));
    v.push(AnyCommand::OpenLink(OpenLink::default()));
    v.push(AnyCommand::MessageInfo(MessageInfo::default()));
    v.push(AnyCommand::ContactInfo(ContactInfo::default()));
    v.push(AnyCommand::Keybindings(Keybindings::default()));
    v.push(AnyCommand::Commands(Commands::default()));
    v.push(AnyCommand::CommandHistory(CommandHistory::default()));
    v.push(AnyCommand::Reply(Reply::default()));
    v.push(AnyCommand::ScrollPopup(ScrollPopup::default()));
    v.push(AnyCommand::AttachFiles(AttachFiles::default()));
    v.push(AnyCommand::DetachFiles(DetachFiles::default()));
    v.push(AnyCommand::GotoQuoted(GotoQuoted::default()));
    v.push(AnyCommand::PipeMessage(PipeMessage::default()));
    v.push(AnyCommand::Forward(Forward::default()));
    v
}

impl AnyCommand {
    /// The states in which the command runs (see [`Command::runs_in`]).
    pub open spec fn runs_in(&self, s: TuiState) -> bool {
        match self {
            AnyCommand::Quit(c) => c.runs_in(s),
            AnyCommand::NextContact(c) => c.runs_in(s),
            AnyCommand::PrevContact(c) => c.runs_in(s),
            AnyCommand::NextMessage(c) => c.runs_in(s),
            AnyCommand::PrevMessage(c) => c.runs_in(s),
            AnyCommand::SelectMessage(c) => c.runs_in(s),
            AnyCommand::SelectContact(c) => c.runs_in(s),
            AnyCommand::NormalMode(c) => c.runs_in(s),
            AnyCommand::ComposeMode(c) => c.runs_in(s),
            AnyCommand::SendMessage(c) => c.runs_in(s),
            AnyCommand::React(c) => c.runs_in(s),
            AnyCommand::Unreact(c) => c.runs_in(s),
            AnyCommand::ReloadContacts(c) => c.runs_in(s),
            AnyCommand::ReloadMessages(c) => c.runs_in(s),
            AnyCommand::ReloadConfig(c) => c.runs_in(s),
            AnyCommand::ComposeInEditor(c) => c.runs_in(s),
            AnyCommand::ClearCompose(c) => c.runs_in(s),
            AnyCommand::DownloadAttachments(c) => c.runs_in(s),
            AnyCommand::OpenAttachments(c) => c.runs_in(s),
            AnyCommand::OpenLink(c) => c.runs_in(s),
            AnyCommand::MessageInfo(c) => c.runs_in(s),
            AnyCommand::ContactInfo(c) => c.runs_in(s),
            AnyCommand::Keybindings(c) => c.runs_in(s),
            AnyCommand::Commands(c) => c.runs_in(s),
            AnyCommand::CommandHistory(c) => c.runs_in(s),
            AnyCommand::Reply(c) => c.runs_in(s),
            AnyCommand::ScrollPopup(c) => c.runs_in(s),
            AnyCommand::AttachFiles(c) => c.runs_in(s),
            AnyCommand::DetachFiles(c) => c.runs_in(s),
            AnyCommand::GotoQuoted(c) => c.runs_in(s),
            AnyCommand::PipeMessage(c) => c.runs_in(s),
            AnyCommand::Forward(c) => c.runs_in(s),
        }
    }

    /// Whether the command runs in the state.
    pub fn can_run(&self, s: &TuiState) -> (res: bool)
        ensures
            res == self.runs_in(*s),
    {
        match self {
            AnyCommand::Quit(c) => c.can_run(s),
            AnyCommand::NextContact(c) => c.can_run(s),
            AnyCommand::PrevContact(c) => c.can_run(s),
            AnyCommand::NextMessage(c) => c.can_run(s),
            AnyCommand::PrevMessage(c) => c.can_run(s),
            AnyCommand::SelectMessage(c) => c.can_run(s),
            AnyCommand::SelectContact(c) => c.can_run(s),
            AnyCommand::NormalMode(c) => c.can_run(s),
            AnyCommand::ComposeMode(c) => c.can_run(s),
            AnyCommand::SendMessage(c) => c.can_run(s),
            AnyCommand::React(c) => c.can_run(s),
            AnyCommand::Unreact(c) => c.can_run(s),
            AnyCommand::ReloadContacts(c) => c.can_run(s),
            AnyCommand::ReloadMessages(c) => c.can_run(s),
            AnyCommand::ReloadConfig(c) => c.can_run(s),
            AnyCommand::ComposeInEditor(c) => c.can_run(s),
            AnyCommand::ClearCompose(c) => c.can_run(s),
            AnyCommand::DownloadAttachments(c) => c.can_run(s),
            AnyCommand::OpenAttachments(c) => c.can_run(s),
            AnyCommand::OpenLink(c) => c.can_run(s),
            AnyCommand::MessageInfo(c) => c.can_run(s),
            AnyCommand::ContactInfo(c) => c.can_run(s),
            AnyCommand::Keybindings(c) => c.can_run(s),
            AnyCommand::Commands(c) => c.can_run(s),
            AnyCommand::CommandHistory(c) => c.can_run(s),
            AnyCommand::Reply(c) => c.can_run(s),
            AnyCommand::ScrollPopup(c) => c.can_run(s),
            AnyCommand::AttachFiles(c) => c.can_run(s),
            AnyCommand::DetachFiles(c) => c.can_run(s),
            AnyCommand::GotoQuoted(c) => c.can_run(s),
            AnyCommand::PipeMessage(c) => c.can_run(s),
            AnyCommand::Forward(c) => c.can_run(s),
        }
    }

    /// Runs the command (see each command's own contract).
    pub fn execute(&self, tui_state: &mut TuiState, outbox: &mut Vec<Effect>) -> (res: Result<CommandSuccess, Error>)
        requires
            old(tui_state).wf(),
            self.runs_in(*old(tui_state)),
        ensures
            final(tui_state).wf(),
            effect_views(old(outbox)@).is_prefix_of(effect_views(final(outbox)@)),
            self.executed(*old(tui_state), *final(tui_state), old(outbox)@, final(outbox)@, res),
    {
        match self {
            AnyCommand::Quit(c) => c.execute(tui_state, outbox),
            AnyCommand::NextContact(c) => c.execute(tui_state, outbox),
            AnyCommand::PrevContact(c) => c.execute(tui_state, outbox),
            AnyCommand::NextMessage(c) => c.execute(tui_state, outbox),
            AnyCommand::PrevMessage(c) => c.execute(tui_state, outbox),
            AnyCommand::SelectMessage(c) => c.execute(tui_state, outbox),
            AnyCommand::SelectContact(c) => c.execute(tui_state, outbox),
            AnyCommand::NormalMode(c) => c.execute(tui_state, outbox),
            AnyCommand::ComposeMode(c) => c.execute(tui_state, outbox),
            AnyCommand::SendMessage(c) => c.execute(tui_state, outbox),
            AnyCommand::React(c) => c.execute(tui_state, outbox),
            AnyCommand::Unreact(c) => c.execute(tui_state, outbox),
            AnyCommand::ReloadContacts(c) => c.execute(tui_state, outbox),
            AnyCommand::ReloadMessages(c) => c.execute(tui_state, outbox),
            AnyCommand::ReloadConfig(c) => c.execute(tui_state, outbox),
            AnyCommand::ComposeInEditor(c) => c.execute(tui_state, outbox),
            AnyCommand::ClearCompose(c) => c.execute(tui_state, outbox),
            AnyCommand::DownloadAttachments(c) => c.execute(tui_state, outbox),
            AnyCommand::OpenAttachments(c) => c.execute(tui_state, outbox),
            AnyCommand::OpenLink(c) => c.execute(tui_state, outbox),
            AnyCommand::MessageInfo(c) => c.execute(tui_state, outbox),
            AnyCommand::ContactInfo(c) => c.execute(tui_state, outbox),
            AnyCommand::Keybindings(c) => c.execute(tui_state, outbox),
            AnyCommand::Commands(c) => c.execute(tui_state, outbox),
            AnyCommand::CommandHistory(c) => c.execute(tui_state, outbox),
            AnyCommand::Reply(c) => c.execute(tui_state, outbox),
            AnyCommand::ScrollPopup(c) => c.execute(tui_state, outbox),
            AnyCommand::AttachFiles(c) => c.execute(tui_state, outbox),
            AnyCommand::DetachFiles(c) => c.execute(tui_state, outbox),
            AnyCommand::GotoQuoted(c) => c.execute(tui_state, outbox),
            AnyCommand::PipeMessage(c) => c.execute(tui_state, outbox),
            AnyCommand::Forward(c) => c.execute(tui_state, outbox),
        }
    }

    /// Reads the command's arguments (see each command's own contract); the
    /// kind stays.
    pub fn parse(&mut self, args: Arguments) -> (res: Result<(), Error>)
        ensures
            kind_of(*final(self)) == kind_of(*old(self)),
            old(self).parsed(*final(self), arguments_items(args), res),
    {
        match self {
            AnyCommand::Quit(c) => c.parse(args),
            AnyCommand::NextContact(c) => c.parse(args),
            AnyCommand::PrevContact(c) => c.parse(args),
            AnyCommand::NextMessage(c) => c.parse(args),
            AnyCommand::PrevMessage(c) => c.parse(args),
            AnyCommand::SelectMessage(c) => c.parse(args),
            AnyCommand::SelectContact(c) => c.parse(args),
            AnyCommand::NormalMode(c) => c.parse(args),
            AnyCommand::ComposeMode(c) => c.parse(args),
            AnyCommand::SendMessage(c) => c.parse(args),
            AnyCommand::React(c) => c.parse(args),
            AnyCommand::Unreact(c) => c.parse(args),
            AnyCommand::ReloadContacts(c) => c.parse(args),
            AnyCommand::ReloadMessages(c) => c.parse(args),
            AnyCommand::ReloadConfig(c) => c.parse(args),
            AnyCommand::ComposeInEditor(c) => c.parse(args),
            AnyCommand::ClearCompose(c) => c.parse(args),
            AnyCommand::DownloadAttachments(c) => c.parse(args),
            AnyCommand::OpenAttachments(c) => c.parse(args),
            AnyCommand::OpenLink(c) => c.parse(args),
            AnyCommand::MessageInfo(c) => c.parse(args),
            AnyCommand::ContactInfo(c) => c.parse(args),
            AnyCommand::Keybindings(c) => c.parse(args),
            AnyCommand::Commands(c) => c.parse(args),
            AnyCommand::CommandHistory(c) => c.parse(args),
            AnyCommand::Reply(c) => c.parse(args),
            AnyCommand::ScrollPopup(c) => c.parse(args),
            AnyCommand::AttachFiles(c) => c.parse(args),
            AnyCommand::DetachFiles(c) => c.parse(args),
            AnyCommand::GotoQuoted(c) => c.parse(args),
            AnyCommand::PipeMessage(c) => c.parse(args),
            AnyCommand::Forward(c) => c.parse(args),
        }
    }

    /// The name of the command (each has one).
    pub fn name(&self) -> (res: &'static str)
        ensures
            res@ == command_names()[kind_of(*self)],
    {
        let names = match self {
            AnyCommand::Quit(c) => c.names(),
            AnyCommand::NextContact(c) => c.names(),
            AnyCommand::PrevContact(c) => c.names(),
            AnyCommand::NextMessage(c) => c.names(),
            AnyCommand::PrevMessage(c) => c.names(),
            AnyCommand::SelectMessage(c) => c.names(),
            AnyCommand::SelectContact(c) => c.names(),
            AnyCommand::NormalMode(c) => c.names(),
            AnyCommand::ComposeMode(c) => c.names(),
            AnyCommand::SendMessage(c) => c.names(),
            AnyCommand::React(c) => c.names(),
            AnyCommand::Unreact(c) => c.names(),
            AnyCommand::ReloadContacts(c) => c.names(),
            AnyCommand::ReloadMessages(c) => c.names(),
            AnyCommand::ReloadConfig(c) => c.names(),
            AnyCommand::ComposeInEditor(c) => c.names(),
            AnyCommand::ClearCompose(c) => c.names(),
            AnyCommand::DownloadAttachments(c) => c.names(),
            AnyCommand::OpenAttachments(c) => c.names(),
            AnyCommand::OpenLink(c) => c.names(),
            AnyCommand::MessageInfo(c) => c.names(),
            AnyCommand::ContactInfo(c) => c.names(),
            AnyCommand::Keybindings(c) => c.names(),
            AnyCommand::Commands(c) => c.names(),
            AnyCommand::CommandHistory(c) => c.names(),
            AnyCommand::Reply(c) => c.names(),
            AnyCommand::ScrollPopup(c) => c.names(),
            AnyCommand::AttachFiles(c) => c.names(),
            AnyCommand::DetachFiles(c) => c.names(),
            AnyCommand::GotoQuoted(c) => c.names(),
            AnyCommand::PipeMessage(c) => c.names(),
            AnyCommand::Forward(c) => c.names(),
        };
        names[0]
    }

    /// The completions that the command offers for the command line typed,
    /// in the state: contacts for `select-contact` and `forward`, emoji
    /// shortcodes for `react`, attachments or links of the selected message
    /// for the commands that open or download them, attachment numbers for
    /// `detach-files`, and none for the others.
    pub open spec fn offers(&self, s: TuiState, args: Seq<char>, res: Seq<crate::commands::CompletionView>) -> bool {
        match self {
            AnyCommand::SelectContact(_) => res == completions_from(
                last_shell_part(args),
                contact_candidates(s),
            ),
            AnyCommand::React(_) => exists|codes: Seq<Seq<char>>|
                #![trigger completions_from(last_shell_part(args), codes)]
                res == completions_from(last_shell_part(args), codes),
            AnyCommand::DownloadAttachments(_) | AnyCommand::OpenAttachments(_) => match s.selected_message() {
                Some(m) => res == completions_from(
                    last_shell_part(args),
                    attachment_candidates(m.attachments),
                ),
                None => res.len() == 0,
            },
            AnyCommand::OpenLink(_) => match s.selected_message() {
                Some(m) => res == completions_from(last_shell_part(args), link_candidates(m)),
                None => res.len() == 0,
            },
            AnyCommand::DetachFiles(_) => res == completions_from(
                last_shell_part(args),
                Seq::new(s.compose.attachments_spec().len(), |i: int| crate::text::decimal(i as nat)),
            ),
            AnyCommand::Forward(_) => res == completions_from(
                last_shell_part(args),
                forward_candidates(s, args),
            ),
            _ => res.len() == 0,
        }
    }

    /// The completions of a command line that runs this command (see
    /// [`AnyCommand::offers`]).
    pub fn complete(&self, tui_state: &TuiState, args: &str) -> (res: Vec<Completion>)
        ensures
            self.offers(*tui_state, args@, completion_views(res@)),
    {
        match self {
            AnyCommand::Quit(c) => c.complete(tui_state, args),
            AnyCommand::NextContact(c) => c.complete(tui_state, args),
            AnyCommand::PrevContact(c) => c.complete(tui_state, args),
            AnyCommand::NextMessage(c) => c.complete(tui_state, args),
            AnyCommand::PrevMessage(c) => c.complete(tui_state, args),
            AnyCommand::SelectMessage(c) => c.complete(tui_state, args),
            AnyCommand::SelectContact(c) => c.complete(tui_state, args),
            AnyCommand::NormalMode(c) => c.complete(tui_state, args),
            AnyCommand::ComposeMode(c) => c.complete(tui_state, args),
            AnyCommand::SendMessage(c) => c.complete(tui_state, args),
            AnyCommand::React(c) => c.complete(tui_state, args),
            AnyCommand::Unreact(c) => c.complete(tui_state, args),
            AnyCommand::ReloadContacts(c) => c.complete(tui_state, args),
            AnyCommand::ReloadMessages(c) => c.complete(tui_state, args),
            AnyCommand::ReloadConfig(c) => c.complete(tui_state, args),
            AnyCommand::ComposeInEditor(c) => c.complete(tui_state, args),
            AnyCommand::ClearCompose(c) => c.complete(tui_state, args),
            AnyCommand::DownloadAttachments(c) => c.complete(tui_state, args),
            AnyCommand::OpenAttachments(c) => c.complete(tui_state, args),
            AnyCommand::OpenLink(c) => c.complete(tui_state, args),
            AnyCommand::MessageInfo(c) => c.complete(tui_state, args),
            AnyCommand::ContactInfo(c) => c.complete(tui_state, args),
            AnyCommand::Keybindings(c) => c.complete(tui_state, args),
            AnyCommand::Commands(c) => c.complete(tui_state, args),
            AnyCommand::CommandHistory(c) => c.complete(tui_state, args),
            AnyCommand::Reply(c) => c.complete(tui_state, args),
            AnyCommand::ScrollPopup(c) => c.complete(tui_state, args),
            AnyCommand::AttachFiles(c) => c.complete(tui_state, args),
            AnyCommand::DetachFiles(c) => c.complete(tui_state, args),
            AnyCommand::GotoQuoted(c) => c.complete(tui_state, args),
            AnyCommand::PipeMessage(c) => c.complete(tui_state, args),
            AnyCommand::Forward(c) => c.complete(tui_state, args),
        }
    }
}

/// The index of the first command with the name, if one has it.
pub open spec fn command_index(name: Seq<char>) -> Option<int> {
    if exists|i: int| 0 <= i < command_names().len() && command_names()[i] == name {
        Some(
            choose|i: int|
                0 <= i < command_names().len() && command_names()[i] == name && forall|j: int|
                    0 <= j < i ==> command_names()[j] != name,
        )
    } else {
        None
    }
}

/// The command with the name, its arguments at their defaults (see
/// [`command_index`]).
pub fn find_command(name: &str) -> (res: Option<AnyCommand>)
    ensures
        match command_index(name@) {
            Some(i) => res is Some && kind_of(res->Some_0) == i && res->Some_0.at_defaults(),
            None => res is None,
        },
{
    let mut all = commands();
    let n = all.len();
    let mut i: usize = 0;
    while i < n
        invariant
            i <= n,
            n == command_names().len(),
            all@.len() == n - i,
            forall|k: int| 0 <= k < all@.len() ==> kind_of(#[trigger] all@[k]) == k + i && all@[k].at_defaults(),
            forall|j: int| 0 <= j < i ==> command_names()[j] != name@,
        decreases n - i,
    {
        let c = all.remove(0);
        assert(kind_of(c) == i && c.at_defaults());
        if str_eq(c.name(), name) {
            proof {
                assert(command_names()[i as int] == name@);
                let k = choose|k: int|
                    0 <= k < command_names().len() && command_names()[k] == name@ && forall|j: int|
                        0 <= j < k ==> command_names()[j] != name@;
                if k < i {
                } else if k > i {
                }
            }
            return Some(c);
        }
        i = i + 1;
        assert forall|k: int| 0 <= k < all@.len() implies kind_of(#[trigger] all@[k]) == k + i && all@[k].at_defaults() by {
        }
    }
    None
}

/// Runs the command line typed, then goes back to the mode before it.
#[derive(Debug)]
pub struct ExecuteCommand;

/// The mode that a basic mode names.
pub open spec fn mode_of_basic(b: BasicMode) -> Mode {
    match b {
        BasicMode::Normal => Mode::Normal,
        BasicMode::Popup => Mode::Popup,
        BasicMode::Compose => Mode::Compose,
    }
}

/// `t` is `s` after its command line was taken: back to the mode before,
/// the line emptied and added to the history.
pub open spec fn line_taken(s: TuiState, t: TuiState) -> bool {
    &&& t == TuiState { mode: mode_of_basic(s.mode->previous), command_line: t.command_line, ..s }
    &&& t.command_line.text_lines() == seq![Seq::<char>::empty()]
    &&& t.command_line.error@.len() == 0
    &&& t.command_line.completions.candidates@.len() == 0
    &&& t.command_line.completions.list_state.selected_spec() is None
    &&& t.command_line.completions.generated_for is None
    &&& t.command_line.history@.commands == s.command_line.history@.commands.push(s.command_line.text_lines()[0])
    &&& t.command_line.history@.selected is None
}

/// The words of a command line without the leading `execute-command` ones.
pub open spec fn skip_self(words: Seq<Seq<char>>) -> Seq<Seq<char>>
    decreases words.len(),
{
    if words.len() > 0 && words[0] == "execute-command"@ {
        skip_self(words.drop_first())
    } else {
        words
    }
}

/// Words that name no command to run: none, or one that starts with `-`.
pub open spec fn no_command(words: Seq<Seq<char>>) -> bool {
    words.len() == 0 || (words[0].len() > 0 && words[0][0] == '-')
}

/// What running a command line does before its command runs: the outcome
/// when no command runs, or `None` when the named command runs on the
/// arguments after its name.
pub open spec fn line_outcome(line: Seq<char>) -> Option<Result<CommandSuccess, ErrorView>> {
    match shell_words_of(line) {
        None => Some(Err(ErrorView::Unrunnable("unbalanced quotes in the command line"@))),
        Some(words) => {
            let rest = skip_self(words);
            if no_command(rest) {
                Some(Ok(CommandSuccess::Nothing))
            } else if command_index(rest[0]) is None {
                Some(Err(ErrorView::UnknownCommand(rest[0])))
            } else {
                None
            }
        },
    }
}

/// What running a line whose words (after the leading `execute-command`
/// ones) name a command does: the line is taken (see [`line_taken`]), the
/// command with that name reads the words after the name from its defaults
/// (see [`AnyCommand::parsed`]), and then, where reading them succeeded and
/// the command can run in that state, it runs (see
/// [`AnyCommand::executed`]); otherwise its error, or that it cannot run,
/// is the result.
pub open spec fn named_command_ran(
    before: TuiState,
    after: TuiState,
    effects_before: Seq<Effect>,
    effects_after: Seq<Effect>,
    res: Result<CommandSuccess, Error>,
    words: Seq<Seq<char>>,
) -> bool {
    exists|taken: TuiState, default_command: AnyCommand, command: AnyCommand, read: Result<(), Error>|
        #![trigger line_taken(before, taken), default_command.parsed(command, words.drop_first(), read)]
        {
            &&& line_taken(before, taken)
            &&& taken.wf()
            &&& command_index(words[0]) == Some(kind_of(default_command))
            &&& default_command.at_defaults()
            &&& default_command.parsed(command, words.drop_first(), read)
            &&& match read {
                Err(e) => res == Err::<CommandSuccess, Error>(e) && after == taken && effects_after == effects_before,
                Ok(()) => if command.runs_in(taken) {
                    command.executed(taken, after, effects_before, effects_after, res)
                } else {
                    run_result(res) == Err::<CommandSuccess, ErrorView>(ErrorView::Unrunnable(words[0])) && after
                        == taken && effects_after == effects_before
                },
            }
        }
}

impl Command for ExecuteCommand {
    /// The command line is open.
    open spec fn runs_in(&self, s: TuiState) -> bool {
        s.mode is Command
    }

    fn can_run(&self, s: &TuiState) -> (res: bool) {
        match s.mode {
            Mode::Command { .. } => true,
            _ => false,
        }
    }

    /// Takes the line (see [`line_taken`]) and runs it (see
    /// [`line_outcome`]): the named command reads the arguments after its
    /// name and runs, unless it cannot run in that state.
    open spec fn executed(
        &self,
        before: TuiState,
        after: TuiState,
        effects_before: Seq<Effect>,
        effects_after: Seq<Effect>,
        res: Result<CommandSuccess, Error>,
    ) -> bool {
        match line_outcome(before.command_line.text_lines()[0]) {
            Some(outcome) => run_result(res) == outcome && line_taken(before, after) && effects_after == effects_before,
            None => named_command_ran(
                before,
                after,
                effects_before,
                effects_after,
                res,
                skip_self(shell_words_of(before.command_line.text_lines()[0])->Some_0),
            ),
        }
    }

    fn execute(&self, tui_state: &mut TuiState, outbox: &mut Vec<Effect>) -> (res: Result<CommandSuccess, Error>)
    {
        let cmdline = tui_state.command_line.text();
        let previous = match tui_state.mode {
            Mode::Command { previous } => previous,
            _ => {
                return Err(Error::Unrunnable(owned("execute-command")));
            },
        };
        let mode = match previous {
            BasicMode::Normal => Mode::Normal,
            BasicMode::Popup => Mode::Popup,
            BasicMode::Compose => Mode::Compose,
        };
        let ghost s = *tui_state;
        tui_state.mode = mode;
        tui_state.command_line.clear();
        tui_state.command_line.history.push(owned(cmdline.as_str()));
        let ghost taken = *tui_state;
        assert(line_taken(s, taken));
        assert(taken.wf());
        let words = match shell_split(cmdline.as_str()) {
            Some(w) => w,
            None => {
                return Err(Error::Unrunnable(owned("unbalanced quotes in the command line")));
            },
        };
        let ghost w = texts(words@);
        let mut pargs = arguments_of(words);
        proof {
            reveal_strlit("execute-command");
        }
        let mut subcmd = String::new();
        loop
            invariant_except_break
                skip_self(arguments_items(pargs)) == skip_self(w),
            invariant
                *tui_state == taken,
                s == *old(tui_state),
                taken.wf(),
                *outbox == *old(outbox),
                line_taken(s, taken),
                shell_words_of(s.command_line.text_lines()[0]) == Some(w),
            ensures
                !no_command(skip_self(w)),
                skip_self(w) == seq![subcmd@] + arguments_items(pargs),
            decreases arguments_items(pargs).len(),
        {
            let ghost items = arguments_items(pargs);
            proof {
                reveal_strlit("execute-command");
            }
            match arguments_subcommand(&mut pargs) {
                None => {
                    assert(skip_self(items) == items);
                    return Ok(CommandSuccess::Nothing);
                },
                Some(sub) => {
                    assert(items =~= seq![items[0]] + items.drop_first());
                    if str_eq(sub.as_str(), "execute-command") {
                        continue;
                    } else {
                        assert(skip_self(items) == items);
                        subcmd = sub;
                        break;
                    }
                },
            }
        }
        let mut command = match find_command(subcmd.as_str()) {
            Some(c) => c,
            None => {
                return Err(Error::UnknownCommand(subcmd));
            },
        };
        let ghost default_command = command;
        let ghost args = arguments_items(pargs);
        let ghost rest = skip_self(w);
        assert(rest.drop_first() =~= args);
        let read = command.parse(pargs);
        let ghost read_result = read;
        match read {
            Ok(()) => {},
            Err(e) => {
                assert(named_command_ran(s, *tui_state, old(outbox)@, outbox@, Err(e), rest)) by {
                    assert(default_command.parsed(command, rest.drop_first(), read_result));
                }
                return Err(e);
            },
        }
        if !command.can_run(tui_state) {
            let r = Err(Error::Unrunnable(owned(subcmd.as_str())));
            assert(named_command_ran(s, *tui_state, old(outbox)@, outbox@, r, rest)) by {
                assert(default_command.parsed(command, rest.drop_first(), read_result));
            }
            return r;
        }
        let r = command.execute(tui_state, outbox);
        assert(named_command_ran(s, *tui_state, old(outbox)@, outbox@, r, rest)) by {
            assert(default_command.parsed(command, rest.drop_first(), read_result));
            assert(line_taken(s, taken));
        }
        r
    }

    /// What reading the arguments does.
    open spec fn parsed(&self, after: Self, args: Seq<Seq<char>>, res: Result<(), Error>) -> bool {
        &&& unit_result(res) == unused_result(args)
    }

    fn parse(&mut self, args: Arguments) -> (res: Result<(), Error>)
    {
        check_unused_args(args)
    }

    fn default() -> Self {
        ExecuteCommand
    }

    fn names(&self) -> (res: Vec<&'static str>)
        ensures
            only_name(res@, "execute-command"@),
    {
        vec!["execute-command"]
    }

    fn complete(&self, tui_state: &TuiState, args: &str) -> (res: Vec<Completion>)
        ensures
            res@.len() == 0,
    {
        Vec::new()
    }
}

/// Where the completions of a command line come from.
#[derive(Debug)]
pub enum CompletionSource {
    /// These completions.
    Offer(Vec<Completion>),
    /// Paths of the file system that complete the path (the program around
    /// the interface lists them).
    Paths(String),
    /// None: the line names no command.
    Nothing,
}

/// The text before the first space.
pub open spec fn first_word(s: Seq<char>) -> Seq<char> {
    if has_char(s, ' ') {
        s.take(choose|i: int| 0 <= i < s.len() && s[i] == ' ' && forall|j: int| 0 <= j < i ==> s[j] != ' ')
    } else {
        s
    }
}

/// The names of all commands, as completions of a command line.
pub fn all_command_names() -> (res: Vec<String>)
    ensures
        texts(res@) == command_names(),
{
    let all = commands();
    let mut names: Vec<String> = Vec::new();
    let mut i: usize = 0;
    while i < all.len()
        invariant
            i <= all.len(),
            all@.len() == command_names().len(),
            forall|k: int| 0 <= k < all@.len() ==> kind_of(#[trigger] all@[k]) == k,
            texts(names@) == command_names().take(i as int),
        decreases all.len() - i,
    {
        assert(kind_of(all@[i as int]) == i);
        let ghost prev = names@;
        names.push(owned(all[i].name()));
        proof {
            crate::text::lemma_texts_push(prev, names@.last());
        }
        i = i + 1;
        assert(texts(names@) =~= command_names().take(i as int));
    }
    assert(command_names().take(all.len() as int) =~= command_names());
    names
}

/// What completes the text before the cursor: with no space, the names of
/// the commands; else what the command named by the first word offers, the
/// paths for `attach-files`, and nothing for an unknown command.
pub fn completions_for(tui_state: &TuiState, before_cursor: &str) -> (res: CompletionSource)
    ensures
        !has_char(before_cursor@, ' ') ==> res is Offer && completion_views(res->Offer_0@) == completions_from(
            last_shell_part(before_cursor@),
            command_names(),
        ),
        has_char(before_cursor@, ' ') ==> match command_index(first_word(before_cursor@)) {
            None => res is Nothing,
            Some(i) => if i == 27 {
                res is Paths && res->Paths_0@ == crate::commands::attachments::last_word(before_cursor@)
            } else {
                res is Offer && exists|c: AnyCommand|
                    #![trigger c.offers(*tui_state, before_cursor@, completion_views(res->Offer_0@))]
                    kind_of(c) == i && c.offers(*tui_state, before_cursor@, completion_views(res->Offer_0@))
            },
        },
{
    let cs = chars_of(before_cursor);
    let mut k: usize = 0;
    while k < cs.len() && cs[k] != ' '
        invariant
            k <= cs.len(),
            cs@ == before_cursor@,
            forall|j: int| 0 <= j < k ==> cs@[j] != ' ',
        decreases cs.len() - k,
    {
        k = k + 1;
    }
    if k == cs.len() {
        let names = all_command_names();
        return CompletionSource::Offer(complete_from_list(before_cursor, names.as_slice()));
    }
    let subcmd = string_of_range(&cs, 0, k);
    proof {
        let f = choose|i: int| 0 <= i < cs@.len() && cs@[i] == ' ' && forall|j: int| 0 <= j < i ==> cs@[j] != ' ';
        if f < k {
        } else if f > k {
        }
        assert(subcmd@ == first_word(before_cursor@));
    }
    match find_command(subcmd.as_str()) {
        None => CompletionSource::Nothing,
        Some(command) => {
            match command {
                AnyCommand::AttachFiles(_) => CompletionSource::Paths(AttachFiles::path_to_complete(before_cursor)),
                _ => {
                    let offered = command.complete(tui_state, before_cursor);
                    let res = CompletionSource::Offer(offered);
                    assert(kind_of(command) == command_index(first_word(before_cursor@))->Some_0);
                    assert(command.offers(*tui_state, before_cursor@, completion_views(res->Offer_0@)));
                    res
                },
            }
        },
    }
}

/// The completions offered on a command line (`after`): those made before
/// for the same line stay, others give way to `completions`, none chosen.
pub open spec fn offered_for(before: CommandLine, after: CommandLine, completions: Seq<Completion>) -> bool {
    let line = before.line_without_completion();
    &&& before.completions.generated_for_spec() == Some(line) ==> after.completions == before.completions
    &&& before.completions.generated_for_spec() != Some(line) ==> {
        &&& after.completions.candidates@ == completions
        &&& after.completions.list_state.selected_spec() is None
        &&& after.completions.generated_for_spec() == Some(line)
    }
}

/// A text typed at the cursor of a command line (`after`), where there is no
/// selection and the cursor stands in the text (see [`lines_with_text`]).
pub open spec fn typed_at_cursor(before: CommandLine, after: CommandLine, text: Seq<char>) -> bool {
    before.plain_cursor_after(0) ==> {
        let (row, col) = before.cursor();
        &&& after.text_lines() == lines_with_text(before.text_lines(), row, col, text)
        &&& after.cursor() == cursor_after_text(row, col, text)
    }
}

/// After a single completion is typed (`after`), where none was chosen: the
/// completions made before for the new line stay; otherwise none are
/// offered, none chosen, and they count as made for the new line.
pub open spec fn offered_none_after_typing(before: CommandLine, after: CommandLine) -> bool {
    before.completions.list_state.selected_spec() is None ==> {
        let line = after.text_lines()[0];
        &&& before.completions.generated_for_spec() == Some(line) ==> after.completions == before.completions
        &&& before.completions.generated_for_spec() != Some(line) ==> {
            &&& after.completions.candidates@.len() == 0
            &&& after.completions.list_state.selected_spec() is None
            &&& after.completions.generated_for_spec() == Some(line)
        }
    }
}

/// Offers the completions: a single one is typed at once (and none are
/// offered), more are offered to choose from.
pub fn finish_completion(tui_state: &mut TuiState, completions: Vec<Completion>)
    requires
        old(tui_state).wf(),
    ensures
        final(tui_state).wf(),
        *final(tui_state) == (TuiState { command_line: final(tui_state).command_line, ..*old(tui_state) }),
        final(tui_state).command_line.history == old(tui_state).command_line.history,
        final(tui_state).command_line.error == old(tui_state).command_line.error,
        completions@.len() != 1 ==> {
            let before = old(tui_state).command_line;
            let after = final(tui_state).command_line;
            &&& after.text_lines() == before.text_lines()
            &&& after.cursor() == before.cursor()
            &&& (after.completions == before.completions || (after.completions.candidates@ == completions@
                && after.completions.list_state.selected_spec() is None))
            &&& before.completion_known() ==> offered_for(before, after, completions@)
        },
        completions@.len() == 1 ==> final(tui_state).command_line.completions.list_state.selected_spec() is None
            || final(tui_state).command_line.completions == old(tui_state).command_line.completions,
        completions@.len() == 1 ==> typed_at_cursor(
            old(tui_state).command_line,
            final(tui_state).command_line,
            completions@[0]@.append,
        ),
        completions@.len() == 1 ==> offered_none_after_typing(
            old(tui_state).command_line,
            final(tui_state).command_line,
        ),
{
    if completions.len() == 1 {
        let append = owned(completions[0].append.as_str());
        tui_state.command_line.append_text(append);
        tui_state.command_line.set_completions(Vec::new());
    } else {
        tui_state.command_line.set_completions(completions);
    }
}

/// What completing the command line asks of the program around the
/// interface.
#[derive(Debug)]
pub enum CompletionStep {
    /// Nothing more: the completions are offered or chosen.
    Done,
    /// List the paths that complete the path, and hand the completions to
    /// [`finish_completion`].
    Paths(String),
}

/// The text that completing a command line looks at: the line without the
/// chosen completion, up to the cursor.
pub open spec fn completion_prefix(cl: CommandLine) -> Seq<char> {
    let line = cl.line_without_completion();
    if cl.cursor().1 < line.len() {
        line.take(cl.cursor().1)
    } else {
        line
    }
}

/// A command line (`after`) once new completions (`offered`) for its line
/// were handed over: a single one is typed, others are offered, none chosen.
pub open spec fn finished_with(before: CommandLine, after: CommandLine, offered: Seq<CompletionView>) -> bool {
    &&& offered.len() == 1 ==> typed_at_cursor(before, after, offered[0].append)
    &&& offered.len() == 1 ==> offered_none_after_typing(before, after)
    &&& offered.len() != 1 ==> {
        &&& after.text_lines() == before.text_lines()
        &&& after.cursor() == before.cursor()
        &&& completion_views(after.completions.candidates@) == offered
        &&& after.completions.list_state.selected_spec() is None
        &&& after.completions.generated_for_spec() == Some(before.line_without_completion())
    }
}

/// What completing a command line (`before`) that had no completions made
/// for its line does, by the text before the cursor: the names of the
/// commands without a space; the paths for `attach-files`; what the named
/// command offers; nothing for an unknown command.
pub open spec fn completed_anew(
    state: TuiState,
    before: CommandLine,
    after: CommandLine,
    res: CompletionStep,
) -> bool {
    let prefix = completion_prefix(before);
    if !has_char(prefix, ' ') {
        res is Done && finished_with(before, after, completions_from(last_shell_part(prefix), command_names()))
    } else {
        match command_index(first_word(prefix)) {
            None => res is Done && after == before,
            Some(i) => if i == 27 {
                res is Paths && res->Paths_0@ == crate::commands::attachments::last_word(prefix) && after == before
            } else {
                res is Done && exists|c: AnyCommand, offered: Seq<CompletionView>|
                    #![trigger c.offers(state, prefix, offered)]
                    kind_of(c) == i && c.offers(state, prefix, offered) && finished_with(before, after, offered)
            },
        }
    }
}

/// Completes the command line: with the completions already made for this
/// line, chooses the next one; else makes them from the text before the
/// cursor (see [`completions_for`]) and offers them (see
/// [`finish_completion`]).
pub fn complete_command(tui_state: &mut TuiState) -> (res: CompletionStep)
    requires
        old(tui_state).wf(),
    ensures
        final(tui_state).wf(),
        *final(tui_state) == (TuiState { command_line: final(tui_state).command_line, ..*old(tui_state) }),
        final(tui_state).command_line.history == old(tui_state).command_line.history,
        final(tui_state).command_line.error == old(tui_state).command_line.error,
        old(tui_state).command_line.completion_known() ==> ({
            let before = old(tui_state).command_line;
            let after = final(tui_state).command_line;
            if before.completions.generated_for_spec() == Some(before.line_without_completion()) {
                &&& res is Done
                &&& after.completions.candidates@ == before.completions.candidates@
                &&& after.completions.list_state.selected_spec() == before.completions.next_selection()
                &&& before.next_completion_typed(after)
            } else {
                completed_anew(*old(tui_state), before, after, res)
            }
        }),
{
    let cmd_line = tui_state.command_line.text_without_completion();
    let same = match tui_state.command_line.completions_generated_for() {
        Some(g) => str_eq(g.as_str(), cmd_line.as_str()),
        None => false,
    };
    if same {
        tui_state.command_line.select_next_completion();
        return CompletionStep::Done;
    }
    let cursor_index = tui_state.command_line.cursor_index();
    let cs = chars_of(cmd_line.as_str());
    let end = if cursor_index < cs.len() {
        cursor_index
    } else {
        cs.len()
    };
    let before_cursor = string_of_range(&cs, 0, end);
    let ghost before = tui_state.command_line;
    proof {
        if before.completion_known() {
            assert(before_cursor@ =~= completion_prefix(before));
        }
    }
    match completions_for(tui_state, before_cursor.as_str()) {
        CompletionSource::Nothing => CompletionStep::Done,
        CompletionSource::Paths(p) => CompletionStep::Paths(p),
        CompletionSource::Offer(completions) => {
            let ghost offered = completions@;
            finish_completion(tui_state, completions);
            proof {
                if before.completion_known() {
                    lemma_finished(before, tui_state.command_line, offered);
                }
            }
            CompletionStep::Done
        },
    }
}

/// What [`finish_completion`] ensures, for a line that had no completions
/// made for it, is [`finished_with`] of the completions' views.
proof fn lemma_finished(before: CommandLine, after: CommandLine, completions: Seq<Completion>)
    requires
        before.completion_known(),
        before.completions.generated_for_spec() != Some(before.line_without_completion()),
        completions.len() != 1 ==> {
            &&& after.text_lines() == before.text_lines()
            &&& after.cursor() == before.cursor()
            &&& offered_for(before, after, completions)
        },
        completions.len() == 1 ==> typed_at_cursor(before, after, completions[0]@.append),
        completions.len() == 1 ==> offered_none_after_typing(before, after),
    ensures
        finished_with(before, after, completion_views(completions)),
{
}

/// The lines of the popup of commands: each command's name after `:`.
pub open spec fn command_lines() -> Seq<Seq<char>> {
    Seq::new(command_names().len(), |i: int| ":"@ + command_names()[i])
}

/// The title and the text of the popup of commands: their names after `:`,
/// sorted, one per line.
pub fn render_commands() -> (res: (String, String))
    ensures
        res.0@ == "Commands"@,
        res.1@ == join(sorted_of(command_lines()), "\n"@),
{
    let names = all_command_names();
    let mut lines: Vec<String> = Vec::new();
    let mut i: usize = 0;
    while i < names.len()
        invariant
            i <= names.len(),
            texts(names@) == command_names(),
            texts(lines@) == command_lines().take(i as int),
        decreases names.len() - i,
    {
        let mut l = owned(":");
        push_str(&mut l, names[i].as_str());
        let ghost prev = lines@;
        lines.push(l);
        proof {
            crate::text::lemma_texts_push(prev, lines@.last());
        }
        i = i + 1;
        assert(texts(lines@) =~= command_lines().take(i as int));
    }
    assert(command_lines().take(names.len() as int) =~= command_lines());
    let sorted = sort_strings(lines);
    (owned("Commands"), join_strings(sorted.as_slice(), "\n"))
}

} // verus!
