//! How the interface answers keys and news from the backend: the decisions,
//! as steps that tell the program around it what to do next.
use vstd::prelude::*;

use crate::backends::{ContactId, ContactIdView, ContactView, Message};
use crate::tui::contacts::{first_index, has_id, latest_user};
use crate::tui::messages::{
    all_applicable, applicable, apply_all, apply_message, attachment_known, incoming_views, with_attachment_path,
};
use crate::commands::navigation::{basic_mode_of, normal_mode_state, CommandMode, NormalMode};
use crate::commands::messaging::{NextCommand, PrevCommand};
use crate::commands::registry::{complete_command, CompletionStep, ExecuteCommand};
use crate::commands::{load_messages, push_effect, Command, CommandSuccess, Effect, EffectView, Error};
use crate::config::Config;
use crate::keybinds::{
    key_events_text, lookup, no_modifiers, parse_key_events, KeyBinds, KeyCode, KeyEvent, KeyEvents,
};
use crate::message::{BackendMessage, FrontendMessage, TimestampBound};
use crate::text::{owned, push_str};
use crate::tui::command_line::CommandLine;
use crate::tui::{Mode, TuiState};

verus! {

/// Work that answering keys leaves to the program around the interface.
#[derive(Debug)]
pub enum KeyAction {
    /// Type the key into the command line (`CommandLine::input`).
    CommandLineInput(KeyEvent),
    /// Type the key into the compose box (`Compose::input`).
    ComposeInput(KeyEvent),
    /// Do what a command left to do.
    Perform(Effect),
    /// Clear the terminal, so that the next drawing starts afresh.
    ClearTerminal,
    /// List the paths that complete the path, then hand the completions to
    /// `finish_completion`.
    CompletePaths(String),
}

/// A [`KeyAction`] as a value.
pub enum KeyActionView {
    CommandLineInput(KeyEvent),
    ComposeInput(KeyEvent),
    Perform(EffectView),
    ClearTerminal,
    CompletePaths(Seq<char>),
}

impl View for KeyAction {
    type V = KeyActionView;

    open spec fn view(&self) -> KeyActionView {
        match self {
            KeyAction::CommandLineInput(k) => KeyActionView::CommandLineInput(*k),
            KeyAction::ComposeInput(k) => KeyActionView::ComposeInput(*k),
            KeyAction::Perform(e) => KeyActionView::Perform(e@),
            KeyAction::ClearTerminal => KeyActionView::ClearTerminal,
            KeyAction::CompletePaths(p) => KeyActionView::CompletePaths(p@),
        }
    }
}

/// The values of a list of actions.
pub open spec fn action_views(v: Seq<KeyAction>) -> Seq<KeyActionView> {
    v.map_values(|a: KeyAction| a@)
}

/// What to do after a step of answering keys.
#[derive(Debug)]
pub enum KeyStep {
    /// Do this, then take the next step.
    Act(KeyAction),
    /// A key was answered and left nothing to do: take the next step.
    Continue,
    /// All keys are answered; `true` asks to leave the interface.
    Done(bool),
    /// The interface cannot go on (a binding that does not parse, a command
    /// that cannot run in this state, or bindings that expand without end).
    Stop(String),
}

/// Answers a key, and the keys that key bindings stand for, one step at a
/// time. Keys that a binding stands for are answered before the keys after
/// it; the answer is that of the last key answered, and only running a
/// `quit` answers `true`.
#[derive(Debug)]
pub struct KeyDriver {
    /// The keys still to answer, the next one last.
    pub pending: Vec<KeyEvent>,
    /// The work still to hand out, the next first.
    pub actions: Vec<KeyAction>,
    /// The answer so far.
    pub last: bool,
    /// How many more keys may be answered.
    pub fuel: u64,
}

/// The keys of a sequence, the first last (to be taken from the end).
pub open spec fn stacked(keys: Seq<KeyEvent>) -> Seq<KeyEvent> {
    keys.reverse()
}

/// The message for keys that no binding starts with.
pub open spec fn no_binding_text(events: Seq<KeyEvent>) -> Seq<char> {
    "Failed to find keybind for "@ + key_events_text(events)
}

/// The keys typed so far, with `key` after them.
pub open spec fn typed(s: TuiState, key: KeyEvent) -> Seq<KeyEvent> {
    s.key_events.0@.push(key)
}

/// `key` opens the command line: `:` with no modifier, nothing typed
/// before it, outside the compose box.
pub open spec fn opens_command_line(s: TuiState, key: KeyEvent) -> bool {
    key.code == KeyCode::Char(':') && key.modifiers == no_modifiers() && s.key_events.0@.len() == 0 && !(
    s.mode is Compose)
}

/// `key` goes back to normal mode: escape with no modifier, nothing typed
/// before it.
pub open spec fn escapes(s: TuiState, key: KeyEvent) -> bool {
    key.code == KeyCode::Esc && key.modifiers == no_modifiers() && s.key_events.0@.len() == 0
}

/// What answering the keys typed with the bindings of a mode does: a bound
/// command is run by the keys it stands for (which come next, the keys
/// typed forgotten), and one that does not parse stops the interface; a
/// start of a binding waits for more keys; keys that start no binding are
/// forgotten, typed into the box in the compose box, with an error shown in
/// the other modes.
pub open spec fn bindings_answered(
    pending_before: Seq<KeyEvent>,
    actions_before: Seq<KeyActionView>,
    pending_after: Seq<KeyEvent>,
    actions_after: Seq<KeyActionView>,
    last: bool,
    before: TuiState,
    after: TuiState,
    bindings: Seq<(KeyEvents, String)>,
    keys: Seq<KeyEvent>,
    mode: Mode,
    res: Option<String>,
) -> bool {
    match lookup(bindings, keys) {
        Ok(command) => match parse_key_events(command) {
            Some(bound) => {
                &&& res is None
                &&& pending_after == pending_before + stacked(bound)
                &&& !last
                &&& actions_after == actions_before
                &&& after == (TuiState { key_events: after.key_events, ..before })
                &&& after.key_events.0@.len() == 0
            },
            None => res is Some,
        },
        Err(prefix) => {
            &&& res is None
            &&& pending_after == pending_before
            &&& !last
            &&& if prefix {
                &&& after == (TuiState { key_events: after.key_events, ..before })
                &&& after.key_events.0@ == keys
                &&& actions_after == actions_before
            } else if mode is Compose {
                &&& after == (TuiState { key_events: after.key_events, ..before })
                &&& after.key_events.0@.len() == 0
                &&& actions_after == actions_before + Seq::new(
                    keys.len(),
                    |i: int| KeyActionView::ComposeInput(keys[i]),
                )
            } else {
                &&& after == (TuiState {
                    key_events: after.key_events,
                    command_line: CommandLine { error: after.command_line.error, ..before.command_line },
                    ..before
                })
                &&& after.key_events.0@.len() == 0
                &&& after.command_line.error@ == no_binding_text(keys)
                &&& actions_after == actions_before
            }
        },
    }
}

/// What answering a key in command mode does: enter runs the line (see
/// [`line_entered`]), up and down walk the history (see [`PrevCommand`] and
/// [`NextCommand`]), tab completes the line (only the command line changes,
/// and the paths to complete may be asked for), and any other key is typed
/// into the line.
pub open spec fn command_key_answered(
    actions_before: Seq<KeyActionView>,
    actions_after: Seq<KeyActionView>,
    last: bool,
    before: TuiState,
    after: TuiState,
    key: KeyEvent,
    res: Option<String>,
) -> bool {
    if key.code == KeyCode::Enter {
        line_entered(before, after, actions_before, actions_after, last, res)
    } else if key.code == KeyCode::Up {
        &&& res is None
        &&& !last
        &&& actions_after == actions_before
        &&& exists|effects: Seq<Effect>, r: Result<CommandSuccess, Error>|
            #![trigger PrevCommand.executed(before, after, Seq::empty(), effects, r)]
            PrevCommand.executed(before, after, Seq::empty(), effects, r)
    } else if key.code == KeyCode::Down {
        &&& res is None
        &&& !last
        &&& actions_after == actions_before
        &&& exists|effects: Seq<Effect>, r: Result<CommandSuccess, Error>|
            #![trigger NextCommand.executed(before, after, Seq::empty(), effects, r)]
            NextCommand.executed(before, after, Seq::empty(), effects, r)
    } else if key.code == KeyCode::Tab {
        &&& res is None
        &&& !last
        &&& after == (TuiState { command_line: after.command_line, ..before })
        &&& after.command_line.history == before.command_line.history
        &&& after.command_line.error == before.command_line.error
        &&& (actions_after == actions_before || exists|p: Seq<char>|
            #![trigger actions_before.push(KeyActionView::CompletePaths(p))]
            actions_after == actions_before.push(KeyActionView::CompletePaths(p)))
    } else {
        &&& res is None
        &&& !last
        &&& actions_after == actions_before.push(KeyActionView::CommandLineInput(key))
        &&& after == before
    }
}

/// What answering one key does (see [`KeyDriver::answer`]): `:` opens the
/// command line (see [`CommandMode`]) and escape goes back to normal mode
/// (see [`normal_mode_state`]); otherwise, outside command mode the key
/// joins the keys typed and they are answered with the mode's bindings (see
/// [`bindings_answered`]), and in command mode the keys typed are forgotten
/// and the key is answered there (see [`command_key_answered`]).
pub open spec fn key_answered(
    pending_before: Seq<KeyEvent>,
    actions_before: Seq<KeyActionView>,
    pending_after: Seq<KeyEvent>,
    actions_after: Seq<KeyActionView>,
    last: bool,
    before: TuiState,
    after: TuiState,
    keybinds: KeyBinds,
    key: KeyEvent,
    res: Option<String>,
) -> bool {
    if opens_command_line(before, key) {
        &&& res is None
        &&& pending_after == pending_before
        &&& !last
        &&& actions_after == actions_before
        &&& exists|effects: Seq<Effect>, r: Result<CommandSuccess, Error>|
            #![trigger CommandMode.executed(before, after, Seq::empty(), effects, r)]
            CommandMode.executed(before, after, Seq::empty(), effects, r)
    } else if escapes(before, key) {
        &&& res is None
        &&& pending_after == pending_before
        &&& !last
        &&& actions_after == actions_before
        &&& normal_mode_state(before, after)
    } else if !(before.mode is Command) {
        bindings_answered(
            pending_before,
            actions_before,
            pending_after,
            actions_after,
            last,
            before,
            after,
            keybinds.bindings_for(before.mode),
            typed(before, key),
            before.mode,
            res,
        )
    } else {
        &&& pending_after == pending_before
        &&& exists|cleared: TuiState|
            #![trigger keys_forgotten(before, cleared)]
            keys_forgotten(before, cleared) && command_key_answered(
                actions_before,
                actions_after,
                last,
                cleared,
                after,
                key,
                res,
            )
    }
}

/// `t` is `s` with the keys typed forgotten.
pub open spec fn keys_forgotten(s: TuiState, t: TuiState) -> bool {
    t == (TuiState { key_events: t.key_events, ..s }) && t.key_events.0@.len() == 0
}

/// The actions that hand out the effects, in order.
pub open spec fn performed(effects: Seq<Effect>) -> Seq<KeyActionView> {
    Seq::new(effects.len(), |i: int| KeyActionView::Perform(effects[i]@))
}

/// What entering the command line does: the line runs (see
/// [`ExecuteCommand`]'s [`Command::executed`]) and its effects are handed
/// out; `quit` answers `true`, `clear` also clears the terminal, a command
/// that cannot run stops the interface, and another error is shown on the
/// command line.
pub open spec fn line_entered(
    before: TuiState,
    after: TuiState,
    actions_before: Seq<KeyActionView>,
    actions_after: Seq<KeyActionView>,
    last: bool,
    res: Option<String>,
) -> bool {
    exists|ran: TuiState, effects: Seq<Effect>, r: Result<CommandSuccess, Error>|
        #![trigger ExecuteCommand.executed(before, ran, Seq::empty(), effects, r)]
        {
            &&& ExecuteCommand.executed(before, ran, Seq::empty(), effects, r)
            &&& match r {
                Ok(CommandSuccess::Clear) => actions_after == (actions_before + performed(effects)).push(
                    KeyActionView::ClearTerminal,
                ),
                _ => actions_after == actions_before + performed(effects),
            }
            &&& last == (r == Ok::<CommandSuccess, Error>(CommandSuccess::Quit))
            &&& match r {
                Ok(_) => res is None && after == ran,
                Err(Error::Unrunnable(m)) => res == Some(m) && after == ran,
                Err(e) => {
                    &&& res is None
                    &&& after == (TuiState {
                        command_line: CommandLine { error: after.command_line.error, ..ran.command_line },
                        ..ran
                    })
                    &&& after.command_line.error@ == crate::commands::error_text(e@)
                },
            }
        }
}

impl KeyDriver {
    /// A driver that answers the key, with the given bound on the number of
    /// keys answered.
    pub fn new(key: KeyEvent, fuel: u64) -> (res: Self)
        ensures
            res.pending@ == seq![key],
            res.actions@.len() == 0,
            res.last == false,
            res.fuel == fuel,
    {
        let mut pending: Vec<KeyEvent> = Vec::new();
        pending.push(key);
        KeyDriver { pending, actions: Vec::new(), last: false, fuel }
    }

    /// Takes one step: hands out the next action; or, with none left,
    /// answers the next key (see [`KeyDriver::answer`]); or, with no key
    /// left, gives the answer. Each key answered uses up one unit of fuel.
    pub fn step(&mut self, tui_state: &mut TuiState, config: &Config) -> (res: KeyStep)
        requires
            old(tui_state).wf(),
        ensures
            final(tui_state).wf(),
            old(self).actions@.len() > 0 ==> {
                &&& res is Act
                &&& res->Act_0@ == old(self).actions@[0]@
                &&& action_views(final(self).actions@) == action_views(old(self).actions@).drop_first()
                &&& final(self).pending@ == old(self).pending@
                &&& final(self).last == old(self).last
                &&& *final(tui_state) == *old(tui_state)
            },
            old(self).actions@.len() == 0 && old(self).pending@.len() == 0 ==> res == KeyStep::Done(old(self).last)
                && *final(tui_state) == *old(tui_state),
            old(self).actions@.len() == 0 && old(self).pending@.len() > 0 && old(self).fuel == 0 ==> res is Stop
                && *final(tui_state) == *old(tui_state),
            old(self).actions@.len() == 0 && old(self).pending@.len() > 0 && old(self).fuel > 0 ==> {
                &&& final(self).fuel == old(self).fuel - 1
                &&& (res is Continue || res is Stop)
                &&& key_answered(
                    old(self).pending@.drop_last(),
                    action_views(old(self).actions@),
                    final(self).pending@,
                    action_views(final(self).actions@),
                    final(self).last,
                    *old(tui_state),
                    *final(tui_state),
                    config.keybinds,
                    old(self).pending@.last(),
                    match res {
                        KeyStep::Stop(m) => Some(m),
                        _ => None,
                    },
                )
            },
            final(self).fuel <= old(self).fuel,
    {
        if self.actions.len() > 0 {
            let ghost before = self.actions@;
            let a = self.actions.remove(0);
            assert(action_views(self.actions@) =~= action_views(before).drop_first());
            return KeyStep::Act(a);
        }
        match self.pending.pop() {
            None => KeyStep::Done(self.last),
            Some(key) => {
                if self.fuel == 0 {
                    return KeyStep::Stop(owned("key bindings expand without end"));
                }
                self.fuel = self.fuel - 1;
                match self.answer(tui_state, config, key) {
                    Some(message) => KeyStep::Stop(message),
                    None => KeyStep::Continue,
                }
            },
        }
    }

    /// Replaces the keys typed by the keys that a bound command stands for,
    /// to be answered next.
    fn run_binding(&mut self, tui_state: &mut TuiState, command: &str) -> (res: Option<String>)
        requires
            old(tui_state).wf(),
        ensures
            final(tui_state).wf(),
            *final(tui_state) == (TuiState { key_events: final(tui_state).key_events, ..*old(tui_state) }),
            final(tui_state).key_events.0@.len() == 0,
            action_views(final(self).actions@) == action_views(old(self).actions@),
            final(self).fuel == old(self).fuel,
            match parse_key_events(command@) {
                Some(keys) => res is None && final(self).pending@ == old(self).pending@ + stacked(keys)
                    && final(self).last == false,
                None => res is Some,
            },
    {
        tui_state.key_events = KeyEvents::new();
        match KeyEvents::from_str(command) {
            Ok(keys) => {
                let ghost start = self.pending@;
                let mut i: usize = keys.0.len();
                while i > 0
                    invariant
                        i <= keys.0.len(),
                        self.pending@ == start + keys.0@.subrange(i as int, keys.0@.len() as int).reverse(),
                        action_views(self.actions@) == action_views(old(self).actions@),
                        self.fuel == old(self).fuel,
                    decreases i,
                {
                    self.pending.push(keys.0[i - 1]);
                    i = i - 1;
                    assert(self.pending@ =~= start + keys.0@.subrange(i as int, keys.0@.len() as int).reverse());
                }
                assert(keys.0@.subrange(0, keys.0@.len() as int) =~= keys.0@);
                self.last = false;
                None
            },
            Err(_) => {
                let mut m = owned("a key binding does not parse: ");
                push_str(&mut m, command);
                Some(m)
            },
        }
    }

    /// Queues the effects that a command left.
    fn queue_effects(&mut self, effects: Vec<Effect>)
        ensures
            action_views(final(self).actions@) == action_views(old(self).actions@) + Seq::new(
                effects@.len(),
                |i: int| KeyActionView::Perform(effects@[i]@),
            ),
            final(self).pending@ == old(self).pending@,
            final(self).last == old(self).last,
            final(self).fuel == old(self).fuel,
    {
        let ghost all = effects@;
        let n = effects.len();
        let mut effects = effects;
        let mut taken: usize = 0;
        assert(action_views(self.actions@) =~= action_views(old(self).actions@) + Seq::new(
            0,
            |i: int| KeyActionView::Perform(all[i]@),
        ));
        while effects.len() > 0
            invariant
                taken + effects@.len() == all.len(),
                all.len() == n,
                effects@ == all.subrange(taken as int, all.len() as int),
                action_views(self.actions@) == action_views(old(self).actions@) + Seq::new(
                    taken as nat,
                    |i: int| KeyActionView::Perform(all[i]@),
                ),
                self.pending@ == old(self).pending@,
                self.last == old(self).last,
                self.fuel == old(self).fuel,
            decreases effects@.len(),
        {
            let e = effects.remove(0);
            assert(e == all[taken as int]);
            let ghost before = self.actions@;
            let ghost ev = e@;
            self.actions.push(KeyAction::Perform(e));
            assert(action_views(self.actions@) =~= action_views(before).push(KeyActionView::Perform(ev)));
            taken = taken + 1;
            assert(action_views(self.actions@) =~= action_views(old(self).actions@) + Seq::new(
                taken as nat,
                |i: int| KeyActionView::Perform(all[i]@),
            ));
        }
    }

    /// Answers the keys typed with the bindings of a mode: a bound command
    /// is run by the keys it stands for, a start of a binding waits for more
    /// keys, and keys that start no binding are dropped, with an error in
    /// normal mode and popups and typed into the box in the compose box.
    fn answer_with_bindings(&mut self, tui_state: &mut TuiState, config: &Config, mode: Mode) -> (res: Option<String>)
        requires
            old(tui_state).wf(),
        ensures
            final(tui_state).wf(),
            final(self).fuel == old(self).fuel,
            bindings_answered(
                old(self).pending@,
                action_views(old(self).actions@),
                final(self).pending@,
                action_views(final(self).actions@),
                final(self).last,
                *old(tui_state),
                *final(tui_state),
                config.keybinds.bindings_for(mode),
                old(tui_state).key_events.0@,
                mode,
                res,
            ),
    {
        match config.keybinds.get(&tui_state.key_events, mode) {
            Ok(command) => self.run_binding(tui_state, command.as_str()),
            Err(true) => {
                self.last = false;
                None
            },
            Err(false) => {
                match mode {
                    Mode::Compose => {
                        let ghost keys = tui_state.key_events.0@;
                        let mut i: usize = 0;
                        while i < tui_state.key_events.0.len()
                            invariant
                                i <= tui_state.key_events.0.len(),
                                keys == tui_state.key_events.0@,
                                action_views(self.actions@) == action_views(old(self).actions@) + Seq::new(
                                    i as nat,
                                    |k: int| KeyActionView::ComposeInput(keys[k]),
                                ),
                                self.pending@ == old(self).pending@,
                                self.fuel == old(self).fuel,
                            decreases tui_state.key_events.0.len() - i,
                        {
                            let ghost before = self.actions@;
                            let k = tui_state.key_events.0[i];
                            self.actions.push(KeyAction::ComposeInput(k));
                            assert(action_views(self.actions@) =~= action_views(before).push(
                                KeyActionView::ComposeInput(k),
                            ));
                            i = i + 1;
                            assert(action_views(self.actions@) =~= action_views(old(self).actions@) + Seq::new(
                                i as nat,
                                |k: int| KeyActionView::ComposeInput(keys[k]),
                            ));
                        }
                    },
                    _ => {
                        let mut error = owned("Failed to find keybind for ");
                        let keys = tui_state.key_events.to_text();
                        push_str(&mut error, keys.as_str());
                        tui_state.command_line.error = error;
                    },
                }
                tui_state.key_events = KeyEvents::new();
                self.last = false;
                None
            },
        }
    }

    /// Answers a key in command mode: tab completes the line, enter runs it
    /// (its effects are handed out, a `quit` answers `true`), up and down walk
    /// the history, and any other key is typed into the line.
    fn answer_command_line(&mut self, tui_state: &mut TuiState, key: KeyEvent) -> (res: Option<String>)
        requires
            old(tui_state).wf(),
            old(tui_state).mode is Command,
        ensures
            final(tui_state).wf(),
            final(self).fuel == old(self).fuel,
            final(self).pending@ == old(self).pending@,
            command_key_answered(
                action_views(old(self).actions@),
                action_views(final(self).actions@),
                final(self).last,
                *old(tui_state),
                *final(tui_state),
                key,
                res,
            ),
    {
        let mut outbox: Vec<Effect> = Vec::new();
        self.last = false;
        if key.code == KeyCode::Tab {
            match complete_command(tui_state) {
                CompletionStep::Paths(p) => {
                    let ghost before_actions = self.actions@;
                    let ghost path = p@;
                    self.actions.push(KeyAction::CompletePaths(p));
                    assert(action_views(self.actions@) =~= action_views(before_actions).push(
                        KeyActionView::CompletePaths(path),
                    ));
                },
                CompletionStep::Done => {},
            }
            None
        } else if key.code == KeyCode::Enter {
            let ghost before = *tui_state;
            let ghost before_actions = action_views(self.actions@);
            let result = ExecuteCommand.execute(tui_state, &mut outbox);
            let ghost ran = *tui_state;
            let ghost effects = outbox@;
            self.queue_effects(outbox);
            assert(action_views(self.actions@) == before_actions + performed(effects));
            let res = match result {
                Ok(CommandSuccess::Nothing) => None,
                Ok(CommandSuccess::Quit) => {
                    self.last = true;
                    None
                },
                Ok(CommandSuccess::Clear) => {
                    let ghost queued = self.actions@;
                    self.actions.push(KeyAction::ClearTerminal);
                    assert(action_views(self.actions@) =~= action_views(queued).push(KeyActionView::ClearTerminal));
                    None
                },
                Err(Error::Unrunnable(m)) => Some(m),
                Err(e) => {
                    tui_state.command_line.error = e.to_string();
                    None
                },
            };
            assert(line_entered(before, *tui_state, before_actions, action_views(self.actions@), self.last, res)) by {
                assert(ExecuteCommand.executed(before, ran, Seq::empty(), effects, result));
            }
            res
        } else if key.code == KeyCode::Up {
            let ghost before = *tui_state;
            let r = PrevCommand.execute(tui_state, &mut outbox);
            assert(PrevCommand.executed(before, *tui_state, Seq::empty(), outbox@, r));
            None
        } else if key.code == KeyCode::Down {
            let ghost before = *tui_state;
            let r = NextCommand.execute(tui_state, &mut outbox);
            assert(NextCommand.executed(before, *tui_state, Seq::empty(), outbox@, r));
            None
        } else {
            let ghost before = self.actions@;
            self.actions.push(KeyAction::CommandLineInput(key));
            assert(action_views(self.actions@) =~= action_views(before).push(KeyActionView::CommandLineInput(key)));
            None
        }
    }

    /// Answers one key (as the interface does for each key it reads): `:`
    /// opens the command line and escape goes back to normal mode (each
    /// with nothing typed before, and `:` not in the compose box); otherwise
    /// the key joins the keys typed: in command mode they are forgotten and
    /// the key answered there (see [`KeyDriver::answer_command_line`]), in
    /// the other modes the keys typed are answered with the bindings (see
    /// [`KeyDriver::answer_with_bindings`]). `Some` tells why the interface
    /// cannot go on.
    pub fn answer(&mut self, tui_state: &mut TuiState, config: &Config, key: KeyEvent) -> (res: Option<String>)
        requires
            old(tui_state).wf(),
        ensures
            final(tui_state).wf(),
            final(self).fuel == old(self).fuel,
            key_answered(
                old(self).pending@,
                action_views(old(self).actions@),
                final(self).pending@,
                action_views(final(self).actions@),
                final(self).last,
                *old(tui_state),
                *final(tui_state),
                config.keybinds,
                key,
                res,
            ),
    {
        let mode = tui_state.mode;
        let empty_mods = key.modifiers.is_empty();
        let nothing_typed = tui_state.key_events.0.len() == 0;
        let in_compose = match mode {
            Mode::Compose => true,
            _ => false,
        };
        if key.code == KeyCode::Char(':') && empty_mods && nothing_typed && !in_compose {
            let mut outbox: Vec<Effect> = Vec::new();
            let _ = CommandMode.execute(tui_state, &mut outbox);
            self.last = false;
            return None;
        }
        if key.code == KeyCode::Esc && empty_mods && nothing_typed {
            NormalMode::enter(tui_state);
            self.last = false;
            return None;
        }
        tui_state.key_events.0.push(key);
        match mode {
            Mode::Command { .. } => {
                tui_state.key_events = KeyEvents::new();
                let ghost cleared = *tui_state;
                assert(keys_forgotten(*old(tui_state), cleared));
                self.answer_command_line(tui_state, key)
            },
            _ => self.answer_with_bindings(tui_state, config, mode),
        }
    }
}

/// What `LoadedContacts` does to the selection: with no contacts shown and
/// some coming, the next row (the first, with none) is selected.
pub open spec fn contacts_loaded_selection(s: TuiState, incoming: nat) -> Option<usize> {
    if s.contacts.view_seq().len() == 0 && incoming > 0 {
        Some(crate::commands::navigation::next_row(s.contacts.table_state().selected_spec()))
    } else {
        s.contacts.table_state().selected_spec()
    }
}

/// The row whose messages came in: the selected row, where the last of the
/// messages belongs to the contact at that row.
pub open spec fn loaded_messages_row(s: TuiState, msgs: Seq<Message>) -> Option<usize> {
    match s.contacts.table_state().selected_spec() {
        Some(i) => if i < s.contacts.view_seq().len() && msgs.len() > 0 && msgs.last()@.contact_id
            == s.contacts.view_seq()[i as int].id {
            Some(i)
        } else {
            None
        },
        None => None,
    }
}

/// A contact with the time of its last message recorded.
pub open spec fn with_last_message(c: ContactView, timestamp: u64) -> ContactView {
    ContactView { last_message_timestamp: Some(timestamp), ..c }
}

/// The contacts after a new message for the contact at row `i`: its time
/// recorded, and the contact moved to the top.
pub open spec fn contacts_after_new_message(v: Seq<ContactView>, i: int, timestamp: u64) -> Seq<ContactView> {
    let c = with_last_message(v[i], timestamp);
    v.update(i, c).remove(i).insert(0, c)
}

/// The hook run for a new message of someone else: the configured command
/// with the message's environment (see [`crate::hooks::new_message_env`]).
pub open spec fn new_message_hook(
    hook: Option<String>,
    program_name: Seq<char>,
    contact: ContactView,
    sender: ContactView,
    m: crate::backends::MessageData,
    self_id: Seq<u8>,
) -> Seq<EffectView> {
    match hook {
        Some(script) => if m.sender != self_id {
            seq![
                EffectView::RunHook {
                    command: script@,
                    env: crate::hooks::new_message_env(program_name, contact.name, sender.name, m),
                },
            ]
        } else {
            Seq::empty()
        },
        None => Seq::empty(),
    }
}

/// What the messages of a contact do: where they are the selected row's
/// (see [`loaded_messages_row`]), that contact's last message time is
/// recorded, the selection goes to the last message where none were shown,
/// and the messages replace those shown (`res` is `None` exactly when each
/// can be applied in turn); otherwise nothing changes.
pub open spec fn loaded_messages_done(before: TuiState, after: TuiState, msgs: Seq<Message>, res: Option<String>) -> bool {
    match loaded_messages_row(before, msgs) {
        None => res is None && after == before,
        Some(i) => {
            &&& after == (TuiState { contacts: after.contacts, messages: after.messages, ..before })
            &&& after.contacts.view_seq() == before.contacts.view_seq().update(
                i as int,
                with_last_message(before.contacts.view_seq()[i as int], msgs.last().timestamp),
            )
            &&& after.contacts.user_entries() == before.contacts.user_entries()
            &&& after.contacts.table_state() == before.contacts.table_state()
            &&& after.messages.list_state().offset_spec() == before.messages.list_state().offset_spec()
            &&& after.messages.list_state().selected_spec() == if before.messages.view_seq().len() == 0 {
                Some(usize::MAX)
            } else {
                before.messages.list_state().selected_spec()
            }
            &&& (res is None) == all_applicable(Seq::empty(), incoming_views(msgs))
            &&& res is None ==> after.messages.view_seq() == apply_all(Seq::empty(), incoming_views(msgs))
        },
    }
}

/// What a new message does: from an unknown sender it stops the interface;
/// for a contact not listed it does nothing; otherwise the hook runs for a
/// message of someone else (see [`new_message_hook`]), the contact's time is
/// recorded and it moves to the top (see [`contacts_after_new_message`]),
/// and the selection follows: the contact's own row goes to the top and the
/// message is added (stopping where it cannot be applied), another row moves
/// one down (stopping at the largest row).
pub open spec fn new_message_done(
    before: TuiState,
    after: TuiState,
    hook: Option<String>,
    program_name: Seq<char>,
    m: crate::backends::MessageData,
    out_before: Seq<Effect>,
    out_after: Seq<Effect>,
    res: Option<String>,
) -> bool {
    match latest_user(before.contacts.user_entries(), m.sender) {
        None => res is Some && after == before && out_after == out_before,
        Some(sender) => match first_index(before.contacts.view_seq(), has_id(m.contact_id)) {
            None => res is None && after == before && out_after == out_before,
            Some(i) => {
                &&& crate::commands::pushed(
                    out_before,
                    out_after,
                    new_message_hook(hook, program_name, before.contacts.view_seq()[i], sender, m, before.self_id@),
                )
                &&& after == (TuiState { contacts: after.contacts, messages: after.messages, ..before })
                &&& after.contacts.view_seq() == contacts_after_new_message(before.contacts.view_seq(), i, m.timestamp)
                &&& after.contacts.user_entries() == before.contacts.user_entries()
                &&& after.contacts.table_state().offset_spec() == before.contacts.table_state().offset_spec()
                &&& after.messages.list_state() == before.messages.list_state()
                &&& match before.contacts.table_state().selected_spec() {
                    Some(sel) => if sel == i {
                        &&& after.contacts.table_state().selected_spec() == Some(0usize)
                        &&& (res is None) == applicable(before.messages.view_seq(), m)
                        &&& res is None ==> after.messages.view_seq() == apply_message(before.messages.view_seq(), m)
                        &&& res is Some ==> after.messages.view_seq() == before.messages.view_seq()
                    } else if sel == usize::MAX {
                        &&& res is Some
                        &&& after.contacts.table_state() == before.contacts.table_state()
                        &&& after.messages.view_seq() == before.messages.view_seq()
                    } else {
                        &&& res is None
                        &&& after.contacts.table_state().selected_spec() == Some((sel + 1) as usize)
                        &&& after.messages.view_seq() == before.messages.view_seq()
                    },
                    None => {
                        &&& res is None
                        &&& after.contacts.table_state() == before.contacts.table_state()
                        &&& after.messages.view_seq() == before.messages.view_seq()
                    },
                }
            },
        },
    }
}

/// What a downloaded attachment does: for the selected contact, the path is
/// recorded on the message (see [`with_attachment_path`]), and an attachment
/// that the message lacks stops the interface; for another contact nothing
/// changes.
pub open spec fn downloaded_attachment_done(
    before: TuiState,
    after: TuiState,
    contact_id: ContactIdView,
    timestamp: u64,
    index: usize,
    path: Seq<char>,
    res: Option<String>,
) -> bool {
    if before.selected_contact() matches Some(c) && c.id == contact_id {
        if attachment_known(before.messages.view_seq(), timestamp, index) {
            &&& res is None
            &&& after == (TuiState { messages: after.messages, ..before })
            &&& after.messages.list_state() == before.messages.list_state()
            &&& after.messages.view_seq() == with_attachment_path(before.messages.view_seq(), timestamp, index, path)
        } else {
            res is Some && after == before
        }
    } else {
        res is None && after == before
    }
}

/// Answers the messages of a contact (see [`loaded_messages_done`]).
fn answer_loaded_messages(tui_state: &mut TuiState, messages: Vec<Message>) -> (res: Option<String>)
    requires
        old(tui_state).wf(),
    ensures
        final(tui_state).wf(),
        loaded_messages_done(*old(tui_state), *final(tui_state), messages@, res),
{
    let i = match tui_state.contacts.table_state_selected() {
        Some(i) => i,
        None => {
            return None;
        },
    };
    let same = match tui_state.contacts.contact_or_group_by_index(i) {
        Some(contact) => {
            if messages.len() > 0 {
                messages[messages.len() - 1].contact_id.same_as(&contact.id)
            } else {
                false
            }
        },
        None => false,
    };
    if !same {
        return None;
    }
    let last_timestamp = messages[messages.len() - 1].timestamp;
    tui_state.contacts.set_last_message_timestamp(i, last_timestamp);
    if tui_state.messages.is_empty() {
        tui_state.messages.select_last();
    }
    tui_state.messages.clear();
    assert(tui_state.messages.view_seq() =~= Seq::<crate::tui::messages::MessageView>::empty());
    if tui_state.messages.try_add_multiple(messages) {
        None
    } else {
        Some(owned("a message from the backend cannot be applied"))
    }
}

/// Queues the new-message hook for a message of someone else (see
/// [`new_message_hook`]).
fn queue_new_message_hook(
    config: &Config,
    program_name: &str,
    contact: &crate::backends::Contact,
    sender: &crate::backends::Contact,
    message: &Message,
    self_id: &Vec<u8>,
    outbox: &mut Vec<Effect>,
)
    ensures
        crate::commands::pushed(
            old(outbox)@,
            final(outbox)@,
            new_message_hook(config.hooks.on_new_message, program_name@, contact@, sender@, message@, self_id@),
        ),
{
    if !crate::backends::bytes_eq(&message.sender, self_id) {
        match config.hooks.do_on_new_message(program_name, contact, sender, message) {
            Some((command, env)) => {
                push_effect(outbox, Effect::RunHook { command, env });
            },
            None => {
                assert(crate::commands::pushed(old(outbox)@, outbox@, Seq::<EffectView>::empty()));
            },
        }
    } else {
        assert(crate::commands::pushed(old(outbox)@, outbox@, Seq::<EffectView>::empty()));
    }
}

/// Answers a new message (see [`new_message_done`]).
#[verifier::rlimit(30)]
fn answer_new_message(
    tui_state: &mut TuiState,
    config: &Config,
    program_name: &str,
    message: Message,
    outbox: &mut Vec<Effect>,
) -> (res: Option<String>)
    requires
        old(tui_state).wf(),
    ensures
        final(tui_state).wf(),
        new_message_done(
            *old(tui_state),
            *final(tui_state),
            config.hooks.on_new_message,
            program_name@,
            message@,
            old(outbox)@,
            final(outbox)@,
            res,
        ),
{
    let sender = match tui_state.contacts.contact_by_id(&message.sender) {
        Some(c) => c.duplicate(),
        None => {
            return Some(owned("a message from an unknown sender"));
        },
    };
    let i = match tui_state.contacts.index_by_id(&message.contact_id) {
        Some(i) => i,
        None => {
            return None;
        },
    };
    let _rows = tui_state.contacts.len();
    proof {
        crate::tui::contacts::lemma_first_index_some(tui_state.contacts.view_seq(), has_id(message@.contact_id));
    }
    let contact = match tui_state.contacts.contact_or_group_by_index(i) {
        Some(c) => c.duplicate(),
        None => {
            return None;
        },
    };
    queue_new_message_hook(config, program_name, &contact, &sender, &message, &tui_state.self_id, outbox);
    let ghost v = tui_state.contacts.view_seq();
    tui_state.contacts.set_last_message_timestamp(i, message.timestamp);
    let selected = tui_state.contacts.table_state_selected();
    tui_state.contacts.move_by_index(i, 0);
    assert(tui_state.contacts.view_seq() == contacts_after_new_message(v, i as int, message.timestamp));
    match selected {
        Some(sel) => {
            if sel == i {
                tui_state.contacts.select(Some(0));
                if !tui_state.messages.can_apply(&message) {
                    return Some(owned("a message from the backend cannot be applied"));
                }
                tui_state.messages.add_single(message);
            } else {
                if sel == usize::MAX {
                    return Some(owned("the selected contact is at the largest row"));
                }
                tui_state.contacts.select(Some(sel + 1));
            }
        },
        None => {},
    }
    None
}

/// Answers a downloaded attachment (see [`downloaded_attachment_done`]).
fn answer_downloaded_attachment(
    tui_state: &mut TuiState,
    contact_id: ContactId,
    timestamp: u64,
    index: usize,
    file_path: String,
) -> (res: Option<String>)
    requires
        old(tui_state).wf(),
    ensures
        final(tui_state).wf(),
        downloaded_attachment_done(
            *old(tui_state),
            *final(tui_state),
            contact_id@,
            timestamp,
            index,
            file_path@,
            res,
        ),
{
    let same = match tui_state.contacts.selected() {
        Some(contact) => contact.id.same_as(&contact_id),
        None => false,
    };
    if !same {
        return None;
    }
    if !tui_state.messages.has_attachment(timestamp, index) {
        return Some(owned("a downloaded attachment that the message lacks"));
    }
    tui_state.messages.set_attachment_path(timestamp, index, file_path);
    None
}

/// Answers news from the backend, leaving its work in the outbox: new
/// contacts replace those shown (and the messages of the selected contact
/// are asked for); the messages of the selected contact replace those shown
/// when they are that contact's; a new message moves its contact to the top,
/// runs the new-message hook for messages of others, and is shown when its
/// contact is selected; a downloaded attachment records its path. `Some`
/// tells why the interface cannot go on: a message from an unknown sender, a
/// message that cannot be applied, a selection at the largest row, or a
/// download for an attachment that the message lacks.
pub fn process_backend_message(
    tui_state: &mut TuiState,
    config: &Config,
    program_name: &str,
    msg: FrontendMessage,
    outbox: &mut Vec<Effect>,
) -> (res: Option<String>)
    requires
        old(tui_state).wf(),
    ensures
        final(tui_state).wf(),
        effect_views_prefix(old(outbox)@, final(outbox)@),
        msg is Tick ==> res is None && *final(tui_state) == *old(tui_state) && final(outbox)@ == old(outbox)@,
        msg is LoadedContacts ==> {
            &&& res is None
            &&& *final(tui_state) == (TuiState { contacts: final(tui_state).contacts, ..*old(tui_state) })
            &&& final(tui_state).contacts.view_seq() == crate::tui::contacts::contact_views(msg->contacts@)
            &&& final(tui_state).contacts.user_entries() == crate::tui::contacts::users(
                crate::tui::contacts::contact_views(msg->contacts@),
            )
            &&& final(tui_state).contacts.table_state().selected_spec() == contacts_loaded_selection(
                *old(tui_state),
                msg->contacts@.len(),
            )
            &&& final(tui_state).contacts.table_state().offset_spec() == old(tui_state).contacts.table_state().offset_spec()
            &&& crate::commands::pushed(
                old(outbox)@,
                final(outbox)@,
                match final(tui_state).selected_contact() {
                    Some(c) => seq![load_messages(c.id)],
                    None => Seq::<EffectView>::empty(),
                },
            )
        },
        msg is LoadedMessages ==> final(outbox)@ == old(outbox)@ && loaded_messages_done(
            *old(tui_state),
            *final(tui_state),
            msg->messages@,
            res,
        ),
        msg is NewMessage ==> new_message_done(
            *old(tui_state),
            *final(tui_state),
            config.hooks.on_new_message,
            program_name@,
            msg->message@,
            old(outbox)@,
            final(outbox)@,
            res,
        ),
        msg is DownloadedAttachment ==> final(outbox)@ == old(outbox)@ && downloaded_attachment_done(
            *old(tui_state),
            *final(tui_state),
            msg->contact_id@,
            msg->timestamp,
            msg->index,
            msg->file_path@,
            res,
        ),
{
    match msg {
        FrontendMessage::Tick => None,
        FrontendMessage::LoadedContacts { contacts } => {
            if tui_state.contacts.is_empty() && contacts.len() > 0 {
                tui_state.contacts.select_next();
            }
            tui_state.contacts.clear();
            tui_state.contacts.extend(contacts);
            assert(crate::tui::contacts::contact_views(msg->contacts@) == crate::tui::contacts::contact_views(
                contacts@,
            ));
            match tui_state.contacts.selected() {
                Some(contact) => {
                    push_effect(
                        outbox,
                        Effect::Send(
                            BackendMessage::LoadMessages {
                                contact_id: contact.id.duplicate(),
                                start_ts: TimestampBound::Unbounded,
                                end_ts: TimestampBound::Unbounded,
                            },
                        ),
                    );
                },
                None => {
                    assert(crate::commands::pushed(old(outbox)@, outbox@, Seq::<EffectView>::empty()));
                },
            }
            None
        },
        FrontendMessage::LoadedMessages { messages } => answer_loaded_messages(tui_state, messages),
        FrontendMessage::NewMessage { message } => answer_new_message(tui_state, config, program_name, message, outbox),
        FrontendMessage::DownloadedAttachment { contact_id, timestamp, index, file_path } =>
            answer_downloaded_attachment(tui_state, contact_id, timestamp, index, file_path),
    }
}

/// The effects after are the effects before and more.
pub open spec fn effect_views_prefix(before: Seq<Effect>, after: Seq<Effect>) -> bool {
    crate::commands::effect_views(before).is_prefix_of(crate::commands::effect_views(after))
}

/// A new message from the user themself (sent from another device, say)
/// queues no work: the new-message hook runs only for messages of someone
/// else.
pub proof fn law_own_message_runs_no_hook(
    before: TuiState,
    after: TuiState,
    hook: Option<String>,
    program_name: Seq<char>,
    m: crate::backends::MessageData,
    out_before: Seq<Effect>,
    out_after: Seq<Effect>,
    res: Option<String>,
)
    requires
        new_message_done(before, after, hook, program_name, m, out_before, out_after, res),
        m.sender == before.self_id@,
    ensures
        crate::commands::effect_views(out_after) == crate::commands::effect_views(out_before),
{
    assert(crate::commands::effect_views(out_before) + Seq::<EffectView>::empty() =~= crate::commands::effect_views(out_before));
}

/// A new message of someone else in a listed conversation, with a hook
/// configured, queues exactly one run of that hook's command.
pub proof fn law_others_message_runs_the_hook(
    before: TuiState,
    after: TuiState,
    script: String,
    program_name: Seq<char>,
    m: crate::backends::MessageData,
    out_before: Seq<Effect>,
    out_after: Seq<Effect>,
    res: Option<String>,
)
    requires
        new_message_done(before, after, Some(script), program_name, m, out_before, out_after, res),
        m.sender != before.self_id@,
        latest_user(before.contacts.user_entries(), m.sender) is Some,
        first_index(before.contacts.view_seq(), has_id(m.contact_id)) is Some,
    ensures
        crate::commands::effect_views(out_after).len() == crate::commands::effect_views(out_before).len() + 1,
        crate::commands::effect_views(out_after).take(crate::commands::effect_views(out_before).len() as int) == crate::commands::effect_views(out_before),
        crate::commands::effect_views(out_after).last() matches EffectView::RunHook { command, .. } && command == script@,
{
    let e = crate::commands::effect_views(out_before);
    let f = crate::commands::effect_views(out_after);
    assert(f.take(e.len() as int) =~= e);
}

} // verus!
