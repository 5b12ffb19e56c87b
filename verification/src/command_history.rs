//! The history of command lines entered in command mode, with a cursor that
//! walks back and forth through it.
use vstd::prelude::*;

verus! {

/// The abstract state of a [`CommandLineHistory`]: the command lines in the
/// order they were entered, and the one currently selected, if any.
pub struct HistoryView {
    pub commands: Seq<Seq<char>>,
    pub selected: Option<nat>,
}

/// Command lines entered so far, oldest first, and an optional selection.
#[derive(Debug)]
pub struct CommandLineHistory {
    commands: Vec<String>,
    selected: Option<usize>,
}

impl View for CommandLineHistory {
    type V = HistoryView;

    closed spec fn view(&self) -> HistoryView {
        HistoryView {
            commands: self.commands@.map_values(|s: String| s@),
            selected: match self.selected {
                Some(i) => Some(i as nat),
                None => None,
            },
        }
    }
}

/// A selection always points at an entered command.
pub open spec fn history_wf(h: HistoryView) -> bool {
    match h.selected {
        Some(i) => i < h.commands.len(),
        None => true,
    }
}

/// The selection after moving to an older command: the newest one when nothing
/// is selected, otherwise one step back, staying on the oldest.
pub open spec fn previous_selection(h: HistoryView) -> Option<nat> {
    match h.selected {
        Some(i) => Some(if i == 0 {
            0
        } else {
            (i - 1) as nat
        }),
        None => if h.commands.len() == 0 {
            None
        } else {
            Some((h.commands.len() - 1) as nat)
        },
    }
}

/// The selection after moving to a newer command: one step forward, and none
/// past the newest; nothing happens when nothing is selected.
pub open spec fn next_selection(h: HistoryView) -> Option<nat> {
    match h.selected {
        Some(i) => if i + 1 < h.commands.len() {
            Some(i + 1)
        } else {
            None
        },
        None => None,
    }
}

impl CommandLineHistory {
    #[verifier::type_invariant]
    spec fn inv(self) -> bool {
        match self.selected {
            Some(i) => i < self.commands.len(),
            None => true,
        }
    }

    /// An empty history with nothing selected.
    pub fn new() -> (res: Self)
        ensures
            res@.commands.len() == 0,
            res@.selected is None,
    {
        CommandLineHistory { commands: Vec::new(), selected: None }
    }

    /// Records a command line as the newest entry; the selection is kept.
    pub fn push(&mut self, command_line: String)
        ensures
            final(self)@.commands == old(self)@.commands.push(command_line@),
            final(self)@.selected == old(self)@.selected,
            history_wf(final(self)@),
    {
        proof {
            use_type_invariant(&*self);
        }
        let mut commands = self.commands.clone();
        assert(commands@ =~= self.commands@);
        commands.push(command_line);
        self.commands = commands;
        proof {
            assert(self@.commands =~= old(self)@.commands.push(command_line@));
        }
    }

    /// The selected command line, if any.
    pub fn selected_command(&self) -> (res: Option<&String>)
        ensures
            match self@.selected {
                Some(i) => res is Some && res->0@ == self@.commands[i as int],
                None => res is None,
            },
    {
        proof {
            use_type_invariant(self);
        }
        match self.selected {
            Some(i) => Some(&self.commands[i]),
            None => None,
        }
    }

    /// Moves the selection to the previous (older) command line.
    pub fn select_previous(&mut self)
        ensures
            final(self)@.commands == old(self)@.commands,
            final(self)@.selected == previous_selection(old(self)@),
            history_wf(final(self)@),
    {
        proof {
            use_type_invariant(&*self);
        }
        if let Some(selected) = self.selected {
            self.selected = Some(selected.saturating_sub(1));
        } else if !self.commands.is_empty() {
            self.selected = Some(self.commands.len() - 1);
        }
    }

    /// Moves the selection to the next (newer) command line, clearing it past
    /// the newest.
    pub fn select_next(&mut self)
        ensures
            final(self)@.commands == old(self)@.commands,
            final(self)@.selected == next_selection(old(self)@),
            history_wf(final(self)@),
    {
        proof {
            use_type_invariant(&*self);
        }
        if let Some(selected) = self.selected {
            if selected + 1 < self.commands.len() {
                self.selected = Some(selected + 1);
            } else {
                self.selected = None;
            }
        }
    }

    /// Forgets the selection.
    pub fn clear_selection(&mut self)
        ensures
            final(self)@.commands == old(self)@.commands,
            final(self)@.selected is None,
            history_wf(final(self)@),
    {
        proof {
            use_type_invariant(&*self);
        }
        let none: Option<usize> = None;
        assert(match none {
            Some(i) => i < self.commands.len(),
            None => true,
        });
        self.selected = none;
    }

    /// The command lines, oldest first.
    pub fn iter(&self) -> (res: &[String])
        ensures
            res@.map_values(|s: String| s@) == self@.commands,
    {
        self.commands.as_slice()
    }
}

impl Default for CommandLineHistory {
    fn default() -> (res: Self)
        ensures
            res@.commands.len() == 0,
            res@.selected is None,
    {
        Self::new()
    }
}

/// Stepping back and then forward again returns to a selected command line
/// that has an older neighbour.
pub proof fn law_previous_then_next(h: HistoryView)
    requires
        history_wf(h),
        h.selected is Some,
        h.selected->0 > 0,
    ensures
        next_selection(HistoryView { commands: h.commands, selected: previous_selection(h) })
            == h.selected,
{
}

/// Stepping forward and then back again returns to a selected command line
/// that has a newer neighbour.
pub proof fn law_next_then_previous(h: HistoryView)
    requires
        history_wf(h),
        h.selected is Some,
        h.selected->0 + 1 < h.commands.len(),
    ensures
        previous_selection(HistoryView { commands: h.commands, selected: next_selection(h) })
            == h.selected,
{
}

/// With nothing selected, stepping back selects the newest command line, if
/// there is one.
pub proof fn law_previous_selects_newest(h: HistoryView)
    requires
        h.selected is None,
        h.commands.len() > 0,
    ensures
        previous_selection(h) == Some((h.commands.len() - 1) as nat),
{
}

/// Both moves keep the selection on an entered command line.
pub proof fn law_moves_keep_selection_valid(h: HistoryView)
    requires
        history_wf(h),
    ensures
        history_wf(HistoryView { commands: h.commands, selected: previous_selection(h) }),
        history_wf(HistoryView { commands: h.commands, selected: next_selection(h) }),
{
}

} // verus!
