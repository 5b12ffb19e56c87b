//! The configuration file's contents: hooks and key bindings.
use vstd::prelude::*;

use crate::hooks::Hooks;
use crate::keybinds::KeyBinds;

verus! {

/// The configuration.
#[derive(Debug, Clone)]
pub struct Config {
    pub hooks: Hooks,
    pub keybinds: KeyBinds,
}

impl Default for Config {
    fn default() -> (res: Self)
        ensures
            res.hooks.on_new_message is None,
            res.keybinds.normal@.len() == 0,
            res.keybinds.command@.len() == 0,
            res.keybinds.compose@.len() == 0,
            res.keybinds.popup@.len() == 0,
            res.keybinds.wf(),
    {
        Config { hooks: Hooks::new(), keybinds: KeyBinds::new() }
    }
}

} // verus!
