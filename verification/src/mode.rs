//! The interaction modes and the action resolver: a pure function from key
//! binding and active mode to a semantic action, looking the binding up in
//! the mode-specific table first and the global table second.

use vstd::prelude::*;

use crate::action::Action;
use crate::binding::KeyBinding;
use crate::keymap::KeymapConfig;

verus! {

/// The interaction context: blame (history browsing), diff inspection, or
/// the help overlay. A pure tag; a session starts in blame mode.
#[derive(Debug, Clone, Copy, PartialEq, Eq, Structural)]
pub enum Mode {
    Blame,
    Diff,
    Help,
}

impl Default for Mode {
    fn default() -> (r: Self)
        ensures
            r == Mode::Blame,
    {
        Mode::Blame
    }
}

impl Mode {
    /// The display name of the mode.
    pub fn name(&self) -> (r: &'static str)
        ensures
            *self == Mode::Blame ==> r@ == "BLAME"@,
            *self == Mode::Diff ==> r@ == "DIFF"@,
            *self == Mode::Help ==> r@ == "HELP"@,
    {
        match self {
            Mode::Blame => "BLAME",
            Mode::Diff => "DIFF",
            Mode::Help => "HELP",
        }
    }
}

/// The mode-specific table of a keymap.
pub open spec fn mode_map(mode: Mode, km: KeymapConfig) -> Map<KeyBinding, Action> {
    match mode {
        Mode::Blame => km.blame_map(),
        Mode::Diff => km.diff_map(),
        Mode::Help => km.help_map(),
    }
}

/// The two-tier resolution rule: the mode-specific table takes precedence,
/// the global table is consulted second, and a key bound in neither
/// resolves to `Action::Unbound`. Total: every key yields an action.
pub open spec fn resolve_spec(mode: Mode, key: KeyBinding, km: KeymapConfig) -> Action {
    if mode_map(mode, km).contains_key(key) {
        mode_map(mode, km)[key]
    } else if km.global_map().contains_key(key) {
        km.global_map()[key]
    } else {
        Action::Unbound
    }
}

/// Law: a binding present in both the active mode's table and the global
/// table resolves to the mode table's action — mode-specific bindings
/// always take precedence over global ones.
pub proof fn lemma_mode_overrides_global(mode: Mode, key: KeyBinding, km: KeymapConfig)
    requires
        mode_map(mode, km).contains_key(key),
        km.global_map().contains_key(key),
    ensures
        resolve_spec(mode, key, km) == mode_map(mode, km)[key],
{
}

/// Resolves one key press against the keymap of the given mode.
pub fn resolve_key(mode: Mode, key: KeyBinding, keymap: &KeymapConfig) -> (r: Action)
    requires
        keymap.wf(),
    ensures
        r == resolve_spec(mode, key, *keymap),
{
    let first = match mode {
        Mode::Blame => keymap.get_blame(&key),
        Mode::Diff => keymap.get_diff(&key),
        Mode::Help => keymap.get_help(&key),
    };
    match first {
        Some(a) => a,
        None => match keymap.get_global(&key) {
            Some(a) => a,
            None => Action::Unbound,
        },
    }
}

/// Per-mode key handling: each handler consults its own mode's table first.
pub trait ModeHandler {
    /// The mode whose table this handler consults first.
    spec fn mode_spec(&self) -> Mode;

    /// Resolves one key press by the two-tier rule for this handler's mode.
    fn handle_key(&self, key: KeyBinding, keymap: &KeymapConfig) -> (r: Action)
        requires
            keymap.wf(),
        ensures
            r == resolve_spec(self.mode_spec(), key, *keymap),
    ;
}

/// Key handling for blame mode.
pub struct BlameModeHandler;

impl ModeHandler for BlameModeHandler {
    open spec fn mode_spec(&self) -> Mode {
        Mode::Blame
    }

    fn handle_key(&self, key: KeyBinding, keymap: &KeymapConfig) -> (r: Action) {
        resolve_key(Mode::Blame, key, keymap)
    }
}

/// Key handling for diff mode.
pub struct DiffModeHandler;

impl ModeHandler for DiffModeHandler {
    open spec fn mode_spec(&self) -> Mode {
        Mode::Diff
    }

    fn handle_key(&self, key: KeyBinding, keymap: &KeymapConfig) -> (r: Action) {
        resolve_key(Mode::Diff, key, keymap)
    }
}

/// Key handling for the help overlay.
pub struct HelpModeHandler;

impl ModeHandler for HelpModeHandler {
    open spec fn mode_spec(&self) -> Mode {
        Mode::Help
    }

    fn handle_key(&self, key: KeyBinding, keymap: &KeymapConfig) -> (r: Action) {
        resolve_key(Mode::Help, key, keymap)
    }
}

} // verus!
