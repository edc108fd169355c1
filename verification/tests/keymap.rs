use blake::binding::KeyBinding;
use blake::binding::KeyCode;
use blake::binding::KeyModifiers;
use blake::keymap::KeymapConfig;
use blake::mode::resolve_key;
use blake::mode::BlameModeHandler;
use blake::mode::DiffModeHandler;
use blake::mode::HelpModeHandler;
use blake::mode::Mode;
use blake::mode::ModeHandler;
use blake::Action;
use blake::BlameAction;
use blake::DiffAction;
use blake::GlobalAction;
use blake::HelpAction;

#[test]
fn defaults_bind_quit_help_and_movement() {
    let km = KeymapConfig::with_defaults();
    let q = KeyBinding::new(KeyCode::Char('q'));
    assert_eq!(km.get_global(&q), Some(Action::Global(GlobalAction::Quit)));
    let ctrl_c = KeyBinding::new(KeyCode::Char('c')).with_modifiers(KeyModifiers::ctrl());
    assert_eq!(km.get_global(&ctrl_c), Some(Action::Global(GlobalAction::Quit)));
    let help = KeyBinding::new(KeyCode::Char('?'));
    assert_eq!(km.get_global(&help), Some(Action::Global(GlobalAction::ShowHelp)));

    let j = KeyBinding::new(KeyCode::Char('j'));
    assert_eq!(km.get_blame(&j), Some(Action::Blame(BlameAction::CursorDown)));
    let cap_j = KeyBinding::new(KeyCode::Char('J'));
    assert_eq!(km.get_blame(&cap_j), Some(Action::Blame(BlameAction::Cursor10Down)));
    let ctrl_d = KeyBinding::new(KeyCode::Char('d')).with_modifiers(KeyModifiers::ctrl());
    assert_eq!(km.get_blame(&ctrl_d), Some(Action::Blame(BlameAction::CursorPageDown)));
    let comma = KeyBinding::new(KeyCode::Char(','));
    assert_eq!(km.get_blame(&comma), Some(Action::Blame(BlameAction::DrillDown)));
    let u = KeyBinding::new(KeyCode::Char('u'));
    assert_eq!(km.get_blame(&u), Some(Action::Blame(BlameAction::GoBack)));
    let enter = KeyBinding::new(KeyCode::Enter);
    assert_eq!(km.get_blame(&enter), Some(Action::Blame(BlameAction::ShowDiff)));

    assert_eq!(km.get_diff(&q), Some(Action::Diff(DiffAction::Close)));
    let esc = KeyBinding::new(KeyCode::Escape);
    assert_eq!(km.get_diff(&esc), Some(Action::Diff(DiffAction::Close)));
    let g = KeyBinding::new(KeyCode::Char('g'));
    assert_eq!(km.get_diff(&g), Some(Action::Diff(DiffAction::ScrollTop)));
    let cap_g = KeyBinding::new(KeyCode::Char('G'));
    assert_eq!(km.get_diff(&cap_g), Some(Action::Diff(DiffAction::ScrollBottom)));
    assert_eq!(km.get_help(&esc), Some(Action::Help(HelpAction::Close)));
    assert_eq!(km.get_help(&j), Some(Action::Help(HelpAction::ScrollDown)));
}

#[test]
fn keys_for_action_lists_every_bound_key() {
    let km = KeymapConfig::with_defaults();
    let quits = km.keys_for_global(GlobalAction::Quit);
    assert_eq!(quits.len(), 2);
    assert!(quits.contains(&KeyBinding::new(KeyCode::Char('q'))));
    assert!(quits.contains(&KeyBinding::new(KeyCode::Char('c')).with_modifiers(KeyModifiers::ctrl())));

    let downs = km.keys_for_blame(BlameAction::CursorDown);
    assert_eq!(downs.len(), 2);
    assert!(downs.contains(&KeyBinding::new(KeyCode::Char('j'))));
    assert!(downs.contains(&KeyBinding::new(KeyCode::Down)));

    let closes = km.keys_for_diff(DiffAction::Close);
    assert_eq!(closes.len(), 2);
    let help_closes = km.keys_for_help(HelpAction::Close);
    assert_eq!(help_closes.len(), 2);

    let nothing = km.keys_for_diff(DiffAction::OpenInGitHub);
    assert!(nothing.is_empty());
}

#[test]
fn mode_binding_takes_precedence_over_global() {
    let mut km = KeymapConfig::new();
    let q = KeyBinding::new(KeyCode::Char('q'));
    // bound in both the blame table and the global table
    km.bind_blame(q, BlameAction::CursorDown);
    km.bind_global(q, GlobalAction::Quit);
    assert_eq!(resolve_key(Mode::Blame, q, &km), Action::Blame(BlameAction::CursorDown));
    // the other modes see only the global binding
    assert_eq!(resolve_key(Mode::Diff, q, &km), Action::Global(GlobalAction::Quit));
    assert_eq!(resolve_key(Mode::Help, q, &km), Action::Global(GlobalAction::Quit));
}

#[test]
fn unbound_keys_resolve_to_a_harmless_action() {
    let km = KeymapConfig::with_defaults();
    let stray = KeyBinding::new(KeyCode::F(9));
    assert_eq!(resolve_key(Mode::Blame, stray, &km), Action::Unbound);
    assert_eq!(resolve_key(Mode::Diff, stray, &km), Action::Unbound);
    assert_eq!(resolve_key(Mode::Help, stray, &km), Action::Unbound);
}

#[test]
fn handlers_resolve_like_their_mode() {
    let km = KeymapConfig::with_defaults();
    let j = KeyBinding::new(KeyCode::Char('j'));
    assert_eq!(BlameModeHandler.handle_key(j, &km), Action::Blame(BlameAction::CursorDown));
    assert_eq!(DiffModeHandler.handle_key(j, &km), Action::Diff(DiffAction::ScrollDown));
    assert_eq!(HelpModeHandler.handle_key(j, &km), Action::Help(HelpAction::ScrollDown));
    // `q` is global quit, but diff and help modes repurpose it to close
    let q = KeyBinding::new(KeyCode::Char('q'));
    assert_eq!(BlameModeHandler.handle_key(q, &km), Action::Global(GlobalAction::Quit));
    assert_eq!(DiffModeHandler.handle_key(q, &km), Action::Diff(DiffAction::Close));
    assert_eq!(HelpModeHandler.handle_key(q, &km), Action::Help(HelpAction::Close));
}

#[test]
fn merge_defaults_keeps_existing_bindings_and_fills_gaps() {
    let mut km = KeymapConfig::new();
    let q = KeyBinding::new(KeyCode::Char('q'));
    // the user rebinds q away from the default quit
    km.bind_global(q, GlobalAction::ShowHelp);
    km.merge_defaults();
    // the user's binding wins
    assert_eq!(km.get_global(&q), Some(Action::Global(GlobalAction::ShowHelp)));
    // unresolved bindings fall back to the defaults
    let ctrl_c = KeyBinding::new(KeyCode::Char('c')).with_modifiers(KeyModifiers::ctrl());
    assert_eq!(km.get_global(&ctrl_c), Some(Action::Global(GlobalAction::Quit)));
    let j = KeyBinding::new(KeyCode::Char('j'));
    assert_eq!(km.get_blame(&j), Some(Action::Blame(BlameAction::CursorDown)));
    assert_eq!(km.get_help(&j), Some(Action::Help(HelpAction::ScrollDown)));
}

#[test]
fn rebinding_a_key_replaces_its_action() {
    let mut km = KeymapConfig::new();
    let g = KeyBinding::new(KeyCode::Char('g'));
    km.bind_blame(g, BlameAction::CursorTop);
    km.bind_blame(g, BlameAction::CursorBottom);
    assert_eq!(km.get_blame(&g), Some(Action::Blame(BlameAction::CursorBottom)));
    let keys = km.keys_for_blame(BlameAction::CursorTop);
    assert!(keys.is_empty());
}
