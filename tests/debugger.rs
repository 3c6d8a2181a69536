use blockworld::debugger::{update_debugger, DebugAction, Debugger};

#[test]
fn toggle_shows_refreshes_and_hides() {
    let mut d = Debugger::new();
    assert_eq!(update_debugger(&mut d, false), DebugAction::Hidden);
    assert_eq!(update_debugger(&mut d, true), DebugAction::Show);
    assert!(d.is_enabled());
    d.attach(77);
    assert_eq!(update_debugger(&mut d, false), DebugAction::Refresh);
    assert_eq!(update_debugger(&mut d, true), DebugAction::Hide(77));
    assert!(!d.is_enabled());
    assert_eq!(update_debugger(&mut d, false), DebugAction::Hidden);
}

#[test]
fn hiding_before_attach_has_nothing_to_despawn() {
    let mut d = Debugger::new();
    assert_eq!(update_debugger(&mut d, true), DebugAction::Show);
    assert_eq!(update_debugger(&mut d, true), DebugAction::Hidden);
    assert!(!d.is_enabled());
}
