use spotlight::config::WindowConfig;
use spotlight::error::Error;
use spotlight::geometry::{Monitor, Point, Rect};
use spotlight::spotlight::{Config, SpotlightManager};

fn monitors() -> Vec<Monitor> {
    vec![
        Monitor { frame: Rect { x: 0, y: 0, width: 800, height: 600 } },
        Monitor { frame: Rect { x: 800, y: 0, width: 800, height: 600 } },
    ]
}

fn cursor() -> Point {
    Point { x: 10, y: 10 }
}

fn binding(label: &str, shortcut: &str) -> WindowConfig {
    WindowConfig {
        label: String::from(label),
        shortcut: String::from(shortcut),
        window_level: None,
    }
}

fn frame() -> Rect {
    Rect { x: 0, y: 0, width: 400, height: 300 }
}

fn manager() -> SpotlightManager {
    SpotlightManager::new(
        Config {
            close_shortcut: Some(String::from("Escape")),
            hide_when_inactive: true,
        },
        String::from("/apps/host"),
    )
}

#[test]
fn init_is_idempotent() {
    let mut m = manager();
    m.init_spotlight_window(&binding("main", "Ctrl+I"), frame(), false)
        .unwrap();
    assert_eq!(m.windows.len(), 1);
    // Toggle shortcut plus close shortcut.
    assert_eq!(m.registry.bindings.len(), 2);
    m.init_spotlight_window(&binding("main", "Ctrl+I"), frame(), false)
        .unwrap();
    assert_eq!(m.windows.len(), 1);
    assert_eq!(m.registry.bindings.len(), 2);
}

#[test]
fn init_applies_window_level_override() {
    let mut m = manager();
    let mut b = binding("main", "Ctrl+I");
    b.window_level = Some(99);
    m.init_spotlight_window(&b, frame(), false).unwrap();
    assert_eq!(m.windows[0].panel.level, 99);
    let mut m2 = manager();
    m2.init_spotlight_window(&binding("main", "Ctrl+I"), frame(), false)
        .unwrap();
    // One step above the menu-bar level.
    assert_eq!(m2.windows[0].panel.level, 25);
}

#[test]
fn unregistered_labels_get_not_found() {
    let mut m = manager();
    let label = String::from("ghost");
    assert_eq!(
        m.show(&label, &monitors(), cursor(), None),
        Err(Error::NotFound)
    );
    assert_eq!(m.hide_window(&label), Err(Error::NotFound));
    assert_eq!(
        m.toggle(&label, &monitors(), cursor(), None),
        Err(Error::NotFound)
    );
    assert_eq!(
        m.handle_focus_state_change(&label, false),
        Err(Error::NotFound)
    );
}

#[test]
fn toggle_parity() {
    let mut m = manager();
    let label = String::from("main");
    m.init_spotlight_window(&binding("main", "Ctrl+I"), frame(), false)
        .unwrap();
    assert!(!m.is_window_visible(&label));
    m.toggle(&label, &monitors(), cursor(), None).unwrap();
    assert!(m.is_window_visible(&label));
    m.toggle(&label, &monitors(), cursor(), None).unwrap();
    assert!(!m.is_window_visible(&label));
    m.toggle(&label, &monitors(), cursor(), None).unwrap();
    assert!(m.is_window_visible(&label));
    m.toggle(&label, &monitors(), cursor(), None).unwrap();
    assert!(!m.is_window_visible(&label));
}

#[test]
fn restoration_targets_captured_application() {
    let mut m = manager();
    let label = String::from("main");
    m.init_spotlight_window(&binding("main", "Ctrl+I"), frame(), false)
        .unwrap();
    m.show(&label, &monitors(), cursor(), Some(String::from("/apps/editor")))
        .unwrap();
    // Exactly one restoration request, targeting the captured application.
    assert_eq!(
        m.hide_window(&label),
        Ok(Some(String::from("/apps/editor")))
    );
    // The record was consumed: no second request.
    assert_eq!(m.hide_window(&label), Ok(None));
}

#[test]
fn restoration_suppressed_for_host_application() {
    let mut m = manager();
    let label = String::from("main");
    m.init_spotlight_window(&binding("main", "Ctrl+I"), frame(), false)
        .unwrap();
    // The host itself was frontmost: nothing is recorded.
    m.show(&label, &monitors(), cursor(), Some(String::from("/apps/host")))
        .unwrap();
    assert_eq!(m.hide_window(&label), Ok(None));
}

#[test]
fn close_all_hides_every_window_with_one_restoration() {
    let mut m = manager();
    let w1 = String::from("one");
    let w2 = String::from("two");
    m.init_spotlight_window(&binding("one", "Ctrl+1"), frame(), false)
        .unwrap();
    m.init_spotlight_window(&binding("two", "Ctrl+2"), frame(), false)
        .unwrap();
    m.show(&w1, &monitors(), cursor(), Some(String::from("/apps/editor")))
        .unwrap();
    m.show(&w2, &monitors(), cursor(), Some(String::from("/apps/browser")))
        .unwrap();
    assert!(m.is_window_visible(&w1));
    assert!(m.is_window_visible(&w2));
    // One request at most, for the most recently recorded application.
    assert_eq!(m.hide_all(), Some(String::from("/apps/browser")));
    assert!(!m.is_window_visible(&w1));
    assert!(!m.is_window_visible(&w2));
    // No request is left for later.
    assert_eq!(m.hide_all(), None);
}

#[test]
fn dispatch_routes_toggle_and_close_all() {
    let mut m = manager();
    let label = String::from("main");
    m.init_spotlight_window(&binding("main", "Ctrl+I"), frame(), false)
        .unwrap();
    // Unbound accelerators are a benign no-op.
    assert_eq!(
        m.dispatch_shortcut(&String::from("Ctrl+Z"), &monitors(), cursor(), None),
        Ok(None)
    );
    m.dispatch_shortcut(&String::from("Ctrl+I"), &monitors(), cursor(), None)
        .unwrap();
    assert!(m.is_window_visible(&label));
    assert_eq!(
        m.dispatch_shortcut(&String::from("Escape"), &monitors(), cursor(), None),
        Ok(None)
    );
    assert!(!m.is_window_visible(&label));
}

#[test]
fn focus_loss_hides_and_scopes_close_shortcut() {
    let mut m = manager();
    let label = String::from("main");
    m.init_spotlight_window(&binding("main", "Ctrl+I"), frame(), false)
        .unwrap();
    assert!(m.registry.is_registered(&String::from("Escape")));
    m.show(&label, &monitors(), cursor(), Some(String::from("/apps/editor")))
        .unwrap();
    // Losing focus hides the window, restores the previous application, and
    // takes the close-all accelerator out of service.
    let restored = m.handle_focus_state_change(&label, false).unwrap();
    assert_eq!(restored, Some(String::from("/apps/editor")));
    assert!(!m.is_window_visible(&label));
    assert!(!m.registry.is_registered(&String::from("Escape")));
    // Regaining focus brings the close-all accelerator back.
    assert_eq!(m.handle_focus_state_change(&label, true), Ok(None));
    assert!(m.registry.is_registered(&String::from("Escape")));
}

#[test]
fn focus_loss_without_flag_keeps_window_visible() {
    let mut m = SpotlightManager::new(
        Config { close_shortcut: None, hide_when_inactive: false },
        String::from("/apps/host"),
    );
    let label = String::from("main");
    m.init_spotlight_window(&binding("main", "Ctrl+I"), frame(), false)
        .unwrap();
    m.show(&label, &monitors(), cursor(), None).unwrap();
    assert_eq!(m.handle_focus_state_change(&label, false), Ok(None));
    assert!(m.is_window_visible(&label));
}

#[test]
fn show_records_before_transition_and_positions() {
    let mut m = manager();
    let label = String::from("main");
    m.init_spotlight_window(&binding("main", "Ctrl+I"), frame(), false)
        .unwrap();
    let on_second_monitor = Point { x: 900, y: 100 };
    m.show(&label, &monitors(), on_second_monitor, None).unwrap();
    let panel = m.windows[0].panel;
    assert!(panel.visible);
    assert!(panel.key);
    // Centered within the second display, size preserved.
    assert_eq!(panel.frame, Rect { x: 1000, y: 150, width: 400, height: 300 });
}

#[test]
fn duplicate_toggle_shortcut_keeps_first_binding() {
    let mut m = manager();
    m.init_spotlight_window(&binding("one", "Ctrl+I"), frame(), false)
        .unwrap();
    m.init_spotlight_window(&binding("two", "Ctrl+I"), frame(), false)
        .unwrap();
    // Both windows registered, but the accelerator stays bound to the first.
    assert_eq!(m.windows.len(), 2);
    m.dispatch_shortcut(&String::from("Ctrl+I"), &monitors(), cursor(), None)
        .unwrap();
    assert!(m.is_window_visible(&String::from("one")));
    assert!(!m.is_window_visible(&String::from("two")));
}

#[test]
fn close_shortcut_colliding_with_toggle_stays_toggle() {
    let mut m = SpotlightManager::new(
        Config {
            close_shortcut: Some(String::from("Ctrl+I")),
            hide_when_inactive: false,
        },
        String::from("/apps/host"),
    );
    let label = String::from("main");
    m.init_spotlight_window(&binding("main", "Ctrl+I"), frame(), false)
        .unwrap();
    // The toggle shortcut was bound first; registering the close shortcut
    // for the same string is a silent no-op, so the accelerator toggles.
    assert_eq!(m.registry.bindings.len(), 1);
    m.dispatch_shortcut(&String::from("Ctrl+I"), &monitors(), cursor(), None)
        .unwrap();
    assert!(m.is_window_visible(&label));
}

#[test]
fn error_messages_are_stable() {
    assert_eq!(Error::LockFailure.message(), "failed to lock shared state");
    assert_eq!(
        Error::ShortcutRegistrationFailed.message(),
        "failed to register shortcut"
    );
    assert_eq!(Error::WindowOperationFailed.message(), "window operation failed");
    assert_eq!(Error::PanelCreationFailed.message(), "failed to create panel");
    assert_eq!(Error::NotFound.message(), "window is not registered");
}
