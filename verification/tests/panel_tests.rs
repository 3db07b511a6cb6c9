use spotlight::geometry::{Monitor, Point, Rect, monitor_under_cursor};
use spotlight::panel::{RawNSPanel, create_spotlight_panel};
use spotlight::registry::{ShortcutAction, ShortcutRegistry};
use spotlight::tracker::{PreviousAppTracker, find_matching_app};

#[test]
fn spotlight_panel_presentation_attributes() {
    let frame = Rect { x: 5, y: 5, width: 100, height: 50 };
    let panel = create_spotlight_panel(frame, false);
    // One step above the menu-bar window level.
    assert_eq!(panel.level, 25);
    // Non-activating panel style.
    assert_eq!(panel.style_mask, 0x80);
    // All spaces, stationary, over fullscreen applications, out of cycling.
    assert_eq!(panel.collection_behaviour, 0x1 | 0x10 | 0x100 | 0x40);
    assert!(panel.auto_hide);
    assert!(!panel.visible);
    assert!(!panel.key);
    assert_eq!(panel.frame, frame);
}

#[test]
fn panel_show_and_order_out() {
    let mut panel = RawNSPanel::from_window(Rect { x: 0, y: 0, width: 10, height: 10 }, false);
    assert!(!panel.is_visible());
    panel.show();
    assert!(panel.is_visible());
    assert!(panel.key);
    panel.order_out();
    assert!(!panel.is_visible());
    assert!(!panel.key);
    // Ordering out an already hidden panel is a no-op.
    panel.order_out();
    assert!(!panel.is_visible());
}

#[test]
fn resign_key_hides_only_with_auto_hide() {
    let mut panel = create_spotlight_panel(Rect { x: 0, y: 0, width: 10, height: 10 }, false);
    panel.show();
    assert!(panel.handle_resign_key());
    assert!(!panel.visible);
    let mut sticky = create_spotlight_panel(Rect { x: 0, y: 0, width: 10, height: 10 }, false);
    sticky.set_auto_hide(false);
    sticky.show();
    assert!(!sticky.handle_resign_key());
    assert!(sticky.visible);
    assert!(!sticky.key);
}

#[test]
fn positioning_centers_within_display_under_cursor() {
    let monitors = vec![
        Monitor { frame: Rect { x: 0, y: 0, width: 800, height: 600 } },
        Monitor { frame: Rect { x: 800, y: 0, width: 800, height: 600 } },
    ];
    let mut panel = create_spotlight_panel(Rect { x: 5, y: 5, width: 100, height: 50 }, false);
    panel.position_at_monitor_under_cursor(&monitors, Point { x: 10, y: 10 });
    assert_eq!(panel.frame, Rect { x: 350, y: 275, width: 100, height: 50 });
    panel.position_at_monitor_under_cursor(&monitors, Point { x: 1200, y: 10 });
    assert_eq!(panel.frame, Rect { x: 1150, y: 275, width: 100, height: 50 });
}

#[test]
fn positioning_skipped_when_no_display_contains_cursor() {
    let monitors = vec![Monitor { frame: Rect { x: 0, y: 0, width: 800, height: 600 } }];
    let last_frame = Rect { x: 5, y: 5, width: 100, height: 50 };
    let mut panel = create_spotlight_panel(last_frame, false);
    panel.position_at_monitor_under_cursor(&monitors, Point { x: 2000, y: 2000 });
    assert_eq!(panel.frame, last_frame);
}

#[test]
fn monitor_under_cursor_is_first_match_with_exclusive_far_edges() {
    let monitors = vec![
        Monitor { frame: Rect { x: 0, y: 0, width: 800, height: 600 } },
        Monitor { frame: Rect { x: 800, y: 0, width: 800, height: 600 } },
    ];
    assert_eq!(monitor_under_cursor(&monitors, Point { x: 0, y: 0 }), Some(0));
    // The shared edge belongs to the display that starts there.
    assert_eq!(monitor_under_cursor(&monitors, Point { x: 800, y: 0 }), Some(1));
    assert_eq!(monitor_under_cursor(&monitors, Point { x: 1599, y: 599 }), Some(1));
    assert_eq!(monitor_under_cursor(&monitors, Point { x: 1600, y: 0 }), None);
    assert_eq!(monitor_under_cursor(&vec![], Point { x: 0, y: 0 }), None);
}

#[test]
fn double_registration_is_a_silent_no_op() {
    let mut registry = ShortcutRegistry::new();
    assert!(registry.register(
        String::from("Ctrl+I"),
        ShortcutAction::Toggle(String::from("main"))
    ));
    // The second registration changes nothing: one active binding remains,
    // still routing to the first action.
    assert!(!registry.register(
        String::from("Ctrl+I"),
        ShortcutAction::Toggle(String::from("other"))
    ));
    assert_eq!(registry.bindings.len(), 1);
    assert_eq!(
        registry.lookup(&String::from("Ctrl+I")),
        Some(ShortcutAction::Toggle(String::from("main")))
    );
}

#[test]
fn unregister_is_a_no_op_when_unbound() {
    let mut registry = ShortcutRegistry::new();
    assert!(!registry.unregister(&String::from("Ctrl+I")));
    registry.register(String::from("Ctrl+I"), ShortcutAction::CloseAll);
    assert!(registry.is_registered(&String::from("Ctrl+I")));
    assert!(registry.unregister(&String::from("Ctrl+I")));
    assert!(!registry.is_registered(&String::from("Ctrl+I")));
    assert_eq!(registry.bindings.len(), 0);
}

#[test]
fn tracker_suppresses_host_and_hands_out_once() {
    let mut tracker = PreviousAppTracker::new(String::from("/apps/host"));
    tracker.record_frontmost(Some(String::from("/apps/editor")));
    // Recording the host keeps the earlier record.
    tracker.record_frontmost(Some(String::from("/apps/host")));
    assert_eq!(tracker.take_previous(), Some(String::from("/apps/editor")));
    assert_eq!(tracker.take_previous(), None);
    // An unknown frontmost application clears the record.
    tracker.record_frontmost(Some(String::from("/apps/editor")));
    tracker.record_frontmost(None);
    assert_eq!(tracker.take_previous(), None);
}

#[test]
fn find_matching_app_returns_first_match() {
    let paths = vec![
        String::from("/apps/editor"),
        String::from("/apps/browser"),
        String::from("/apps/editor"),
    ];
    assert_eq!(find_matching_app(&paths, &String::from("/apps/editor")), Some(0));
    assert_eq!(find_matching_app(&paths, &String::from("/apps/browser")), Some(1));
    assert_eq!(find_matching_app(&paths, &String::from("/apps/ghost")), None);
}
