//! The floating-panel abstraction.
//!
//! A spotlight panel is an application window promoted to a floating,
//! non-activating overlay: it sits one step above the menu-bar window level,
//! joins every virtual desktop, stays stationary during space transitions,
//! shows over fullscreen applications, is excluded from window cycling, can
//! become key without activating the application, and optionally hides
//! itself when it resigns key status.
//!
//! This module models the panel's presentation state as plain values; the
//! host performs the corresponding native calls (class conversion, ordering
//! the window in and out, installing the resign-key delegate) and keeps the
//! native object in step with this state.

use vstd::prelude::*;

use crate::geometry::{Monitor, Point, Rect, monitor_under_cursor, monitors_wf,
    spec_positioned_frame};

verus! {

/// The window level of the system menu bar; a spotlight panel floats one
/// step above it unless a per-window override is configured.
pub const MAIN_MENU_WINDOW_LEVEL: i64 = 24;

/// Style-mask bit for a non-activating panel: the panel can become key
/// without activating the owning application.
pub const STYLE_MASK_NON_ACTIVATING_PANEL: u32 = 0x80;

/// Collection-behavior bit: the panel joins all virtual desktops.
pub const COLLECTION_CAN_JOIN_ALL_SPACES: u64 = 0x1;

/// Collection-behavior bit: the panel stays put during space transitions.
pub const COLLECTION_STATIONARY: u64 = 0x10;

/// Collection-behavior bit: the panel is excluded from window cycling.
pub const COLLECTION_IGNORES_CYCLE: u64 = 0x40;

/// Collection-behavior bit: the panel may show over fullscreen applications.
pub const COLLECTION_FULL_SCREEN_AUXILIARY: u64 = 0x100;

/// A floating overlay panel: the presentation state of one window after its
/// promotion to a panel.
#[derive(Clone, Copy, Debug, PartialEq, Eq, Structural)]
pub struct RawNSPanel {
    /// Whether the panel is ordered in (on screen).
    pub visible: bool,
    /// Whether the panel is the key (focused) window.
    pub key: bool,
    /// Whether resigning key status hides the panel automatically.
    pub auto_hide: bool,
    /// The panel's window level.
    pub level: i64,
    /// The panel's style mask.
    pub style_mask: u32,
    /// The panel's collection behavior (virtual-desktop and cycling bits).
    pub collection_behaviour: u64,
    /// The panel's frame in logical screen coordinates.
    pub frame: Rect,
}

impl RawNSPanel {
    /// Promote a window to a panel. The window's current frame and
    /// visibility carry over; every panel attribute starts at its default.
    pub fn from_window(frame: Rect, visible: bool) -> (r: RawNSPanel)
        ensures
            r == (RawNSPanel {
                visible,
                key: false,
                auto_hide: false,
                level: 0,
                style_mask: 0,
                collection_behaviour: 0,
                frame,
            }),
    {
        RawNSPanel {
            visible,
            key: false,
            auto_hide: false,
            level: 0,
            style_mask: 0,
            collection_behaviour: 0,
            frame,
        }
    }

    /// Whether the panel is on screen.
    pub fn is_visible(&self) -> (r: bool)
        ensures
            r == self.visible,
    {
        self.visible
    }

    /// A spotlight panel can always become the key window; this is what lets
    /// a borderless panel take keyboard focus at all.
    pub fn can_become_key_window(&self) -> (r: bool)
        ensures
            r,
    {
        true
    }

    /// Order the panel to the front whether or not its application is
    /// active.
    pub fn order_front_regardless(&mut self)
        ensures
            *final(self) == (RawNSPanel { visible: true, ..*old(self) }),
    {
        self.visible = true;
    }

    /// Make the panel the key window.
    pub fn make_key_window(&mut self)
        ensures
            *final(self) == (RawNSPanel { key: true, ..*old(self) }),
    {
        self.key = true;
    }

    /// Bring the panel to the front and give it key status, without stealing
    /// the host application's overall activation.
    pub fn show(&mut self)
        ensures
            *final(self) == (RawNSPanel { visible: true, key: true, ..*old(self) }),
    {
        self.order_front_regardless();
        self.make_key_window();
    }

    /// Order the panel out: it leaves the screen and loses key status. A
    /// no-op when already hidden.
    pub fn order_out(&mut self)
        ensures
            *final(self) == (RawNSPanel { visible: false, key: false, ..*old(self) }),
    {
        self.visible = false;
        self.key = false;
    }

    /// Set the panel's window level.
    pub fn set_level(&mut self, level: i64)
        ensures
            *final(self) == (RawNSPanel { level, ..*old(self) }),
    {
        self.level = level;
    }

    /// Set whether resigning key status hides the panel.
    pub fn set_auto_hide(&mut self, value: bool)
        ensures
            *final(self) == (RawNSPanel { auto_hide: value, ..*old(self) }),
    {
        self.auto_hide = value;
    }

    /// Set the panel's style mask.
    pub fn set_style_mask(&mut self, style_mask: u32)
        ensures
            *final(self) == (RawNSPanel { style_mask, ..*old(self) }),
    {
        self.style_mask = style_mask;
    }

    /// Set the panel's collection behavior.
    pub fn set_collection_behaviour(&mut self, behaviour: u64)
        ensures
            *final(self) == (RawNSPanel { collection_behaviour: behaviour, ..*old(self) }),
    {
        self.collection_behaviour = behaviour;
    }

    /// What the resign-key delegate does: the panel loses key status, and
    /// hides exactly when auto-hide is enabled. Returns whether it hid.
    pub fn handle_resign_key(&mut self) -> (hid: bool)
        ensures
            *final(self) == (RawNSPanel {
                key: false,
                visible: old(self).visible && !old(self).auto_hide,
                ..*old(self)
            }),
            hid == old(self).auto_hide,
    {
        self.key = false;
        if self.auto_hide {
            self.visible = false;
            true
        } else {
            false
        }
    }

    /// The panel after positioning at the display under the cursor: centered
    /// within the first display frame containing the cursor, unchanged when
    /// no display contains it.
    pub open spec fn spec_positioned(self, monitors: Seq<Monitor>, cursor: Point) -> RawNSPanel {
        RawNSPanel { frame: spec_positioned_frame(self.frame, monitors, cursor), ..self }
    }

    /// Move the panel so it is centered within the display under the cursor,
    /// preserving its size. When no display contains the cursor, the frame
    /// is left as it was.
    pub fn position_at_monitor_under_cursor(&mut self, monitors: &Vec<Monitor>, cursor: Point)
        requires
            old(self).frame.wf(),
            monitors_wf(monitors@),
        ensures
            *final(self) == old(self).spec_positioned(monitors@, cursor),
    {
        match monitor_under_cursor(monitors, cursor) {
            Some(i) => {
                proof {
                    crate::geometry::lemma_first_monitor_containing(monitors@, cursor);
                }
                let target = monitors[i].frame;
                self.frame = self.frame.centered_in(&target);
            },
            None => (),
        }
    }
}

/// The panel a freshly promoted window becomes: one level above the menu
/// bar, auto-hide on resign-key, on every space and over fullscreen
/// applications, excluded from window cycling, and non-activating.
pub open spec fn spec_spotlight_panel(frame: Rect, visible: bool) -> RawNSPanel {
    RawNSPanel {
        visible,
        key: false,
        auto_hide: true,
        level: (MAIN_MENU_WINDOW_LEVEL + 1) as i64,
        style_mask: STYLE_MASK_NON_ACTIVATING_PANEL,
        collection_behaviour: COLLECTION_CAN_JOIN_ALL_SPACES | COLLECTION_STATIONARY
            | COLLECTION_FULL_SCREEN_AUXILIARY | COLLECTION_IGNORES_CYCLE,
        frame,
    }
}

/// Convert a window into a spotlight panel and apply the overlay
/// presentation attributes.
pub fn create_spotlight_panel(frame: Rect, visible: bool) -> (r: RawNSPanel)
    ensures
        r == spec_spotlight_panel(frame, visible),
{
    let mut panel = RawNSPanel::from_window(frame, visible);
    // One step above the system menu bar.
    panel.set_level(MAIN_MENU_WINDOW_LEVEL + 1);
    // Hide automatically when the panel resigns key status.
    panel.set_auto_hide(true);
    // Join all spaces, stay put across space transitions, show over
    // fullscreen applications, stay out of window cycling.
    panel.set_collection_behaviour(
        COLLECTION_CAN_JOIN_ALL_SPACES | COLLECTION_STATIONARY
            | COLLECTION_FULL_SCREEN_AUXILIARY | COLLECTION_IGNORES_CYCLE,
    );
    // Becoming key must not activate the host application.
    panel.set_style_mask(STYLE_MASK_NON_ACTIVATING_PANEL);
    panel
}

} // verus!
