//! The visibility orchestrator.
//!
//! A `SpotlightManager` owns, per registered window, the `Hidden` /
//! `Visible` state machine of one overlay panel, together with the shortcut
//! registry and the single previous-application record. Registration is
//! idempotent; showing positions the panel on the display under the cursor
//! and records the frontmost application before the transition; hiding hands
//! back the recorded application so the host can restore focus to it; the
//! global close shortcut hides every registered window at once and issues at
//! most one restoration request.
//!
//! The orchestrator is a state machine over plain values. The host drives
//! it: hotkey presses arrive through `dispatch_shortcut`, focus changes
//! through `handle_focus_state_change`, explicit commands through `show` and
//! `hide`; each call takes what the window system reports (cursor position,
//! display frames, frontmost application) and returns what the host must do
//! (reactivate a previously frontmost application). Operations on a window
//! label that was never registered consistently return `NotFound` and leave
//! the state unchanged.

use vstd::prelude::*;

use crate::config::{PluginConfig, WindowConfig, WindowConfigView};
use crate::error::Error;
use crate::geometry::{Monitor, Point, Rect, monitors_wf};
use crate::panel::{RawNSPanel, create_spotlight_panel, spec_spotlight_panel};
use crate::registry::{ActionView, BindingView, ShortcutAction, ShortcutRegistry,
    contains_shortcut, registry_wf, spec_register, spec_unregister};
use crate::tracker::{PreviousAppTracker, TrackerView, spec_record, spec_take};

verus! {

/// The orchestrator's own configuration: the optional global close shortcut
/// and the hide-on-focus-loss flag.
#[derive(Debug)]
pub struct Config {
    pub close_shortcut: Option<String>,
    pub hide_when_inactive: bool,
}

/// Mathematical counterpart of `Config`.
pub ghost struct ConfigView {
    pub close_shortcut: Option<Seq<char>>,
    pub hide_when_inactive: bool,
}

impl View for Config {
    type V = ConfigView;

    open spec fn view(&self) -> ConfigView {
        ConfigView {
            close_shortcut: self.close_shortcut.deep_view(),
            hide_when_inactive: self.hide_when_inactive,
        }
    }
}

impl Config {
    /// The orchestrator configuration a merged plugin configuration asks
    /// for: its close shortcut, and hide-on-focus-loss exactly when the flag
    /// is set to true.
    pub fn from_plugin_config(c: &PluginConfig) -> (r: Config)
        ensures
            r@.close_shortcut == c@.close_shortcut,
            r@.hide_when_inactive == (c@.hide_when_inactive == Some(true)),
    {
        let close_shortcut = match &c.close_shortcut {
            Some(s) => Some(s.clone()),
            None => None,
        };
        let hide_when_inactive = match c.hide_when_inactive {
            Some(v) => v,
            None => false,
        };
        Config { close_shortcut, hide_when_inactive }
    }
}

/// One registered overlay window: its label and its panel.
#[derive(Debug)]
pub struct RegisteredWindow {
    pub label: String,
    pub panel: RawNSPanel,
}

/// Mathematical counterpart of `RegisteredWindow`.
pub ghost struct WindowView {
    pub label: Seq<char>,
    pub panel: RawNSPanel,
}

impl View for RegisteredWindow {
    type V = WindowView;

    open spec fn view(&self) -> WindowView {
        WindowView { label: self.label@, panel: self.panel }
    }
}

/// Mathematical counterpart of `SpotlightManager`.
#[verifier::ext_equal]
pub ghost struct ManagerView {
    pub config: ConfigView,
    pub windows: Seq<WindowView>,
    pub bindings: Seq<BindingView>,
    pub tracker: TrackerView,
}

/// The visibility orchestrator: the registered windows with their panels,
/// the shortcut registry, and the previous-application tracker.
#[derive(Debug)]
pub struct SpotlightManager {
    pub config: Config,
    pub windows: Vec<RegisteredWindow>,
    pub registry: ShortcutRegistry,
    pub tracker: PreviousAppTracker,
}

impl View for SpotlightManager {
    type V = ManagerView;

    open spec fn view(&self) -> ManagerView {
        ManagerView {
            config: self.config@,
            windows: self.windows@.map_values(|w: RegisteredWindow| w@),
            bindings: self.registry@,
            tracker: self.tracker@,
        }
    }
}

/// Whether a window with this label is registered.
pub open spec fn has_window(ws: Seq<WindowView>, label: Seq<char>) -> bool {
    exists|i: int| 0 <= i < ws.len() && ws[i].label == label
}

/// Whether the window with this label is visible.
pub open spec fn visible_of(ws: Seq<WindowView>, label: Seq<char>) -> bool {
    exists|i: int| 0 <= i < ws.len() && ws[i].label == label && ws[i].panel.visible
}

/// Registered windows are well-formed: labels are unique and every panel
/// frame is a well-formed window frame.
pub open spec fn windows_wf(ws: Seq<WindowView>) -> bool {
    &&& forall|i: int, j: int|
        0 <= i < j < ws.len() ==> (#[trigger] ws[i]).label != (#[trigger] ws[j]).label
    &&& forall|i: int| 0 <= i < ws.len() ==> (#[trigger] ws[i]).panel.frame.wf()
}

/// The orchestrator's invariant: well-formed windows and a duplicate-free
/// shortcut registry.
pub open spec fn manager_wf(m: ManagerView) -> bool {
    &&& windows_wf(m.windows)
    &&& registry_wf(m.bindings)
}

/// The panel a window is initialized with: the spotlight defaults, with the
/// window level replaced by the binding's override when one is configured.
pub open spec fn spec_panel_for(b: WindowConfigView, frame: Rect, visible: bool) -> RawNSPanel {
    match b.window_level {
        Some(level) => RawNSPanel { level, ..spec_spotlight_panel(frame, visible) },
        None => spec_spotlight_panel(frame, visible),
    }
}

/// The close-shortcut binding added (guarded against double registration)
/// when one is configured.
pub open spec fn spec_register_close(bs: Seq<BindingView>, c: ConfigView) -> Seq<BindingView> {
    match c.close_shortcut {
        Some(cs) => spec_register(bs, cs, ActionView::CloseAll),
        None => bs,
    }
}

/// The close-shortcut binding removed when one is configured.
pub open spec fn spec_unregister_close(bs: Seq<BindingView>, c: ConfigView) -> Seq<BindingView> {
    match c.close_shortcut {
        Some(cs) => spec_unregister(bs, cs),
        None => bs,
    }
}

/// Registration: idempotent. The first call for a label adds the window with
/// its spotlight panel, binds the window's toggle shortcut, and binds the
/// global close shortcut (at most once process-wide); a later call for the
/// same label changes nothing.
pub open spec fn spec_init(
    m: ManagerView,
    b: WindowConfigView,
    frame: Rect,
    visible: bool,
) -> ManagerView {
    if has_window(m.windows, b.label) {
        m
    } else {
        ManagerView {
            windows: m.windows.push(
                WindowView { label: b.label, panel: spec_panel_for(b, frame, visible) },
            ),
            bindings: spec_register_close(
                spec_register(m.bindings, b.shortcut, ActionView::Toggle(b.label)),
                m.config,
            ),
            ..m
        }
    }
}

/// A panel ordered out: off screen, key status lost, all else kept.
pub open spec fn spec_hidden_panel(p: RawNSPanel) -> RawNSPanel {
    RawNSPanel { visible: false, key: false, ..p }
}

/// A panel shown: positioned at the display under the cursor, then on
/// screen and key, all else kept.
pub open spec fn spec_shown_panel(p: RawNSPanel, monitors: Seq<Monitor>, cursor: Point) -> RawNSPanel {
    RawNSPanel { visible: true, key: true, ..p.spec_positioned(monitors, cursor) }
}

/// A registered window after its panel is hidden.
pub open spec fn spec_hidden_window(w: WindowView) -> WindowView {
    WindowView { label: w.label, panel: spec_hidden_panel(w.panel) }
}

/// The window list after the window with this label is shown; all other
/// windows are untouched.
pub open spec fn spec_show_windows(
    ws: Seq<WindowView>,
    label: Seq<char>,
    monitors: Seq<Monitor>,
    cursor: Point,
) -> Seq<WindowView> {
    ws.map_values(
        |w: WindowView|
            if w.label == label {
                WindowView { label: w.label, panel: spec_shown_panel(w.panel, monitors, cursor) }
            } else {
                w
            },
    )
}

/// The window list after the window with this label is hidden; all other
/// windows are untouched.
pub open spec fn spec_hide_windows(ws: Seq<WindowView>, label: Seq<char>) -> Seq<WindowView> {
    ws.map_values(
        |w: WindowView|
            if w.label == label {
                spec_hidden_window(w)
            } else {
                w
            },
    )
}

/// Showing: the panel is positioned at the display under the cursor and
/// becomes visible and key; the frontmost application is recorded (host
/// identity suppressed) before the transition.
pub open spec fn spec_show(
    m: ManagerView,
    label: Seq<char>,
    monitors: Seq<Monitor>,
    cursor: Point,
    frontmost: Option<Seq<char>>,
) -> ManagerView {
    ManagerView {
        windows: spec_show_windows(m.windows, label, monitors, cursor),
        tracker: spec_record(m.tracker, frontmost),
        ..m
    }
}

/// Hiding: the panel leaves the screen, and the previous-application record
/// is taken as the restoration request, leaving no record behind.
pub open spec fn spec_hide(m: ManagerView, label: Seq<char>) -> (ManagerView, Option<Seq<char>>) {
    (
        ManagerView {
            windows: spec_hide_windows(m.windows, label),
            tracker: spec_take(m.tracker).0,
            ..m
        },
        spec_take(m.tracker).1,
    )
}

/// Hiding every registered window at once: one restoration request at most,
/// for the most recently recorded previous application.
pub open spec fn spec_hide_all(m: ManagerView) -> (ManagerView, Option<Seq<char>>) {
    (
        ManagerView {
            windows: m.windows.map_values(|w: WindowView| spec_hidden_window(w)),
            tracker: spec_take(m.tracker).0,
            ..m
        },
        spec_take(m.tracker).1,
    )
}

/// A focus change of a registered window. Gaining focus re-registers the
/// global close shortcut (guarded), so the close-all accelerator is live
/// only while an overlay window holds focus. Losing focus unregisters it,
/// and, when hide-on-focus-loss is configured, hides the window exactly as
/// the toggle shortcut would, previous-application restoration included.
pub open spec fn spec_focus_change(m: ManagerView, label: Seq<char>, focused: bool) -> (
    ManagerView,
    Option<Seq<char>>,
) {
    if focused {
        (ManagerView { bindings: spec_register_close(m.bindings, m.config), ..m }, None)
    } else {
        let m1 = ManagerView { bindings: spec_unregister_close(m.bindings, m.config), ..m };
        if m.config.hide_when_inactive {
            spec_hide(m1, label)
        } else {
            (m1, None)
        }
    }
}

/// Toggling: hide when visible, show when hidden.
pub open spec fn spec_toggle(
    m: ManagerView,
    label: Seq<char>,
    monitors: Seq<Monitor>,
    cursor: Point,
    frontmost: Option<Seq<char>>,
) -> (ManagerView, Option<Seq<char>>) {
    if visible_of(m.windows, label) {
        spec_hide(m, label)
    } else {
        (spec_show(m, label, monitors, cursor, frontmost), None)
    }
}

impl SpotlightManager {
    /// A fresh orchestrator: configuration and host identity set, nothing
    /// registered, nothing recorded.
    pub fn new(config: Config, host_app_path: String) -> (r: SpotlightManager)
        ensures
            r@ == (ManagerView {
                config: ConfigView {
                    close_shortcut: config.close_shortcut.deep_view(),
                    hide_when_inactive: config.hide_when_inactive,
                },
                windows: Seq::<WindowView>::empty(),
                bindings: Seq::<BindingView>::empty(),
                tracker: TrackerView { host: host_app_path@, previous: None },
            }),
            manager_wf(r@),
    {
        let r = SpotlightManager {
            config,
            windows: Vec::new(),
            registry: ShortcutRegistry::new(),
            tracker: PreviousAppTracker::new(host_app_path),
        };
        proof {
            assert(r@.windows =~= Seq::<WindowView>::empty());
        }
        r
    }

    /// The index of the registered window with this label, if any.
    fn find_window(&self, label: &String) -> (r: Option<usize>)
        ensures
            match r {
                Some(i) => i < self@.windows.len() && self@.windows[i as int].label == label@,
                None => !has_window(self@.windows, label@),
            },
    {
        let n = self.windows.len();
        let mut i: usize = 0;
        while i < n
            invariant
                0 <= i <= n,
                n == self.windows@.len(),
                self@.windows.len() == self.windows@.len(),
                forall|j: int| 0 <= j < i ==> (#[trigger] self@.windows[j]).label != label@,
            decreases n - i,
        {
            if self.windows[i].label == *label {
                assert(self@.windows[i as int].label == label@);
                return Some(i);
            }
            i = i + 1;
        }
        None
    }

    /// Whether a window with this label has been registered.
    pub fn is_window_registered(&self, label: &String) -> (r: bool)
        ensures
            r == has_window(self@.windows, label@),
    {
        self.find_window(label).is_some()
    }

    /// Whether the window with this label is currently visible; false for a
    /// label that was never registered.
    pub fn is_window_visible(&self, label: &String) -> (r: bool)
        requires
            manager_wf(self@),
        ensures
            r == visible_of(self@.windows, label@),
    {
        match self.find_window(label) {
            Some(idx) => {
                let v = self.windows[idx].panel.is_visible();
                proof {
                    if !v {
                        assert forall|i: int|
                            0 <= i < self@.windows.len() && (#[trigger] self@.windows[i]).label
                                == label@ implies !self@.windows[i].panel.visible by {
                            if i != idx {
                                assert(self@.windows[i].label != self@.windows[idx as int].label);
                            }
                        }
                    } else {
                        assert(self@.windows[idx as int].label == label@
                            && self@.windows[idx as int].panel.visible);
                    }
                }
                v
            },
            None => false,
        }
    }

    /// Register a window for overlay duty: convert it to a spotlight panel
    /// (applying the binding's window-level override), bind its toggle
    /// shortcut, and bind the global close shortcut once process-wide, both
    /// guarded against double registration. Idempotent: a second call for
    /// the same label succeeds and changes nothing.
    pub fn init_spotlight_window(
        &mut self,
        binding: &WindowConfig,
        frame: Rect,
        visible: bool,
    ) -> (r: Result<(), Error>)
        requires
            manager_wf(old(self)@),
            frame.wf(),
        ensures
            r is Ok,
            final(self)@ == spec_init(old(self)@, binding@, frame, visible),
            manager_wf(final(self)@),
    {
        if self.find_window(&binding.label).is_some() {
            proof {
                assert(final(self)@ =~= old(self)@);
            }
            return Ok(());
        }
        let ghost prev = self@;
        let mut panel = create_spotlight_panel(frame, visible);
        if let Some(level) = binding.window_level {
            panel.set_level(level);
        }
        let ghost new_window = WindowView { label: binding@.label, panel };
        self.windows.push(RegisteredWindow { label: binding.label.clone(), panel });
        proof {
            assert(self@.windows =~= prev.windows.push(new_window));
        }
        self.registry.register(
            binding.shortcut.clone(),
            ShortcutAction::Toggle(binding.label.clone()),
        );
        if let Some(cs) = &self.config.close_shortcut {
            let cs_owned = cs.clone();
            self.registry.register(cs_owned, ShortcutAction::CloseAll);
        }
        proof {
            let target = spec_init(prev, binding@, frame, visible);
            assert(self@.windows =~= target.windows);
            assert(self@.bindings == target.bindings);
            assert(self@ =~= target);
            crate::registry::lemma_register_unique(
                prev.bindings,
                binding@.shortcut,
                ActionView::Toggle(binding@.label),
            );
            let bs1 = spec_register(prev.bindings, binding@.shortcut, ActionView::Toggle(
                binding@.label,
            ));
            match prev.config.close_shortcut {
                Some(cs) => {
                    crate::registry::lemma_register_unique(bs1, cs, ActionView::CloseAll);
                },
                None => {},
            }
            assert forall|i: int, j: int|
                0 <= i < j < self@.windows.len() implies (#[trigger] self@.windows[i]).label
                != (#[trigger] self@.windows[j]).label by {
                if j == self@.windows.len() - 1 {
                    assert(!(prev.windows[i].label == binding@.label));
                }
            }
        }
        Ok(())
    }

    /// Show the window with this label: position its panel at the display
    /// under the cursor, record the frontmost application, and bring the
    /// panel on screen as the key window. `NotFound` when the label was
    /// never registered.
    pub fn show(
        &mut self,
        label: &String,
        monitors: &Vec<Monitor>,
        cursor: Point,
        frontmost: Option<String>,
    ) -> (r: Result<(), Error>)
        requires
            manager_wf(old(self)@),
            monitors_wf(monitors@),
        ensures
            manager_wf(final(self)@),
            has_window(old(self)@.windows, label@) ==> r is Ok && final(self)@ == spec_show(
                old(self)@,
                label@,
                monitors@,
                cursor,
                frontmost.deep_view(),
            ),
            !has_window(old(self)@.windows, label@) ==> r == Err::<(), Error>(Error::NotFound)
                && final(self)@ == old(self)@,
    {
        let idx = match self.find_window(label) {
            Some(i) => i,
            None => {
                return Err(Error::NotFound);
            },
        };
        let ghost prev = self@;
        proof {
            assert((prev.windows[idx as int]).panel.frame.wf());
        }
        let mut panel = self.windows[idx].panel;
        panel.position_at_monitor_under_cursor(monitors, cursor);
        panel.show();
        let label_owned = self.windows[idx].label.clone();
        self.windows[idx] = RegisteredWindow { label: label_owned, panel };
        self.tracker.record_frontmost(frontmost);
        proof {
            let target = spec_show(prev, label@, monitors@, cursor, frontmost.deep_view());
            assert forall|k: int| 0 <= k < self@.windows.len() implies #[trigger] self@.windows[k]
                == target.windows[k] by {
                if k != idx {
                    assert(prev.windows[k].label != prev.windows[idx as int].label);
                }
            }
            assert(self@.windows =~= target.windows);
            assert(self@ =~= target);
            crate::geometry::lemma_positioning(
                prev.windows[idx as int].panel.frame,
                monitors@,
                cursor,
            );
            assert forall|i: int| 0 <= i < self@.windows.len() implies (#[trigger] self@.windows[i])
                .panel.frame.wf() by {
                assert(prev.windows[i].panel.frame.wf());
            }
        }
        Ok(())
    }

    /// Hide the window with this label: its panel leaves the screen, and
    /// the previous-application record, if one exists, is handed back as the
    /// restoration request (and cleared, so at most one request is issued
    /// per recording). `NotFound` when the label was never registered.
    pub fn hide_window(&mut self, label: &String) -> (r: Result<Option<String>, Error>)
        requires
            manager_wf(old(self)@),
        ensures
            manager_wf(final(self)@),
            has_window(old(self)@.windows, label@) ==> match r {
                Ok(prev_app) => final(self)@ == spec_hide(old(self)@, label@).0
                    && prev_app.deep_view() == spec_hide(old(self)@, label@).1,
                Err(_) => false,
            },
            !has_window(old(self)@.windows, label@) ==> r == Err::<Option<String>, Error>(
                Error::NotFound,
            ) && final(self)@ == old(self)@,
    {
        let idx = match self.find_window(label) {
            Some(i) => i,
            None => {
                return Err(Error::NotFound);
            },
        };
        let ghost prev = self@;
        let mut panel = self.windows[idx].panel;
        panel.order_out();
        let label_owned = self.windows[idx].label.clone();
        self.windows[idx] = RegisteredWindow { label: label_owned, panel };
        let prev_app = self.tracker.take_previous();
        proof {
            let target = spec_hide(prev, label@).0;
            assert forall|k: int| 0 <= k < self@.windows.len() implies #[trigger] self@.windows[k]
                == target.windows[k] by {
                if k != idx {
                    assert(prev.windows[k].label != prev.windows[idx as int].label);
                }
            }
            assert(self@.windows =~= target.windows);
            assert(self@ =~= target);
            assert forall|i: int| 0 <= i < self@.windows.len() implies (#[trigger] self@.windows[i])
                .panel.frame.wf() by {
                assert(prev.windows[i].panel.frame.wf());
            }
        }
        Ok(prev_app)
    }

    /// Toggle the window with this label: hide it when visible, show it when
    /// hidden. `NotFound` when the label was never registered.
    pub fn toggle(
        &mut self,
        label: &String,
        monitors: &Vec<Monitor>,
        cursor: Point,
        frontmost: Option<String>,
    ) -> (r: Result<Option<String>, Error>)
        requires
            manager_wf(old(self)@),
            monitors_wf(monitors@),
        ensures
            manager_wf(final(self)@),
            has_window(old(self)@.windows, label@) ==> match r {
                Ok(prev_app) => final(self)@ == spec_toggle(
                    old(self)@,
                    label@,
                    monitors@,
                    cursor,
                    frontmost.deep_view(),
                ).0 && prev_app.deep_view() == spec_toggle(
                    old(self)@,
                    label@,
                    monitors@,
                    cursor,
                    frontmost.deep_view(),
                ).1,
                Err(_) => false,
            },
            !has_window(old(self)@.windows, label@) ==> r == Err::<Option<String>, Error>(
                Error::NotFound,
            ) && final(self)@ == old(self)@,
    {
        let idx = match self.find_window(label) {
            Some(i) => i,
            None => {
                return Err(Error::NotFound);
            },
        };
        if self.windows[idx].panel.is_visible() {
            assert(visible_of(self@.windows, label@));
            self.hide_window(label)
        } else {
            proof {
                assert forall|i: int|
                    0 <= i < self@.windows.len() && (#[trigger] self@.windows[i]).label == label@
                    implies !self@.windows[i].panel.visible by {
                    if i != idx {
                        assert(self@.windows[i].label != self@.windows[idx as int].label);
                    }
                }
            }
            match self.show(label, monitors, cursor, frontmost) {
                Ok(_) => Ok(None),
                Err(e) => Err(e),
            }
        }
    }

    /// Hide every registered window: what the global close shortcut does.
    /// At most one restoration request is issued, for the most recently
    /// recorded previous application, not one per window.
    pub fn hide_all(&mut self) -> (r: Option<String>)
        requires
            manager_wf(old(self)@),
        ensures
            manager_wf(final(self)@),
            final(self)@ == spec_hide_all(old(self)@).0,
            r.deep_view() == spec_hide_all(old(self)@).1,
    {
        let ghost orig = self@;
        let n = self.windows.len();
        let mut i: usize = 0;
        while i < n
            invariant
                0 <= i <= n,
                n == self.windows@.len(),
                self@.windows.len() == n,
                orig.windows.len() == n,
                self@.config == orig.config,
                self@.bindings == orig.bindings,
                self@.tracker == orig.tracker,
                forall|k: int| 0 <= k < i ==> #[trigger] self@.windows[k] == spec_hidden_window(
                    orig.windows[k],
                ),
                forall|k: int| i <= k < n ==> #[trigger] self@.windows[k] == orig.windows[k],
            decreases n - i,
        {
            let ghost before = self@.windows;
            proof {
                assert(before[i as int] == orig.windows[i as int]);
            }
            let mut panel = self.windows[i].panel;
            panel.order_out();
            let label_owned = self.windows[i].label.clone();
            self.windows[i] = RegisteredWindow { label: label_owned, panel };
            proof {
                assert(self@.windows =~= before.update(i as int, spec_hidden_window(
                    orig.windows[i as int],
                )));
            }
            i = i + 1;
        }
        let prev_app = self.tracker.take_previous();
        proof {
            let target = spec_hide_all(old(self)@).0;
            assert(self@.windows =~= target.windows);
            assert(self@ =~= target);
            assert forall|k: int| 0 <= k < self@.windows.len() implies (#[trigger] self@.windows[k])
                .panel.frame.wf() by {
                assert(old(self)@.windows[k].panel.frame.wf());
            }
        }
        prev_app
    }

    /// React to a focus change of the window with this label: on focus gain
    /// the global close shortcut is re-registered (guarded); on focus loss
    /// it is unregistered and, when hide-on-focus-loss is configured, the
    /// window is hidden with the usual restoration request. `NotFound` when
    /// the label was never registered.
    pub fn handle_focus_state_change(&mut self, label: &String, focused: bool) -> (r: Result<
        Option<String>,
        Error,
    >)
        requires
            manager_wf(old(self)@),
        ensures
            manager_wf(final(self)@),
            has_window(old(self)@.windows, label@) ==> match r {
                Ok(prev_app) => final(self)@ == spec_focus_change(old(self)@, label@, focused).0
                    && prev_app.deep_view() == spec_focus_change(old(self)@, label@, focused).1,
                Err(_) => false,
            },
            !has_window(old(self)@.windows, label@) ==> r == Err::<Option<String>, Error>(
                Error::NotFound,
            ) && final(self)@ == old(self)@,
    {
        if self.find_window(label).is_none() {
            return Err(Error::NotFound);
        }
        let ghost prev = self@;
        if focused {
            if let Some(cs) = &self.config.close_shortcut {
                let cs_owned = cs.clone();
                self.registry.register(cs_owned, ShortcutAction::CloseAll);
                proof {
                    crate::registry::lemma_register_unique(
                        prev.bindings,
                        cs@,
                        ActionView::CloseAll,
                    );
                }
            }
            proof {
                assert(self@ =~= spec_focus_change(prev, label@, true).0);
            }
            Ok(None)
        } else {
            if let Some(cs) = &self.config.close_shortcut {
                let cs_owned = cs.clone();
                self.registry.unregister(&cs_owned);
                proof {
                    crate::registry::lemma_unregister_wf(prev.bindings, cs@);
                }
            }
            let ghost m1 = ManagerView {
                bindings: spec_unregister_close(prev.bindings, prev.config),
                ..prev
            };
            proof {
                assert(self@ =~= m1);
            }
            if self.config.hide_when_inactive {
                let res = self.hide_window(label);
                proof {
                    assert(has_window(m1.windows, label@));
                }
                res
            } else {
                Ok(None)
            }
        }
    }

    /// Route a fired accelerator to its registered action: toggle the bound
    /// window, or hide all windows for the close shortcut. An accelerator
    /// this registry never bound is a benign no-op (the platform can race an
    /// unregistration).
    pub fn dispatch_shortcut(
        &mut self,
        shortcut: &String,
        monitors: &Vec<Monitor>,
        cursor: Point,
        frontmost: Option<String>,
    ) -> (r: Result<Option<String>, Error>)
        requires
            manager_wf(old(self)@),
            monitors_wf(monitors@),
        ensures
            manager_wf(final(self)@),
            !contains_shortcut(old(self)@.bindings, shortcut@) ==> r == Ok::<
                Option<String>,
                Error,
            >(None) && final(self)@ == old(self)@,
            forall|i: int|
                0 <= i < old(self)@.bindings.len() && (#[trigger] old(self)@.bindings[i]).shortcut
                    == shortcut@ ==> match old(self)@.bindings[i].action {
                    ActionView::Toggle(l) => {
                        &&& has_window(old(self)@.windows, l) ==> match r {
                            Ok(prev_app) => final(self)@ == spec_toggle(
                                old(self)@,
                                l,
                                monitors@,
                                cursor,
                                frontmost.deep_view(),
                            ).0 && prev_app.deep_view() == spec_toggle(
                                old(self)@,
                                l,
                                monitors@,
                                cursor,
                                frontmost.deep_view(),
                            ).1,
                            Err(_) => false,
                        }
                        &&& !has_window(old(self)@.windows, l) ==> r == Err::<
                            Option<String>,
                            Error,
                        >(Error::NotFound) && final(self)@ == old(self)@
                    },
                    ActionView::CloseAll => match r {
                        Ok(prev_app) => final(self)@ == spec_hide_all(old(self)@).0
                            && prev_app.deep_view() == spec_hide_all(old(self)@).1,
                        Err(_) => false,
                    },
                },
    {
        let ghost prev = self@;
        match self.registry.lookup(shortcut) {
            None => Ok(None),
            Some(action) => {
                let ghost w = choose|w: int|
                    0 <= w < prev.bindings.len() && (#[trigger] prev.bindings[w]).shortcut
                        == shortcut@ && action@ == prev.bindings[w].action;
                proof {
                    assert forall|i: int|
                        0 <= i < prev.bindings.len() && (#[trigger] prev.bindings[i]).shortcut
                            == shortcut@ implies prev.bindings[i].action == action@ by {
                        if i != w {
                            assert(false);
                        }
                    }
                }
                match action {
                    ShortcutAction::Toggle(l) => self.toggle(&l, monitors, cursor, frontmost),
                    ShortcutAction::CloseAll => Ok(self.hide_all()),
                }
            },
        }
    }
}

/// Idempotent registration: a second `init` for the same label changes
/// nothing, whatever frame and visibility the window has by then.
pub proof fn lemma_init_idempotent(
    m: ManagerView,
    b: WindowConfigView,
    frame: Rect,
    visible: bool,
    frame2: Rect,
    visible2: bool,
)
    ensures
        spec_init(spec_init(m, b, frame, visible), b, frame2, visible2) == spec_init(
            m,
            b,
            frame,
            visible,
        ),
{
    let m1 = spec_init(m, b, frame, visible);
    if !has_window(m.windows, b.label) {
        assert(m1.windows[m.windows.len() as int].label == b.label);
        assert(has_window(m1.windows, b.label));
    }
}

/// Registering a window twice binds exactly one toggle shortcut for it, and
/// at most one close shortcut process-wide: after the two `init` calls no
/// accelerator string is bound twice, the toggle shortcut is bound, and so
/// is the configured close shortcut.
pub proof fn lemma_init_registers_once(
    m: ManagerView,
    b: WindowConfigView,
    frame: Rect,
    visible: bool,
    frame2: Rect,
    visible2: bool,
)
    requires
        manager_wf(m),
        !has_window(m.windows, b.label),
    ensures
        spec_init(spec_init(m, b, frame, visible), b, frame2, visible2) == spec_init(
            m,
            b,
            frame,
            visible,
        ),
        registry_wf(spec_init(m, b, frame, visible).bindings),
        contains_shortcut(spec_init(m, b, frame, visible).bindings, b.shortcut),
        m.config.close_shortcut matches Some(cs) ==> contains_shortcut(
            spec_init(m, b, frame, visible).bindings,
            cs,
        ),
{
    lemma_init_idempotent(m, b, frame, visible, frame2, visible2);
    let bs1 = spec_register(m.bindings, b.shortcut, ActionView::Toggle(b.label));
    crate::registry::lemma_register_unique(m.bindings, b.shortcut, ActionView::Toggle(b.label));
    match m.config.close_shortcut {
        Some(cs) => {
            crate::registry::lemma_register_unique(bs1, cs, ActionView::CloseAll);
            if cs != b.shortcut {
                assert(contains_shortcut(spec_register(bs1, cs, ActionView::CloseAll), b.shortcut))
                    by {
                    let w = choose|w: int|
                        0 <= w < bs1.len() && (#[trigger] bs1[w]).shortcut == b.shortcut;
                    assert(spec_register(bs1, cs, ActionView::CloseAll)[w].shortcut == b.shortcut);
                }
            }
        },
        None => {},
    }
}

/// One toggle flips the toggled window's visibility, whatever the cursor,
/// displays or frontmost application were.
pub proof fn lemma_toggle_flips(
    m: ManagerView,
    label: Seq<char>,
    monitors: Seq<Monitor>,
    cursor: Point,
    frontmost: Option<Seq<char>>,
)
    requires
        manager_wf(m),
        has_window(m.windows, label),
    ensures
        visible_of(spec_toggle(m, label, monitors, cursor, frontmost).0.windows, label)
            == !visible_of(m.windows, label),
{
    let ws2 = spec_toggle(m, label, monitors, cursor, frontmost).0.windows;
    if visible_of(m.windows, label) {
        assert forall|i: int| 0 <= i < ws2.len() && (#[trigger] ws2[i]).label == label implies
            !ws2[i].panel.visible by {}
    } else {
        let w = choose|w: int| 0 <= w < m.windows.len() && (#[trigger] m.windows[w]).label
            == label;
        assert(ws2[w].label == label && ws2[w].panel.visible);
    }
}

/// What the host reports when a toggle fires: the display frames, the cursor
/// location, and the frontmost application.
pub ghost struct ToggleEvent {
    pub monitors: Seq<Monitor>,
    pub cursor: Point,
    pub frontmost: Option<Seq<char>>,
}

/// Every event reports well-formed display frames.
pub open spec fn events_wf(events: Seq<ToggleEvent>) -> bool {
    forall|i: int| 0 <= i < events.len() ==> monitors_wf((#[trigger] events[i]).monitors)
}

/// The orchestrator after a sequence of toggles of one window.
pub open spec fn spec_toggle_n(m: ManagerView, label: Seq<char>, events: Seq<ToggleEvent>) -> ManagerView
    decreases events.len(),
{
    if events.len() == 0 {
        m
    } else {
        let prev = spec_toggle_n(m, label, events.drop_last());
        spec_toggle(prev, label, events.last().monitors, events.last().cursor,
            events.last().frontmost).0
    }
}

/// A toggle keeps the orchestrator well-formed, keeps every window
/// registered under its label, and flips the toggled window's visibility.
pub proof fn lemma_toggle_preserves(
    m: ManagerView,
    label: Seq<char>,
    monitors: Seq<Monitor>,
    cursor: Point,
    frontmost: Option<Seq<char>>,
)
    requires
        manager_wf(m),
        monitors_wf(monitors),
        has_window(m.windows, label),
    ensures
        manager_wf(spec_toggle(m, label, monitors, cursor, frontmost).0),
        has_window(spec_toggle(m, label, monitors, cursor, frontmost).0.windows, label),
        visible_of(spec_toggle(m, label, monitors, cursor, frontmost).0.windows, label)
            == !visible_of(m.windows, label),
{
    lemma_toggle_flips(m, label, monitors, cursor, frontmost);
    let ws2 = spec_toggle(m, label, monitors, cursor, frontmost).0.windows;
    assert(ws2.len() == m.windows.len());
    assert forall|i: int| 0 <= i < ws2.len() implies (#[trigger] ws2[i]).label
        == m.windows[i].label && ws2[i].panel.frame.wf() by {
        assert(m.windows[i].panel.frame.wf());
        if m.windows[i].label == label && !visible_of(m.windows, label) {
            crate::geometry::lemma_positioning(m.windows[i].panel.frame, monitors, cursor);
        }
    }
    let w = choose|w: int| 0 <= w < m.windows.len() && (#[trigger] m.windows[w]).label == label;
    assert(ws2[w].label == label);
}

/// Toggle parity over a whole run: starting `Hidden`, an odd number of
/// toggles ends `Visible` and an even number ends `Hidden`, whatever the
/// cursor, displays and frontmost application were at each press.
pub proof fn lemma_toggle_parity_n(m: ManagerView, label: Seq<char>, events: Seq<ToggleEvent>)
    requires
        manager_wf(m),
        events_wf(events),
        has_window(m.windows, label),
        !visible_of(m.windows, label),
    ensures
        manager_wf(spec_toggle_n(m, label, events)),
        has_window(spec_toggle_n(m, label, events).windows, label),
        visible_of(spec_toggle_n(m, label, events).windows, label) == (events.len() % 2 == 1),
    decreases events.len(),
{
    if events.len() > 0 {
        let dl = events.drop_last();
        assert(events_wf(dl));
        lemma_toggle_parity_n(m, label, dl);
        let prev = spec_toggle_n(m, label, dl);
        lemma_toggle_preserves(prev, label, events.last().monitors, events.last().cursor,
            events.last().frontmost);
    }
}

/// Restoration: showing a window while application `a` is frontmost and then
/// hiding it issues exactly one restoration request, targeting `a` — unless
/// `a` is the host application itself, in which case (nothing having been
/// recorded before) no request is issued. Either way the record is then
/// clear, so no further request follows.
pub proof fn lemma_restoration(
    m: ManagerView,
    label: Seq<char>,
    monitors: Seq<Monitor>,
    cursor: Point,
    a: Seq<char>,
)
    ensures
        a != m.tracker.host ==> spec_hide(
            spec_show(m, label, monitors, cursor, Some(a)),
            label,
        ).1 == Some(a),
        a == m.tracker.host && m.tracker.previous is None ==> spec_hide(
            spec_show(m, label, monitors, cursor, Some(a)),
            label,
        ).1 is None,
        spec_hide(spec_show(m, label, monitors, cursor, Some(a)), label).0.tracker.previous
            is None,
{
}

/// Close-all: firing the global close shortcut leaves every registered
/// window hidden and issues at most one restoration request — the most
/// recently recorded previous application — with none left for later.
pub proof fn lemma_close_all(m: ManagerView)
    ensures
        forall|i: int|
            0 <= i < spec_hide_all(m).0.windows.len() ==> !(#[trigger] spec_hide_all(
                m,
            ).0.windows[i]).panel.visible,
        spec_hide_all(m).1 == m.tracker.previous,
        spec_hide_all(m).0.tracker.previous is None,
{
}

} // verus!
