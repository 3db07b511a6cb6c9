//! The typed overlay configuration and the merge of a plugin-supplied
//! default configuration with a user override configuration.
//!
//! The merge has override-with-fallback semantics: for each scalar field the
//! first configuration's value wins when present, else the second's is used;
//! for the window list, when either side has no list the other side's list
//! is used verbatim, and when both sides have lists, entries of the second
//! whose label does not occur in the first's list are appended. The base
//! list always wins on a label collision: the merge only adds new labels,
//! it never overwrites, and callers must not assume it is symmetric.

use vstd::prelude::*;

verus! {

/// Per-window configuration: the window's unique label, the accelerator
/// string of its toggle shortcut, and an optional window-level override.
/// Shortcut strings are platform-encoded accelerator descriptors; they are
/// never validated here, only at registration time.
#[derive(Debug, PartialEq)]
pub struct WindowConfig {
    pub label: String,
    pub shortcut: String,
    pub window_level: Option<i64>,
}

/// Mathematical counterpart of `WindowConfig`.
pub ghost struct WindowConfigView {
    pub label: Seq<char>,
    pub shortcut: Seq<char>,
    pub window_level: Option<i64>,
}

impl View for WindowConfig {
    type V = WindowConfigView;

    open spec fn view(&self) -> WindowConfigView {
        WindowConfigView {
            label: self.label@,
            shortcut: self.shortcut@,
            window_level: self.window_level,
        }
    }
}

impl Clone for WindowConfig {
    fn clone(&self) -> (r: Self)
        ensures
            r == *self,
    {
        WindowConfig {
            label: self.label.clone(),
            shortcut: self.shortcut.clone(),
            window_level: self.window_level,
        }
    }
}

/// Aggregate overlay configuration: the window bindings (insertion order
/// preserved for iteration), the optional global close shortcut, and the
/// hide-on-focus-loss flag.
#[derive(Debug, PartialEq)]
pub struct PluginConfig {
    pub windows: Option<Vec<WindowConfig>>,
    pub close_shortcut: Option<String>,
    pub hide_when_inactive: Option<bool>,
}

/// Mathematical counterpart of `PluginConfig`.
pub ghost struct PluginConfigView {
    pub windows: Option<Seq<WindowConfigView>>,
    pub close_shortcut: Option<Seq<char>>,
    pub hide_when_inactive: Option<bool>,
}

/// The views of a list of window configurations.
pub open spec fn window_views(ws: Seq<WindowConfig>) -> Seq<WindowConfigView> {
    ws.map_values(|w: WindowConfig| w@)
}

impl View for PluginConfig {
    type V = PluginConfigView;

    open spec fn view(&self) -> PluginConfigView {
        PluginConfigView {
            windows: match self.windows {
                Some(ws) => Some(window_views(ws@)),
                None => None,
            },
            close_shortcut: self.close_shortcut.deep_view(),
            hide_when_inactive: self.hide_when_inactive,
        }
    }
}

impl Default for PluginConfig {
    /// The empty configuration: no window list, no close shortcut, no flag.
    fn default() -> (r: Self)
        ensures
            r@ == (PluginConfigView {
                windows: None,
                close_shortcut: None,
                hide_when_inactive: None,
            }),
    {
        PluginConfig { windows: None, close_shortcut: None, hide_when_inactive: None }
    }
}

/// Whether some entry of `ws` carries the label.
pub open spec fn contains_label(ws: Seq<WindowConfigView>, label: Seq<char>) -> bool {
    exists|i: int| 0 <= i < ws.len() && ws[i].label == label
}

/// `base` followed by those of `entries`, in order, whose label does not
/// occur in `base`.
pub open spec fn spec_appended(
    base: Seq<WindowConfigView>,
    entries: Seq<WindowConfigView>,
) -> Seq<WindowConfigView>
    decreases entries.len(),
{
    if entries.len() == 0 {
        base
    } else {
        let prev = spec_appended(base, entries.drop_last());
        if contains_label(base, entries.last().label) {
            prev
        } else {
            prev.push(entries.last())
        }
    }
}

/// Merging the window lists: when either side has no list the other side's
/// list stands; when both have lists, the second's entries with new labels
/// are appended to the first's list. An empty result is represented as no
/// list.
pub open spec fn spec_merge_windows(
    a: Option<Seq<WindowConfigView>>,
    b: Option<Seq<WindowConfigView>>,
) -> Option<Seq<WindowConfigView>> {
    let base = match a {
        Some(ws) => ws,
        None => match b {
            Some(ws) => ws,
            None => Seq::empty(),
        },
    };
    let merged = match b {
        Some(ws) => spec_appended(base, ws),
        None => base,
    };
    if merged.len() == 0 {
        None
    } else {
        Some(merged)
    }
}

/// Override-with-fallback on a scalar field: the first value wins when
/// present.
pub open spec fn spec_or<T>(a: Option<T>, b: Option<T>) -> Option<T> {
    match a {
        Some(v) => Some(v),
        None => b,
    }
}

/// The merge of two configurations, field by field.
pub open spec fn spec_merge(a: PluginConfigView, b: PluginConfigView) -> PluginConfigView {
    PluginConfigView {
        windows: spec_merge_windows(a.windows, b.windows),
        close_shortcut: spec_or(a.close_shortcut, b.close_shortcut),
        hide_when_inactive: spec_or(a.hide_when_inactive, b.hide_when_inactive),
    }
}

/// Clone a window list entry by entry.
fn clone_windows(ws: &Vec<WindowConfig>) -> (r: Vec<WindowConfig>)
    ensures
        r@ == ws@,
{
    let mut r: Vec<WindowConfig> = Vec::new();
    let n = ws.len();
    let mut i: usize = 0;
    while i < n
        invariant
            0 <= i <= n,
            n == ws@.len(),
            r@ == ws@.take(i as int),
        decreases n - i,
    {
        r.push(ws[i].clone());
        proof {
            assert(r@ =~= ws@.take(i + 1int));
        }
        i = i + 1;
    }
    proof {
        assert(ws@.take(n as int) =~= ws@);
    }
    r
}

/// Whether one of the first `n` entries carries the label.
fn contains_label_in_prefix(ws: &Vec<WindowConfig>, n: usize, label: &String) -> (r: bool)
    requires
        n <= ws@.len(),
    ensures
        r == contains_label(window_views(ws@.take(n as int)), label@),
{
    let mut i: usize = 0;
    while i < n
        invariant
            0 <= i <= n,
            n <= ws@.len(),
            forall|j: int| 0 <= j < i ==> (#[trigger] ws@[j])@.label != label@,
        decreases n - i,
    {
        if ws[i].label == *label {
            proof {
                assert(window_views(ws@.take(n as int))[i as int].label == label@);
            }
            return true;
        }
        i = i + 1;
    }
    proof {
        assert forall|j: int| 0 <= j < n implies (#[trigger] window_views(ws@.take(n as int))[j])
            .label != label@ by {
            assert(window_views(ws@.take(n as int))[j] == ws@[j]@);
        }
    }
    false
}

impl PluginConfig {
    /// Merge configuration `a` with configuration `b`; `a`'s scalars win and
    /// `a`'s window list wins on label collisions, `b` fills what `a`
    /// leaves open.
    pub fn merge(a: &Self, b: &Self) -> (r: Self)
        ensures
            r@ == spec_merge(a@, b@),
    {
        let ghost a_windows = a@.windows;
        let ghost b_windows = b@.windows;
        let mut windows: Vec<WindowConfig> = Vec::new();
        if let Some(ws) = &a.windows {
            windows = clone_windows(ws);
        } else if let Some(ws) = &b.windows {
            windows = clone_windows(ws);
        }
        let ghost base = window_views(windows@);
        let base_len = windows.len();
        if let Some(bw) = &b.windows {
            let ghost entries = window_views(bw@);
            let n = bw.len();
            let mut i: usize = 0;
            proof {
                assert(entries.take(0) =~= Seq::<WindowConfigView>::empty());
            }
            while i < n
                invariant
                    0 <= i <= n,
                    n == bw@.len(),
                    entries == window_views(bw@),
                    base_len == base.len(),
                    windows@.len() >= base_len,
                    window_views(windows@.take(base_len as int)) == base,
                    window_views(windows@) == spec_appended(base, entries.take(i as int)),
                decreases n - i,
            {
                let ghost prev = window_views(windows@);
                let ghost prev_raw = windows@;
                proof {
                    assert(entries.take(i + 1int).drop_last() =~= entries.take(i as int));
                    assert(entries.take(i + 1int).last() == bw@[i as int]@);
                }
                if !contains_label_in_prefix(&windows, base_len, &bw[i].label) {
                    windows.push(bw[i].clone());
                    proof {
                        assert(window_views(windows@) =~= prev.push(bw@[i as int]@));
                        assert(windows@.take(base_len as int) =~= prev_raw.take(base_len as int));
                    }
                }
                i = i + 1;
            }
            proof {
                assert(entries.take(n as int) =~= entries);
            }
        }
        let merged_windows: Option<Vec<WindowConfig>> = if windows.len() == 0 {
            None
        } else {
            Some(windows)
        };
        let close_shortcut: Option<String> = match &a.close_shortcut {
            Some(s) => Some(s.clone()),
            None => match &b.close_shortcut {
                Some(s) => Some(s.clone()),
                None => None,
            },
        };
        let hide_when_inactive: Option<bool> = match a.hide_when_inactive {
            Some(v) => Some(v),
            None => b.hide_when_inactive,
        };
        PluginConfig { windows: merged_windows, close_shortcut, hide_when_inactive }
    }
}

impl PluginConfig {
    /// The configured binding for this window label, if any: the first entry
    /// of the window list that carries it.
    pub fn get_window_config(&self, label: &String) -> (r: Option<WindowConfig>)
        ensures
            match r {
                Some(w) => exists|i: int|
                    {
                        &&& self@.windows is Some
                        &&& 0 <= i < self@.windows.unwrap().len()
                        &&& (#[trigger] self@.windows.unwrap()[i]).label == label@
                        &&& w@ == self@.windows.unwrap()[i]
                    },
                None => self@.windows is Some ==> !contains_label(
                    self@.windows.unwrap(),
                    label@,
                ),
            },
    {
        if let Some(ws) = &self.windows {
            let n = ws.len();
            let mut i: usize = 0;
            while i < n
                invariant
                    0 <= i <= n,
                    n == ws@.len(),
                    self.windows == Some(*ws),
                    forall|j: int| 0 <= j < i ==> (#[trigger] ws@[j])@.label != label@,
                decreases n - i,
            {
                if ws[i].label == *label {
                    let w = ws[i].clone();
                    proof {
                        assert(self@.windows == Some(window_views(ws@)));
                        assert((#[trigger] self@.windows.unwrap()[i as int]).label == label@ && w@
                            == self@.windows.unwrap()[i as int]);
                    }
                    return Some(w);
                }
                i = i + 1;
            }
            proof {
                assert forall|j: int| 0 <= j < window_views(ws@).len() implies (
                #[trigger] window_views(ws@)[j]).label != label@ by {
                    assert(window_views(ws@)[j] == ws@[j]@);
                }
            }
            None
        } else {
            None
        }
    }
}

/// Labels are unique within a window list.
pub open spec fn unique_labels(ws: Seq<WindowConfigView>) -> bool {
    forall|i: int, j: int|
        0 <= i < j < ws.len() ==> (#[trigger] ws[i]).label != (#[trigger] ws[j]).label
}

/// Appending override entries keeps labels unique, and every entry of the
/// result carries a label of the base list or of the appended entries.
proof fn lemma_appended_unique(base: Seq<WindowConfigView>, entries: Seq<WindowConfigView>)
    requires
        unique_labels(base),
        unique_labels(entries),
    ensures
        unique_labels(spec_appended(base, entries)),
        forall|k: int|
            0 <= k < spec_appended(base, entries).len() ==> contains_label(
                base,
                (#[trigger] spec_appended(base, entries)[k]).label,
            ) || exists|m: int|
                0 <= m < entries.len() && (#[trigger] entries[m]).label == spec_appended(
                    base,
                    entries,
                )[k].label,
    decreases entries.len(),
{
    if entries.len() == 0 {
        assert forall|k: int| 0 <= k < base.len() implies contains_label(
            base,
            (#[trigger] base[k]).label,
        ) by {}
    } else {
        let dl = entries.drop_last();
        assert(unique_labels(dl));
        lemma_appended_unique(base, dl);
        let prev = spec_appended(base, dl);
        let r = spec_appended(base, entries);
        assert forall|k: int| 0 <= k < prev.len() implies contains_label(
            base,
            (#[trigger] prev[k]).label,
        ) || exists|m: int| 0 <= m < entries.len() && (#[trigger] entries[m]).label
            == prev[k].label by {
            if !contains_label(base, prev[k].label) {
                let m = choose|m: int| 0 <= m < dl.len() && (#[trigger] dl[m]).label
                    == prev[k].label;
                assert(entries[m].label == prev[k].label);
            }
        }
        if !contains_label(base, entries.last().label) {
            assert(r == prev.push(entries.last()));
            assert forall|k: int| 0 <= k < prev.len() implies (#[trigger] prev[k]).label
                != entries.last().label by {
                if contains_label(base, prev[k].label) {
                } else {
                    let m = choose|m: int| 0 <= m < dl.len() && (#[trigger] dl[m]).label
                        == prev[k].label;
                    assert(entries[m].label != entries[entries.len() - 1].label);
                }
            }
            assert(entries[entries.len() - 1].label == entries.last().label);
        }
    }
}

/// The window-list invariant survives the merge: when both input lists have
/// unique labels, so does the merged list.
pub proof fn lemma_merge_unique_labels(a: PluginConfigView, b: PluginConfigView)
    requires
        a.windows matches Some(ws) ==> unique_labels(ws),
        b.windows matches Some(ws) ==> unique_labels(ws),
    ensures
        spec_merge(a, b).windows matches Some(ws) ==> unique_labels(ws),
{
    let base = match a.windows {
        Some(ws) => ws,
        None => match b.windows {
            Some(ws) => ws,
            None => Seq::empty(),
        },
    };
    match b.windows {
        Some(ws) => {
            lemma_appended_unique(base, ws);
        },
        None => {},
    }
}

/// Scalar merge precedence: when both configurations specify the close
/// shortcut, the merge keeps the first configuration's value; the same holds
/// for the hide-on-focus-loss flag.
pub proof fn lemma_merge_scalar_precedence(a: PluginConfigView, b: PluginConfigView)
    ensures
        a.close_shortcut is Some ==> spec_merge(a, b).close_shortcut == a.close_shortcut,
        a.close_shortcut is None ==> spec_merge(a, b).close_shortcut == b.close_shortcut,
        a.hide_when_inactive is Some ==> spec_merge(a, b).hide_when_inactive
            == a.hide_when_inactive,
        a.hide_when_inactive is None ==> spec_merge(a, b).hide_when_inactive
            == b.hide_when_inactive,
{
}

} // verus!
