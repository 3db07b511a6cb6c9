//! The global-shortcut registry.
//!
//! The registry is this system's bookkeeping of which accelerator strings
//! are bound and to what action. It never double-registers a shortcut
//! string: registering one that is already bound is a silent no-op, guarded
//! by an explicit containment check, not an overwrite. Unregistering an
//! unbound string is likewise a no-op. The host mirrors this bookkeeping
//! onto the platform hotkey service and routes each accelerator press back
//! through the orchestrator.

use vstd::prelude::*;

verus! {

/// What firing a registered accelerator does: toggle one window, or hide
/// every registered window.
#[derive(Debug, PartialEq)]
pub enum ShortcutAction {
    Toggle(String),
    CloseAll,
}

/// Mathematical counterpart of `ShortcutAction`.
pub ghost enum ActionView {
    Toggle(Seq<char>),
    CloseAll,
}

impl View for ShortcutAction {
    type V = ActionView;

    open spec fn view(&self) -> ActionView {
        match self {
            ShortcutAction::Toggle(label) => ActionView::Toggle(label@),
            ShortcutAction::CloseAll => ActionView::CloseAll,
        }
    }
}

impl Clone for ShortcutAction {
    fn clone(&self) -> (r: Self)
        ensures
            r == *self,
    {
        match self {
            ShortcutAction::Toggle(label) => ShortcutAction::Toggle(label.clone()),
            ShortcutAction::CloseAll => ShortcutAction::CloseAll,
        }
    }
}

/// One active binding: an accelerator string and its action.
#[derive(Debug, PartialEq)]
pub struct Binding {
    pub shortcut: String,
    pub action: ShortcutAction,
}

/// Mathematical counterpart of `Binding`.
pub ghost struct BindingView {
    pub shortcut: Seq<char>,
    pub action: ActionView,
}

impl View for Binding {
    type V = BindingView;

    open spec fn view(&self) -> BindingView {
        BindingView { shortcut: self.shortcut@, action: self.action@ }
    }
}

impl Clone for Binding {
    fn clone(&self) -> (r: Self)
        ensures
            r == *self,
    {
        Binding { shortcut: self.shortcut.clone(), action: self.action.clone() }
    }
}

/// Whether some binding in `r` is for the accelerator string `s`.
pub open spec fn contains_shortcut(r: Seq<BindingView>, s: Seq<char>) -> bool {
    exists|i: int| 0 <= i < r.len() && r[i].shortcut == s
}

/// No accelerator string is bound twice.
pub open spec fn registry_wf(r: Seq<BindingView>) -> bool {
    forall|i: int, j: int|
        0 <= i < j < r.len() ==> (#[trigger] r[i]).shortcut != (#[trigger] r[j]).shortcut
}

/// Registration: a silent no-op when the string is already bound, else the
/// new binding is appended.
pub open spec fn spec_register(r: Seq<BindingView>, s: Seq<char>, a: ActionView) -> Seq<
    BindingView,
> {
    if contains_shortcut(r, s) {
        r
    } else {
        r.push(BindingView { shortcut: s, action: a })
    }
}

/// Unregistration: every binding for the string is dropped; a no-op when
/// none exists.
pub open spec fn spec_unregister(r: Seq<BindingView>, s: Seq<char>) -> Seq<BindingView> {
    r.filter(|b: BindingView| b.shortcut != s)
}

/// The registry of currently bound global shortcuts.
#[derive(Debug)]
pub struct ShortcutRegistry {
    pub bindings: Vec<Binding>,
}

impl View for ShortcutRegistry {
    type V = Seq<BindingView>;

    open spec fn view(&self) -> Seq<BindingView> {
        self.bindings@.map_values(|b: Binding| b@)
    }
}

impl ShortcutRegistry {
    /// An empty registry: nothing is bound.
    pub fn new() -> (r: ShortcutRegistry)
        ensures
            r@ == Seq::<BindingView>::empty(),
    {
        let r = ShortcutRegistry { bindings: Vec::new() };
        proof {
            assert(r@ =~= Seq::<BindingView>::empty());
        }
        r
    }

    /// Whether the accelerator string is currently bound.
    pub fn is_registered(&self, shortcut: &String) -> (r: bool)
        ensures
            r == contains_shortcut(self@, shortcut@),
    {
        let n = self.bindings.len();
        let mut i: usize = 0;
        while i < n
            invariant
                0 <= i <= n,
                n == self.bindings@.len(),
                self@.len() == self.bindings@.len(),
                forall|j: int| 0 <= j < i ==> (#[trigger] self@[j]).shortcut != shortcut@,
            decreases n - i,
        {
            if self.bindings[i].shortcut == *shortcut {
                assert(self@[i as int].shortcut == shortcut@);
                return true;
            }
            i = i + 1;
        }
        false
    }

    /// Bind an accelerator string to an action. When the string is already
    /// bound the call is a silent no-op; the result says whether a new
    /// binding was made (so the host knows to bind the platform hotkey).
    pub fn register(&mut self, shortcut: String, action: ShortcutAction) -> (newly: bool)
        ensures
            final(self)@ == spec_register(old(self)@, shortcut@, action@),
            newly == !contains_shortcut(old(self)@, shortcut@),
    {
        if self.is_registered(&shortcut) {
            false
        } else {
            let ghost prev = self@;
            let ghost b = BindingView { shortcut: shortcut@, action: action@ };
            self.bindings.push(Binding { shortcut, action });
            proof {
                assert(self@ =~= prev.push(b));
            }
            true
        }
    }

    /// Remove every binding for the accelerator string; a no-op (not an
    /// error) when none exists. The result says whether one was removed (so
    /// the host knows to unbind the platform hotkey).
    pub fn unregister(&mut self, shortcut: &String) -> (was: bool)
        ensures
            final(self)@ == spec_unregister(old(self)@, shortcut@),
            was == contains_shortcut(old(self)@, shortcut@),
    {
        let ghost pred = |b: BindingView| b.shortcut != shortcut@;
        let mut kept: Vec<Binding> = Vec::new();
        let mut found = false;
        let n = self.bindings.len();
        let mut i: usize = 0;
        proof {
            reveal(Seq::filter);
            assert(old(self)@.take(0).filter(pred) =~= Seq::<BindingView>::empty());
            assert(kept@.map_values(|b: Binding| b@) =~= Seq::<BindingView>::empty());
        }
        while i < n
            invariant
                0 <= i <= n,
                n == old(self).bindings@.len(),
                self == old(self),
                pred == (|b: BindingView| b.shortcut != shortcut@),
                kept@.map_values(|b: Binding| b@) == old(self)@.take(i as int).filter(pred),
                found == contains_shortcut(old(self)@.take(i as int), shortcut@),
            decreases n - i,
        {
            let ghost prefix = old(self)@.take(i as int);
            let ghost keptv = kept@.map_values(|b: Binding| b@);
            let b = &self.bindings[i];
            if b.shortcut == *shortcut {
                found = true;
                proof {
                    assert(old(self)@[i as int].shortcut == shortcut@);
                }
            } else {
                kept.push(b.clone());
                proof {
                    assert(kept@.map_values(|b: Binding| b@) =~= keptv.push(old(self)@[i as int]));
                }
            }
            proof {
                reveal(Seq::filter);
                assert(old(self)@.take(i + 1int).drop_last() =~= prefix);
                assert(old(self)@.take(i + 1int).last() == old(self)@[i as int]);
                if contains_shortcut(old(self)@.take(i + 1int), shortcut@) {
                    let w = choose|j: int|
                        0 <= j < i + 1 && (#[trigger] old(self)@.take(i + 1int)[j]).shortcut
                            == shortcut@;
                    if w < i {
                        assert(prefix[w].shortcut == shortcut@);
                    }
                }
                if contains_shortcut(prefix, shortcut@) {
                    let w = choose|j: int|
                        0 <= j < i && (#[trigger] prefix[j]).shortcut == shortcut@;
                    assert(old(self)@.take(i + 1int)[w].shortcut == shortcut@);
                }
            }
            i = i + 1;
        }
        self.bindings = kept;
        proof {
            assert(old(self)@.take(n as int) =~= old(self)@);
        }
        found
    }

    /// The action bound to an accelerator string, if any.
    pub fn lookup(&self, shortcut: &String) -> (r: Option<ShortcutAction>)
        ensures
            match r {
                Some(a) => exists|i: int|
                    0 <= i < self@.len() && (#[trigger] self@[i]).shortcut == shortcut@
                        && a@ == self@[i].action,
                None => !contains_shortcut(self@, shortcut@),
            },
    {
        let n = self.bindings.len();
        let mut i: usize = 0;
        while i < n
            invariant
                0 <= i <= n,
                n == self.bindings@.len(),
                self@.len() == self.bindings@.len(),
                forall|j: int| 0 <= j < i ==> (#[trigger] self@[j]).shortcut != shortcut@,
            decreases n - i,
        {
            if self.bindings[i].shortcut == *shortcut {
                let a = self.bindings[i].action.clone();
                proof {
                    assert(self@[i as int].shortcut == shortcut@ && a@ == self@[i as int].action);
                }
                return Some(a);
            }
            i = i + 1;
        }
        None
    }
}

/// Double-registration guard: once an accelerator string is bound,
/// registering it again, with any action, changes nothing.
pub proof fn lemma_register_idempotent(
    r: Seq<BindingView>,
    s: Seq<char>,
    a1: ActionView,
    a2: ActionView,
)
    ensures
        spec_register(spec_register(r, s, a1), s, a2) == spec_register(r, s, a1),
{
    let r1 = spec_register(r, s, a1);
    if !contains_shortcut(r, s) {
        assert(r1[r.len() as int].shortcut == s);
    }
}

/// Unregistration keeps the registry free of duplicates, and every binding
/// that remains was bound before.
pub proof fn lemma_unregister_wf(r: Seq<BindingView>, s: Seq<char>)
    requires
        registry_wf(r),
    ensures
        registry_wf(spec_unregister(r, s)),
        forall|k: int|
            0 <= k < spec_unregister(r, s).len() ==> contains_shortcut(
                r,
                (#[trigger] spec_unregister(r, s)[k]).shortcut,
            ),
    decreases r.len(),
{
    reveal(Seq::filter);
    let pred = |b: BindingView| b.shortcut != s;
    if r.len() == 0 {
    } else {
        let dl = r.drop_last();
        assert(registry_wf(dl));
        lemma_unregister_wf(dl, s);
        let f_dl = spec_unregister(dl, s);
        assert forall|k: int| 0 <= k < f_dl.len() implies contains_shortcut(
            r,
            (#[trigger] f_dl[k]).shortcut,
        ) by {
            let w = choose|w: int| 0 <= w < dl.len() && (#[trigger] dl[w]).shortcut
                == f_dl[k].shortcut;
            assert(r[w].shortcut == f_dl[k].shortcut);
        }
        if pred(r.last()) {
            assert(spec_unregister(r, s) == f_dl.push(r.last()));
            assert forall|k: int| 0 <= k < f_dl.len() implies (#[trigger] f_dl[k]).shortcut
                != r.last().shortcut by {
                let w = choose|w: int| 0 <= w < dl.len() && (#[trigger] dl[w]).shortcut
                    == f_dl[k].shortcut;
                assert(r[w].shortcut != r[r.len() - 1].shortcut);
            }
            assert(contains_shortcut(r, r.last().shortcut)) by {
                assert(r[r.len() - 1].shortcut == r.last().shortcut);
            }
        } else {
            assert(spec_unregister(r, s) == f_dl);
        }
    }
}

/// Registration keeps the registry free of duplicates, leaves the string
/// bound, and leaves exactly one binding for it.
pub proof fn lemma_register_unique(r: Seq<BindingView>, s: Seq<char>, a: ActionView)
    requires
        registry_wf(r),
    ensures
        registry_wf(spec_register(r, s, a)),
        contains_shortcut(spec_register(r, s, a), s),
        forall|i: int, j: int|
            0 <= i < spec_register(r, s, a).len() && 0 <= j < spec_register(r, s, a).len()
                && (#[trigger] spec_register(r, s, a)[i]).shortcut == s
                && (#[trigger] spec_register(r, s, a)[j]).shortcut == s ==> i == j,
{
    let r2 = spec_register(r, s, a);
    if !contains_shortcut(r, s) {
        assert(r2[r.len() as int].shortcut == s);
        assert forall|i: int, j: int| 0 <= i < j < r2.len() implies (#[trigger] r2[i]).shortcut
            != (#[trigger] r2[j]).shortcut by {
            if j < r.len() {
            } else {
                assert(!(r[i].shortcut == s));
            }
        }
    }
}

} // verus!
