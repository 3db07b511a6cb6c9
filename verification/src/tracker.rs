//! The previous-application tracker.
//!
//! Before an overlay window is shown, the tracker records the stable
//! identity (bundle path or equivalent) of the application that is frontmost
//! at that moment, so that hiding the overlay can restore focus to it. There
//! is one record per manager, not per window; each show overwrites it unless
//! the reported frontmost identity is the host application itself, in which
//! case recording is suppressed so the overlay never restores focus to its
//! own host. Hiding takes the record, and the host performs the actual
//! reactivation, ignoring identities with no matching running process.

use vstd::prelude::*;

verus! {

/// Mathematical counterpart of `PreviousAppTracker`.
pub ghost struct TrackerView {
    pub host: Seq<char>,
    pub previous: Option<Seq<char>>,
}

/// The single previous-frontmost-application record, together with the host
/// application's own identity used to suppress self-recording.
#[derive(Debug)]
pub struct PreviousAppTracker {
    pub host_app_path: String,
    pub previous_app: Option<String>,
}

impl View for PreviousAppTracker {
    type V = TrackerView;

    open spec fn view(&self) -> TrackerView {
        TrackerView { host: self.host_app_path@, previous: self.previous_app.deep_view() }
    }
}

/// Recording: the record becomes the reported frontmost identity, except
/// that the host's own identity leaves the record untouched.
pub open spec fn spec_record(t: TrackerView, frontmost: Option<Seq<char>>) -> TrackerView {
    if frontmost == Some(t.host) {
        t
    } else {
        TrackerView { previous: frontmost, ..t }
    }
}

/// Taking: the record is cleared and handed out.
pub open spec fn spec_take(t: TrackerView) -> (TrackerView, Option<Seq<char>>) {
    (TrackerView { previous: None, ..t }, t.previous)
}

impl PreviousAppTracker {
    /// A fresh tracker for a host application: nothing recorded yet.
    pub fn new(host_app_path: String) -> (r: PreviousAppTracker)
        ensures
            r@ == (TrackerView { host: host_app_path@, previous: None }),
    {
        PreviousAppTracker { host_app_path, previous_app: None }
    }

    /// Record the application reported frontmost right now, suppressing the
    /// host application's own identity.
    pub fn record_frontmost(&mut self, frontmost: Option<String>)
        ensures
            final(self)@ == spec_record(old(self)@, frontmost.deep_view()),
    {
        match frontmost {
            Some(path) => {
                if path == self.host_app_path {
                    // The overlay host itself is frontmost: keep the record.
                } else {
                    self.previous_app = Some(path);
                }
            },
            None => {
                self.previous_app = None;
            },
        }
    }

    /// Take the record: what restoration should target, cleared so that at
    /// most one restoration request is issued per recording.
    pub fn take_previous(&mut self) -> (r: Option<String>)
        ensures
            final(self)@ == spec_take(old(self)@).0,
            r.deep_view() == spec_take(old(self)@).1,
    {
        let r = match &self.previous_app {
            Some(path) => Some(path.clone()),
            None => None,
        };
        self.previous_app = None;
        r
    }
}

/// Find the first running application whose identity equals the restoration
/// target; the host hands in the identities of the running applications and
/// reactivates the one found. `None` means the previously frontmost process
/// has exited, which restoration ignores.
pub fn find_matching_app(paths: &Vec<String>, target: &String) -> (r: Option<usize>)
    ensures
        match r {
            Some(i) => i < paths@.len() && paths@[i as int]@ == target@ && (forall|j: int|
                0 <= j < i ==> (#[trigger] paths@[j])@ != target@),
            None => forall|j: int| 0 <= j < paths@.len() ==> (#[trigger] paths@[j])@ != target@,
        },
{
    let n = paths.len();
    let mut i: usize = 0;
    while i < n
        invariant
            0 <= i <= n,
            n == paths@.len(),
            forall|j: int| 0 <= j < i ==> (#[trigger] paths@[j])@ != target@,
        decreases n - i,
    {
        if paths[i] == *target {
            return Some(i);
        }
        i = i + 1;
    }
    None
}

/// Self-recording suppression: recording the host's own identity never
/// changes the record.
pub proof fn lemma_record_self_suppressed(t: TrackerView)
    ensures
        spec_record(t, Some(t.host)) == t,
{
}

/// One restoration per recording: after a recorded identity is taken, a
/// second take yields no restoration target.
pub proof fn lemma_take_at_most_once(t: TrackerView)
    ensures
        spec_take(spec_take(t).0).1 is None,
{
}

} // verus!
