//! Logical screen geometry: points, rectangles, displays, and the
//! "display under the cursor" selection used to position an overlay panel.

use vstd::prelude::*;

verus! {

/// Bound on logical screen coordinates and extents. Real window systems keep
/// coordinates far below this; keeping every rectangle within it makes all
/// the arithmetic of this module free of overflow.
pub const MAX_COORD: i64 = 0x4000_0000;

/// A point in the logical coordinate space of the window system.
#[derive(Clone, Copy, Debug, PartialEq, Eq, Structural)]
pub struct Point {
    pub x: i64,
    pub y: i64,
}

/// An axis-aligned rectangle: origin plus non-negative extent.
#[derive(Clone, Copy, Debug, PartialEq, Eq, Structural)]
pub struct Rect {
    pub x: i64,
    pub y: i64,
    pub width: i64,
    pub height: i64,
}

impl Rect {
    /// Well-formed window frame: origin within twice the coordinate bound
    /// (centering a window on a display keeps its origin in this range),
    /// extents non-negative and bounded.
    pub open spec fn wf(self) -> bool {
        &&& -2 * MAX_COORD <= self.x <= 2 * MAX_COORD
        &&& -2 * MAX_COORD <= self.y <= 2 * MAX_COORD
        &&& 0 <= self.width <= MAX_COORD
        &&& 0 <= self.height <= MAX_COORD
    }

    /// Well-formed display frame: origin within the coordinate bound,
    /// extents non-negative and bounded. Stricter than `wf`: every display
    /// frame is also a well-formed window frame.
    pub open spec fn display_wf(self) -> bool {
        &&& -MAX_COORD <= self.x <= MAX_COORD
        &&& -MAX_COORD <= self.y <= MAX_COORD
        &&& 0 <= self.width <= MAX_COORD
        &&& 0 <= self.height <= MAX_COORD
    }

    /// The point-in-rect test: origin edges inclusive, far edges exclusive.
    pub open spec fn spec_contains(self, p: Point) -> bool {
        &&& self.x <= p.x < self.x + self.width
        &&& self.y <= p.y < self.y + self.height
    }

    /// Whether `p` lies inside this rectangle.
    pub fn contains(&self, p: Point) -> (r: bool)
        requires
            self.wf(),
        ensures
            r == self.spec_contains(p),
    {
        p.x >= self.x && p.x < self.x + self.width && p.y >= self.y && p.y < self.y + self.height
    }

    /// The rectangle of this size centered within `outer`. For well-formed
    /// rectangles the casts are exact: every value stays far inside `i64`.
    pub open spec fn spec_centered_in(self, outer: Rect) -> Rect {
        Rect {
            x: (outer.x + outer.width / 2 - self.width / 2) as i64,
            y: (outer.y + outer.height / 2 - self.height / 2) as i64,
            width: self.width,
            height: self.height,
        }
    }

    /// Center a rectangle of this size within the display frame `outer`,
    /// preserving the size.
    pub fn centered_in(&self, outer: &Rect) -> (r: Rect)
        requires
            self.wf(),
            outer.display_wf(),
        ensures
            r == self.spec_centered_in(*outer),
            r.wf(),
    {
        Rect {
            x: outer.x + outer.width / 2 - self.width / 2,
            y: outer.y + outer.height / 2 - self.height / 2,
            width: self.width,
            height: self.height,
        }
    }
}

/// A connected display, reported by the host as its logical frame.
#[derive(Clone, Copy, Debug, PartialEq, Eq, Structural)]
pub struct Monitor {
    pub frame: Rect,
}

impl Monitor {
    pub open spec fn wf(self) -> bool {
        self.frame.display_wf()
    }
}

/// All displays in a list are well-formed.
pub open spec fn monitors_wf(monitors: Seq<Monitor>) -> bool {
    forall|i: int| 0 <= i < monitors.len() ==> (#[trigger] monitors[i]).wf()
}

/// The index of the first display whose frame contains `p`, if any.
/// The platform guarantees display frames do not overlap, so when a display
/// contains the point the first match is the unique one.
pub open spec fn first_monitor_containing(monitors: Seq<Monitor>, p: Point) -> Option<int>
    decreases monitors.len(),
{
    if monitors.len() == 0 {
        None
    } else if monitors[0].frame.spec_contains(p) {
        Some(0int)
    } else {
        match first_monitor_containing(monitors.drop_first(), p) {
            Some(i) => Some(i + 1),
            None => None,
        }
    }
}

/// What `first_monitor_containing` returns: the least index whose frame
/// contains the point, or `None` when no frame does.
pub proof fn lemma_first_monitor_containing(monitors: Seq<Monitor>, p: Point)
    ensures
        match first_monitor_containing(monitors, p) {
            Some(i) => 0 <= i < monitors.len() && monitors[i].frame.spec_contains(p)
                && (forall|j: int| 0 <= j < i ==> !(#[trigger] monitors[j]).frame.spec_contains(p)),
            None => forall|j: int|
                0 <= j < monitors.len() ==> !(#[trigger] monitors[j]).frame.spec_contains(p),
        },
    decreases monitors.len(),
{
    if monitors.len() > 0 && !monitors[0].frame.spec_contains(p) {
        let rest = monitors.drop_first();
        lemma_first_monitor_containing(rest, p);
        assert(forall|j: int| 0 <= j < rest.len() ==> #[trigger] rest[j] == monitors[j + 1]);
        match first_monitor_containing(rest, p) {
            Some(i) => {
                assert(monitors[i + 1].frame.spec_contains(p));
                assert forall|j: int| 0 <= j < i + 1 implies
                    !(#[trigger] monitors[j]).frame.spec_contains(p) by {
                    if j > 0 {
                        assert(rest[j - 1] == monitors[j]);
                    }
                }
            },
            None => {
                assert forall|j: int| 0 <= j < monitors.len() implies
                    !(#[trigger] monitors[j]).frame.spec_contains(p) by {
                    if j > 0 {
                        assert(rest[j - 1] == monitors[j]);
                    }
                }
            },
        }
    }
}

/// Any index satisfying the first-match characterization is the one
/// `first_monitor_containing` returns.
pub proof fn lemma_first_monitor_containing_unique(
    monitors: Seq<Monitor>,
    p: Point,
    r: Option<int>,
)
    requires
        match r {
            Some(i) => 0 <= i < monitors.len() && monitors[i].frame.spec_contains(p)
                && (forall|j: int| 0 <= j < i ==> !(#[trigger] monitors[j]).frame.spec_contains(p)),
            None => forall|j: int|
                0 <= j < monitors.len() ==> !(#[trigger] monitors[j]).frame.spec_contains(p),
        },
    ensures
        first_monitor_containing(monitors, p) == r,
    decreases monitors.len(),
{
    if monitors.len() == 0 {
    } else if monitors[0].frame.spec_contains(p) {
        assert(r == Some(0int));
    } else {
        let rest = monitors.drop_first();
        let r1 = match r {
            Some(i) => Some(i - 1),
            None => None,
        };
        assert forall|j: int| 0 <= j < rest.len() implies rest[j] == monitors[j + 1] by {}
        lemma_first_monitor_containing_unique(rest, p, r1);
    }
}

/// Find the first display whose frame contains the cursor.
pub fn monitor_under_cursor(monitors: &Vec<Monitor>, cursor: Point) -> (r: Option<usize>)
    requires
        monitors_wf(monitors@),
    ensures
        match r {
            Some(i) => first_monitor_containing(monitors@, cursor) == Some(i as int),
            None => first_monitor_containing(monitors@, cursor) is None,
        },
{
    let n = monitors.len();
    let mut i: usize = 0;
    while i < n
        invariant
            0 <= i <= n,
            n == monitors@.len(),
            monitors_wf(monitors@),
            forall|j: int| 0 <= j < i ==> !(#[trigger] monitors@[j]).frame.spec_contains(cursor),
        decreases n - i,
    {
        if monitors[i].frame.contains(cursor) {
            proof {
                lemma_first_monitor_containing_unique(monitors@, cursor, Some(i as int));
            }
            return Some(i);
        }
        i = i + 1;
    }
    proof {
        lemma_first_monitor_containing_unique(monitors@, cursor, None);
    }
    None
}

/// The frame that positioning leaves a panel with: centered within the
/// display under the cursor, or unchanged when no display contains it.
pub open spec fn spec_positioned_frame(frame: Rect, monitors: Seq<Monitor>, cursor: Point) -> Rect {
    match first_monitor_containing(monitors, cursor) {
        Some(i) => frame.spec_centered_in(monitors[i].frame),
        None => frame,
    }
}

/// The positioning law: when some display contains the cursor, the panel
/// frame ends centered within the first (by non-overlap: the unique) display
/// frame that does, its size preserved; when none does, the frame is
/// unchanged. A well-formed frame stays well-formed.
pub proof fn lemma_positioning(frame: Rect, monitors: Seq<Monitor>, cursor: Point)
    requires
        frame.wf(),
        monitors_wf(monitors),
    ensures
        match first_monitor_containing(monitors, cursor) {
            Some(i) => 0 <= i < monitors.len() && monitors[i].frame.spec_contains(cursor)
                && (forall|j: int| 0 <= j < i ==> !(#[trigger] monitors[j]).frame.spec_contains(
                    cursor,
                ))
                && spec_positioned_frame(frame, monitors, cursor)
                    == frame.spec_centered_in(monitors[i].frame),
            None => (forall|j: int|
                0 <= j < monitors.len() ==> !(#[trigger] monitors[j]).frame.spec_contains(cursor))
                && spec_positioned_frame(frame, monitors, cursor) == frame,
        },
        spec_positioned_frame(frame, monitors, cursor).width == frame.width,
        spec_positioned_frame(frame, monitors, cursor).height == frame.height,
        spec_positioned_frame(frame, monitors, cursor).wf(),
{
    lemma_first_monitor_containing(monitors, cursor);
}

} // verus!
