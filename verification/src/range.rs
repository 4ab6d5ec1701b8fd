//! Coordinates and the rectangle that grows to enclose them.

use vstd::prelude::*;

verus! {

/// A pixel coordinate: column `x`, row `y`.
#[derive(Clone, Copy, Debug, PartialEq, Eq, Structural)]
pub struct Pos2 {
    pub x: u32,
    pub y: u32,
}

impl Pos2 {
    /// The coordinate at column `x` of row `y`.
    pub fn new(x: u32, y: u32) -> (p: Self)
        ensures
            p.x == x,
            p.y == y,
    {
        Self { x, y }
    }
}

/// An axis-aligned rectangle of pixel coordinates, both corners included.
///
/// A range that encloses nothing is written with `min` at the largest
/// coordinate and `max` at the origin, so that the first coordinate taken in
/// becomes both corners at once.
#[derive(Clone, Copy, Debug, PartialEq, Eq, Structural)]
pub struct RectangleRange {
    pub min: Pos2,
    pub max: Pos2,
}

impl RectangleRange {
    /// The range that encloses nothing.
    pub open spec fn empty() -> Self {
        RectangleRange { min: Pos2 { x: u32::MAX, y: u32::MAX }, max: Pos2 { x: 0, y: 0 } }
    }

    /// No coordinate lies in the range.
    pub open spec fn is_empty(self) -> bool {
        self.min.x > self.max.x || self.min.y > self.max.y
    }

    /// A range is well formed when it is the empty range or its corners are
    /// in order. `new` gives a well-formed range and `correct` keeps it so.
    pub open spec fn wf(self) -> bool {
        self == Self::empty() || (self.min.x <= self.max.x && self.min.y <= self.max.y)
    }

    /// The coordinate lies in the range, corners included.
    pub open spec fn covers(self, x: int, y: int) -> bool {
        self.min.x <= x <= self.max.x && self.min.y <= y <= self.max.y
    }

    /// Horizontal extent: the distance between the corners, zero for a range
    /// whose corners are out of order.
    pub open spec fn spec_width(self) -> int {
        if self.max.x >= self.min.x {
            self.max.x - self.min.x
        } else {
            0
        }
    }

    /// Vertical extent: the distance between the corners, zero for a range
    /// whose corners are out of order.
    pub open spec fn spec_height(self) -> int {
        if self.max.y >= self.min.y {
            self.max.y - self.min.y
        } else {
            0
        }
    }

    /// The range stretched just far enough to take in `(x, y)`.
    pub open spec fn enclosing(self, x: u32, y: u32) -> Self {
        RectangleRange {
            min: Pos2 {
                x: if x < self.min.x { x } else { self.min.x },
                y: if y < self.min.y { y } else { self.min.y },
            },
            max: Pos2 {
                x: if x > self.max.x { x } else { self.max.x },
                y: if y > self.max.y { y } else { self.max.y },
            },
        }
    }

    /// The range is the smallest rectangle that holds every coordinate of
    /// `s`: it holds them all, each of its four edges passes through one of
    /// them, and it is the empty range where `s` has none.
    pub open spec fn bounds(self, s: Set<(int, int)>) -> bool {
        &&& forall|p: (int, int)| #[trigger] s.contains(p) ==> self.covers(p.0, p.1)
        &&& if exists|p: (int, int)| s.contains(p) {
            &&& exists|p: (int, int)| #[trigger] s.contains(p) && p.0 == self.min.x
            &&& exists|p: (int, int)| #[trigger] s.contains(p) && p.0 == self.max.x
            &&& exists|p: (int, int)| #[trigger] s.contains(p) && p.1 == self.min.y
            &&& exists|p: (int, int)| #[trigger] s.contains(p) && p.1 == self.max.y
        } else {
            self == Self::empty()
        }
    }

    /// Starts a range that encloses nothing.
    pub fn new() -> (r: Self)
        ensures
            r == Self::empty(),
            r.wf(),
            r.is_empty(),
    {
        Self { min: Pos2::new(u32::MAX, u32::MAX), max: Pos2::new(0, 0) }
    }

    /// The distance between the left and right edge. A range holding a single
    /// column has width 0; so has a range that holds nothing.
    pub fn width(&self) -> (w: u32)
        ensures
            w == self.spec_width(),
    {
        self.max.x.saturating_sub(self.min.x)
    }

    /// The distance between the top and bottom edge. A range holding a single
    /// row has height 0; so has a range that holds nothing.
    pub fn height(&self) -> (h: u32)
        ensures
            h == self.spec_height(),
    {
        self.max.y.saturating_sub(self.min.y)
    }

    /// Stretches the range to take in `(x, y)` and tells whether it had to
    /// move a corner to do so.
    pub fn correct(&mut self, x: u32, y: u32) -> (changed: bool)
        ensures
            *final(self) == old(self).enclosing(x, y),
            changed == (*final(self) != *old(self)),
            old(self).wf() ==> final(self).wf(),
            old(self).wf() ==> final(self).covers(x as int, y as int),
    {
        let mut result = false;
        if x < self.min.x {
            self.min.x = x;
            result = true;
        }
        if y < self.min.y {
            self.min.y = y;
            result = true;
        }
        if x > self.max.x {
            self.max.x = x;
            result = true;
        }
        if y > self.max.y {
            self.max.y = y;
            result = true;
        }
        result
    }

    /// Whether `(x, y)` lies in the range, corners included.
    pub fn contains(&self, x: u32, y: u32) -> (inside: bool)
        ensures
            inside == self.covers(x as int, y as int),
            inside == (self.min.x <= x && x <= self.max.x && self.min.y <= y && y <= self.max.y),
    {
        x >= self.min.x && x <= self.max.x && y >= self.min.y && y <= self.max.y
    }
}

/// Nothing lies in the empty range, which has width 0 and height 0, and a
/// well-formed range is empty only if it is the empty range.
pub proof fn lemma_empty_range(r: RectangleRange, x: int, y: int)
    ensures
        !RectangleRange::empty().covers(x, y),
        r.is_empty() ==> !r.covers(x, y),
        r.wf() && r.is_empty() ==> r == RectangleRange::empty(),
        RectangleRange::empty().spec_width() == 0,
        RectangleRange::empty().spec_height() == 0,
{
}

/// Taking one coordinate into the empty range gives a range whose two
/// corners are that coordinate, with width 0 and height 0.
pub proof fn lemma_single_point(x: u32, y: u32)
    ensures
        RectangleRange::empty().enclosing(x, y).min == (Pos2 { x, y }),
        RectangleRange::empty().enclosing(x, y).max == (Pos2 { x, y }),
        RectangleRange::empty().enclosing(x, y).spec_width() == 0,
        RectangleRange::empty().enclosing(x, y).spec_height() == 0,
{
}

/// A set of coordinates has at most one smallest rectangle around it.
pub proof fn lemma_bounds_unique(a: RectangleRange, b: RectangleRange, s: Set<(int, int)>)
    requires
        a.bounds(s),
        b.bounds(s),
    ensures
        a == b,
{
    if exists|p: (int, int)| s.contains(p) {
        let a1 = choose|p: (int, int)| #[trigger] s.contains(p) && p.0 == a.min.x;
        let a2 = choose|p: (int, int)| #[trigger] s.contains(p) && p.0 == a.max.x;
        let a3 = choose|p: (int, int)| #[trigger] s.contains(p) && p.1 == a.min.y;
        let a4 = choose|p: (int, int)| #[trigger] s.contains(p) && p.1 == a.max.y;
        let b1 = choose|p: (int, int)| #[trigger] s.contains(p) && p.0 == b.min.x;
        let b2 = choose|p: (int, int)| #[trigger] s.contains(p) && p.0 == b.max.x;
        let b3 = choose|p: (int, int)| #[trigger] s.contains(p) && p.1 == b.min.y;
        let b4 = choose|p: (int, int)| #[trigger] s.contains(p) && p.1 == b.max.y;
        assert(b.covers(a1.0, a1.1) && b.covers(a2.0, a2.1) && b.covers(a3.0, a3.1) && b.covers(
            a4.0,
            a4.1,
        ));
        assert(a.covers(b1.0, b1.1) && a.covers(b2.0, b2.1) && a.covers(b3.0, b3.1) && a.covers(
            b4.0,
            b4.1,
        ));
    }
}

/// The smallest rectangle around a set of coordinates is well formed, and it
/// is empty exactly if the set is.
pub proof fn lemma_bounds_wf(r: RectangleRange, s: Set<(int, int)>)
    requires
        r.bounds(s),
    ensures
        r.wf(),
        r.is_empty() <==> !(exists|p: (int, int)| s.contains(p)),
        r.is_empty() <==> r == RectangleRange::empty(),
{
    if exists|p: (int, int)| s.contains(p) {
        let p = choose|p: (int, int)| s.contains(p);
        assert(r.covers(p.0, p.1));
    }
}

/// Taking one more coordinate into a set stretches the smallest rectangle
/// around it just far enough to hold that coordinate.
pub proof fn lemma_bounds_insert(r: RectangleRange, s: Set<(int, int)>, x: u32, y: u32)
    requires
        r.bounds(s),
    ensures
        r.enclosing(x, y).bounds(s.insert((x as int, y as int))),
{
    let added = (x as int, y as int);
    let r2 = r.enclosing(x, y);
    let s2 = s.insert(added);
    assert forall|p: (int, int)| #[trigger] s2.contains(p) implies r2.covers(p.0, p.1) by {
        if p != added {
            assert(s.contains(p));
        }
    }
    // each edge of the stretched range passes through the coordinate that
    // was added, or through the coordinate that it passed through before
    if exists|p: (int, int)| s.contains(p) {
        let left = choose|p: (int, int)| #[trigger] s.contains(p) && p.0 == r.min.x;
        let right = choose|p: (int, int)| #[trigger] s.contains(p) && p.0 == r.max.x;
        let top = choose|p: (int, int)| #[trigger] s.contains(p) && p.1 == r.min.y;
        let bottom = choose|p: (int, int)| #[trigger] s.contains(p) && p.1 == r.max.y;
        let new_left = if x < r.min.x { added } else { left };
        let new_right = if x > r.max.x { added } else { right };
        let new_top = if y < r.min.y { added } else { top };
        let new_bottom = if y > r.max.y { added } else { bottom };
        assert(s2.contains(new_left) && new_left.0 == r2.min.x);
        assert(s2.contains(new_right) && new_right.0 == r2.max.x);
        assert(s2.contains(new_top) && new_top.1 == r2.min.y);
        assert(s2.contains(new_bottom) && new_bottom.1 == r2.max.y);
    } else {
        lemma_single_point(x, y);
        assert(s2.contains(added) && added.0 == r2.min.x && added.0 == r2.max.x);
        assert(s2.contains(added) && added.1 == r2.min.y && added.1 == r2.max.y);
    }
}

/// Around a single coordinate the smallest rectangle has that coordinate
/// for both corners, and so width 0 and height 0.
pub proof fn lemma_bounds_single(r: RectangleRange, x: u32, y: u32)
    requires
        r.bounds(set![(x as int, y as int)]),
    ensures
        r.min == (Pos2 { x, y }),
        r.max == (Pos2 { x, y }),
        r.spec_width() == 0,
        r.spec_height() == 0,
{
    let only = (x as int, y as int);
    let s = set![only];
    assert(s.contains(only));
    let left = choose|p: (int, int)| #[trigger] s.contains(p) && p.0 == r.min.x;
    let right = choose|p: (int, int)| #[trigger] s.contains(p) && p.0 == r.max.x;
    let top = choose|p: (int, int)| #[trigger] s.contains(p) && p.1 == r.min.y;
    let bottom = choose|p: (int, int)| #[trigger] s.contains(p) && p.1 == r.max.y;
    assert(left == only && right == only && top == only && bottom == only);
}

} // verus!
