//! Axis-aligned collision primitives: 1-D intervals, 2-D boxes, and the
//! minimum-translation-vector (penetration) computation over them.
//!
//! Overlap is strict: two shapes that only share a boundary do not collide.
//! A penetration vector says by how much `self` must be translated to
//! resolve its overlap with another shape; among several overlapping
//! candidates the engine resolves the one with the largest L1 magnitude
//! first.

use vstd::prelude::*;

use crate::vector::{Vector, COORD_LIMIT};

verus! {

use vstd::math::abs;

/// A closed 1-D interval, normalized so that `min <= max`.
#[derive(Clone, Copy, Debug, PartialEq, Eq, Structural)]
pub struct Range {
    pub min: i64,
    pub max: i64,
}

impl Range {
    /// A range is well formed when it is normalized and within the world
    /// coordinate bounds, so that interval differences cannot overflow.
    pub open spec fn wf(self) -> bool {
        self.min <= self.max && -COORD_LIMIT <= self.min && self.max <= COORD_LIMIT
    }

    /// The interval spanned by two endpoints, in either order.
    pub open spec fn normalized(a: i64, b: i64) -> Range {
        if a <= b {
            Range { min: a, max: b }
        } else {
            Range { min: b, max: a }
        }
    }

    /// Strict overlap: touching endpoints do not collide.
    pub open spec fn collides_spec(self, other: Range) -> bool {
        self.max > other.min && self.min < other.max
    }

    /// The 1-D minimum translation distance of `self` out of `other`:
    /// the signed push (negative is left/up) of least magnitude that
    /// separates the intervals, or `None` when they do not overlap.
    pub open spec fn penetration_spec(self, other: Range) -> Option<i64> {
        let p1 = other.min - self.max;
        let p2 = other.max - self.min;
        if p1 >= 0 {
            None
        } else if p2 <= 0 {
            None
        } else if abs(p1) < abs(p2) {
            Some(p1 as i64)
        } else {
            Some(p2 as i64)
        }
    }

    pub fn from_min_max(a: i64, b: i64) -> (r: Self)
        ensures
            r == Range::normalized(a, b),
            r.min <= r.max,
    {
        if a <= b {
            Range { min: a, max: b }
        } else {
            Range { min: b, max: a }
        }
    }

    /// Returns true if `self` overlaps `other`.
    pub fn collides(self, other: Self) -> (r: bool)
        ensures
            r == self.collides_spec(other),
    {
        self.max > other.min && self.min < other.max
    }

    /// Returns by how much `self` should be moved in order to resolve
    /// penetration with `other`; `None` if the two ranges do not overlap.
    pub fn penetration(self, other: Self) -> (r: Option<i64>)
        requires
            self.wf(),
            other.wf(),
        ensures
            r == self.penetration_spec(other),
            r is Some <==> self.collides_spec(other),
    {
        let p1 = other.min - self.max;
        if p1 >= 0 {
            return None;
        }
        let p2 = other.max - self.min;
        if p2 <= 0 {
            return None;
        }
        if -p1 < p2 {
            Some(p1)
        } else {
            Some(p2)
        }
    }
}

/// An axis-aligned bounding box, the product of an x and a y interval.
#[derive(Clone, Copy, Debug, PartialEq, Eq, Structural)]
pub struct Aabb {
    pub x: Range,
    pub y: Range,
}

/// The L1 magnitude of a penetration vector: `|x| + |y|`.
pub open spec fn magnitude(v: Vector) -> int {
    abs(v.x as int) + abs(v.y as int) as int
}

/// The penetration chosen by the resolution engine against a sequence of
/// candidates: among the candidates that overlap, the penetration of
/// largest L1 magnitude, the earliest winning ties.
pub open spec fn max_penetration_spec(a: Aabb, others: Seq<Aabb>) -> Option<Vector>
    decreases others.len(),
{
    if others.len() == 0 {
        None
    } else {
        let prev = max_penetration_spec(a, others.drop_last());
        match a.penetration_spec(others.last()) {
            None => prev,
            Some(p) => match prev {
                None => Some(p),
                Some(q) => if magnitude(p) > magnitude(q) {
                    Some(p)
                } else {
                    Some(q)
                },
            },
        }
    }
}

impl Aabb {
    pub open spec fn wf(self) -> bool {
        self.x.wf() && self.y.wf()
    }

    /// Boxes overlap exactly when both axes overlap.
    pub open spec fn collides_spec(self, other: Aabb) -> bool {
        self.x.collides_spec(other.x) && self.y.collides_spec(other.y)
    }

    /// The single-axis minimum translation vector: the axis whose 1-D
    /// resolution is cheaper keeps its push, the other axis is zeroed.
    pub open spec fn penetration_spec(self, other: Aabb) -> Option<Vector> {
        match (self.x.penetration_spec(other.x), self.y.penetration_spec(other.y)) {
            (Some(px), Some(py)) => if abs(px as int) < abs(py as int) {
                Some(Vector { x: px, y: 0 })
            } else {
                Some(Vector { x: 0, y: py })
            },
            _ => None,
        }
    }

    /// The box spanned by two corner points, each axis normalized
    /// independently.
    pub fn from_min_max(min: Vector, max: Vector) -> (r: Self)
        ensures
            r == (Aabb { x: Range::normalized(min.x, max.x), y: Range::normalized(min.y, max.y) }),
    {
        let x = Range::from_min_max(min.x, max.x);
        let y = Range::from_min_max(min.y, max.y);
        Aabb { x, y }
    }

    /// Returns true if `self` overlaps `other`.
    pub fn collides(self, other: Self) -> (r: bool)
        ensures
            r == self.collides_spec(other),
    {
        self.x.collides(other.x) && self.y.collides(other.y)
    }

    /// Returns by how much `self` should be moved in order to resolve
    /// penetration with `other`; `None` if the two shapes do not overlap.
    pub fn penetration(self, other: Self) -> (r: Option<Vector>)
        requires
            self.wf(),
            other.wf(),
        ensures
            r == self.penetration_spec(other),
            r is Some <==> self.collides_spec(other),
    {
        let px = match self.x.penetration(other.x) {
            None => {
                return None;
            },
            Some(p) => p,
        };
        let py = match self.y.penetration(other.y) {
            None => {
                return None;
            },
            Some(p) => p,
        };
        if abs_units(px) < abs_units(py) {
            Some(Vector { x: px, y: 0 })
        } else {
            Some(Vector { x: 0, y: py })
        }
    }

    /// Returns true if `self` collides with any of `others`.
    pub fn collides_any(self, others: &[Aabb]) -> (r: bool)
        ensures
            r == exists|i: int| 0 <= i < others@.len() && self.collides_spec(others@[i]),
    {
        let mut i: usize = 0;
        while i < others.len()
            invariant
                i <= others@.len(),
                forall|j: int| 0 <= j < i ==> !self.collides_spec(others@[j]),
            decreases others@.len() - i,
        {
            if self.collides(others[i]) {
                return true;
            }
            i += 1;
        }
        false
    }

    /// Returns the worst penetration of `self` against the `others` shapes:
    /// the candidate penetration of largest `|x| + |y|` magnitude.
    ///
    /// Returns `None` if `self` does not penetrate any of the `others`.
    pub fn max_penetration(self, others: &[Aabb]) -> (r: Option<Vector>)
        requires
            self.wf(),
            forall|i: int| 0 <= i < others@.len() ==> (#[trigger] others@[i]).wf(),
        ensures
            r == max_penetration_spec(self, others@),
            r is Some <==> exists|i: int|
                0 <= i < others@.len() && self.collides_spec(#[trigger] others@[i]),
            r matches Some(p) ==> exists|i: int|
                0 <= i < others@.len() && #[trigger] self.penetration_spec(others@[i]) == Some(p),
            r matches Some(p) ==> forall|i: int|
                0 <= i < others@.len()
                    ==> (#[trigger] self.penetration_spec(others@[i]) matches Some(q)
                        ==> magnitude(p) >= magnitude(q)),
    {
        let mut best: Option<Vector> = None;
        let mut best_magnitude: i64 = 0;
        let mut i: usize = 0;
        while i < others.len()
            invariant
                i <= others@.len(),
                self.wf(),
                forall|k: int| 0 <= k < others@.len() ==> (#[trigger] others@[k]).wf(),
                best == max_penetration_spec(self, others@.take(i as int)),
                best matches Some(p) ==> best_magnitude == magnitude(p),
                best matches Some(p) ==> magnitude(p) <= 4 * COORD_LIMIT,
            decreases others@.len() - i,
        {
            proof {
                assert(others@.take(i as int + 1).drop_last() =~= others@.take(i as int));
                assert(others@.take(i as int + 1).last() == others@[i as int]);
            }
            match self.penetration(others[i]) {
                None => {},
                Some(p) => {
                    let m = abs_units(p.x) + abs_units(p.y);
                    if best.is_none() || m > best_magnitude {
                        best = Some(p);
                        best_magnitude = m;
                    }
                },
            }
            i += 1;
        }
        proof {
            assert(others@.take(others@.len() as int) =~= others@);
            lemma_max_penetration_selects_worst(self, others@);
        }
        best
    }
}

/// The absolute value of a fixed-point quantity.
fn abs_units(v: i64) -> (r: i64)
    requires
        v > i64::MIN,
    ensures
        r == abs(v as int),
{
    if v < 0 {
        -v
    } else {
        v
    }
}

/// An interval strictly overlaps itself exactly when it is non-degenerate,
/// and its self-penetration is then its own length: the push of least
/// magnitude out of an identical interval crosses the whole interval.
pub proof fn lemma_self_penetration_magnitude(a: Range)
    requires
        a.wf(),
        a.min < a.max,
    ensures
        a.penetration_spec(a) == Some((a.max - a.min) as i64),
        abs((a.max - a.min) as i64 as int) == a.max - a.min,
{
}

/// Collision is symmetric: whether two boxes overlap does not depend on
/// the order they are asked in.
pub proof fn lemma_collides_symmetric(a: Aabb, b: Aabb)
    ensures
        a.collides_spec(b) == b.collides_spec(a),
{
}

/// Boxes that only share a boundary do not collide: if the two boxes touch
/// along some axis (one's maximum is the other's minimum), overlap on that
/// axis is not strict, so there is no collision.
pub proof fn lemma_touching_boxes_do_not_collide(a: Aabb, b: Aabb)
    requires
        a.x.max == b.x.min || b.x.max == a.x.min || a.y.max == b.y.min || b.y.max == a.y.min,
    ensures
        !a.collides_spec(b),
{
}

/// A penetration vector exists exactly when the boxes collide: `None`
/// means, and only means, no overlap.
pub proof fn lemma_penetration_iff_collision(a: Aabb, b: Aabb)
    ensures
        a.penetration_spec(b) is Some <==> a.collides_spec(b),
{
}

/// A penetration vector between well-formed boxes is bounded: each
/// component is at most twice the coordinate limit in magnitude.
pub proof fn lemma_penetration_in_bounds(a: Aabb, b: Aabb)
    requires
        a.wf(),
        b.wf(),
    ensures
        a.penetration_spec(b) matches Some(p) ==> -2 * COORD_LIMIT <= p.x <= 2 * COORD_LIMIT && -2
            * COORD_LIMIT <= p.y <= 2 * COORD_LIMIT,
{
}

/// The worst-overlap selection is sound and complete: it returns a value
/// exactly when some candidate collides, the value is the penetration
/// against one of the candidates, and its L1 magnitude is at least that of
/// the penetration against every candidate.
pub proof fn lemma_max_penetration_selects_worst(a: Aabb, s: Seq<Aabb>)
    ensures
        max_penetration_spec(a, s) is Some <==> exists|i: int|
            0 <= i < s.len() && a.collides_spec(#[trigger] s[i]),
        max_penetration_spec(a, s) matches Some(p) ==> exists|i: int|
            0 <= i < s.len() && #[trigger] a.penetration_spec(s[i]) == Some(p),
        max_penetration_spec(a, s) matches Some(p) ==> forall|i: int|
            0 <= i < s.len()
                ==> (#[trigger] a.penetration_spec(s[i]) matches Some(q)
                    ==> magnitude(p) >= magnitude(q)),
    decreases s.len(),
{
    if s.len() > 0 {
        lemma_max_penetration_selects_worst(a, s.drop_last());
        assert(forall|i: int| 0 <= i < s.len() - 1 ==> s.drop_last()[i] == #[trigger] s[i]);
        assert(s[s.len() - 1] == s.last());
    }
}

} // verus!
