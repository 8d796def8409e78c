use vstd::prelude::*;

use crate::geometry::{Coord, Polygon, PolygonModel, rings_view};

verus! {

/// The rotational direction of a ring, derived from the sign of its area.
#[derive(Clone, Copy, Debug, PartialEq, Eq, Structural)]
pub enum Orientation {
    Clockwise,
    CounterClockwise,
    Degenerate,
}

/// Cross product of two positions seen as vectors from the origin.
pub open spec fn det(a: Coord, b: Coord) -> int {
    a.x * b.y - b.x * a.y
}

/// Twice the signed area of a ring: the shoelace sum over consecutive pairs.
pub open spec fn twice_signed_area(r: Seq<Coord>) -> int
    decreases r.len(),
{
    if r.len() < 2 {
        0
    } else {
        twice_signed_area(r.drop_last()) + det(r[r.len() - 2], r[r.len() - 1])
    }
}

/// Orientation of a ring; rings of fewer than four points, and rings of zero
/// area, are degenerate.
pub open spec fn orientation(r: Seq<Coord>) -> Orientation {
    if r.len() < 4 || twice_signed_area(r) == 0 {
        Orientation::Degenerate
    } else if twice_signed_area(r) > 0 {
        Orientation::CounterClockwise
    } else {
        Orientation::Clockwise
    }
}

/// The orientation opposite to the requested one.
pub open spec fn opposite(clockwise: bool) -> Orientation {
    if clockwise {
        Orientation::CounterClockwise
    } else {
        Orientation::Clockwise
    }
}

/// A ring with the requested winding: reversed when it winds the other way,
/// unchanged otherwise.
pub open spec fn with_winding(r: Seq<Coord>, clockwise: bool) -> Seq<Coord> {
    if orientation(r) == opposite(clockwise) {
        r.reverse()
    } else {
        r
    }
}

/// The shoelace sum of a prefix grows by one term per added point.
proof fn lemma_area_prefix(r: Seq<Coord>, i: int)
    requires
        1 <= i < r.len(),
    ensures
        twice_signed_area(r.subrange(0, i + 1)) == twice_signed_area(r.subrange(0, i)) + det(
            r[i - 1],
            r[i],
        ),
{
    assert(r.subrange(0, i + 1).drop_last() =~= r.subrange(0, i));
}

proof fn lemma_product_bounds(a: int, b: int)
    requires
        -0x8000_0000 <= a < 0x8000_0000,
        -0x8000_0000 <= b < 0x8000_0000,
    ensures
        -0x4000_0000_0000_0000 + 0x8000_0000 <= a * b <= 0x4000_0000_0000_0000,
{
    assert(-0x4000_0000_0000_0000 + 0x8000_0000 <= a * b <= 0x4000_0000_0000_0000)
        by (nonlinear_arith)
        requires
            -0x8000_0000 <= a < 0x8000_0000,
            -0x8000_0000 <= b < 0x8000_0000,
    ;
}

/// Computes the orientation of a ring.
pub fn ring_orientation(ring: &Vec<Coord>) -> (o: Orientation)
    ensures
        o == orientation(ring@),
{
    let n = ring.len();
    if n < 4 {
        return Orientation::Degenerate;
    }
    let mut acc: i128 = 0;
    let mut i: usize = 1;
    assert(ring@.subrange(0, 1).len() == 1);
    while i < n
        invariant
            n == ring@.len(),
            1 <= i <= n,
            acc == twice_signed_area(ring@.subrange(0, i as int)),
            -(i as int) * 0x8000_0000_0000_0000 <= acc <= (i as int) * 0x8000_0000_0000_0000,
        decreases n - i,
    {
        let a = ring[i - 1];
        let b = ring[i];
        proof {
            lemma_product_bounds(a.x as int, b.y as int);
            lemma_product_bounds(b.x as int, a.y as int);
            lemma_area_prefix(ring@, i as int);
        }
        let p: i64 = (a.x as i64) * (b.y as i64);
        let q: i64 = (b.x as i64) * (a.y as i64);
        let d: i64 = p - q;
        acc = acc + d as i128;
        i = i + 1;
    }
    assert(ring@.subrange(0, n as int) =~= ring@);
    if acc > 0 {
        Orientation::CounterClockwise
    } else if acc < 0 {
        Orientation::Clockwise
    } else {
        Orientation::Degenerate
    }
}

/// The shoelace sum splits off its first term as well as its last.
proof fn lemma_area_front(r: Seq<Coord>)
    requires
        r.len() >= 2,
    ensures
        twice_signed_area(r) == det(r[0], r[1]) + twice_signed_area(r.drop_first()),
    decreases r.len(),
{
    if r.len() > 2 {
        let n = r.len();
        let t = r.drop_first();
        lemma_area_front(r.drop_last());
        assert(r.drop_last().drop_first() =~= t.drop_last());
        assert(t[t.len() - 2] == r[n - 2] && t[t.len() - 1] == r[n - 1]);
        assert(twice_signed_area(t) == twice_signed_area(t.drop_last()) + det(r[n - 2], r[n - 1]));
    } else {
        assert(twice_signed_area(r.drop_first()) == 0);
        assert(twice_signed_area(r.drop_last()) == 0);
    }
}

/// Reversing a ring negates its signed area.
pub proof fn lemma_reverse_negates_area(r: Seq<Coord>)
    ensures
        twice_signed_area(r.reverse()) == -twice_signed_area(r),
    decreases r.len(),
{
    if r.len() >= 2 {
        lemma_area_front(r);
        lemma_reverse_negates_area(r.drop_first());
        assert(r.reverse().drop_last() =~= r.drop_first().reverse());
    } else {
        assert(r.reverse().len() == r.len());
    }
}

/// Reversing a ring swaps clockwise and counter-clockwise and keeps a
/// degenerate ring degenerate.
pub proof fn lemma_reverse_orientation(r: Seq<Coord>)
    ensures
        r.reverse().len() == r.len(),
        orientation(r) == Orientation::Degenerate ==> orientation(r.reverse())
            == Orientation::Degenerate,
        orientation(r) == Orientation::Clockwise ==> orientation(r.reverse())
            == Orientation::CounterClockwise,
        orientation(r) == Orientation::CounterClockwise ==> orientation(r.reverse())
            == Orientation::Clockwise,
{
    lemma_reverse_negates_area(r);
}

/// Reverses the order of the points of a ring.
pub fn reverse_ring(ring: &mut Vec<Coord>)
    ensures
        final(ring)@ == old(ring)@.reverse(),
{
    let n = ring.len();
    let mut out: Vec<Coord> = Vec::with_capacity(n);
    let mut i: usize = n;
    while i > 0
        invariant
            n == ring@.len(),
            i <= n,
            out@.len() == n - i,
            forall|j: int| 0 <= j < n - i ==> out@[j] == ring@[n - 1 - j],
        decreases i,
    {
        i = i - 1;
        out.push(ring[i]);
    }
    assert(out@ =~= ring@.reverse());
    *ring = out;
}

/// Gives a ring the requested winding, reversing it only when it winds the
/// other way.
pub fn make_winding(ring: &mut Vec<Coord>, clockwise: bool)
    ensures
        final(ring)@ == with_winding(old(ring)@, clockwise),
{
    let o = ring_orientation(ring);
    let wrong = if clockwise {
        o == Orientation::CounterClockwise
    } else {
        o == Orientation::Clockwise
    };
    if wrong {
        reverse_ring(ring);
    }
}

/// A polygon in the requested convention. With `rev` false the exterior
/// winds clockwise and the holes counter-clockwise; with `rev` true the
/// exterior winds counter-clockwise and the holes clockwise.
pub open spec fn wind_polygon(p: PolygonModel, rev: bool) -> PolygonModel {
    PolygonModel {
        exterior: with_winding(p.exterior, !rev),
        interiors: p.interiors.map_values(|r: Seq<Coord>| with_winding(r, rev)),
    }
}

/// Brings the rings of a polygon into the requested convention.
pub fn wind(poly: &mut Polygon, rev: &bool)
    ensures
        final(poly)@ == wind_polygon(old(poly)@, *rev),
{
    let ghost before = poly.interiors@;
    let ghost outer = poly.exterior@;
    make_winding(&mut poly.exterior, !*rev);
    let n = poly.interiors.len();
    let mut i: usize = 0;
    while i < n
        invariant
            n == before.len(),
            i <= n,
            poly.interiors@.len() == n,
            poly.exterior@ == with_winding(outer, !*rev),
            forall|j: int| 0 <= j < i ==> #[trigger] poly.interiors@[j]@ == with_winding(before[j]@, *rev),
            forall|j: int| i <= j < n ==> #[trigger] poly.interiors@[j] == before[j],
        decreases n - i,
    {
        make_winding(&mut poly.interiors[i], *rev);
        i = i + 1;
    }
    proof {
        assert(rings_view(poly.interiors@) =~= rings_view(before).map_values(
            |r: Seq<Coord>| with_winding(r, *rev),
        ));
    }
}

} // verus!
