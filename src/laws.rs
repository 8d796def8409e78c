use vstd::prelude::*;

use crate::geometry::{Coord, GeoJsonModel, GeometryModel, PolygonModel};
use crate::walker::{normalize, normalize_feature, normalize_geometry};
use crate::winding::{
    Orientation, lemma_reverse_orientation, orientation, wind_polygon, with_winding,
};

verus! {

/// A ring winds the given way, or is degenerate.
pub open spec fn winds(r: Seq<Coord>, clockwise: bool) -> bool {
    orientation(r) == Orientation::Degenerate || orientation(r) == if clockwise {
        Orientation::Clockwise
    } else {
        Orientation::CounterClockwise
    }
}

/// A polygon is in a convention when its exterior winds clockwise and its
/// holes counter-clockwise (`rev` false), or the other way round (`rev` true);
/// degenerate rings are in either.
pub open spec fn polygon_in_convention(p: PolygonModel, rev: bool) -> bool {
    &&& winds(p.exterior, !rev)
    &&& forall|i: int| 0 <= i < p.interiors.len() ==> winds(#[trigger] p.interiors[i], rev)
}

/// Every polygon under a geometry is in the convention.
pub open spec fn geometry_in_convention(g: GeometryModel, rev: bool) -> bool
    decreases g,
{
    match g {
        GeometryModel::Polygon(p) => polygon_in_convention(p, rev),
        GeometryModel::MultiPolygon(ps) => forall|i: int|
            0 <= i < ps.len() ==> polygon_in_convention(#[trigger] ps[i], rev),
        GeometryModel::GeometryCollection(gs) => forall|i: int|
            0 <= i < gs.len() ==> geometry_in_convention(#[trigger] gs[i], rev),
        _ => true,
    }
}

/// Every polygon of a document is in the convention.
pub open spec fn document_in_convention(d: GeoJsonModel, rev: bool) -> bool {
    match d {
        GeoJsonModel::Geometry(g) => geometry_in_convention(g, rev),
        GeoJsonModel::Feature(Some(g)) => geometry_in_convention(g, rev),
        GeoJsonModel::Feature(None) => true,
        GeoJsonModel::FeatureCollection(fs) => forall|i: int|
            0 <= i < fs.len() && (#[trigger] fs[i]) is Some ==> geometry_in_convention(
                fs[i]->Some_0,
                rev,
            ),
    }
}

/// Winding a ring keeps its points: the result is the ring itself or its
/// full reversal, with the same multiset of points, and it winds the
/// requested way unless it is degenerate.
pub proof fn lemma_ring_wound(r: Seq<Coord>, clockwise: bool)
    ensures
        with_winding(r, clockwise) == r || with_winding(r, clockwise) == r.reverse(),
        with_winding(r, clockwise).to_multiset() == r.to_multiset(),
        with_winding(r, clockwise).len() == r.len(),
        winds(with_winding(r, clockwise), clockwise),
{
    lemma_reverse_orientation(r);
    r.lemma_reverse_to_multiset();
}

/// Winding a ring one way and then the other is the same as winding it the
/// other way at once.
pub proof fn lemma_ring_last_wins(r: Seq<Coord>, clockwise: bool)
    ensures
        with_winding(with_winding(r, clockwise), !clockwise) == with_winding(r, !clockwise),
{
    lemma_reverse_orientation(r);
    assert(r.reverse().reverse() =~= r);
}

/// Every ring of a normalised polygon keeps its points: it is the original
/// ring or its full reversal, with the same multiset of points.
pub proof fn lemma_polygon_points_preserved(p: PolygonModel, rev: bool)
    ensures
        wind_polygon(p, rev).exterior == p.exterior || wind_polygon(p, rev).exterior
            == p.exterior.reverse(),
        wind_polygon(p, rev).exterior.to_multiset() == p.exterior.to_multiset(),
        wind_polygon(p, rev).interiors.len() == p.interiors.len(),
        forall|i: int|
            0 <= i < p.interiors.len() ==> (#[trigger] wind_polygon(p, rev).interiors[i]
                == p.interiors[i] || wind_polygon(p, rev).interiors[i]
                == p.interiors[i].reverse()),
        forall|i: int|
            0 <= i < p.interiors.len() ==> (#[trigger] wind_polygon(
                p,
                rev,
            ).interiors[i]).to_multiset() == p.interiors[i].to_multiset(),
{
    lemma_ring_wound(p.exterior, !rev);
    assert forall|i: int| 0 <= i < p.interiors.len() implies (#[trigger] wind_polygon(
        p,
        rev,
    ).interiors[i]).to_multiset() == p.interiors[i].to_multiset() && (wind_polygon(
        p,
        rev,
    ).interiors[i] == p.interiors[i] || wind_polygon(p, rev).interiors[i]
        == p.interiors[i].reverse()) by {
        lemma_ring_wound(p.interiors[i], rev);
    }
}

proof fn lemma_polygon_wound(p: PolygonModel, rev: bool)
    ensures
        polygon_in_convention(wind_polygon(p, rev), rev),
{
    let q = wind_polygon(p, rev);
    lemma_ring_wound(p.exterior, !rev);
    assert forall|i: int| 0 <= i < q.interiors.len() implies winds(
        #[trigger] q.interiors[i],
        rev,
    ) by {
        lemma_ring_wound(p.interiors[i], rev);
    }
}

proof fn lemma_polygon_fixed(p: PolygonModel, rev: bool)
    requires
        polygon_in_convention(p, rev),
    ensures
        wind_polygon(p, rev) == p,
{
    let q = wind_polygon(p, rev);
    assert(q.interiors =~= p.interiors);
}

proof fn lemma_polygon_last_wins(p: PolygonModel, rev: bool)
    ensures
        wind_polygon(wind_polygon(p, rev), !rev) == wind_polygon(p, !rev),
{
    lemma_ring_last_wins(p.exterior, !rev);
    let a = wind_polygon(wind_polygon(p, rev), !rev);
    let b = wind_polygon(p, !rev);
    assert forall|i: int| 0 <= i < p.interiors.len() implies #[trigger] a.interiors[i]
        == b.interiors[i] by {
        lemma_ring_last_wins(p.interiors[i], rev);
    }
    assert(a.interiors =~= b.interiors);
}

proof fn lemma_geometry_wound(g: GeometryModel, rev: bool)
    ensures
        geometry_in_convention(normalize_geometry(g, rev), rev),
    decreases g,
{
    match g {
        GeometryModel::Polygon(p) => lemma_polygon_wound(p, rev),
        GeometryModel::MultiPolygon(ps) => {
            let qs = normalize_geometry(g, rev)->MultiPolygon_0;
            assert forall|i: int| 0 <= i < qs.len() implies polygon_in_convention(
                #[trigger] qs[i],
                rev,
            ) by {
                lemma_polygon_wound(ps[i], rev);
            }
        },
        GeometryModel::GeometryCollection(gs) => {
            let hs = normalize_geometry(g, rev)->GeometryCollection_0;
            assert forall|i: int| 0 <= i < hs.len() implies geometry_in_convention(
                #[trigger] hs[i],
                rev,
            ) by {
                lemma_geometry_wound(gs[i], rev);
            }
        },
        _ => {},
    }
}

proof fn lemma_geometry_fixed(g: GeometryModel, rev: bool)
    requires
        geometry_in_convention(g, rev),
    ensures
        normalize_geometry(g, rev) == g,
    decreases g,
{
    match g {
        GeometryModel::Polygon(p) => lemma_polygon_fixed(p, rev),
        GeometryModel::MultiPolygon(ps) => {
            let qs = normalize_geometry(g, rev)->MultiPolygon_0;
            assert forall|i: int| 0 <= i < ps.len() implies #[trigger] qs[i] == ps[i] by {
                lemma_polygon_fixed(ps[i], rev);
            }
            assert(qs =~= ps);
        },
        GeometryModel::GeometryCollection(gs) => {
            let hs = normalize_geometry(g, rev)->GeometryCollection_0;
            assert forall|i: int| 0 <= i < gs.len() implies #[trigger] hs[i] == gs[i] by {
                lemma_geometry_fixed(gs[i], rev);
            }
            assert(hs =~= gs);
        },
        _ => {},
    }
}

proof fn lemma_geometry_last_wins(g: GeometryModel, rev: bool)
    ensures
        normalize_geometry(normalize_geometry(g, rev), !rev) == normalize_geometry(g, !rev),
    decreases g,
{
    match g {
        GeometryModel::Polygon(p) => lemma_polygon_last_wins(p, rev),
        GeometryModel::MultiPolygon(ps) => {
            let a = normalize_geometry(normalize_geometry(g, rev), !rev)->MultiPolygon_0;
            let b = normalize_geometry(g, !rev)->MultiPolygon_0;
            assert forall|i: int| 0 <= i < ps.len() implies #[trigger] a[i] == b[i] by {
                lemma_polygon_last_wins(ps[i], rev);
            }
            assert(a =~= b);
        },
        GeometryModel::GeometryCollection(gs) => {
            let a = normalize_geometry(normalize_geometry(g, rev), !rev)->GeometryCollection_0;
            let b = normalize_geometry(g, !rev)->GeometryCollection_0;
            assert forall|i: int| 0 <= i < gs.len() implies #[trigger] a[i] == b[i] by {
                lemma_geometry_last_wins(gs[i], rev);
            }
            assert(a =~= b);
        },
        _ => {},
    }
}

/// After normalisation every non-degenerate ring winds as the convention
/// asks: with `rev` false exteriors clockwise (negative signed area) and
/// holes counter-clockwise (positive signed area), with `rev` true the
/// other way round.
pub proof fn lemma_normalize_in_convention(d: GeoJsonModel, rev: bool)
    ensures
        document_in_convention(normalize(d, rev), rev),
{
    match d {
        GeoJsonModel::Geometry(g) => lemma_geometry_wound(g, rev),
        GeoJsonModel::Feature(Some(g)) => lemma_geometry_wound(g, rev),
        GeoJsonModel::Feature(None) => {},
        GeoJsonModel::FeatureCollection(fs) => {
            let es = normalize(d, rev)->FeatureCollection_0;
            assert forall|i: int| 0 <= i < es.len() && (#[trigger] es[i]) is Some implies geometry_in_convention(
                es[i]->Some_0,
                rev,
            ) by {
                lemma_geometry_wound(fs[i]->Some_0, rev);
            }
        },
    }
}

/// A document already in a convention is left as it is by normalising to
/// that convention.
pub proof fn lemma_normalize_fixed(d: GeoJsonModel, rev: bool)
    requires
        document_in_convention(d, rev),
    ensures
        normalize(d, rev) == d,
{
    match d {
        GeoJsonModel::Geometry(g) => lemma_geometry_fixed(g, rev),
        GeoJsonModel::Feature(Some(g)) => lemma_geometry_fixed(g, rev),
        GeoJsonModel::Feature(None) => {},
        GeoJsonModel::FeatureCollection(fs) => {
            let es = normalize(d, rev)->FeatureCollection_0;
            assert forall|i: int| 0 <= i < fs.len() implies #[trigger] es[i] == fs[i] by {
                if fs[i] is Some {
                    lemma_geometry_fixed(fs[i]->Some_0, rev);
                }
            }
            assert(es =~= fs);
        },
    }
}

/// Normalising twice to the same convention gives what normalising once
/// gives.
pub proof fn lemma_normalize_idempotent(d: GeoJsonModel, rev: bool)
    ensures
        normalize(normalize(d, rev), rev) == normalize(d, rev),
{
    lemma_normalize_in_convention(d, rev);
    lemma_normalize_fixed(normalize(d, rev), rev);
}

/// Normalising to one convention and then to the other gives what
/// normalising to the other gives at once.
pub proof fn lemma_normalize_last_wins(d: GeoJsonModel, rev: bool)
    ensures
        normalize(normalize(d, rev), !rev) == normalize(d, !rev),
{
    match d {
        GeoJsonModel::Geometry(g) => lemma_geometry_last_wins(g, rev),
        GeoJsonModel::Feature(Some(g)) => lemma_geometry_last_wins(g, rev),
        GeoJsonModel::Feature(None) => {},
        GeoJsonModel::FeatureCollection(fs) => {
            let a = normalize(normalize(d, rev), !rev)->FeatureCollection_0;
            let b = normalize(d, !rev)->FeatureCollection_0;
            assert forall|i: int| 0 <= i < fs.len() implies #[trigger] a[i] == b[i] by {
                if fs[i] is Some {
                    lemma_geometry_last_wins(fs[i]->Some_0, rev);
                }
            }
            assert(a =~= b);
        },
    }
}

/// A document whose rings follow the inverse convention (exteriors
/// counter-clockwise, holes clockwise) comes back unchanged from a pass to
/// the forward convention followed by a pass back.
pub proof fn lemma_normalize_round_trip(d: GeoJsonModel)
    requires
        document_in_convention(d, true),
    ensures
        normalize(normalize(d, false), true) == d,
{
    lemma_normalize_last_wins(d, false);
    lemma_normalize_fixed(d, true);
}

} // verus!
