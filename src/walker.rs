use vstd::prelude::*;

use crate::geometry::{
    Feature, GeoJson, GeoJsonModel, Geometry, GeometryModel, PolygonModel, polygons_view,
};
use crate::winding::{wind, wind_polygon};

verus! {

/// Number of polygons in a geometry; each element of a multi-polygon counts.
pub open spec fn polygon_count(g: GeometryModel) -> nat
    decreases g,
{
    match g {
        GeometryModel::Polygon(_) => 1,
        GeometryModel::MultiPolygon(ps) => ps.len(),
        GeometryModel::GeometryCollection(gs) => count_all(gs),
        _ => 0,
    }
}

/// Number of polygons in a sequence of geometries.
pub open spec fn count_all(gs: Seq<GeometryModel>) -> nat
    decreases gs,
{
    if gs.len() == 0 {
        0
    } else {
        count_all(gs.subrange(0, gs.len() - 1)) + polygon_count(gs[gs.len() - 1])
    }
}

/// A geometry with every polygon it holds, at any depth, in the requested
/// convention; every other kind of node is left as it is.
pub open spec fn normalize_geometry(g: GeometryModel, rev: bool) -> GeometryModel
    decreases g,
{
    match g {
        GeometryModel::Polygon(p) => GeometryModel::Polygon(wind_polygon(p, rev)),
        GeometryModel::MultiPolygon(ps) => GeometryModel::MultiPolygon(
            ps.map_values(|p: PolygonModel| wind_polygon(p, rev)),
        ),
        GeometryModel::GeometryCollection(gs) => GeometryModel::GeometryCollection(
            Seq::new(
                gs.len(),
                |i: int|
                    if 0 <= i < gs.len() {
                        normalize_geometry(gs[i], rev)
                    } else {
                        g
                    },
            ),
        ),
        _ => g,
    }
}

/// A prefix of a sequence of geometries holds no more polygons than the whole.
proof fn lemma_count_prefix(gs: Seq<GeometryModel>, k: int)
    requires
        0 <= k <= gs.len(),
    ensures
        count_all(gs.subrange(0, k)) <= count_all(gs),
    decreases gs.len(),
{
    if k < gs.len() {
        let init = gs.subrange(0, gs.len() - 1);
        lemma_count_prefix(init, k);
        assert(init.subrange(0, k) =~= gs.subrange(0, k));
    } else {
        assert(gs.subrange(0, k) =~= gs);
    }
}

/// Counting a prefix one element further adds that element's polygons.
proof fn lemma_count_step(gs: Seq<GeometryModel>, i: int)
    requires
        0 <= i < gs.len(),
    ensures
        count_all(gs.subrange(0, i + 1)) == count_all(gs.subrange(0, i)) + polygon_count(gs[i]),
{
    assert(gs.subrange(0, i + 1).subrange(0, i) =~= gs.subrange(0, i));
}

/// Brings a polygon or a multi-polygon into the requested convention and
/// counts its polygons; leaves any other node unchanged.
pub fn reverse_rings(geom: &mut Geometry, ctr: &mut u64, rev: &bool)
    requires
        *old(ctr) + polygon_count(old(geom)@) <= u64::MAX,
    ensures
        (old(geom)@ is Polygon || old(geom)@ is MultiPolygon) ==> final(geom)@
            == normalize_geometry(old(geom)@, *rev) && *final(ctr) == *old(ctr) + polygon_count(
            old(geom)@,
        ),
        !(old(geom)@ is Polygon || old(geom)@ is MultiPolygon) ==> *final(geom) == *old(geom)
            && *final(ctr) == *old(ctr),
{
    match geom {
        Geometry::Polygon(poly) => {
            wind(poly, rev);
            *ctr = *ctr + 1;
        },
        Geometry::MultiPolygon(polys) => {
            let n = polys.len();
            let ghost before = polys@;
            let ghost c0 = *ctr;
            let mut i: usize = 0;
            while i < n
                invariant
                    n == before.len(),
                    i <= n,
                    polys@.len() == n,
                    *ctr == c0 + i,
                    c0 + n <= u64::MAX,
                    forall|j: int| 0 <= j < i ==> #[trigger] polys@[j]@ == wind_polygon(before[j]@, *rev),
                    forall|j: int| i <= j < n ==> #[trigger] polys@[j] == before[j],
                decreases n - i,
            {
                *ctr = *ctr + 1;
                wind(&mut polys[i], rev);
                i = i + 1;
            }
            proof {
                assert(polygons_view(polys@) =~= polygons_view(before).map_values(
                    |p: PolygonModel| wind_polygon(p, *rev),
                ));
            }
        },
        _ => {},
    }
}

/// True of the kinds of node that hold no polygon and are passed through.
pub open spec fn is_pass_through(g: GeometryModel) -> bool {
    g is Point || g is MultiPoint || g is LineString || g is MultiLineString
}

/// Brings every polygon under a geometry node into the requested convention,
/// descending into collections, and counts the polygons met.
pub fn process_geometry(geom: &mut Geometry, ctr: &mut u64, rev: &bool)
    requires
        *old(ctr) + polygon_count(old(geom)@) <= u64::MAX,
    ensures
        final(geom)@ == normalize_geometry(old(geom)@, *rev),
        *final(ctr) == *old(ctr) + polygon_count(old(geom)@),
        is_pass_through(old(geom)@) ==> *final(geom) == *old(geom),
    decreases old(geom)@,
{
    match geom {
        Geometry::Polygon(_) | Geometry::MultiPolygon(_) => reverse_rings(geom, ctr, rev),
        Geometry::GeometryCollection(collection) => {
            let n = collection.len();
            let ghost before = collection@;
            let ghost models = Seq::new(
                n as nat,
                |j: int|
                    if 0 <= j < n {
                        before[j]@
                    } else {
                        GeometryModel::GeometryCollection(Seq::empty())
                    },
            );
            let ghost c0 = *ctr;
            proof {
                assert(models =~= old(geom)@->GeometryCollection_0);
            }
            let mut i: usize = 0;
            while i < n
                invariant
                    n == before.len(),
                    n == models.len(),
                    i <= n,
                    collection@.len() == n,
                    forall|j: int| 0 <= j < n ==> #[trigger] models[j] == before[j]@,
                    old(geom)@ is GeometryCollection,
                    models == old(geom)@->GeometryCollection_0,
                    *ctr == c0 + count_all(models.subrange(0, i as int)),
                    c0 + count_all(models) <= u64::MAX,
                    forall|j: int|
                        0 <= j < i ==> #[trigger] collection@[j]@ == normalize_geometry(
                            before[j]@,
                            *rev,
                        ),
                    forall|j: int| i <= j < n ==> #[trigger] collection@[j] == before[j],
                decreases n - i,
            {
                proof {
                    lemma_count_step(models, i as int);
                    lemma_count_prefix(models, i + 1);
                    assert(decreases_to!(old(geom)@ => collection@[i as int]@));
                }
                process_geometry(&mut collection[i], ctr, rev);
                i = i + 1;
            }
            proof {
                assert(models.subrange(0, n as int) =~= models);
                let after = Seq::new(
                    n as nat,
                    |j: int|
                        if 0 <= j < n {
                            collection@[j]@
                        } else {
                            GeometryModel::GeometryCollection(Seq::empty())
                        },
                );
                assert(after =~= normalize_geometry(old(geom)@, *rev)->GeometryCollection_0);
            }
        },
        _ => {},
    }
    proof {
        let g = geom@;
        if g is GeometryCollection {
            assert(g->GeometryCollection_0 =~= normalize_geometry(old(geom)@, *rev)->GeometryCollection_0);
        }
    }
}

/// A feature with its geometry, if any, in the requested convention.
pub open spec fn normalize_feature(f: Option<GeometryModel>, rev: bool) -> Option<GeometryModel> {
    match f {
        Some(g) => Some(normalize_geometry(g, rev)),
        None => None,
    }
}

/// Number of polygons under a feature.
pub open spec fn feature_count(f: Option<GeometryModel>) -> nat {
    match f {
        Some(g) => polygon_count(g),
        None => 0,
    }
}

/// Number of polygons under a sequence of features.
pub open spec fn features_count(fs: Seq<Option<GeometryModel>>) -> nat
    decreases fs.len(),
{
    if fs.len() == 0 {
        0
    } else {
        features_count(fs.drop_last()) + feature_count(fs.last())
    }
}

/// A document with every polygon it holds in the requested convention.
pub open spec fn normalize(d: GeoJsonModel, rev: bool) -> GeoJsonModel {
    match d {
        GeoJsonModel::Geometry(g) => GeoJsonModel::Geometry(normalize_geometry(g, rev)),
        GeoJsonModel::Feature(f) => GeoJsonModel::Feature(normalize_feature(f, rev)),
        GeoJsonModel::FeatureCollection(fs) => GeoJsonModel::FeatureCollection(
            fs.map_values(|f: Option<GeometryModel>| normalize_feature(f, rev)),
        ),
    }
}

/// Number of polygons reachable from the root of a document.
pub open spec fn document_count(d: GeoJsonModel) -> nat {
    match d {
        GeoJsonModel::Geometry(g) => polygon_count(g),
        GeoJsonModel::Feature(f) => feature_count(f),
        GeoJsonModel::FeatureCollection(fs) => features_count(fs),
    }
}

proof fn lemma_features_prefix(fs: Seq<Option<GeometryModel>>, k: int)
    requires
        0 <= k <= fs.len(),
    ensures
        features_count(fs.subrange(0, k)) <= features_count(fs),
        k < fs.len() ==> features_count(fs.subrange(0, k + 1)) == features_count(
            fs.subrange(0, k),
        ) + feature_count(fs[k]),
    decreases fs.len(),
{
    if k < fs.len() {
        let init = fs.drop_last();
        lemma_features_prefix(init, k);
        assert(init.subrange(0, k) =~= fs.subrange(0, k));
        assert(fs.subrange(0, k + 1).drop_last() =~= fs.subrange(0, k));
    } else {
        assert(fs.subrange(0, k) =~= fs);
    }
}

/// Processes the geometry of a feature, if it has one.
fn process_feature(feature: &mut Feature, ctr: &mut u64, rev: &bool)
    requires
        *old(ctr) + feature_count(old(feature)@) <= u64::MAX,
    ensures
        final(feature)@ == normalize_feature(old(feature)@, *rev),
        *final(ctr) == *old(ctr) + feature_count(old(feature)@),
{
    match &mut feature.geometry {
        Some(geometry) => process_geometry(geometry, ctr, rev),
        None => {},
    }
}

/// Brings every polygon of a document into the requested convention and
/// counts the polygons met. Features without a geometry are skipped.
pub fn process_geojson(gj: &mut GeoJson, ctr: &mut u64, rev: &bool)
    requires
        *old(ctr) + document_count(old(gj)@) <= u64::MAX,
    ensures
        final(gj)@ == normalize(old(gj)@, *rev),
        *final(ctr) == *old(ctr) + document_count(old(gj)@),
{
    match gj {
        GeoJson::FeatureCollection(collection) => {
            let n = collection.features.len();
            let ghost before = collection.features@;
            let ghost models = before.map_values(|f: Feature| f@);
            let ghost c0 = *ctr;
            let mut i: usize = 0;
            while i < n
                invariant
                    n == before.len(),
                    n == models.len(),
                    i <= n,
                    collection.features@.len() == n,
                    models == before.map_values(|f: Feature| f@),
                    *ctr == c0 + features_count(models.subrange(0, i as int)),
                    c0 + features_count(models) <= u64::MAX,
                    forall|j: int|
                        0 <= j < i ==> #[trigger] collection.features@[j]@ == normalize_feature(
                            before[j]@,
                            *rev,
                        ),
                    forall|j: int| i <= j < n ==> #[trigger] collection.features@[j] == before[j],
                decreases n - i,
            {
                proof {
                    lemma_features_prefix(models, i as int);
                    lemma_features_prefix(models, i + 1);
                }
                process_feature(&mut collection.features[i], ctr, rev);
                i = i + 1;
            }
            proof {
                assert(models.subrange(0, n as int) =~= models);
                assert(collection.features@.map_values(|f: Feature| f@) =~= models.map_values(
                    |f: Option<GeometryModel>| normalize_feature(f, *rev),
                ));
            }
        },
        GeoJson::Feature(feature) => process_feature(feature, ctr, rev),
        GeoJson::Geometry(geometry) => process_geometry(geometry, ctr, rev),
    }
}

} // verus!
