use geojson_d3::geometry::{Coord, Feature, FeatureCollection, GeoJson, Geometry, Polygon};
use geojson_d3::walker::{process_geojson, process_geometry, reverse_rings};
use geojson_d3::winding::{make_winding, reverse_ring, ring_orientation, wind, Orientation};

fn ring(points: &[(i32, i32)]) -> Vec<Coord> {
    points.iter().map(|&(x, y)| Coord::new(x, y)).collect()
}

fn polygon(exterior: &[(i32, i32)], holes: &[&[(i32, i32)]]) -> Polygon {
    Polygon {
        exterior: ring(exterior),
        interiors: holes.iter().map(|h| ring(h)).collect(),
    }
}

const EXTERIOR_CW: [(i32, i32); 4] = [(0, 0), (3, 6), (6, 1), (0, 0)];
const EXTERIOR_CCW: [(i32, i32); 4] = [(0, 0), (6, 1), (3, 6), (0, 0)];
const HOLE_CW: [(i32, i32); 4] = [(2, 2), (3, 3), (4, 2), (2, 2)];
const HOLE_CCW: [(i32, i32); 4] = [(2, 2), (4, 2), (3, 3), (2, 2)];

fn feature_collection(geometry: Geometry) -> GeoJson {
    GeoJson::FeatureCollection(FeatureCollection {
        features: vec![Feature {
            geometry: Some(geometry),
        }],
    })
}

#[test]
fn test_ccw() {
    let correct = feature_collection(Geometry::Polygon(polygon(&EXTERIOR_CW, &[&HOLE_CCW])));
    let mut gj = feature_collection(Geometry::Polygon(polygon(&EXTERIOR_CW, &[&HOLE_CW])));
    let rev = false;
    let mut ctr: u64 = 0;
    process_geojson(&mut gj, &mut ctr, &rev);
    assert_eq!(gj, correct);
    assert_eq!(ctr, 1);
}

#[test]
fn orientation_of_example_rings() {
    assert_eq!(ring_orientation(&ring(&EXTERIOR_CW)), Orientation::Clockwise);
    assert_eq!(ring_orientation(&ring(&EXTERIOR_CCW)), Orientation::CounterClockwise);
    assert_eq!(ring_orientation(&ring(&HOLE_CW)), Orientation::Clockwise);
    assert_eq!(ring_orientation(&ring(&HOLE_CCW)), Orientation::CounterClockwise);
}

#[test]
fn short_and_flat_rings_are_degenerate() {
    assert_eq!(ring_orientation(&ring(&[])), Orientation::Degenerate);
    assert_eq!(ring_orientation(&ring(&[(0, 0), (5, 5), (0, 0)])), Orientation::Degenerate);
    assert_eq!(
        ring_orientation(&ring(&[(0, 0), (1, 1), (2, 2), (0, 0)])),
        Orientation::Degenerate
    );
    let mut flat = ring(&[(0, 0), (1, 1), (2, 2), (0, 0)]);
    make_winding(&mut flat, true);
    assert_eq!(flat, ring(&[(0, 0), (1, 1), (2, 2), (0, 0)]));
    make_winding(&mut flat, false);
    assert_eq!(flat, ring(&[(0, 0), (1, 1), (2, 2), (0, 0)]));
}

#[test]
fn extreme_coordinates_do_not_overflow() {
    let big = ring(&[
        (i32::MIN, i32::MIN),
        (i32::MAX, i32::MIN),
        (i32::MAX, i32::MAX),
        (i32::MIN, i32::MAX),
        (i32::MIN, i32::MIN),
    ]);
    assert_eq!(ring_orientation(&big), Orientation::CounterClockwise);
    let mut flipped = big.clone();
    reverse_ring(&mut flipped);
    assert_eq!(ring_orientation(&flipped), Orientation::Clockwise);
}

#[test]
fn reverse_ring_keeps_closure() {
    let mut r = ring(&HOLE_CW);
    reverse_ring(&mut r);
    assert_eq!(r, ring(&HOLE_CCW));
    let mut empty = ring(&[]);
    reverse_ring(&mut empty);
    assert!(empty.is_empty());
}

#[test]
fn make_winding_reverses_only_when_needed() {
    let mut r = ring(&EXTERIOR_CCW);
    make_winding(&mut r, true);
    assert_eq!(r, ring(&EXTERIOR_CW));
    make_winding(&mut r, true);
    assert_eq!(r, ring(&EXTERIOR_CW));
    make_winding(&mut r, false);
    assert_eq!(r, ring(&EXTERIOR_CCW));
}

#[test]
fn polygon_scenario_forward() {
    // The hole is counter-clockwise by the shoelace sum (+2), so it stays.
    let mut g = Geometry::Polygon(polygon(&EXTERIOR_CW, &[&HOLE_CCW]));
    let mut ctr: u64 = 0;
    process_geometry(&mut g, &mut ctr, &false);
    assert_eq!(g, Geometry::Polygon(polygon(&EXTERIOR_CW, &[&HOLE_CCW])));
    assert_eq!(ctr, 1);
}

#[test]
fn polygon_scenario_reverse_target() {
    let mut p = polygon(&EXTERIOR_CW, &[&HOLE_CCW]);
    wind(&mut p, &true);
    assert_eq!(p, polygon(&EXTERIOR_CCW, &[&HOLE_CW]));
    assert_eq!(ring_orientation(&p.exterior), Orientation::CounterClockwise);
    assert_eq!(ring_orientation(&p.interiors[0]), Orientation::Clockwise);
}

#[test]
fn nested_collections_scenario() {
    let nested = |p: Polygon| {
        feature_collection(Geometry::GeometryCollection(vec![Geometry::GeometryCollection(
            vec![Geometry::Polygon(p)],
        )]))
    };
    let mut gj = nested(polygon(&EXTERIOR_CW, &[&HOLE_CW]));
    let mut ctr: u64 = 0;
    process_geojson(&mut gj, &mut ctr, &false);
    assert_eq!(gj, nested(polygon(&EXTERIOR_CW, &[&HOLE_CCW])));
    assert_eq!(ctr, 1);
}

#[test]
fn multipolygon_counts_each_element() {
    let mut g = Geometry::MultiPolygon(vec![
        polygon(&EXTERIOR_CCW, &[&HOLE_CW]),
        polygon(&EXTERIOR_CW, &[]),
    ]);
    let mut ctr: u64 = 0;
    process_geometry(&mut g, &mut ctr, &false);
    assert_eq!(
        g,
        Geometry::MultiPolygon(vec![
            polygon(&EXTERIOR_CW, &[&HOLE_CCW]),
            polygon(&EXTERIOR_CW, &[]),
        ])
    );
    assert_eq!(ctr, 2);
}

#[test]
fn counter_adds_to_its_start_value() {
    let mut gj = GeoJson::FeatureCollection(FeatureCollection {
        features: vec![
            Feature {
                geometry: Some(Geometry::Polygon(polygon(&EXTERIOR_CW, &[]))),
            },
            Feature { geometry: None },
            Feature {
                geometry: Some(Geometry::GeometryCollection(vec![
                    Geometry::MultiPolygon(vec![
                        polygon(&EXTERIOR_CW, &[]),
                        polygon(&EXTERIOR_CW, &[]),
                        polygon(&EXTERIOR_CW, &[]),
                    ]),
                    Geometry::Point(Coord::new(1, 1)),
                    Geometry::Polygon(polygon(&EXTERIOR_CW, &[])),
                ])),
            },
        ],
    });
    let mut ctr: u64 = 10;
    process_geojson(&mut gj, &mut ctr, &true);
    assert_eq!(ctr, 15);
}

#[test]
fn running_twice_changes_nothing_more() {
    let doc = || {
        feature_collection(Geometry::MultiPolygon(vec![
            polygon(&EXTERIOR_CCW, &[&HOLE_CW, &HOLE_CCW]),
            polygon(&EXTERIOR_CW, &[&HOLE_CW]),
        ]))
    };
    for rev in [false, true] {
        let mut once = doc();
        let mut ctr: u64 = 0;
        process_geojson(&mut once, &mut ctr, &rev);
        let mut twice = doc();
        process_geojson(&mut twice, &mut ctr, &rev);
        process_geojson(&mut twice, &mut ctr, &rev);
        assert_eq!(once, twice);
        assert_eq!(ctr, 6);
    }
}

#[test]
fn points_are_kept_under_normalisation() {
    let before = polygon(&[(0, 0), (0, 4), (5, 4), (5, 0), (0, 0)], &[&HOLE_CW]);
    let mut after = before.clone();
    wind(&mut after, &true);
    let sorted = |r: &Vec<Coord>| {
        let mut v: Vec<(i32, i32)> = r.iter().map(|c| (c.x, c.y)).collect();
        v.sort();
        v
    };
    assert_ne!(after.exterior, before.exterior);
    assert_eq!(sorted(&after.exterior), sorted(&before.exterior));
    assert_eq!(after.exterior.first(), after.exterior.last());
    assert_eq!(sorted(&after.interiors[0]), sorted(&before.interiors[0]));
}

#[test]
fn forward_then_reverse_restores_inverse_convention() {
    let doc = || {
        GeoJson::Feature(Feature {
            geometry: Some(Geometry::Polygon(polygon(&EXTERIOR_CCW, &[&HOLE_CW]))),
        })
    };
    let mut gj = doc();
    let mut ctr: u64 = 0;
    process_geojson(&mut gj, &mut ctr, &false);
    assert_ne!(gj, doc());
    process_geojson(&mut gj, &mut ctr, &true);
    assert_eq!(gj, doc());
    assert_eq!(ctr, 2);
}

#[test]
fn non_polygon_kinds_pass_through() {
    let kinds = || {
        vec![
            Geometry::Point(Coord::new(3, 4)),
            Geometry::MultiPoint(ring(&EXTERIOR_CCW)),
            Geometry::LineString(ring(&EXTERIOR_CCW)),
            Geometry::MultiLineString(vec![ring(&EXTERIOR_CCW), ring(&HOLE_CW)]),
        ]
    };
    for (mut g, expected) in kinds().into_iter().zip(kinds()) {
        let mut ctr: u64 = 0;
        process_geometry(&mut g, &mut ctr, &false);
        assert_eq!(g, expected);
        assert_eq!(ctr, 0);
    }
}

#[test]
fn reverse_rings_ignores_collections() {
    let mut g = Geometry::GeometryCollection(vec![Geometry::Polygon(polygon(&EXTERIOR_CCW, &[]))]);
    let mut ctr: u64 = 0;
    reverse_rings(&mut g, &mut ctr, &false);
    assert_eq!(
        g,
        Geometry::GeometryCollection(vec![Geometry::Polygon(polygon(&EXTERIOR_CCW, &[]))])
    );
    assert_eq!(ctr, 0);
    let mut p = Geometry::Polygon(polygon(&EXTERIOR_CCW, &[]));
    reverse_rings(&mut p, &mut ctr, &false);
    assert_eq!(p, Geometry::Polygon(polygon(&EXTERIOR_CW, &[])));
    assert_eq!(ctr, 1);
}

#[test]
fn bare_geometry_and_empty_feature() {
    let mut gj = GeoJson::Geometry(Geometry::Polygon(polygon(&EXTERIOR_CW, &[])));
    let mut ctr: u64 = 0;
    process_geojson(&mut gj, &mut ctr, &true);
    assert_eq!(gj, GeoJson::Geometry(Geometry::Polygon(polygon(&EXTERIOR_CCW, &[]))));
    let mut empty = GeoJson::Feature(Feature { geometry: None });
    process_geojson(&mut empty, &mut ctr, &true);
    assert_eq!(empty, GeoJson::Feature(Feature { geometry: None }));
    assert_eq!(ctr, 1);
}
