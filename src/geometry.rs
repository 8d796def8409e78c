use vstd::prelude::*;

verus! {

/// A two-dimensional position in fixed-point units.
#[derive(Clone, Copy, Debug, PartialEq, Eq, Structural)]
pub struct Coord {
    pub x: i32,
    pub y: i32,
}

impl Coord {
    pub fn new(x: i32, y: i32) -> (r: Coord)
        ensures
            r.x == x,
            r.y == y,
    {
        Coord { x, y }
    }
}

/// A polygon: one exterior ring and any number of interior rings (holes).
#[derive(Clone, Debug, PartialEq, Eq)]
pub struct Polygon {
    pub exterior: Vec<Coord>,
    pub interiors: Vec<Vec<Coord>>,
}

/// A node of the geometry tree.
#[derive(Debug, PartialEq, Eq)]
pub enum Geometry {
    Point(Coord),
    MultiPoint(Vec<Coord>),
    LineString(Vec<Coord>),
    MultiLineString(Vec<Vec<Coord>>),
    Polygon(Polygon),
    MultiPolygon(Vec<Polygon>),
    GeometryCollection(Vec<Geometry>),
}

/// A feature; its properties are not held here, since nothing reads them.
#[derive(Debug, PartialEq, Eq)]
pub struct Feature {
    pub geometry: Option<Geometry>,
}

/// An ordered sequence of features.
#[derive(Debug, PartialEq, Eq)]
pub struct FeatureCollection {
    pub features: Vec<Feature>,
}

/// A top-level document.
#[derive(Debug, PartialEq, Eq)]
pub enum GeoJson {
    Geometry(Geometry),
    Feature(Feature),
    FeatureCollection(FeatureCollection),
}

/// The value of a polygon: its rings as sequences of points.
pub struct PolygonModel {
    pub exterior: Seq<Coord>,
    pub interiors: Seq<Seq<Coord>>,
}

/// The value of a geometry node.
pub enum GeometryModel {
    Point(Coord),
    MultiPoint(Seq<Coord>),
    LineString(Seq<Coord>),
    MultiLineString(Seq<Seq<Coord>>),
    Polygon(PolygonModel),
    MultiPolygon(Seq<PolygonModel>),
    GeometryCollection(Seq<GeometryModel>),
}

/// The value of a document; a feature is the geometry it may hold.
pub enum GeoJsonModel {
    Geometry(GeometryModel),
    Feature(Option<GeometryModel>),
    FeatureCollection(Seq<Option<GeometryModel>>),
}

pub open spec fn rings_view(rs: Seq<Vec<Coord>>) -> Seq<Seq<Coord>> {
    rs.map_values(|r: Vec<Coord>| r@)
}

impl View for Polygon {
    type V = PolygonModel;

    open spec fn view(&self) -> PolygonModel {
        PolygonModel { exterior: self.exterior@, interiors: rings_view(self.interiors@) }
    }
}

pub open spec fn polygons_view(ps: Seq<Polygon>) -> Seq<PolygonModel> {
    ps.map_values(|p: Polygon| p@)
}

pub open spec fn geometry_view(g: Geometry) -> GeometryModel
    decreases g,
{
    match g {
        Geometry::Point(c) => GeometryModel::Point(c),
        Geometry::MultiPoint(cs) => GeometryModel::MultiPoint(cs@),
        Geometry::LineString(cs) => GeometryModel::LineString(cs@),
        Geometry::MultiLineString(ls) => GeometryModel::MultiLineString(rings_view(ls@)),
        Geometry::Polygon(p) => GeometryModel::Polygon(p@),
        Geometry::MultiPolygon(ps) => GeometryModel::MultiPolygon(polygons_view(ps@)),
        Geometry::GeometryCollection(gs) => GeometryModel::GeometryCollection(
            Seq::new(
                gs@.len(),
                |i: int|
                    if 0 <= i < gs@.len() {
                        geometry_view(gs@[i])
                    } else {
                        GeometryModel::GeometryCollection(Seq::empty())
                    },
            ),
        ),
    }
}

impl View for Geometry {
    type V = GeometryModel;

    open spec fn view(&self) -> GeometryModel {
        geometry_view(*self)
    }
}

pub open spec fn feature_view(f: Feature) -> Option<GeometryModel> {
    match f.geometry {
        Some(g) => Some(g@),
        None => None,
    }
}

impl View for Feature {
    type V = Option<GeometryModel>;

    open spec fn view(&self) -> Option<GeometryModel> {
        feature_view(*self)
    }
}

impl View for GeoJson {
    type V = GeoJsonModel;

    open spec fn view(&self) -> GeoJsonModel {
        match self {
            GeoJson::Geometry(g) => GeoJsonModel::Geometry(g@),
            GeoJson::Feature(f) => GeoJsonModel::Feature(f@),
            GeoJson::FeatureCollection(fc) => GeoJsonModel::FeatureCollection(
                fc.features@.map_values(|f: Feature| f@),
            ),
        }
    }
}

} // verus!
