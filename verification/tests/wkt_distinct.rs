use datafusion_spatial::wkt::geometry::{
    Coord, Dimensions, Geometry, GeometryCollection, LineString, MultiLineString, MultiPoint,
    MultiPolygon, Point, Polygon,
};
use datafusion_spatial::wkt::scalar::geometry_to_wkt;

fn coords(dim: usize, values: &[f64]) -> Vec<Coord> {
    values
        .chunks(dim)
        .map(|c| Coord { ordinates: c.iter().map(|v| format!("{:?}", v)).collect() })
        .collect()
}

fn written(geometry: &Geometry) -> String {
    assert!(geometry.is_valid());
    let mut wkt = String::new();
    geometry_to_wkt(geometry, &mut wkt).unwrap();
    wkt
}

fn samples() -> Vec<Geometry> {
    let xy = Dimensions::Xy;
    let xyz = Dimensions::Xyz;
    vec![
        Geometry::Point(Point { dim: xy, coord: None }),
        Geometry::Point(Point { dim: xy, coord: coords(2, &[1., 2.]).pop() }),
        Geometry::Point(Point { dim: xy, coord: coords(2, &[1., 2.5]).pop() }),
        Geometry::Point(Point { dim: xy, coord: coords(2, &[12., 0.5]).pop() }),
        Geometry::Point(Point { dim: xyz, coord: coords(3, &[1., 2., 3.]).pop() }),
        Geometry::LineString(LineString { dim: xy, coords: vec![] }),
        Geometry::LineString(LineString { dim: xy, coords: coords(2, &[1., 2.]) }),
        Geometry::LineString(LineString { dim: xy, coords: coords(2, &[1., 2., 3., 4.]) }),
        Geometry::LineString(LineString { dim: xyz, coords: coords(3, &[1., 2., 3.]) }),
        Geometry::LineString(LineString { dim: xy, coords: coords(2, &[1., 2., 3., 4., 5., 6.]) }),
        Geometry::LineString(LineString { dim: xyz, coords: coords(3, &[1., 2., 3., 4., 5., 6.]) }),
        Geometry::Polygon(Polygon { dim: xy, rings: vec![] }),
        Geometry::Polygon(Polygon { dim: xy, rings: vec![coords(2, &[1., 2., 3., 4.])] }),
        Geometry::Polygon(Polygon {
            dim: xy,
            rings: vec![coords(2, &[1., 2.]), coords(2, &[3., 4.])],
        }),
        Geometry::MultiPoint(MultiPoint { dim: xy, points: vec![] }),
        Geometry::MultiPoint(MultiPoint {
            dim: xy,
            points: vec![
                Point { dim: xy, coord: coords(2, &[1., 2.]).pop() },
                Point { dim: xy, coord: coords(2, &[3., 4.]).pop() },
            ],
        }),
        Geometry::MultiLineString(MultiLineString { dim: xy, lines: vec![] }),
        Geometry::MultiLineString(MultiLineString {
            dim: xy,
            lines: vec![LineString { dim: xy, coords: coords(2, &[1., 2., 3., 4.]) }],
        }),
        Geometry::MultiLineString(MultiLineString {
            dim: xy,
            lines: vec![
                LineString { dim: xy, coords: coords(2, &[1., 2.]) },
                LineString { dim: xy, coords: coords(2, &[3., 4.]) },
            ],
        }),
        Geometry::MultiPolygon(MultiPolygon { dim: xy, polygons: vec![] }),
        Geometry::MultiPolygon(MultiPolygon {
            dim: xy,
            polygons: vec![Polygon { dim: xy, rings: vec![coords(2, &[1., 2., 3., 4.])] }],
        }),
        Geometry::MultiPolygon(MultiPolygon {
            dim: xy,
            polygons: vec![
                Polygon { dim: xy, rings: vec![coords(2, &[1., 2.])] },
                Polygon { dim: xy, rings: vec![coords(2, &[3., 4.])] },
            ],
        }),
        Geometry::MultiPolygon(MultiPolygon {
            dim: xy,
            polygons: vec![Polygon {
                dim: xy,
                rings: vec![coords(2, &[1., 2.]), coords(2, &[3., 4.])],
            }],
        }),
        Geometry::GeometryCollection(GeometryCollection { dim: xy, geometries: vec![] }),
        Geometry::GeometryCollection(GeometryCollection {
            dim: xy,
            geometries: vec![Geometry::Point(Point { dim: xy, coord: None })],
        }),
        Geometry::GeometryCollection(GeometryCollection {
            dim: xy,
            geometries: vec![
                Geometry::Point(Point { dim: xy, coord: coords(2, &[1., 2.]).pop() }),
                Geometry::Point(Point { dim: xy, coord: coords(2, &[3., 4.]).pop() }),
            ],
        }),
        Geometry::GeometryCollection(GeometryCollection {
            dim: xy,
            geometries: vec![Geometry::MultiPoint(MultiPoint {
                dim: xy,
                points: vec![
                    Point { dim: xy, coord: coords(2, &[1., 2.]).pop() },
                    Point { dim: xy, coord: coords(2, &[3., 4.]).pop() },
                ],
            })],
        }),
        Geometry::GeometryCollection(GeometryCollection {
            dim: xy,
            geometries: vec![
                Geometry::GeometryCollection(GeometryCollection {
                    dim: xy,
                    geometries: vec![Geometry::Point(Point {
                        dim: xy,
                        coord: coords(2, &[1., 2.]).pop(),
                    })],
                }),
                Geometry::Point(Point { dim: xy, coord: coords(2, &[3., 4.]).pop() }),
            ],
        }),
        Geometry::GeometryCollection(GeometryCollection {
            dim: xy,
            geometries: vec![Geometry::GeometryCollection(GeometryCollection {
                dim: xy,
                geometries: vec![
                    Geometry::Point(Point { dim: xy, coord: coords(2, &[1., 2.]).pop() }),
                    Geometry::Point(Point { dim: xy, coord: coords(2, &[3., 4.]).pop() }),
                ],
            })],
        }),
    ]
}

#[test]
fn geometries_that_differ_are_written_differently() {
    let samples = samples();
    let texts: Vec<String> = samples.iter().map(written).collect();
    for (i, a) in texts.iter().enumerate() {
        for (j, b) in texts.iter().enumerate() {
            assert_eq!(a == b, i == j, "{a} and {b}");
        }
    }
}

#[test]
fn empty_geometries_are_written_alike_whatever_their_dimension() {
    let flat = Geometry::Point(Point { dim: Dimensions::Xy, coord: None });
    let solid = Geometry::Point(Point { dim: Dimensions::Xyz, coord: None });
    assert_eq!(written(&flat), written(&solid));
    let none = Geometry::Polygon(Polygon { dim: Dimensions::Xy, rings: vec![] });
    let hollow = Geometry::Polygon(Polygon { dim: Dimensions::Xyz, rings: vec![vec![]] });
    assert_eq!(written(&none), written(&hollow));
}

#[test]
fn the_dimension_of_the_points_of_a_multi_point_is_that_of_the_multi_point() {
    let point = |dim| Point {
        dim,
        coord: Some(Coord { ordinates: vec!["1.0".to_string(), "2.0".to_string()] }),
    };
    let a = Geometry::MultiPoint(MultiPoint { dim: Dimensions::Xy, points: vec![point(Dimensions::Xy)] });
    let b = Geometry::MultiPoint(MultiPoint { dim: Dimensions::Xy, points: vec![point(Dimensions::Xyz)] });
    assert_eq!(written(&a), "MULTIPOINT ((1.0 2.0))");
    assert_eq!(written(&a), written(&b));
}
