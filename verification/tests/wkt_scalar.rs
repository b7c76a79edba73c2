use datafusion_spatial::error::ErrorKind;
use datafusion_spatial::wkt::geometry::{
    Coord, Dimensions, Geometry, GeometryCollection, LineString, MultiLineString, MultiPoint,
    MultiPolygon, Point, Polygon, Rect,
};
use datafusion_spatial::wkt::scalar::{
    geometry_collection_to_wkt, geometry_to_wkt, linestring_to_wkt, multi_linestring_to_wkt,
    multi_point_to_wkt, multi_polygon_to_wkt, point_to_wkt, polygon_to_wkt, rect_to_wkt,
};

fn coords(values: &[f64]) -> Vec<Coord> {
    values
        .chunks(2)
        .map(|c| Coord { ordinates: c.iter().map(|v| format!("{:?}", v)).collect() })
        .collect()
}

#[test]
fn point() {
    let point = Point { dim: Dimensions::Xy, coord: coords(&[1., 2.]).pop() };

    let mut wkt = String::new();
    point_to_wkt(&point, &mut wkt).unwrap();

    assert_eq!(&wkt, "POINT (1.0 2.0)");
}

#[test]
fn linestring() {
    let linestring = LineString { dim: Dimensions::Xy, coords: coords(&[1., 2., 3., 4., 5., 6.]) };

    let mut wkt = String::new();
    linestring_to_wkt(&linestring, &mut wkt).unwrap();

    assert_eq!(&wkt, "LINESTRING (1.0 2.0,3.0 4.0,5.0 6.0)");
}

#[test]
fn polygon() {
    let polygon = Polygon {
        dim: Dimensions::Xy,
        rings: vec![coords(&[0., 0., 4., 0., 2., 4., 0., 0.])],
    };

    let mut wkt = String::new();
    polygon_to_wkt(&polygon, &mut wkt).unwrap();

    assert_eq!(&wkt, "POLYGON ((0.0 0.0,4.0 0.0,2.0 4.0,0.0 0.0))");
}

#[test]
fn multi_point() {
    let multi_point = MultiPoint {
        dim: Dimensions::Xy,
        points: coords(&[0., 0., 4., 0., 2., 4.])
            .into_iter()
            .map(|c| Point { dim: Dimensions::Xy, coord: Some(c) })
            .collect(),
    };

    let mut wkt = String::new();
    multi_point_to_wkt(&multi_point, &mut wkt).unwrap();

    assert_eq!(&wkt, "MULTIPOINT ((0.0 0.0),(4.0 0.0),(2.0 4.0))");
}

#[test]
fn multi_linestring() {
    let multi_linestring = MultiLineString {
        dim: Dimensions::Xy,
        lines: vec![
            LineString { dim: Dimensions::Xy, coords: coords(&[1., 2., 3., 4., 5., 6.]) },
            LineString { dim: Dimensions::Xy, coords: coords(&[7., 8., 9., 0.]) },
        ],
    };

    let mut wkt = String::new();
    multi_linestring_to_wkt(&multi_linestring, &mut wkt).unwrap();

    assert_eq!(
        &wkt,
        "MULTILINESTRING ((1.0 2.0,3.0 4.0,5.0 6.0),(7.0 8.0,9.0 0.0))"
    );
}

#[test]
fn multi_polygon() {
    let multi_polygon = MultiPolygon {
        dim: Dimensions::Xy,
        polygons: vec![
            Polygon { dim: Dimensions::Xy, rings: vec![coords(&[0., 0., 4., 0., 2., 4., 0., 0.])] },
            Polygon {
                dim: Dimensions::Xy,
                rings: vec![coords(&[4., 4., 8., 4., 8., 8., 4., 8., 4., 4.])],
            },
        ],
    };

    let mut wkt = String::new();
    multi_polygon_to_wkt(&multi_polygon, &mut wkt).unwrap();

    assert_eq!(&wkt, "MULTIPOLYGON (((0.0 0.0,4.0 0.0,2.0 4.0,0.0 0.0)),((4.0 4.0,8.0 4.0,8.0 8.0,4.0 8.0,4.0 4.0)))");
}

fn ordinates(values: &[f64]) -> Coord {
    Coord { ordinates: values.iter().map(|v| format!("{:?}", v)).collect() }
}

fn written(geometry: &Geometry) -> String {
    assert!(geometry.is_valid());
    let mut wkt = String::new();
    geometry_to_wkt(geometry, &mut wkt).unwrap();
    wkt
}

#[test]
fn floats_are_written_as_their_debug_text() {
    let point = Point { dim: Dimensions::Xy, coord: Some(ordinates(&[2.5, 1e20])) };
    let mut wkt = String::new();
    point_to_wkt(&point, &mut wkt).unwrap();
    assert_eq!(&wkt, "POINT (2.5 1e20)");
}

#[test]
fn writers_append_to_what_is_there() {
    let point = Point { dim: Dimensions::Xy, coord: Some(ordinates(&[1., 2.])) };
    let mut wkt = String::from("SRID=4326;");
    point_to_wkt(&point, &mut wkt).unwrap();
    point_to_wkt(&point, &mut wkt).unwrap();
    assert_eq!(&wkt, "SRID=4326;POINT (1.0 2.0)POINT (1.0 2.0)");
}

#[test]
fn empty_geometries() {
    let empty = [
        (Geometry::Point(Point { dim: Dimensions::Xy, coord: None }), "POINT EMPTY"),
        (Geometry::Point(Point { dim: Dimensions::Xyz, coord: None }), "POINT EMPTY"),
        (Geometry::LineString(LineString { dim: Dimensions::Xy, coords: vec![] }), "LINESTRING EMPTY"),
        (Geometry::Polygon(Polygon { dim: Dimensions::Xy, rings: vec![] }), "POLYGON EMPTY"),
        (Geometry::Polygon(Polygon { dim: Dimensions::Xy, rings: vec![vec![]] }), "POLYGON EMPTY"),
        (
            Geometry::Polygon(Polygon { dim: Dimensions::Xy, rings: vec![vec![], coords(&[1., 2.])] }),
            "POLYGON EMPTY",
        ),
        (Geometry::MultiPoint(MultiPoint { dim: Dimensions::Xy, points: vec![] }), "MULTIPOINT EMPTY"),
        (
            Geometry::MultiLineString(MultiLineString { dim: Dimensions::Xyz, lines: vec![] }),
            "MULTILINESTRING EMPTY",
        ),
        (
            Geometry::MultiPolygon(MultiPolygon { dim: Dimensions::Xy, polygons: vec![] }),
            "MULTIPOLYGON EMPTY",
        ),
        (
            Geometry::GeometryCollection(GeometryCollection { dim: Dimensions::Xy, geometries: vec![] }),
            "GEOMETRYCOLLECTION EMPTY",
        ),
    ];
    for (geometry, expected) in &empty {
        assert_eq!(written(geometry), *expected);
    }
}

#[test]
fn three_axes_are_marked_z() {
    let c = |v: &[f64]| ordinates(v);
    let point = Geometry::Point(Point { dim: Dimensions::Xyz, coord: Some(c(&[1., 2., 3.])) });
    assert_eq!(written(&point), "POINT Z (1.0 2.0 3.0)");
    let line = Geometry::LineString(LineString {
        dim: Dimensions::Xyz,
        coords: vec![c(&[1., 2., 3.]), c(&[4., 5., 6.])],
    });
    assert_eq!(written(&line), "LINESTRING Z (1.0 2.0 3.0,4.0 5.0 6.0)");
    let polygon = Geometry::Polygon(Polygon {
        dim: Dimensions::Xyz,
        rings: vec![vec![c(&[0., 0., 1.]), c(&[1., 0., 1.]), c(&[0., 0., 1.])]],
    });
    assert_eq!(written(&polygon), "POLYGON Z ((0.0 0.0 1.0,1.0 0.0 1.0,0.0 0.0 1.0))");
    let multi = Geometry::MultiPoint(MultiPoint {
        dim: Dimensions::Xyz,
        points: vec![Point { dim: Dimensions::Xyz, coord: Some(c(&[1., 2., 3.])) }],
    });
    assert_eq!(written(&multi), "MULTIPOINT Z ((1.0 2.0 3.0))");
}

#[test]
fn interior_rings_follow_the_exterior() {
    let polygon = Polygon {
        dim: Dimensions::Xy,
        rings: vec![
            coords(&[0., 0., 9., 0., 9., 9., 0., 0.]),
            coords(&[1., 1., 2., 1., 2., 2., 1., 1.]),
            coords(&[3., 3., 4., 3., 4., 4., 3., 3.]),
        ],
    };
    let mut wkt = String::new();
    polygon_to_wkt(&polygon, &mut wkt).unwrap();
    assert_eq!(
        &wkt,
        "POLYGON ((0.0 0.0,9.0 0.0,9.0 9.0,0.0 0.0),(1.0 1.0,2.0 1.0,2.0 2.0,1.0 1.0),(3.0 3.0,4.0 3.0,4.0 4.0,3.0 3.0))"
    );
    let multi = MultiPolygon {
        dim: Dimensions::Xy,
        polygons: vec![Polygon {
            dim: Dimensions::Xy,
            rings: vec![coords(&[0., 0., 9., 0., 0., 0.]), coords(&[1., 1., 2., 1., 1., 1.])],
        }],
    };
    let mut wkt = String::new();
    multi_polygon_to_wkt(&multi, &mut wkt).unwrap();
    assert_eq!(&wkt, "MULTIPOLYGON (((0.0 0.0,9.0 0.0,0.0 0.0),(1.0 1.0,2.0 1.0,1.0 1.0)))");
}

#[test]
fn a_rectangle_is_written_as_a_polygon_of_its_corners() {
    let rect = Rect { dim: Dimensions::Xy, min: ordinates(&[1., 2.]), max: ordinates(&[3., 4.]) };
    let mut wkt = String::new();
    rect_to_wkt(&rect, &mut wkt).unwrap();
    assert_eq!(&wkt, "POLYGON (1.0 2.0,3.0 2.0,3.0 4.0,1.0 4.0,1.0 2.0)");
}

#[test]
fn a_rectangle_of_three_axes_is_not_supported() {
    let rect = Rect { dim: Dimensions::Xyz, min: ordinates(&[1., 2., 3.]), max: ordinates(&[3., 4., 5.]) };
    let mut wkt = String::from("x");
    let err = rect_to_wkt(&rect, &mut wkt).unwrap_err();
    assert_eq!(err.error_kind(), ErrorKind::NotImplemented);
    assert_eq!(&wkt, "x");
}

#[test]
fn a_collection_holds_the_texts_of_its_geometries() {
    let inner = GeometryCollection {
        dim: Dimensions::Xy,
        geometries: vec![Geometry::Point(Point { dim: Dimensions::Xy, coord: None })],
    };
    let gc = GeometryCollection {
        dim: Dimensions::Xy,
        geometries: vec![
            Geometry::Point(Point { dim: Dimensions::Xy, coord: Some(ordinates(&[1., 2.])) }),
            Geometry::LineString(LineString { dim: Dimensions::Xy, coords: coords(&[1., 2., 3., 4.]) }),
            Geometry::GeometryCollection(inner),
        ],
    };
    assert!(gc.is_valid());
    let mut wkt = String::new();
    geometry_collection_to_wkt(&gc, &mut wkt).unwrap();
    assert_eq!(
        &wkt,
        "GEOMETRYCOLLECTION (POINT (1.0 2.0),LINESTRING (1.0 2.0,3.0 4.0),GEOMETRYCOLLECTION (POINT EMPTY))"
    );
    let gc = Geometry::GeometryCollection(GeometryCollection {
        dim: Dimensions::Xyz,
        geometries: vec![Geometry::Rect(Rect {
            dim: Dimensions::Xyz,
            min: ordinates(&[1., 2., 3.]),
            max: ordinates(&[3., 4., 5.]),
        })],
    });
    let mut wkt = String::new();
    assert_eq!(geometry_to_wkt(&gc, &mut wkt).unwrap_err().error_kind(), ErrorKind::NotImplemented);
}

#[test]
fn validity_of_geometries() {
    let short = Geometry::Point(Point { dim: Dimensions::Xyz, coord: Some(ordinates(&[1., 2.])) });
    assert!(!short.is_valid());
    let hole = Geometry::Polygon(Polygon { dim: Dimensions::Xy, rings: vec![coords(&[1., 2.]), vec![]] });
    assert!(!hole.is_valid());
    let empty_point = Geometry::MultiPoint(MultiPoint {
        dim: Dimensions::Xy,
        points: vec![Point { dim: Dimensions::Xy, coord: None }],
    });
    assert!(!empty_point.is_valid());
    let empty_line = Geometry::MultiLineString(MultiLineString {
        dim: Dimensions::Xy,
        lines: vec![LineString { dim: Dimensions::Xy, coords: vec![] }],
    });
    assert!(!empty_line.is_valid());
    let no_exterior = Geometry::MultiPolygon(MultiPolygon {
        dim: Dimensions::Xy,
        polygons: vec![Polygon { dim: Dimensions::Xy, rings: vec![] }],
    });
    assert!(!no_exterior.is_valid());
}
