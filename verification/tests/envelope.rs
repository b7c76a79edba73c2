use datafusion_spatial::array::{
    CoordBuffer, LineStringArray, MultiLineStringArray, MultiPointArray, MultiPolygonArray,
    NativeArray, PointArray, PolygonArray,
};
use datafusion_spatial::datatypes::{
    Column, ColumnData, ColumnarValue, CoordType, DataType, Dimension, NativeType, ScalarValue,
};
use datafusion_spatial::error::ErrorKind;
use datafusion_spatial::udfs::envelope::{
    envelope, envelopes_of, line_string_coord_buffer, multi_line_string_coord_buffer,
    multi_point_coord_buffer, multi_polygon_coord_buffer, point_coord_buffer,
    polygon_coord_buffer, Envelope,
};

fn bits(values: &[f64]) -> Vec<u64> {
    values.iter().map(|v| v.to_bits()).collect()
}

fn interleaved(values: &[f64]) -> CoordBuffer {
    CoordBuffer::Interleaved { dim: 2, coords: bits(values) }
}

fn separated(xs: &[f64], ys: &[f64]) -> CoordBuffer {
    CoordBuffer::Separated { buffers: vec![bits(xs), bits(ys)] }
}

fn ring(xmin: f64, ymin: f64, xmax: f64, ymax: f64) -> CoordBuffer {
    separated(&[xmin, xmax, xmax, xmin, xmin], &[ymin, ymin, ymax, ymax, ymin])
}

fn text(s: &str) -> ColumnarValue {
    ColumnarValue::Scalar(ScalarValue::Utf8(Some(s.to_string())))
}

fn point_type() -> DataType {
    DataType::FixedSizeList(Box::new(DataType::Float64), 2)
}

fn list_of(inner: DataType) -> DataType {
    DataType::List(Box::new(inner))
}

fn polygons(out: ColumnarValue) -> PolygonArray {
    match out {
        ColumnarValue::Array(Column {
            data_type,
            data: ColumnData::Native(NativeArray::Polygon(array)),
        }) => {
            assert_eq!(data_type, list_of(list_of(DataType::Struct)));
            array
        }
        other => panic!("no column of polygons: {other:?}"),
    }
}

#[test]
fn envelope_of_no_coordinates_is_none() {
    assert_eq!(envelope(&interleaved(&[])), None);
    assert_eq!(envelope(&separated(&[], &[])), None);
}

#[test]
fn envelope_of_one_point_is_a_degenerate_ring() {
    assert_eq!(envelope(&interleaved(&[1., 2.])), Some(ring(1., 2., 1., 2.)));
    assert_eq!(envelope(&separated(&[1.], &[2.])), Some(ring(1., 2., 1., 2.)));
}

#[test]
fn envelope_of_a_triangle() {
    let coords = interleaved(&[0., 0., 4., 0., 2., 4., 0., 0.]);
    assert_eq!(envelope(&coords), Some(ring(0., 0., 4., 4.)));
}

#[test]
fn point_rows() {
    let array = PointArray {
        coords: interleaved(&[0., 0., f64::NAN, f64::NAN, 10., -5., 7., 7.]),
        validity: Some(vec![true, true, true, false]),
    };
    assert!(array.is_well_formed());
    assert_eq!(point_coord_buffer(&array, 0), Some(interleaved(&[0., 0.])));
    assert_eq!(point_coord_buffer(&array, 1), Some(interleaved(&[])));
    assert_eq!(point_coord_buffer(&array, 2), Some(interleaved(&[10., -5.])));
    assert_eq!(point_coord_buffer(&array, 3), None);
}

#[test]
fn line_string_rows() {
    let array = LineStringArray {
        coords: interleaved(&[1., 2., 3., 4., 5., 6., 7., 8., 9., 0.]),
        geom_offsets: vec![0, 3, 3, 5],
        validity: Some(vec![true, false, true]),
    };
    assert!(array.is_well_formed());
    assert_eq!(line_string_coord_buffer(&array, 0), Some(interleaved(&[1., 2., 3., 4., 5., 6.])));
    assert_eq!(line_string_coord_buffer(&array, 1), None);
    assert_eq!(line_string_coord_buffer(&array, 2), Some(interleaved(&[7., 8., 9., 0.])));
}

#[test]
fn multi_point_rows() {
    let array = MultiPointArray {
        coords: separated(&[0., 4., 2.], &[0., 0., 4.]),
        geom_offsets: vec![0, 1, 3],
        validity: None,
    };
    assert!(array.is_well_formed());
    assert_eq!(multi_point_coord_buffer(&array, 0), Some(separated(&[0.], &[0.])));
    assert_eq!(multi_point_coord_buffer(&array, 1), Some(separated(&[4., 2.], &[0., 4.])));
}

#[test]
fn polygon_rows_span_all_rings() {
    let array = PolygonArray {
        coords: interleaved(&[
            0., 0., 4., 0., 2., 4., 0., 0., 1., 1., 2., 1., 2., 2., 1., 1., 9., 9., 8., 9., 9., 8.,
            9., 9.,
        ]),
        geom_offsets: vec![0, 2, 3],
        ring_offsets: vec![0, 4, 8, 12],
        validity: None,
    };
    assert!(array.is_well_formed());
    assert_eq!(
        polygon_coord_buffer(&array, 0),
        Some(interleaved(&[0., 0., 4., 0., 2., 4., 0., 0., 1., 1., 2., 1., 2., 2., 1., 1.]))
    );
    assert_eq!(
        polygon_coord_buffer(&array, 1),
        Some(interleaved(&[9., 9., 8., 9., 9., 8., 9., 9.]))
    );
}

#[test]
fn multi_line_string_rows() {
    let array = MultiLineStringArray {
        coords: interleaved(&[1., 2., 3., 4., 5., 6., 7., 8., 9., 0.]),
        geom_offsets: vec![0, 2],
        ring_offsets: vec![0, 3, 5],
        validity: None,
    };
    assert!(array.is_well_formed());
    assert_eq!(
        multi_line_string_coord_buffer(&array, 0),
        Some(interleaved(&[1., 2., 3., 4., 5., 6., 7., 8., 9., 0.]))
    );
}

fn two_polygons() -> MultiPolygonArray {
    MultiPolygonArray {
        coords: interleaved(&[
            0., 0., 4., 0., 2., 4., 0., 0., 4., 4., 8., 4., 8., 8., 4., 8., 4., 4.,
        ]),
        geom_offsets: vec![0, 2],
        polygon_offsets: vec![0, 1, 2],
        ring_offsets: vec![0, 4, 9],
        validity: None,
    }
}

#[test]
fn multi_polygon_rows() {
    let array = two_polygons();
    assert!(array.is_well_formed());
    assert_eq!(multi_polygon_coord_buffer(&array, 0), Some(array.coords.slice(0, 9)));
}

#[test]
fn offsets_must_not_decrease_and_must_end_at_the_inner_length() {
    let mut array = LineStringArray {
        coords: interleaved(&[1., 2., 3., 4.]),
        geom_offsets: vec![0, 2],
        validity: None,
    };
    assert!(array.is_well_formed());
    array.geom_offsets = vec![0, 1];
    assert!(!array.is_well_formed());
    array.geom_offsets = vec![2, 1, 2];
    assert!(!array.is_well_formed());
    array.geom_offsets = vec![];
    assert!(!array.is_well_formed());
    array.geom_offsets = vec![0, 2];
    array.validity = Some(vec![true, true]);
    assert!(!array.is_well_formed());
}

#[test]
fn envelopes_of_points_are_degenerate_rings() {
    let array = NativeArray::Point(PointArray {
        coords: interleaved(&[1., 2., 3., 4.]),
        validity: None,
    });
    let out = array.envelope().unwrap();
    assert!(out.is_well_formed());
    assert_eq!(out.len(), 2);
    assert_eq!(out.coords, separated(
        &[1., 1., 1., 1., 1., 3., 3., 3., 3., 3.],
        &[2., 2., 2., 2., 2., 4., 4., 4., 4., 4.],
    ));
    assert_eq!(out.geom_offsets, vec![0, 1, 2]);
    assert_eq!(out.ring_offsets, vec![0, 5, 10]);
    assert_eq!(out.validity, Some(vec![true, true]));
}

#[test]
fn envelope_of_the_empty_point_is_null() {
    let array = NativeArray::Point(PointArray {
        coords: separated(&[0., f64::NAN, 10.], &[0., f64::NAN, -5.]),
        validity: None,
    });
    let out = array.envelope().unwrap();
    assert_eq!(out.len(), 3);
    assert_eq!(out.validity, Some(vec![true, false, true]));
    assert_eq!(out.geom_offsets, vec![0, 1, 1, 2]);
    assert_eq!(out.ring_offsets, vec![0, 5, 10]);
    assert_eq!(polygon_coord_buffer(&out, 0), Some(ring(0., 0., 0., 0.)));
    assert_eq!(polygon_coord_buffer(&out, 1), None);
    assert_eq!(polygon_coord_buffer(&out, 2), Some(ring(10., -5., 10., -5.)));
}

#[test]
fn envelope_of_a_null_row_is_null() {
    let array = NativeArray::LineString(LineStringArray {
        coords: interleaved(&[1., 2., 3., 4.]),
        geom_offsets: vec![0, 2, 2],
        validity: Some(vec![true, false]),
    });
    let out = array.envelope().unwrap();
    assert_eq!(out.validity, Some(vec![true, false]));
    assert_eq!(polygon_coord_buffer(&out, 0), Some(ring(1., 2., 3., 4.)));
}

#[test]
fn envelope_of_a_polygon_column() {
    let array = NativeArray::Polygon(PolygonArray {
        coords: interleaved(&[0., 0., 4., 0., 2., 4., 0., 0.]),
        geom_offsets: vec![0, 1],
        ring_offsets: vec![0, 4],
        validity: None,
    });
    let out = array.envelope().unwrap();
    assert_eq!(out.len(), 1);
    assert_eq!(polygon_coord_buffer(&out, 0), Some(ring(0., 0., 4., 4.)));
}

#[test]
fn envelope_of_layouts_that_are_not_covered() {
    for array in [NativeArray::Mixed, NativeArray::GeometryCollection, NativeArray::Rect] {
        assert_eq!(array.envelope().unwrap_err().error_kind(), ErrorKind::NotImplemented);
    }
}

#[test]
fn envelopes_of_coordinates_row_by_row() {
    let rows = vec![
        Some(interleaved(&[1., 2., 3., 4., 5., 0.])),
        None,
        Some(interleaved(&[])),
    ];
    let out = envelopes_of(&rows);
    assert_eq!(out.validity, Some(vec![true, false, false]));
    assert_eq!(polygon_coord_buffer(&out, 0), Some(ring(1., 0., 5., 4.)));
}

#[test]
fn return_type_is_a_separated_polygon() {
    let f = Envelope::new();
    let polygon = NativeType::Polygon(CoordType::Separated, Dimension::XY);
    assert_eq!(f.return_type(&[DataType::Binary]).unwrap(), polygon);
    assert_eq!(f.return_type(&[DataType::LargeBinary]).unwrap(), polygon);
    assert_eq!(f.return_type(&[point_type()]).unwrap(), polygon);
    assert_eq!(f.return_type(&[list_of(list_of(list_of(DataType::Struct)))]).unwrap(), polygon);
    assert_eq!(f.return_type(&[DataType::Utf8]).unwrap_err().error_kind(), ErrorKind::Internal);
    assert_eq!(
        f.return_type(&[list_of(DataType::Utf8)]).unwrap_err().error_kind(),
        ErrorKind::Internal
    );
}

#[test]
fn name_signature_and_alias() {
    let f = Envelope::new();
    assert_eq!(f.name(), "ST_Envelope");
    assert_eq!(f.aliases(), &vec!["st_envelope".to_string()]);
    assert_eq!(f.signature().arities, vec![1, 3]);
    assert!(f.signature().immutable);
}

#[test]
fn invoke_on_a_native_column() {
    let column = Column {
        data_type: point_type(),
        data: ColumnData::Native(NativeArray::Point(PointArray {
            coords: interleaved(&[1., 2., 3., 4.]),
            validity: None,
        })),
    };
    let args = [ColumnarValue::Array(column), text("Point"), text("point")];
    let out = polygons(Envelope::new().invoke(&args).unwrap());
    assert_eq!(polygon_coord_buffer(&out, 0), Some(ring(1., 2., 1., 2.)));
    assert_eq!(polygon_coord_buffer(&out, 1), Some(ring(3., 4., 3., 4.)));
}

#[test]
fn invoke_on_serialized_geometries() {
    let column = Column {
        data_type: DataType::Binary,
        data: ColumnData::Coordinates(vec![Some(interleaved(&[0., 0., 4., 0., 2., 4., 0., 0.])), None]),
    };
    let args = [ColumnarValue::Array(column), text("Polygon"), text("WKB")];
    let out = polygons(Envelope::new().invoke(&args).unwrap());
    assert_eq!(out.validity, Some(vec![true, false]));
    assert_eq!(polygon_coord_buffer(&out, 0), Some(ring(0., 0., 4., 4.)));
}

#[test]
fn invoke_on_mixed_types_is_not_implemented() {
    let column = Column {
        data_type: DataType::Binary,
        data: ColumnData::Coordinates(vec![Some(interleaved(&[0., 0.]))]),
    };
    let args = [ColumnarValue::Array(column), text("Mixed"), text("WKB")];
    assert_eq!(Envelope::new().invoke(&args).unwrap_err().error_kind(), ErrorKind::NotImplemented);
}

#[test]
fn invoke_on_geometry_collections_is_not_implemented() {
    let column = Column { data_type: list_of(DataType::Struct), data: ColumnData::Native(NativeArray::GeometryCollection) };
    let args = [ColumnarValue::Array(column), text("GeometryCollection"), text("WKB")];
    assert_eq!(Envelope::new().invoke(&args).unwrap_err().error_kind(), ErrorKind::NotImplemented);
    let column = Column { data_type: list_of(DataType::Struct), data: ColumnData::Native(NativeArray::Rect) };
    let args = [ColumnarValue::Array(column), text("Polygon"), text("polygon")];
    assert_eq!(Envelope::new().invoke(&args).unwrap_err().error_kind(), ErrorKind::NotImplemented);
}

#[test]
fn invoke_with_a_layout_that_does_not_fit_is_an_internal_error() {
    let points = || {
        ColumnData::Native(NativeArray::Point(PointArray {
            coords: interleaved(&[1., 2.]),
            validity: None,
        }))
    };
    // the tag names another variant
    let args = [
        ColumnarValue::Array(Column { data_type: point_type(), data: points() }),
        text("LineString"),
        text("linestring"),
    ];
    assert_eq!(Envelope::new().invoke(&args).unwrap_err().error_kind(), ErrorKind::Internal);
    // the data type says separated coordinates
    let args = [
        ColumnarValue::Array(Column { data_type: DataType::Struct, data: points() }),
        text("Point"),
        text("point"),
    ];
    assert_eq!(Envelope::new().invoke(&args).unwrap_err().error_kind(), ErrorKind::Internal);
    // the tag is no geometry type
    let args = [
        ColumnarValue::Array(Column { data_type: point_type(), data: points() }),
        text("Unknown"),
        text("point"),
    ];
    assert_eq!(Envelope::new().invoke(&args).unwrap_err().error_kind(), ErrorKind::Internal);
    // the tag is a column, not a constant
    let args = [
        ColumnarValue::Array(Column { data_type: point_type(), data: points() }),
        ColumnarValue::Array(Column { data_type: DataType::Utf8, data: ColumnData::Utf8(vec![]) }),
        text("point"),
    ];
    assert_eq!(Envelope::new().invoke(&args).unwrap_err().error_kind(), ErrorKind::Internal);
    // serialized geometries without their coordinates
    let args = [
        ColumnarValue::Array(Column { data_type: DataType::Binary, data: points() }),
        text("Point"),
        text("WKB"),
    ];
    assert_eq!(Envelope::new().invoke(&args).unwrap_err().error_kind(), ErrorKind::Internal);
}

#[test]
fn an_envelope_contains_every_coordinate_of_its_row() {
    let values = [3., 1., -2., 7., 0.5, -4., 9., 2., 3., 3.];
    let array = NativeArray::LineString(LineStringArray {
        coords: interleaved(&values),
        geom_offsets: vec![0, 2, 5],
        validity: None,
    });
    let out = array.envelope().unwrap();
    for (row, range) in [(0, 0..2), (1, 2..5)] {
        let ring = polygon_coord_buffer(&out, row).unwrap();
        assert_eq!(ring.len(), 5);
        let (xs, ys): (Vec<f64>, Vec<f64>) =
            (0..5).map(|i| (f64::from_bits(ring.get_x(i)), f64::from_bits(ring.get_y(i)))).unzip();
        // closed, and counter-clockwise from the lower corner
        assert_eq!((xs[0], ys[0]), (xs[4], ys[4]));
        assert_eq!((xs[0], ys[0]), (xs[3], ys[1]));
        assert_eq!((xs[2], ys[2]), (xs[1], ys[3]));
        for i in range {
            let (x, y) = (values[2 * i], values[2 * i + 1]);
            assert!(xs[0] <= x && x <= xs[2], "{x} in row {row}");
            assert!(ys[0] <= y && y <= ys[2], "{y} in row {row}");
        }
    }
}
