use datafusion_spatial::array::{CoordBuffer, NativeArray, PointArray};
use datafusion_spatial::datatypes::{
    Column, ColumnData, ColumnarValue, CoordType, DataType, Dimension, GeoParquetGeometryType,
    NativeType, ScalarValue,
};
use datafusion_spatial::error::ErrorKind;
use datafusion_spatial::udfs::helpers::{
    coord_type, covered_geom_type, geom_type, native_type, scalar_arg_as_str,
};

fn text(s: &str) -> ColumnarValue {
    ColumnarValue::Scalar(ScalarValue::Utf8(Some(s.to_string())))
}

fn column(data_type: DataType) -> ColumnarValue {
    ColumnarValue::Array(Column { data_type, data: ColumnData::Utf8(vec![]) })
}

fn list_of(inner: DataType) -> DataType {
    DataType::List(Box::new(inner))
}

fn fixed() -> DataType {
    DataType::FixedSizeList(Box::new(DataType::Float64), 2)
}

#[test]
fn constant_texts_are_read() {
    assert_eq!(scalar_arg_as_str(&text("Point")).unwrap(), "Point");
    let view = ColumnarValue::Scalar(ScalarValue::Utf8View(Some("WKB".to_string())));
    assert_eq!(scalar_arg_as_str(&view).unwrap(), "WKB");
}

#[test]
fn anything_but_a_constant_text_is_an_internal_error() {
    let args = [
        column(DataType::Utf8),
        ColumnarValue::Scalar(ScalarValue::Utf8(None)),
        ColumnarValue::Scalar(ScalarValue::Utf8View(None)),
        ColumnarValue::Scalar(ScalarValue::Other(Column {
            data_type: DataType::Float64,
            data: ColumnData::Unread(None),
        })),
    ];
    for arg in &args {
        assert_eq!(scalar_arg_as_str(arg).unwrap_err().error_kind(), ErrorKind::Internal);
        assert_eq!(geom_type(arg).unwrap_err().error_kind(), ErrorKind::Internal);
    }
}

#[test]
fn geometry_types_by_name() {
    let named = [
        ("Point", GeoParquetGeometryType::Point),
        ("LineString", GeoParquetGeometryType::LineString),
        ("Polygon", GeoParquetGeometryType::Polygon),
        ("MultiPoint", GeoParquetGeometryType::MultiPoint),
        ("MultiLineString", GeoParquetGeometryType::MultiLineString),
        ("MultiPolygon", GeoParquetGeometryType::MultiPolygon),
        ("GeometryCollection", GeoParquetGeometryType::GeometryCollection),
        ("Point Z", GeoParquetGeometryType::PointZ),
        ("LineString Z", GeoParquetGeometryType::LineStringZ),
        ("Polygon Z", GeoParquetGeometryType::PolygonZ),
        ("MultiPoint Z", GeoParquetGeometryType::MultiPointZ),
        ("MultiLineString Z", GeoParquetGeometryType::MultiLineStringZ),
        ("MultiPolygon Z", GeoParquetGeometryType::MultiPolygonZ),
        ("GeometryCollection Z", GeoParquetGeometryType::GeometryCollectionZ),
    ];
    for (name, expected) in named {
        assert_eq!(geom_type(&text(name)).unwrap(), expected);
        assert_eq!(GeoParquetGeometryType::from_string(name).unwrap(), expected);
    }
    for name in ["point", "PointZ", "Mixed", "Unknown", "", "Point  Z"] {
        let err = geom_type(&text(name)).unwrap_err();
        assert_eq!(err.error_kind(), ErrorKind::Internal);
    }
    assert_eq!(
        geom_type(&text("Mixed")).unwrap_err().to_text(),
        "Unknown value for geometry_type: Mixed"
    );
}

#[test]
fn geometry_types_that_envelope_and_extent_cover() {
    assert_eq!(covered_geom_type(&text("Polygon Z")).unwrap(), GeoParquetGeometryType::PolygonZ);
    for name in ["Mixed", "GeometryCollection", "GeometryCollection Z"] {
        assert_eq!(covered_geom_type(&text(name)).unwrap_err().error_kind(), ErrorKind::NotImplemented);
    }
    for name in ["Unknown", "polygon"] {
        assert_eq!(covered_geom_type(&text(name)).unwrap_err().error_kind(), ErrorKind::Internal);
    }
    assert_eq!(
        covered_geom_type(&column(DataType::Utf8)).unwrap_err().error_kind(),
        ErrorKind::Internal
    );
}

#[test]
fn coordinate_layout_by_data_type() {
    assert_eq!(coord_type(&fixed()), Some(CoordType::Interleaved));
    assert_eq!(coord_type(&DataType::Struct), Some(CoordType::Separated));
    assert_eq!(coord_type(&list_of(fixed())), Some(CoordType::Interleaved));
    assert_eq!(coord_type(&list_of(DataType::Struct)), Some(CoordType::Separated));
    assert_eq!(coord_type(&list_of(list_of(fixed()))), Some(CoordType::Interleaved));
    assert_eq!(coord_type(&list_of(list_of(DataType::Struct))), Some(CoordType::Separated));
    assert_eq!(coord_type(&list_of(list_of(list_of(fixed())))), Some(CoordType::Interleaved));
    assert_eq!(coord_type(&list_of(list_of(list_of(DataType::Struct)))), Some(CoordType::Separated));
    assert_eq!(coord_type(&list_of(list_of(list_of(list_of(DataType::Struct))))), None);
    assert_eq!(coord_type(&DataType::Binary), None);
    assert_eq!(coord_type(&DataType::Utf8), None);
    assert_eq!(coord_type(&list_of(DataType::Float64)), None);
    assert_eq!(coord_type(&list_of(list_of(DataType::Other))), None);
}

#[test]
fn native_layout_from_type_and_data_type() {
    let interleaved = column(list_of(fixed()));
    let separated = column(list_of(DataType::Struct));
    let binary = column(DataType::Binary);
    assert_eq!(
        native_type(&interleaved, GeoParquetGeometryType::LineString),
        NativeType::LineString(CoordType::Interleaved, Dimension::XY)
    );
    assert_eq!(
        native_type(&separated, GeoParquetGeometryType::MultiPolygonZ),
        NativeType::MultiPolygon(CoordType::Separated, Dimension::XYZ)
    );
    assert_eq!(native_type(&binary, GeoParquetGeometryType::Point), NativeType::Point(CoordType::Separated, Dimension::XY));
    assert_eq!(
        native_type(&text("x"), GeoParquetGeometryType::GeometryCollectionZ),
        NativeType::GeometryCollection(CoordType::Separated, Dimension::XYZ)
    );
    let scalar = ColumnarValue::Scalar(ScalarValue::Other(Column {
        data_type: fixed(),
        data: ColumnData::Native(NativeArray::Point(PointArray {
            coords: CoordBuffer::Interleaved { dim: 2, coords: vec![0, 0] },
            validity: None,
        })),
    }));
    assert_eq!(native_type(&scalar, GeoParquetGeometryType::PointZ), NativeType::Point(CoordType::Interleaved, Dimension::XYZ));
    let all = [
        (GeoParquetGeometryType::Point, NativeType::Point(CoordType::Interleaved, Dimension::XY)),
        (GeoParquetGeometryType::Polygon, NativeType::Polygon(CoordType::Interleaved, Dimension::XY)),
        (GeoParquetGeometryType::MultiPoint, NativeType::MultiPoint(CoordType::Interleaved, Dimension::XY)),
        (GeoParquetGeometryType::MultiLineString, NativeType::MultiLineString(CoordType::Interleaved, Dimension::XY)),
        (GeoParquetGeometryType::MultiPolygon, NativeType::MultiPolygon(CoordType::Interleaved, Dimension::XY)),
        (GeoParquetGeometryType::GeometryCollection, NativeType::GeometryCollection(CoordType::Interleaved, Dimension::XY)),
        (GeoParquetGeometryType::LineStringZ, NativeType::LineString(CoordType::Interleaved, Dimension::XYZ)),
        (GeoParquetGeometryType::PolygonZ, NativeType::Polygon(CoordType::Interleaved, Dimension::XYZ)),
        (GeoParquetGeometryType::MultiPointZ, NativeType::MultiPoint(CoordType::Interleaved, Dimension::XYZ)),
        (GeoParquetGeometryType::MultiLineStringZ, NativeType::MultiLineString(CoordType::Interleaved, Dimension::XYZ)),
    ];
    for (geometry_type, expected) in all {
        assert_eq!(native_type(&interleaved, geometry_type), expected);
    }
}
