use datafusion_spatial::array::{CoordBuffer, NativeArray, PointArray};
use datafusion_spatial::datatypes::{Column, ColumnData, ColumnarValue, DataType, ScalarValue};
use datafusion_spatial::error::ErrorKind;
use datafusion_spatial::udfs::geometry_type::{wkb_geom_to_type, GeometryType};

fn text(s: &str) -> ColumnarValue {
    ColumnarValue::Scalar(ScalarValue::Utf8(Some(s.to_string())))
}

fn little_endian(code: u32) -> Vec<u8> {
    let mut bytes = vec![1u8];
    bytes.extend_from_slice(&code.to_le_bytes());
    bytes.extend_from_slice(&[0u8; 16]);
    bytes
}

fn big_endian(code: u32) -> Vec<u8> {
    let mut bytes = vec![0u8];
    bytes.extend_from_slice(&code.to_be_bytes());
    bytes
}

fn names(out: ColumnarValue) -> Vec<Option<String>> {
    match out {
        ColumnarValue::Array(Column { data_type: DataType::Utf8, data: ColumnData::Utf8(rows) }) => {
            rows
        }
        other => panic!("no column of texts: {other:?}"),
    }
}

fn points(validity: Option<Vec<bool>>) -> ColumnarValue {
    ColumnarValue::Array(Column {
        data_type: DataType::Struct,
        data: ColumnData::Native(NativeArray::Point(PointArray {
            coords: CoordBuffer::Separated { buffers: vec![vec![0, 0, 0], vec![0, 0, 0]] },
            validity,
        })),
    })
}

#[test]
fn type_names_by_code_in_either_byte_order() {
    let named = [
        (1, "ST_Point"),
        (2, "ST_LineString"),
        (3, "ST_Polygon"),
        (4, "ST_MultiPoint"),
        (5, "ST_MultiLineString"),
        (6, "ST_MultiPolygon"),
        (7, "ST_GeometryCollection"),
        (1001, "ST_PointZ"),
        (1002, "ST_LineStringZ"),
        (1003, "ST_PolygonZ"),
        (1004, "ST_MultiPointZ"),
        (1005, "ST_MultiLineStringZ"),
        (1006, "ST_MultiPolygonZ"),
        (1007, "ST_GeometryCollectionZ"),
    ];
    for (code, name) in named {
        assert_eq!(wkb_geom_to_type(Some(&little_endian(code))).unwrap().unwrap(), name);
        assert_eq!(wkb_geom_to_type(Some(&big_endian(code))).unwrap().unwrap(), name);
    }
}

#[test]
fn a_null_has_no_type() {
    assert_eq!(wkb_geom_to_type(None).unwrap(), None);
}

#[test]
fn bytes_without_a_known_header_are_an_internal_error() {
    let broken: Vec<Vec<u8>> = vec![
        vec![],
        vec![1],
        vec![1, 1, 0, 0],
        vec![2, 1, 0, 0, 0],
        little_endian(0),
        little_endian(8),
        little_endian(1000),
        little_endian(1008),
        little_endian(2001),
        big_endian(0x0100_0000),
        // a point code read in the wrong byte order
        vec![0, 1, 0, 0, 0],
    ];
    for bytes in &broken {
        let err = wkb_geom_to_type(Some(bytes)).unwrap_err();
        assert_eq!(err.error_kind(), ErrorKind::Internal, "{bytes:?}");
    }
}

#[test]
fn the_geometry_type_function() {
    let f = GeometryType::new();
    assert_eq!(f.name(), "ST_GeometryType");
    assert_eq!(f.aliases(), &vec!["st_geometrytype".to_string()]);
    assert_eq!(f.signature().arities, vec![1, 3]);
    assert_eq!(f.return_type(&[DataType::Binary]).unwrap(), DataType::Utf8);
    assert_eq!(f.return_type(&[]).unwrap(), DataType::Utf8);
}

#[test]
fn serialized_geometries_are_typed_row_by_row() {
    for data_type in [DataType::Binary, DataType::LargeBinary] {
        let column = ColumnarValue::Array(Column {
            data_type,
            data: ColumnData::Binary(vec![Some(little_endian(1)), None, Some(big_endian(2))]),
        });
        let out = GeometryType::new().invoke(&[column, text("Mixed"), text("WKB")]).unwrap();
        assert_eq!(
            names(out),
            vec![Some("ST_Point".to_string()), None, Some("ST_LineString".to_string())]
        );
    }
}

#[test]
fn one_malformed_row_fails_the_batch() {
    let column = ColumnarValue::Array(Column {
        data_type: DataType::Binary,
        data: ColumnData::Binary(vec![Some(little_endian(1)), Some(vec![1, 2])]),
    });
    let err = GeometryType::new().invoke(&[column, text("Point"), text("WKB")]).unwrap_err();
    assert_eq!(err.error_kind(), ErrorKind::Internal);
}

#[test]
fn a_native_column_without_nulls_gives_one_value() {
    let out = GeometryType::new().invoke(&[points(None), text("Point"), text("point")]).unwrap();
    assert_eq!(out, text("ST_Point"));
    let out = GeometryType::new()
        .invoke(&[points(Some(vec![true, true, true])), text("MultiPolygon Z"), text("multipolygon")])
        .unwrap();
    assert_eq!(out, text("ST_MultiPolygonZ"));
}

#[test]
fn a_native_column_with_nulls_gives_a_row_for_each_row() {
    let out = GeometryType::new()
        .invoke(&[points(Some(vec![true, false, true])), text("Point Z"), text("point")])
        .unwrap();
    assert_eq!(
        names(out),
        vec![Some("ST_PointZ".to_string()), None, Some("ST_PointZ".to_string())]
    );
}

#[test]
fn the_tag_must_be_a_constant_text() {
    let tag = ColumnarValue::Scalar(ScalarValue::Utf8(None));
    let err = GeometryType::new().invoke(&[points(None), tag, text("point")]).unwrap_err();
    assert_eq!(err.error_kind(), ErrorKind::Internal);
    let err = GeometryType::new().invoke(&[text("x"), text("Point"), text("point")]).unwrap_err();
    assert_eq!(err.error_kind(), ErrorKind::Internal);
    let column = ColumnarValue::Array(Column { data_type: DataType::Binary, data: ColumnData::Utf8(vec![]) });
    let err = GeometryType::new().invoke(&[column, text("Point"), text("WKB")]).unwrap_err();
    assert_eq!(err.error_kind(), ErrorKind::Internal);
}
