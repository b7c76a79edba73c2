use datafusion_spatial::error::{Error, ErrorKind};
use datafusion_spatial::metadata::{
    parse_geo_metadata, same_text, texts_are_distinct, GeoColumn, GeoMetadata,
};
use datafusion_spatial::rules::{check_catalog, TableMetadata};

fn geo(columns: &str) -> String {
    format!(r#"{{"version":"1.1.0","primary_column":"geometry","columns":{{{columns}}}}}"#)
}

fn column<'a>(meta: &'a GeoMetadata, name: &str) -> &'a GeoColumn {
    &meta.columns[meta.position(name).unwrap()]
}

#[test]
fn one_column_of_polygons() {
    let json = geo(r#""geometry":{"encoding":"WKB","geometry_types":["Polygon"]}"#);
    let meta = parse_geo_metadata(&json).unwrap();
    assert_eq!(
        meta,
        GeoMetadata {
            columns: vec![GeoColumn {
                name: "geometry".to_string(),
                encoding: "WKB".to_string(),
                geometry_types: vec!["Polygon".to_string()],
            }],
        }
    );
    assert_eq!(column(&meta, "geometry").type_tag(), "Polygon");
    assert_eq!(meta.position("other"), None);
}

#[test]
fn encodings_and_types_come_out_as_the_metadata_spells_them() {
    let json = geo(
        r#""a":{"encoding":"point","geometry_types":["Point Z"]},
           "b":{"encoding":"multipolygon","geometry_types":[]},
           "c":{"encoding":"WKB","geometry_types":["Point","LineString"],"crs":null,"edges":"planar"}"#,
    );
    let meta = parse_geo_metadata(&json).unwrap();
    assert_eq!(meta.columns.len(), 3);
    let a = column(&meta, "a");
    assert_eq!(a.encoding, "point");
    assert_eq!(a.geometry_types, vec!["Point Z".to_string()]);
    assert_eq!(a.type_tag(), "Point Z");
    let b = column(&meta, "b");
    assert_eq!(b.encoding, "multipolygon");
    assert!(b.geometry_types.is_empty());
    assert_eq!(b.type_tag(), "Unknown");
    let c = column(&meta, "c");
    assert_eq!(c.encoding, "WKB");
    let mut types = c.geometry_types.clone();
    types.sort();
    assert_eq!(types, vec!["LineString".to_string(), "Point".to_string()]);
    assert_eq!(c.type_tag(), "Mixed");
}

#[test]
fn a_type_listed_twice_counts_once() {
    let json = geo(r#""g":{"encoding":"WKB","geometry_types":["Point","Point"]}"#);
    let meta = parse_geo_metadata(&json).unwrap();
    assert_eq!(column(&meta, "g").geometry_types, vec!["Point".to_string()]);
    assert_eq!(column(&meta, "g").type_tag(), "Point");
}

#[test]
fn malformed_metadata_is_a_metadata_error() {
    let broken = [
        "".to_string(),
        "not json".to_string(),
        "{}".to_string(),
        r#"{"version":"1.1.0","columns":{}}"#.to_string(),
        geo(r#""g":{"encoding":"wkb","geometry_types":[]}"#),
        geo(r#""g":{"encoding":"WKB","geometry_types":["Circle"]}"#),
        geo(r#""g":{"encoding":"WKB"}"#),
    ];
    for json in &broken {
        let err = parse_geo_metadata(json).unwrap_err();
        assert_eq!(err.error_kind(), ErrorKind::ParquetMetadata, "{json}");
        assert!(err.to_text().starts_with("Malformed `geo` metadata: "), "{json}");
        assert!(matches!(err, Error::ParquetMetadata(_)));
    }
    let err = parse_geo_metadata("{}").unwrap_err();
    assert_eq!(
        err.to_text(),
        "Malformed `geo` metadata: missing field `version` at line 1 column 2"
    );
}

#[test]
fn texts_are_compared_by_their_characters() {
    assert!(same_text("ST_Envelope", "ST_Envelope"));
    assert!(!same_text("ST_Envelope", "st_envelope"));
    assert!(same_text("", ""));
}

#[test]
fn validity_of_metadata() {
    let column = |name: &str, types: &[&str]| GeoColumn {
        name: name.to_string(),
        encoding: "WKB".to_string(),
        geometry_types: types.iter().map(|t| t.to_string()).collect(),
    };
    assert!(texts_are_distinct(&vec![]));
    assert!(texts_are_distinct(&vec!["a".to_string(), "b".to_string(), "ab".to_string()]));
    assert!(!texts_are_distinct(&vec!["a".to_string(), "b".to_string(), "a".to_string()]));
    assert!(column("g", &["Point", "Polygon"]).is_valid());
    assert!(!column("g", &["Point", "Point"]).is_valid());
    let valid = GeoMetadata { columns: vec![column("g", &["Point"]), column("h", &[])] };
    assert!(valid.is_valid());
    let twice = GeoMetadata { columns: vec![column("g", &["Point"]), column("g", &[])] };
    assert!(!twice.is_valid());
    let inner = GeoMetadata { columns: vec![column("g", &["Point", "Point"])] };
    assert!(!inner.is_valid());
    assert!(check_catalog(&vec![]));
    assert!(check_catalog(&vec![TableMetadata { table: "t".to_string(), metadata: valid }]));
    assert!(!check_catalog(&vec![TableMetadata { table: "t".to_string(), metadata: twice }]));
    let parsed = parse_geo_metadata(&geo(r#""g":{"encoding":"WKB","geometry_types":["Point"]}"#));
    assert!(parsed.unwrap().is_valid());
}
