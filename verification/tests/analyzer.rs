use datafusion_spatial::error::ErrorKind;
use datafusion_spatial::metadata::{GeoColumn, GeoMetadata};
use datafusion_spatial::plan::{Expr, LogicalPlan};
use datafusion_spatial::rules::{
    analyze_with, find_table, infer_encoding_and_type, is_spatial, lit, rewrite_expression,
    SpatialAnalyzerRule, TableMetadata,
};

fn geo(columns: &str) -> String {
    format!(r#"{{"version":"1.1.0","primary_column":"geometry","columns":{{{columns}}}}}"#)
}

fn polygons() -> String {
    geo(r#""geometry":{"encoding":"WKB","geometry_types":["Polygon"]}"#)
}

fn scan(table: &str, geo: Option<String>) -> LogicalPlan {
    LogicalPlan::TableScan { table_name: table.to_string(), geo }
}

fn node(id: u64, exprs: Vec<Expr>, inputs: Vec<LogicalPlan>) -> LogicalPlan {
    LogicalPlan::Other { id, exprs, inputs }
}

fn col(table: &str, name: &str) -> Expr {
    Expr::Column { relation: Some(table.to_string()), name: name.to_string() }
}

fn args_text(args: &[Expr]) -> String {
    let names: Vec<String> = args
        .iter()
        .map(|a| match a {
            Expr::Column { relation: Some(t), name } => format!("{t}.{name}"),
            Expr::Column { relation: None, name } => name.clone(),
            Expr::ScalarFunction { schema_name, .. } => schema_name.clone(),
            Expr::AggregateFunction { schema_name, .. } => schema_name.clone(),
            Expr::Alias { name, .. } => name.clone(),
            Expr::Literal { value } => format!("'{value}'"),
            Expr::Other { id, .. } => format!("#{id}"),
        })
        .collect();
    names.join(",")
}

fn scalar(name: &str, args: Vec<Expr>) -> Expr {
    let schema_name = format!("{name}({})", args_text(&args));
    Expr::ScalarFunction { name: name.to_string(), args, schema_name }
}

fn aggregate(name: &str, args: Vec<Expr>) -> Expr {
    let schema_name = format!("{name}({})", args_text(&args));
    Expr::AggregateFunction { name: name.to_string(), args, schema_name }
}

fn alias(expr: Expr, name: &str) -> Expr {
    Expr::Alias { expr: Box::new(expr), name: name.to_string() }
}

fn tagged_scalar(name: &str, schema_name: &str, mut args: Vec<Expr>, tags: (&str, &str)) -> Expr {
    args.push(lit(tags.0));
    args.push(lit(tags.1));
    alias(
        Expr::ScalarFunction { name: name.to_string(), args, schema_name: schema_name.to_string() },
        schema_name,
    )
}

fn catalog() -> Vec<TableMetadata> {
    vec![
        TableMetadata {
            table: "t".to_string(),
            metadata: GeoMetadata {
                columns: vec![
                    GeoColumn {
                        name: "geometry".to_string(),
                        encoding: "WKB".to_string(),
                        geometry_types: vec!["Polygon".to_string()],
                    },
                    GeoColumn {
                        name: "shape".to_string(),
                        encoding: "point".to_string(),
                        geometry_types: vec![],
                    },
                    GeoColumn {
                        name: "any".to_string(),
                        encoding: "WKB".to_string(),
                        geometry_types: vec!["Point".to_string(), "LineString".to_string()],
                    },
                ],
            },
        },
        TableMetadata {
            table: "u".to_string(),
            metadata: GeoMetadata {
                columns: vec![GeoColumn {
                    name: "geometry".to_string(),
                    encoding: "linestring".to_string(),
                    geometry_types: vec!["LineString Z".to_string()],
                }],
            },
        },
    ]
}

#[test]
fn the_rule_has_its_name() {
    assert_eq!(SpatialAnalyzerRule {}.name(), "spatial-analyzer-rule");
}

#[test]
fn spatial_names_begin_with_st_() {
    assert!(is_spatial("ST_AsText"));
    assert!(is_spatial("ST_"));
    assert!(!is_spatial("st_astext"));
    assert!(!is_spatial("ST"));
    assert!(!is_spatial(""));
    assert!(!is_spatial("XST_AsText"));
}

#[test]
fn tables_are_found_by_name() {
    let tables = catalog();
    assert_eq!(find_table(&tables, "t"), Some(0));
    assert_eq!(find_table(&tables, "u"), Some(1));
    assert_eq!(find_table(&tables, "v"), None);
}

#[test]
fn tags_of_a_column() {
    let tables = catalog();
    let call = scalar("ST_AsText", vec![col("t", "geometry")]);
    assert_eq!(infer_encoding_and_type(&call, &tables).unwrap(), (lit("Polygon"), lit("WKB")));
    let call = aggregate("ST_Extent", vec![col("u", "geometry")]);
    assert_eq!(
        infer_encoding_and_type(&call, &tables).unwrap(),
        (lit("LineString Z"), lit("linestring"))
    );
}

#[test]
fn tags_of_a_column_without_types_and_with_several() {
    let tables = catalog();
    let call = scalar("ST_AsText", vec![col("t", "shape")]);
    assert_eq!(infer_encoding_and_type(&call, &tables).unwrap(), (lit("Unknown"), lit("point")));
    let call = scalar("ST_AsText", vec![col("t", "any")]);
    assert_eq!(infer_encoding_and_type(&call, &tables).unwrap(), (lit("Mixed"), lit("WKB")));
}

#[test]
fn the_first_argument_that_says_anything_decides() {
    let tables = catalog();
    let call = scalar(
        "ST_Foo",
        vec![
            lit("x"),
            col("t", "id"),
            col("v", "geometry"),
            Expr::Column { relation: None, name: "geometry".to_string() },
            scalar("upper", vec![col("u", "geometry")]),
            col("u", "geometry"),
            col("t", "geometry"),
        ],
    );
    assert_eq!(
        infer_encoding_and_type(&call, &tables).unwrap(),
        (lit("LineString Z"), lit("linestring"))
    );
}

#[test]
fn the_result_of_st_envelope_is_a_polygon() {
    let tables = catalog();
    let call = scalar("ST_AsText", vec![scalar("ST_Envelope", vec![col("u", "geometry")])]);
    assert_eq!(infer_encoding_and_type(&call, &tables).unwrap(), (lit("Polygon"), lit("polygon")));
}

#[test]
fn another_spatial_producer_is_not_implemented() {
    let tables = catalog();
    let call = scalar("ST_AsText", vec![scalar("ST_Buffer", vec![col("u", "geometry")])]);
    let err = infer_encoding_and_type(&call, &tables).unwrap_err();
    assert_eq!(err.error_kind(), ErrorKind::NotImplemented);
    assert_eq!(err.to_text(), "io mapping for ST_Buffer");
}

#[test]
fn a_call_that_reads_no_known_geometry_is_a_metadata_error() {
    let tables = catalog();
    for call in [
        scalar("ST_AsText", vec![]),
        scalar("ST_AsText", vec![col("v", "geometry")]),
        scalar("ST_AsText", vec![col("t", "id"), lit("x")]),
        lit("x"),
    ] {
        let err = infer_encoding_and_type(&call, &tables).unwrap_err();
        assert_eq!(err.error_kind(), ErrorKind::ParquetMetadata);
    }
}

#[test]
fn a_spatial_call_gets_two_constants_and_keeps_its_name() {
    let tables = catalog();
    let call = scalar("ST_AsText", vec![col("t", "geometry")]);
    assert_eq!(
        rewrite_expression(&call, &tables).unwrap(),
        tagged_scalar("ST_AsText", "ST_AsText(t.geometry)", vec![col("t", "geometry")], ("Polygon", "WKB"))
    );
}

#[test]
fn nested_spatial_calls_are_rewritten_from_the_inside() {
    let tables = catalog();
    let inner = scalar("ST_Envelope", vec![col("u", "geometry")]);
    let call = scalar("ST_AsText", vec![inner]);
    let rewritten_inner = tagged_scalar(
        "ST_Envelope",
        "ST_Envelope(u.geometry)",
        vec![col("u", "geometry")],
        ("LineString Z", "linestring"),
    );
    assert_eq!(
        rewrite_expression(&call, &tables).unwrap(),
        tagged_scalar(
            "ST_AsText",
            "ST_AsText(ST_Envelope(u.geometry))",
            vec![rewritten_inner],
            ("Polygon", "polygon")
        )
    );
}

#[test]
fn calls_are_found_under_other_expressions() {
    let tables = catalog();
    let call = scalar("ST_AsText", vec![col("t", "geometry")]);
    let expr = Expr::Other {
        id: 7,
        children: vec![alias(scalar("upper", vec![call]), "wkt"), lit("x"), col("t", "id")],
    };
    let rewritten = tagged_scalar(
        "ST_AsText",
        "ST_AsText(t.geometry)",
        vec![col("t", "geometry")],
        ("Polygon", "WKB"),
    );
    assert_eq!(
        rewrite_expression(&expr, &tables).unwrap(),
        Expr::Other {
            id: 7,
            children: vec![
                alias(
                    Expr::ScalarFunction {
                        name: "upper".to_string(),
                        args: vec![rewritten],
                        schema_name: "upper(ST_AsText(t.geometry))".to_string(),
                    },
                    "wkt"
                ),
                lit("x"),
                col("t", "id"),
            ],
        }
    );
}

#[test]
fn select_as_text_and_extent_over_polygons() {
    let plan = node(
        1,
        vec![
            scalar("ST_AsText", vec![col("t", "geometry")]),
            aggregate("ST_Extent", vec![col("t", "geometry")]),
        ],
        vec![scan("t", Some(polygons()))],
    );
    let expected_extent = alias(
        Expr::AggregateFunction {
            name: "ST_Extent".to_string(),
            args: vec![col("t", "geometry"), lit("Polygon"), lit("WKB")],
            schema_name: "ST_Extent(t.geometry)".to_string(),
        },
        "ST_Extent(t.geometry)",
    );
    let expected = node(
        1,
        vec![
            tagged_scalar("ST_AsText", "ST_AsText(t.geometry)", vec![col("t", "geometry")], ("Polygon", "WKB")),
            expected_extent,
        ],
        vec![scan("t", Some(polygons()))],
    );
    assert_eq!(SpatialAnalyzerRule {}.analyze(plan).unwrap(), expected);
}

#[test]
fn a_column_of_points_and_line_strings_is_tagged_mixed() {
    let json = geo(r#""geometry":{"encoding":"WKB","geometry_types":["Point","LineString"]}"#);
    let plan = node(
        1,
        vec![scalar("ST_GeometryType", vec![col("t", "geometry")])],
        vec![scan("t", Some(json.clone()))],
    );
    let expected = node(
        1,
        vec![tagged_scalar(
            "ST_GeometryType",
            "ST_GeometryType(t.geometry)",
            vec![col("t", "geometry")],
            ("Mixed", "WKB"),
        )],
        vec![scan("t", Some(json))],
    );
    assert_eq!(SpatialAnalyzerRule {}.analyze(plan).unwrap(), expected);
}

#[test]
fn inputs_are_analysed_before_the_node_that_reads_them() {
    let lines = geo(r#""geometry":{"encoding":"linestring","geometry_types":["LineString"]}"#);
    let join = node(
        2,
        vec![scalar("ST_AsText", vec![col("t", "geometry")])],
        vec![scan("t", Some(polygons())), scan("u", Some(lines.clone()))],
    );
    let plan = node(1, vec![scalar("ST_AsText", vec![col("u", "geometry")])], vec![join]);
    let expected = node(
        1,
        vec![tagged_scalar(
            "ST_AsText",
            "ST_AsText(u.geometry)",
            vec![col("u", "geometry")],
            ("LineString", "linestring"),
        )],
        vec![node(
            2,
            vec![tagged_scalar(
                "ST_AsText",
                "ST_AsText(t.geometry)",
                vec![col("t", "geometry")],
                ("Polygon", "WKB"),
            )],
            vec![scan("t", Some(polygons())), scan("u", Some(lines))],
        )],
    );
    assert_eq!(SpatialAnalyzerRule {}.analyze(plan).unwrap(), expected);
}

#[test]
fn a_table_is_decoded_once() {
    // the second scan of `t` carries a malformed entry, which is never read
    let plan = node(
        1,
        vec![scalar("ST_AsText", vec![col("t", "geometry")])],
        vec![scan("t", Some(polygons())), scan("t", Some("broken".to_string()))],
    );
    let out = SpatialAnalyzerRule {}.analyze(plan).unwrap();
    match out {
        LogicalPlan::Other { exprs, .. } => assert_eq!(
            exprs,
            vec![tagged_scalar(
                "ST_AsText",
                "ST_AsText(t.geometry)",
                vec![col("t", "geometry")],
                ("Polygon", "WKB")
            )]
        ),
        other => panic!("{other:?}"),
    }
    let mut tables = Vec::new();
    let scans = node(0, vec![], vec![scan("t", Some(polygons())), scan("t", Some(polygons()))]);
    analyze_with(&scans, &mut tables).unwrap();
    assert_eq!(tables.len(), 1);
    assert_eq!(tables[0].table, "t");
}

#[test]
fn malformed_metadata_fails_the_analysis() {
    let plan = node(1, vec![], vec![scan("t", Some("{".to_string()))]);
    let err = SpatialAnalyzerRule {}.analyze(plan).unwrap_err();
    assert_eq!(err.error_kind(), ErrorKind::ParquetMetadata);
    assert!(err.to_text().starts_with("Malformed `geo` metadata: "));
}

#[test]
fn a_spatial_call_on_a_table_without_metadata_fails_the_analysis() {
    let plan = node(1, vec![scalar("ST_AsText", vec![col("t", "geometry")])], vec![scan("t", None)]);
    let err = SpatialAnalyzerRule {}.analyze(plan).unwrap_err();
    assert_eq!(err.error_kind(), ErrorKind::ParquetMetadata);
}

#[test]
fn an_unknown_producer_fails_the_analysis() {
    let plan = node(
        1,
        vec![scalar("ST_AsText", vec![scalar("ST_Centroid", vec![col("t", "geometry")])])],
        vec![scan("t", Some(polygons()))],
    );
    let err = SpatialAnalyzerRule {}.analyze(plan).unwrap_err();
    assert_eq!(err.error_kind(), ErrorKind::NotImplemented);
}

#[test]
fn a_plan_without_spatial_calls_is_a_fixed_point() {
    let plan = || {
        node(
            1,
            vec![alias(scalar("upper", vec![col("t", "name")]), "n"), lit("ST_AsText"), col("t", "geometry")],
            vec![node(2, vec![aggregate("count", vec![lit("1")])], vec![scan("t", Some(polygons())), scan("u", None)])],
        )
    };
    let once = SpatialAnalyzerRule {}.analyze(plan()).unwrap();
    assert_eq!(once, plan());
    let twice = SpatialAnalyzerRule {}.analyze(once).unwrap();
    assert_eq!(twice, plan());
}

#[test]
fn scans_are_left_as_they_are() {
    let plan = scan("t", Some(polygons()));
    assert_eq!(SpatialAnalyzerRule {}.analyze(plan).unwrap(), scan("t", Some(polygons())));
    assert_eq!(SpatialAnalyzerRule {}.analyze(scan("t", None)).unwrap(), scan("t", None));
}
