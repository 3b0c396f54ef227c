use udf_binding::grammar::parse_type;
use udf_binding::types::{ArrayKind, LogicalType, PhysicalType, ScalarType, StructField};

fn scalar(s: ScalarType) -> LogicalType {
    LogicalType::Scalar(s)
}

fn field(name: &str, ty: LogicalType) -> StructField {
    StructField { name: name.to_string(), ty }
}

#[test]
fn every_scalar_name_parses() {
    let names = [
        ("void", ScalarType::Void),
        ("boolean", ScalarType::Boolean),
        ("smallint", ScalarType::SmallInt),
        ("int", ScalarType::Int),
        ("bigint", ScalarType::BigInt),
        ("real", ScalarType::Real),
        ("float", ScalarType::Float),
        ("decimal", ScalarType::Decimal),
        ("date", ScalarType::Date),
        ("time", ScalarType::Time),
        ("timestamp", ScalarType::Timestamp),
        ("interval", ScalarType::Interval),
        ("json", ScalarType::Json),
        ("varchar", ScalarType::Varchar),
        ("bytea", ScalarType::Bytea),
    ];
    for (name, ty) in names {
        assert_eq!(parse_type(name), Some(scalar(ty)));
    }
}

#[test]
fn wildcards_and_variadic_marker_parse() {
    assert_eq!(parse_type("any"), Some(LogicalType::Any));
    assert_eq!(parse_type("anyarray"), Some(LogicalType::AnyArray));
    assert_eq!(parse_type("struct"), Some(LogicalType::AnyStruct));
    assert_eq!(parse_type("..."), Some(LogicalType::Variadic));
}

#[test]
fn list_suffix_nests() {
    assert_eq!(
        parse_type("int[][]"),
        Some(LogicalType::List(Box::new(LogicalType::List(Box::new(scalar(ScalarType::Int))))))
    );
    assert_eq!(
        parse_type("any[]"),
        Some(LogicalType::List(Box::new(LogicalType::Any)))
    );
}

#[test]
fn struct_members_are_trimmed() {
    assert_eq!(
        parse_type("struct<x: int,  y :varchar >"),
        Some(LogicalType::Struct(vec![
            field("x", scalar(ScalarType::Int)),
            field("y", scalar(ScalarType::Varchar)),
        ]))
    );
}

#[test]
fn commas_inside_brackets_do_not_split_members() {
    assert_eq!(
        parse_type("struct<a:struct<b:int,c:int>,d:int[]>"),
        Some(LogicalType::Struct(vec![
            field(
                "a",
                LogicalType::Struct(vec![
                    field("b", scalar(ScalarType::Int)),
                    field("c", scalar(ScalarType::Int)),
                ])
            ),
            field("d", LogicalType::List(Box::new(scalar(ScalarType::Int)))),
        ]))
    );
}

#[test]
fn struct_without_members_and_with_trailing_comma() {
    assert_eq!(parse_type("struct<>"), Some(LogicalType::Struct(vec![])));
    assert_eq!(
        parse_type("struct<a:int,>"),
        Some(LogicalType::Struct(vec![field("a", scalar(ScalarType::Int))]))
    );
}

#[test]
fn list_of_struct_parses() {
    assert_eq!(
        parse_type("struct<a:int>[]"),
        Some(LogicalType::List(Box::new(LogicalType::Struct(vec![field(
            "a",
            scalar(ScalarType::Int)
        )]))))
    );
}

#[test]
fn malformed_names_are_rejected() {
    for name in [
        "",
        "integer",
        " int",
        "int ",
        "int []",
        "[]",
        "struct<a>",
        "struct<,a:int>",
        "struct<a:int",
        "struct<a:unknown>",
        "*",
        "*int",
        "*float",
        "INT",
    ] {
        assert_eq!(parse_type(name), None, "{:?}", name);
    }
}

#[test]
fn member_name_may_be_empty_after_trimming() {
    assert_eq!(
        parse_type("struct< :int>"),
        Some(LogicalType::Struct(vec![field("", scalar(ScalarType::Int))]))
    );
}

#[test]
fn catalog_maps_scalars_to_storage() {
    assert_eq!(ScalarType::Int.physical(), PhysicalType::Int32);
    assert_eq!(ScalarType::Decimal.physical(), PhysicalType::LargeUtf8);
    assert_eq!(ScalarType::Json.physical(), PhysicalType::LargeUtf8);
    assert_eq!(ScalarType::Varchar.physical(), PhysicalType::Utf8);
    assert_eq!(ScalarType::Timestamp.physical(), PhysicalType::TimestampMicrosecond);
    assert_eq!(ScalarType::Void.physical(), PhysicalType::Null);
    assert_eq!(
        parse_type("int[]").unwrap().array_kind(),
        Some(ArrayKind::List)
    );
    assert_eq!(
        parse_type("struct<a:int>").unwrap().array_kind(),
        Some(ArrayKind::Struct)
    );
    assert_eq!(
        parse_type("date").unwrap().array_kind(),
        Some(ArrayKind::Plain(PhysicalType::Date32))
    );
    assert_eq!(parse_type("any").unwrap().array_kind(), None);
}

#[test]
fn primitive_types_are_the_fixed_width_numbers() {
    for name in ["smallint", "int", "bigint", "real", "float"] {
        assert!(parse_type(name).unwrap().is_primitive(), "{}", name);
    }
    for name in [
        "void", "boolean", "decimal", "date", "time", "timestamp", "interval", "json", "varchar",
        "bytea", "int[]", "struct<a:int>", "any",
    ] {
        assert!(!parse_type(name).unwrap().is_primitive(), "{}", name);
    }
}

#[test]
fn concrete_types_hold_no_wildcard_at_any_depth() {
    assert!(parse_type("struct<a:int[],b:struct<c:date>>").unwrap().is_concrete());
    assert!(!parse_type("any").unwrap().is_concrete());
    assert!(!parse_type("...").unwrap().is_concrete());
    assert!(!parse_type("any[]").unwrap().is_concrete());
    assert!(!parse_type("struct<a:int,b:anyarray>").unwrap().is_concrete());
}

#[test]
fn clone_keeps_the_type() {
    let t = parse_type("struct<a:int[],b:struct<c:date>>").unwrap();
    assert_eq!(t.clone(), t);
}

#[test]
fn names_of_arrays_builders_and_data_types() {
    assert_eq!(ArrayKind::Plain(PhysicalType::Int32).array_type(), "Int32Array");
    assert_eq!(ArrayKind::Plain(PhysicalType::Utf8).array_type(), "StringArray");
    assert_eq!(ArrayKind::Plain(PhysicalType::LargeUtf8).array_builder_type(), "LargeStringBuilder");
    assert_eq!(
        parse_type("decimal").unwrap().array_kind().unwrap().array_builder_type(),
        "LargeStringBuilder"
    );
    assert_eq!(
        ArrayKind::Plain(PhysicalType::Time64Microsecond).array_type(),
        "Time64MicrosecondArray"
    );
    assert_eq!(ArrayKind::List.array_type(), "ListArray");
    assert_eq!(ArrayKind::Struct.array_builder_type(), "StructBuilder");
    assert_eq!(ArrayKind::Plain(PhysicalType::Null).prefix(), "Null");
    assert_eq!(PhysicalType::Utf8.data_type_name(), "Utf8");
    assert_eq!(
        PhysicalType::TimestampMicrosecond.data_type_name(),
        "Timestamp(TimeUnit::Microsecond, None)"
    );
    assert_eq!(
        PhysicalType::IntervalMonthDayNano.data_type_name(),
        "Interval(IntervalUnit::MonthDayNano)"
    );
    assert_eq!(PhysicalType::Time64Microsecond.data_type_name(), "Time64(TimeUnit::Microsecond)");
}
