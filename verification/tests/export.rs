use udf_binding::datatype::{DataType, SigDataType};
use udf_binding::descriptor::{FunctionAttr, ReturnShape, UserFunctionAttr};
use udf_binding::error::ConfigError;
use udf_binding::evaluator::Evaluation;
use udf_binding::export::{join, ExportedEntry, FunctionKind, FunctionSignature};
use udf_binding::types::PhysicalType;

fn attr(name: &str, args: &[&str], ret: &str) -> FunctionAttr {
    FunctionAttr {
        name: name.to_string(),
        args: args.iter().map(|s| s.to_string()).collect(),
        ret: ret.to_string(),
        is_table_function: false,
        batch_fn: None,
        type_infer: None,
        output: None,
    }
}

fn pure_fn(n: usize) -> UserFunctionAttr {
    UserFunctionAttr {
        name: "user_f".to_string(),
        async_: false,
        context: false,
        write: false,
        args_option: vec![false; n],
        return_type_kind: ReturnShape::Value,
        iterator_item_kind: None,
    }
}

fn exact(p: PhysicalType) -> SigDataType {
    SigDataType::Exact(DataType::Plain(p))
}

#[test]
fn canonical_signature_of_scalar_function() {
    let a = attr("add", &["int", "int"], "int");
    assert_eq!(a.normalize_signature(), "add(int,int)->int");
    assert_eq!(attr("f", &[], "int").normalize_signature(), "f()->int");
    assert_eq!(
        attr("g", &["struct<a: int>", "..."], "int[]").normalize_signature(),
        "g(struct<a: int>,...)->int[]"
    );
}

#[test]
fn canonical_signature_of_table_function() {
    let mut a = attr("series", &["int"], "int");
    a.is_table_function = true;
    assert_eq!(a.normalize_signature(), "series(int)->>int");
}

#[test]
fn export_symbol_is_encoded_signature() {
    let a = attr("add", &["int", "int"], "int");
    assert_eq!(a.export_name().unwrap(), "arrowudf_YWRkKGludCxpbnQpLT5pbnQ");
    assert_eq!(attr("f", &[], "int").export_name().unwrap(), "arrowudf_ZigpLT5pbnQ");
    assert_eq!(
        attr("gcd", &["int", "int"], "int").export_name().unwrap(),
        "arrowudf_Z2NkKGludCxpbnQpLT5pbnQ"
    );
}

#[test]
fn export_symbol_uses_dollar_and_underscore() {
    let a = attr("a?>", &["~~"], "\u{ff}");
    assert_eq!(a.normalize_signature(), "a?>(~~)->\u{ff}");
    assert_eq!(a.export_name().unwrap(), "arrowudf_YT8$KH5$KS0$w78");
}

#[test]
fn export_symbol_differs_with_result_type() {
    let a = attr("add", &["int", "int"], "int");
    let b = attr("add", &["int", "int"], "bigint");
    assert_eq!(b.export_name().unwrap(), "arrowudf_YWRkKGludCxpbnQpLT5iaWdpbnQ");
    assert_ne!(a.export_name(), b.export_name());
}

#[test]
fn export_symbol_is_stable() {
    let a = attr("add", &["int", "int"], "int");
    let first = a.export_name().unwrap();
    let second = a.export_name().unwrap();
    assert_eq!(first.as_bytes(), second.as_bytes());
    assert_eq!(a.clone().export_name().unwrap(), first);
}

#[test]
fn export_symbol_ignores_fields_outside_the_signature() {
    let a = attr("add", &["int", "int"], "int");
    let mut b = a.clone();
    b.batch_fn = Some("x".to_string());
    b.type_infer = Some("panic".to_string());
    b.output = Some("y".to_string());
    assert_eq!(a.export_name(), b.export_name());
    let mut c = a.clone();
    c.is_table_function = true;
    assert_eq!(c.export_name().unwrap(), "arrowudf_YWRkKGludCxpbnQpLT4$aW50");
    assert_ne!(a.export_name(), c.export_name());
}

#[test]
fn identifier_replaces_what_cannot_stand_in_one() {
    assert_eq!(attr("add", &["int", "int"], "int").ident_name(), "add_int_int_int");
    assert_eq!(
        attr("f", &["int[]", "struct<a: int>"], "varchar").ident_name(),
        "f_int___struct_a__int__varchar"
    );
    assert_eq!(attr("f", &[], "int").ident_name(), "f__int");
    assert_eq!(attr("add", &["int", "..."], "int").ident_name(), "add_int_____int");
}

#[test]
fn routine_name_defaults_to_identifier() {
    let mut a = attr("add", &["int", "int"], "int");
    assert_eq!(a.eval_name(), "add_int_int_int_eval");
    a.output = Some("custom_eval".to_string());
    assert_eq!(a.eval_name(), "custom_eval");
}

#[test]
fn join_puts_separator_between_parts() {
    let v = |xs: &[&str]| xs.iter().map(|s| s.to_string()).collect::<Vec<String>>();
    assert_eq!(join(&v(&[]), ","), "");
    assert_eq!(join(&v(&["a"]), ","), "a");
    assert_eq!(join(&v(&["a", "", "c"]), ", "), "a, , c");
}

#[test]
fn scalar_function_gets_entry_point_and_signature() {
    let a = attr("add", &["int", "bigint"], "varchar");
    let g = a.generate_function_descriptor(&pure_fn(2)).unwrap();
    assert_eq!(g.eval.name, "add_int_bigint_varchar_eval");
    assert_eq!(
        g.entry,
        Some(ExportedEntry {
            symbol: a.export_name().unwrap(),
            name: "add_int_bigint_varchar_ffi".to_string(),
        })
    );
    assert_eq!(g.sig_name, "add_int_bigint_varchar_sig");
    assert_eq!(
        g.signature,
        FunctionSignature {
            name: "add".to_string(),
            arg_types: vec![exact(PhysicalType::Int32), exact(PhysicalType::Int64)],
            variadic: false,
            return_type: exact(PhysicalType::Utf8),
            function: FunctionKind::Scalar("add_int_bigint_varchar_eval".to_string()),
        }
    );
}

#[test]
fn table_function_gets_no_entry_point() {
    let mut a = attr("series", &["int"], "int");
    a.is_table_function = true;
    a.output = Some("series_eval".to_string());
    let mut u = pure_fn(1);
    u.iterator_item_kind = Some(ReturnShape::Value);
    let g = a.generate_function_descriptor(&u).unwrap();
    assert_eq!(g.entry, None);
    assert_eq!(g.eval.name, "series_eval");
    assert_eq!(g.signature.function, FunctionKind::Table("series_eval".to_string()));
    match g.eval.evaluation {
        Evaluation::Table { .. } => {}
        other => panic!("{:?}", other),
    }
}

#[test]
fn variadic_marker_is_a_flag_of_the_signature() {
    let a = attr("concat", &["varchar", "..."], "varchar");
    let g = a.generate_function_descriptor(&pure_fn(1)).unwrap();
    assert!(g.signature.variadic);
    assert_eq!(g.signature.arg_types, vec![exact(PhysicalType::Utf8)]);
}

#[test]
fn nothing_is_generated_on_a_configuration_error() {
    assert_eq!(
        attr("f", &["any"], "int").generate_function_descriptor(&pure_fn(1)),
        Err(ConfigError::MalformedArgument(0))
    );
    assert_eq!(
        attr("f", &["int"], "struct").generate_function_descriptor(&pure_fn(1)),
        Err(ConfigError::MalformedReturn)
    );
    let mut u = pure_fn(1);
    u.write = true;
    assert_eq!(
        attr("f", &["int"], "int").generate_function_descriptor(&u),
        Err(ConfigError::WriterNeedsTextOrBinary)
    );
}

#[test]
fn signature_lists_wildcard_classes() {
    let a = attr("first", &["anyarray", "any", "struct", "int"], "any");
    assert_eq!(
        a.signature("first_eval"),
        Ok(FunctionSignature {
            name: "first".to_string(),
            arg_types: vec![
                SigDataType::AnyArray,
                SigDataType::Any,
                SigDataType::AnyStruct,
                exact(PhysicalType::Int32),
            ],
            variadic: false,
            return_type: SigDataType::Any,
            function: FunctionKind::Scalar("first_eval".to_string()),
        })
    );
}

#[test]
fn signature_refuses_what_a_catalog_cannot_list() {
    assert_eq!(
        attr("f", &["int", "any[]"], "int").signature("e"),
        Err(ConfigError::MalformedArgument(1))
    );
    assert_eq!(
        attr("f", &["int"], "nope").signature("e"),
        Err(ConfigError::MalformedReturn)
    );
    assert_eq!(
        attr("f", &["...", "int"], "int").signature("e"),
        Err(ConfigError::MalformedArgument(0))
    );
}
