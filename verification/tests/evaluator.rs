use udf_binding::datatype::{DataType, Field};
use udf_binding::descriptor::{FunctionAttr, ReturnShape, UserFunctionAttr};
use udf_binding::error::ConfigError;
use udf_binding::evaluator::{Evaluation, RowOutput, BATCH_SIZE};
use udf_binding::planner::{AppendNull, AppendPlan, AppendValue, BuilderPlan, InputTransform};
use udf_binding::types::{ArrayKind, PhysicalType};

fn attr(args: &[&str], ret: &str) -> FunctionAttr {
    FunctionAttr {
        name: "f".to_string(),
        args: args.iter().map(|s| s.to_string()).collect(),
        ret: ret.to_string(),
        is_table_function: false,
        batch_fn: None,
        type_infer: None,
        output: None,
    }
}

fn pure_fn(n: usize) -> UserFunctionAttr {
    UserFunctionAttr {
        name: "user_f".to_string(),
        async_: false,
        context: false,
        write: false,
        args_option: vec![false; n],
        return_type_kind: ReturnShape::Value,
        iterator_item_kind: None,
    }
}

fn direct() -> AppendPlan {
    AppendPlan { wrap_items: false, value: AppendValue::Direct, null: AppendNull::Direct }
}

fn rows_of_int() -> Evaluation {
    Evaluation::Rows {
        builder: BuilderPlan::Values(PhysicalType::Int32),
        output: RowOutput::Append(direct()),
    }
}

#[test]
fn vectorized_path_by_arity() {
    let p = attr(&[], "int").generate_function(&pure_fn(0), "e").unwrap();
    assert_eq!(p.evaluation, Evaluation::Nullary);
    let p = attr(&["bigint"], "int").generate_function(&pure_fn(1), "e").unwrap();
    assert_eq!(p.evaluation, Evaluation::Unary);
    let p = attr(&["int", "real"], "float").generate_function(&pure_fn(2), "e").unwrap();
    assert_eq!(p.evaluation, Evaluation::Binary);
}

#[test]
fn three_arguments_take_the_row_loop() {
    let p = attr(&["int", "int", "int"], "int").generate_function(&pure_fn(3), "e").unwrap();
    assert_eq!(p.evaluation, rows_of_int());
}

#[test]
fn non_primitive_types_take_the_row_loop() {
    let p = attr(&["int", "varchar"], "int").generate_function(&pure_fn(2), "e").unwrap();
    assert_eq!(p.evaluation, rows_of_int());
    let p = attr(&["int"], "boolean").generate_function(&pure_fn(1), "e").unwrap();
    assert_eq!(
        p.evaluation,
        Evaluation::Rows {
            builder: BuilderPlan::Values(PhysicalType::Boolean),
            output: RowOutput::Append(direct()),
        }
    );
}

#[test]
fn impure_functions_take_the_row_loop() {
    let d = attr(&["int", "int"], "int");
    let mut u = pure_fn(2);
    u.args_option = vec![false, true];
    assert_eq!(d.generate_function(&u, "e").unwrap().evaluation, rows_of_int());
    let mut u = pure_fn(2);
    u.context = true;
    assert_eq!(d.generate_function(&u, "e").unwrap().evaluation, rows_of_int());
    let mut u = pure_fn(2);
    u.async_ = true;
    assert_eq!(d.generate_function(&u, "e").unwrap().evaluation, rows_of_int());
    for shape in [ReturnShape::Optional, ReturnShape::Fallible, ReturnShape::FallibleOptional] {
        let mut u = pure_fn(2);
        u.return_type_kind = shape;
        assert_eq!(d.generate_function(&u, "e").unwrap().evaluation, rows_of_int());
    }
}

#[test]
fn extra_reflected_arguments_count_for_purity() {
    let d = attr(&["int"], "int");
    let mut u = pure_fn(1);
    u.args_option = vec![false, true];
    let p = d.generate_function(&u, "e").unwrap();
    assert_eq!(p.evaluation, rows_of_int());
    assert_eq!(p.unwrap, vec![true]);
}

#[test]
fn variadic_functions_take_the_row_loop() {
    let d = attr(&["int", "..."], "int");
    let p = d.generate_function(&pure_fn(1), "e").unwrap();
    assert_eq!(p.evaluation, rows_of_int());
    assert!(p.call.variadic);
    assert_eq!(p.downcasts, vec![ArrayKind::Plain(PhysicalType::Int32)]);
    assert_eq!(p.call.inputs, vec![InputTransform::Direct]);
}

#[test]
fn plan_carries_call_gate_and_downcasts() {
    let d = attr(&["date", "int[]", "struct<a:int>"], "varchar");
    let u = UserFunctionAttr {
        name: "user_f".to_string(),
        async_: true,
        context: true,
        write: false,
        args_option: vec![true, false, true],
        return_type_kind: ReturnShape::FallibleOptional,
        iterator_item_kind: None,
    };
    let p = d.generate_function(&u, "my_eval").unwrap();
    assert_eq!(p.name, "my_eval");
    assert_eq!(p.column, "f");
    assert_eq!(
        p.downcasts,
        vec![ArrayKind::Plain(PhysicalType::Date32), ArrayKind::List, ArrayKind::Struct]
    );
    assert_eq!(p.call.function, "user_f");
    assert_eq!(
        p.call.inputs,
        vec![
            InputTransform::DateFromDays,
            InputTransform::PrimitiveSlice(PhysicalType::Int32),
            InputTransform::Direct
        ]
    );
    assert!(!p.call.variadic);
    assert!(p.call.context);
    assert!(!p.call.writer);
    assert!(p.call.awaited);
    assert_eq!(p.unwrap, vec![false, true, false]);
    assert_eq!(p.shape, ReturnShape::FallibleOptional);
    assert!(p.has_error);
    assert_eq!(p.return_array, ArrayKind::Plain(PhysicalType::Utf8));
    assert_eq!(p.return_type, DataType::Plain(PhysicalType::Utf8));
}

#[test]
fn table_function_streams_in_batches_of_1024() {
    let mut d = attr(&["int"], "int");
    d.is_table_function = true;
    d.batch_fn = Some("ignored".to_string());
    let mut u = pure_fn(1);
    u.iterator_item_kind = Some(ReturnShape::Fallible);
    let p = d.generate_function(&u, "e").unwrap();
    assert_eq!(BATCH_SIZE, 1024);
    assert_eq!(
        p.evaluation,
        Evaluation::Table {
            builder: BuilderPlan::Values(PhysicalType::Int32),
            append: direct(),
            item_shape: ReturnShape::Fallible,
            batch_size: 1024,
        }
    );
    assert!(p.has_error);
}

#[test]
fn table_function_without_item_shape_is_refused() {
    let mut d = attr(&["int"], "int");
    d.is_table_function = true;
    assert_eq!(
        d.generate_function(&pure_fn(1), "e"),
        Err(ConfigError::MissingItemShape)
    );
}

#[test]
fn whole_batch_function_is_forwarded_to() {
    let mut d = attr(&["int", "int"], "int");
    d.batch_fn = Some("add_batch".to_string());
    let p = d.generate_function(&pure_fn(2), "e").unwrap();
    assert_eq!(
        p.evaluation,
        Evaluation::CustomBatch { function: "add_batch".to_string() }
    );
}

#[test]
fn whole_batch_function_for_variadic_is_refused() {
    let mut d = attr(&["int", "..."], "int");
    d.batch_fn = Some("add_batch".to_string());
    assert_eq!(
        d.generate_function(&pure_fn(1), "e"),
        Err(ConfigError::VariadicBatchFunction)
    );
}

#[test]
fn sink_needs_text_or_binary_result() {
    let mut u = pure_fn(1);
    u.write = true;
    u.return_type_kind = ReturnShape::Fallible;
    for ret in ["varchar", "bytea"] {
        let p = attr(&["int"], ret).generate_function(&u, "e").unwrap();
        match p.evaluation {
            Evaluation::Rows { output, .. } => assert_eq!(output, RowOutput::Writer),
            other => panic!("{:?}", other),
        }
        assert!(p.call.writer);
    }
    for ret in ["int", "json", "varchar[]", "struct<a:varchar>"] {
        assert_eq!(
            attr(&["int"], ret).generate_function(&u, "e"),
            Err(ConfigError::WriterNeedsTextOrBinary)
        );
    }
}

#[test]
fn first_malformed_argument_is_reported() {
    assert_eq!(
        attr(&["int", "integer", "nope"], "int").generate_function(&pure_fn(3), "e"),
        Err(ConfigError::MalformedArgument(1))
    );
    assert_eq!(
        attr(&["any", "int"], "int").generate_function(&pure_fn(2), "e"),
        Err(ConfigError::MalformedArgument(0))
    );
    assert_eq!(
        attr(&["int", "...", "int"], "int").generate_function(&pure_fn(3), "e"),
        Err(ConfigError::MalformedArgument(1))
    );
    assert_eq!(
        attr(&["int", "*int"], "int").generate_function(&pure_fn(2), "e"),
        Err(ConfigError::MalformedArgument(1))
    );
}

#[test]
fn malformed_result_is_reported_after_arguments() {
    assert_eq!(
        attr(&["int"], "anyarray").generate_function(&pure_fn(1), "e"),
        Err(ConfigError::MalformedReturn)
    );
    assert_eq!(
        attr(&["int"], "").generate_function(&pure_fn(1), "e"),
        Err(ConfigError::MalformedReturn)
    );
    assert_eq!(
        attr(&["bad"], "bad").generate_function(&pure_fn(1), "e"),
        Err(ConfigError::MalformedArgument(0))
    );
}

#[test]
fn user_function_with_too_few_arguments_is_refused() {
    assert_eq!(
        attr(&["int", "int"], "int").generate_function(&pure_fn(1), "e"),
        Err(ConfigError::MissingArguments)
    );
}

#[test]
fn error_column_only_where_failure_is_possible() {
    let d = attr(&["int"], "varchar");
    let p = d.generate_function(&pure_fn(1), "e").unwrap();
    assert!(!p.has_error);
    assert_eq!(
        p.schema(),
        vec![Field {
            name: "f".to_string(),
            data_type: DataType::Plain(PhysicalType::Utf8),
            nullable: true
        }]
    );
    let mut u = pure_fn(1);
    u.return_type_kind = ReturnShape::Fallible;
    let p = d.generate_function(&u, "e").unwrap();
    assert!(p.has_error);
    assert_eq!(
        p.schema(),
        vec![
            Field {
                name: "f".to_string(),
                data_type: DataType::Plain(PhysicalType::Utf8),
                nullable: true
            },
            Field {
                name: "error".to_string(),
                data_type: DataType::Plain(PhysicalType::Utf8),
                nullable: true
            },
        ]
    );
}

#[test]
fn table_schema_starts_with_row_index() {
    let mut d = attr(&["int"], "bigint");
    d.is_table_function = true;
    let mut u = pure_fn(1);
    u.iterator_item_kind = Some(ReturnShape::Value);
    let p = d.generate_function(&u, "e").unwrap();
    assert_eq!(
        p.schema(),
        vec![
            Field {
                name: "row".to_string(),
                data_type: DataType::Plain(PhysicalType::Int32),
                nullable: true
            },
            Field {
                name: "f".to_string(),
                data_type: DataType::Plain(PhysicalType::Int64),
                nullable: true
            },
        ]
    );
    u.iterator_item_kind = Some(ReturnShape::FallibleOptional);
    assert_eq!(d.generate_function(&u, "e").unwrap().schema().len(), 3);
}

#[test]
fn purity_and_fallibility_of_user_functions() {
    assert!(pure_fn(2).is_pure());
    assert!(!pure_fn(2).has_error());
    let mut u = pure_fn(0);
    u.write = true;
    assert!(!u.is_pure());
    let mut u = pure_fn(0);
    u.iterator_item_kind = Some(ReturnShape::Fallible);
    assert!(u.is_pure());
    assert!(u.has_error());
    let mut u = pure_fn(0);
    u.return_type_kind = ReturnShape::FallibleOptional;
    assert!(u.has_error());
    assert!(ReturnShape::Fallible.is_result() && !ReturnShape::Fallible.is_option());
    assert!(ReturnShape::Optional.is_option() && !ReturnShape::Optional.is_result());
    assert!(!ReturnShape::Value.is_option() && !ReturnShape::Value.is_result());
}

#[test]
fn sink_and_variadic_clash_are_refused_on_every_path() {
    let mut u = pure_fn(1);
    u.write = true;
    u.iterator_item_kind = Some(ReturnShape::Value);
    let mut table = attr(&["int"], "int");
    table.is_table_function = true;
    assert_eq!(table.generate_function(&u, "e"), Err(ConfigError::WriterNeedsTextOrBinary));
    let mut batch = attr(&["int"], "int");
    batch.batch_fn = Some("b".to_string());
    assert_eq!(batch.generate_function(&u, "e"), Err(ConfigError::WriterNeedsTextOrBinary));
    let mut table = attr(&["int"], "varchar");
    table.is_table_function = true;
    assert!(table.generate_function(&u, "e").is_ok());
    let mut both = attr(&["int", "..."], "int");
    both.is_table_function = true;
    both.batch_fn = Some("b".to_string());
    assert_eq!(both.generate_function(&u, "e"), Err(ConfigError::VariadicBatchFunction));
    let mut no_shape = attr(&["int", "..."], "int");
    no_shape.is_table_function = true;
    no_shape.batch_fn = Some("b".to_string());
    assert_eq!(
        no_shape.generate_function(&pure_fn(1), "e"),
        Err(ConfigError::MissingItemShape)
    );
}

#[test]
fn skipped_rows_pad_the_error_column_of_scalar_functions_only() {
    let d = attr(&["int"], "int");
    assert!(!d.generate_function(&pure_fn(1), "e").unwrap().pads_error_on_skip());
    let mut u = pure_fn(1);
    u.return_type_kind = ReturnShape::Fallible;
    assert!(d.generate_function(&u, "e").unwrap().pads_error_on_skip());
    let mut t = attr(&["int"], "int");
    t.is_table_function = true;
    u.iterator_item_kind = Some(ReturnShape::Value);
    assert!(!t.generate_function(&u, "e").unwrap().pads_error_on_skip());
}
