use udf_binding::datatype::{data_type, fields, sig_data_type, DataType, Field, SigDataType};
use udf_binding::grammar::parse_type;
use udf_binding::planner::{
    builder, gen_append, gen_append_null, gen_append_value, transform_input, AppendNull,
    AppendPlan, AppendValue, BuilderPlan, DataCapacity, FieldAppend, FieldNull, InputTransform,
};
use udf_binding::types::{ArrayKind, LogicalType, PhysicalType};

fn ty(name: &str) -> LogicalType {
    parse_type(name).unwrap()
}

fn plain(p: PhysicalType) -> DataType {
    DataType::Plain(p)
}

fn member(name: &str, d: DataType) -> Field {
    Field { name: name.to_string(), data_type: d, nullable: true }
}

#[test]
fn text_and_binary_builders_reserve_bytes() {
    assert_eq!(
        builder(&ty("varchar")),
        Some(BuilderPlan::Bytes(PhysicalType::Utf8, DataCapacity::Fixed(1024)))
    );
    assert_eq!(
        builder(&ty("bytea")),
        Some(BuilderPlan::Bytes(PhysicalType::Binary, DataCapacity::Fixed(1024)))
    );
    assert_eq!(
        builder(&ty("decimal")),
        Some(BuilderPlan::Bytes(PhysicalType::LargeUtf8, DataCapacity::PerRow(8)))
    );
    assert_eq!(
        builder(&ty("json")),
        Some(BuilderPlan::Bytes(PhysicalType::LargeUtf8, DataCapacity::PerRow(8)))
    );
}

#[test]
fn other_scalars_map_to_their_own_builder() {
    assert_eq!(builder(&ty("int")), Some(BuilderPlan::Values(PhysicalType::Int32)));
    assert_eq!(builder(&ty("boolean")), Some(BuilderPlan::Values(PhysicalType::Boolean)));
    assert_eq!(builder(&ty("void")), Some(BuilderPlan::Values(PhysicalType::Null)));
    assert_eq!(
        builder(&ty("interval")),
        Some(BuilderPlan::Values(PhysicalType::IntervalMonthDayNano))
    );
    assert_eq!(
        builder(&ty("time")),
        Some(BuilderPlan::Values(PhysicalType::Time64Microsecond))
    );
}

#[test]
fn list_builder_wraps_element_builder() {
    assert_eq!(
        builder(&ty("varchar[][]")),
        Some(BuilderPlan::List(Box::new(BuilderPlan::List(Box::new(BuilderPlan::Bytes(
            PhysicalType::Utf8,
            DataCapacity::Fixed(1024)
        ))))))
    );
}

#[test]
fn struct_builder_has_one_child_per_field() {
    assert_eq!(
        builder(&ty("struct<x:int,y:struct<z:date>,w:int[]>")),
        Some(BuilderPlan::Struct(vec![
            member("x", plain(PhysicalType::Int32)),
            member("y", DataType::Struct(vec![member("z", plain(PhysicalType::Date32))])),
            member("w", DataType::List(Box::new(plain(PhysicalType::Int32)))),
        ]))
    );
}

#[test]
fn planners_refuse_types_that_are_not_concrete() {
    for name in ["any", "anyarray", "struct", "...", "any[]", "struct<a:any>"] {
        let t = ty(name);
        assert_eq!(builder(&t), None, "{}", name);
        assert_eq!(gen_append_value(&t), None, "{}", name);
        assert_eq!(gen_append_null(&t), None, "{}", name);
        assert_eq!(gen_append(&t), None, "{}", name);
        assert_eq!(data_type(&t), None, "{}", name);
    }
}

#[test]
fn append_value_converts_by_type() {
    assert_eq!(gen_append_value(&ty("decimal")), Some(AppendValue::FormatText));
    assert_eq!(gen_append_value(&ty("json")), Some(AppendValue::FormatText));
    assert_eq!(gen_append_value(&ty("date")), Some(AppendValue::DateToDays));
    assert_eq!(gen_append_value(&ty("time")), Some(AppendValue::TimeToMicros));
    assert_eq!(gen_append_value(&ty("timestamp")), Some(AppendValue::TimestampToMicros));
    assert_eq!(gen_append_value(&ty("interval")), Some(AppendValue::IntervalToParts));
    assert_eq!(gen_append_value(&ty("void")), Some(AppendValue::Placeholder));
    assert_eq!(gen_append_value(&ty("int")), Some(AppendValue::Direct));
    assert_eq!(gen_append_value(&ty("varchar")), Some(AppendValue::Direct));
    assert_eq!(gen_append_value(&ty("int[]")), Some(AppendValue::Direct));
}

#[test]
fn append_value_of_struct_recurses_into_members() {
    assert_eq!(
        gen_append_value(&ty("struct<x:int,y:date,z:struct<a:json>>")),
        Some(AppendValue::Struct(vec![
            FieldAppend {
                index: 0,
                builder: ArrayKind::Plain(PhysicalType::Int32),
                append: AppendValue::Direct
            },
            FieldAppend {
                index: 1,
                builder: ArrayKind::Plain(PhysicalType::Date32),
                append: AppendValue::DateToDays
            },
            FieldAppend {
                index: 2,
                builder: ArrayKind::Struct,
                append: AppendValue::Struct(vec![FieldAppend {
                    index: 0,
                    builder: ArrayKind::Plain(PhysicalType::LargeUtf8),
                    append: AppendValue::FormatText
                }])
            },
        ]))
    );
}

#[test]
fn append_null_of_struct_reaches_every_member() {
    assert_eq!(gen_append_null(&ty("int")), Some(AppendNull::Direct));
    assert_eq!(gen_append_null(&ty("int[]")), Some(AppendNull::Direct));
    assert_eq!(
        gen_append_null(&ty("struct<x:int,y:struct<a:int,b:varchar>>")),
        Some(AppendNull::Struct(vec![
            FieldNull {
                index: 0,
                builder: ArrayKind::Plain(PhysicalType::Int32),
                append: AppendNull::Direct
            },
            FieldNull {
                index: 1,
                builder: ArrayKind::Struct,
                append: AppendNull::Struct(vec![
                    FieldNull {
                        index: 0,
                        builder: ArrayKind::Plain(PhysicalType::Int32),
                        append: AppendNull::Direct
                    },
                    FieldNull {
                        index: 1,
                        builder: ArrayKind::Plain(PhysicalType::Utf8),
                        append: AppendNull::Direct
                    },
                ])
            },
        ]))
    );
}

#[test]
fn append_plan_wraps_items_of_lists_only() {
    assert_eq!(
        gen_append(&ty("int[]")),
        Some(AppendPlan { wrap_items: true, value: AppendValue::Direct, null: AppendNull::Direct })
    );
    assert_eq!(
        gen_append(&ty("date")),
        Some(AppendPlan {
            wrap_items: false,
            value: AppendValue::DateToDays,
            null: AppendNull::Direct
        })
    );
}

#[test]
fn inputs_are_transformed_by_type() {
    assert_eq!(transform_input(&ty("decimal")), InputTransform::ParseDecimal);
    assert_eq!(transform_input(&ty("date")), InputTransform::DateFromDays);
    assert_eq!(transform_input(&ty("time")), InputTransform::TimeFromMicros);
    assert_eq!(transform_input(&ty("timestamp")), InputTransform::TimestampFromMicros);
    assert_eq!(transform_input(&ty("interval")), InputTransform::IntervalFromParts);
    assert_eq!(transform_input(&ty("json")), InputTransform::ParseJson);
    assert_eq!(
        transform_input(&ty("smallint[]")),
        InputTransform::PrimitiveSlice(PhysicalType::Int16)
    );
    assert_eq!(
        transform_input(&ty("float[]")),
        InputTransform::PrimitiveSlice(PhysicalType::Float64)
    );
    assert_eq!(transform_input(&ty("varchar[]")), InputTransform::Direct);
    assert_eq!(transform_input(&ty("int[][]")), InputTransform::Direct);
    assert_eq!(transform_input(&ty("int")), InputTransform::Direct);
    assert_eq!(transform_input(&ty("struct<a:date>")), InputTransform::Direct);
}

#[test]
fn data_type_follows_the_structure() {
    assert_eq!(data_type(&ty("bigint")), Some(plain(PhysicalType::Int64)));
    assert_eq!(
        data_type(&ty("struct<a:real[],b:bytea>")),
        Some(DataType::Struct(vec![
            member("a", DataType::List(Box::new(plain(PhysicalType::Float32)))),
            member("b", plain(PhysicalType::Binary)),
        ]))
    );
    let members = match ty("struct<a:int,b:any>") {
        LogicalType::Struct(fs) => fs,
        _ => unreachable!(),
    };
    assert_eq!(fields(&members), None);
    let members = match ty("struct<a:int>") {
        LogicalType::Struct(fs) => fs,
        _ => unreachable!(),
    };
    assert_eq!(fields(&members), Some(vec![member("a", plain(PhysicalType::Int32))]));
}

#[test]
fn catalog_type_keeps_wildcard_classes() {
    assert_eq!(sig_data_type(&ty("any")), Some(SigDataType::Any));
    assert_eq!(sig_data_type(&ty("anyarray")), Some(SigDataType::AnyArray));
    assert_eq!(sig_data_type(&ty("struct")), Some(SigDataType::AnyStruct));
    assert_eq!(
        sig_data_type(&ty("int")),
        Some(SigDataType::Exact(plain(PhysicalType::Int32)))
    );
    assert_eq!(sig_data_type(&ty("any[]")), None);
    assert_eq!(sig_data_type(&ty("...")), None);
}
