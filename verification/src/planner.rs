//! Plans for building output columns and for reading input values.
//!
//! For a concrete logical type the planner chooses the column builder, the
//! steps that append a value or a null to it, and the step that turns a
//! stored input value into the value the user function takes.
use crate::datatype::{fields, fields_data, stored_as, stored_field, DataModel, Field};
use crate::datatype::lemma_stored_iff_concrete;
use crate::types::{ArrayKind, LogicalType, PhysicalType, ScalarType, TypeModel};
use vstd::prelude::*;

verus! {

/// The bytes that a builder of variable-width values reserves for them.
#[derive(Clone, Copy, PartialEq, Eq, Structural, Debug)]
pub enum DataCapacity {
    /// A fixed number of bytes.
    Fixed(usize),
    /// A number of bytes for each row of the input.
    PerRow(usize),
}

/// The column builder for a type. Every builder reserves one slot per row of
/// the input.
#[derive(Debug, PartialEq, Eq)]
pub enum BuilderPlan {
    /// A builder of fixed-width values of one physical type.
    Values(PhysicalType),
    /// A builder of variable-width values of one physical type.
    Bytes(PhysicalType, DataCapacity),
    /// A list builder around the builder of its elements.
    List(Box<BuilderPlan>),
    /// A composite builder with one child builder per field.
    Struct(Vec<Field>),
}

/// The steps that append a present value.
#[derive(Debug, PartialEq, Eq)]
pub enum AppendValue {
    /// Append each member to its child builder, then mark the entry present.
    Struct(Vec<FieldAppend>),
    /// Write the value's display text into the builder.
    FormatText,
    /// Append the date as days since the epoch.
    DateToDays,
    /// Append the time of day as microseconds.
    TimeToMicros,
    /// Append the timestamp as microseconds since the epoch.
    TimestampToMicros,
    /// Append the interval as its months, days and nanoseconds, packed.
    IntervalToParts,
    /// Append an entry that holds no value.
    Placeholder,
    /// Append the value as it is.
    Direct,
}

/// The steps for one member of a struct value.
#[derive(Debug, PartialEq, Eq)]
pub struct FieldAppend {
    /// The member's position in the struct.
    pub index: usize,
    /// The class of the member's child builder.
    pub builder: ArrayKind,
    /// The steps that append the member.
    pub append: AppendValue,
}

/// The steps that append a null.
#[derive(Debug, PartialEq, Eq)]
pub enum AppendNull {
    /// Append a null to each child builder, then mark the entry absent.
    Struct(Vec<FieldNull>),
    /// Append a null.
    Direct,
}

/// The steps for one member of a null struct.
#[derive(Debug, PartialEq, Eq)]
pub struct FieldNull {
    /// The member's position in the struct.
    pub index: usize,
    /// The class of the member's child builder.
    pub builder: ArrayKind,
    /// The steps that append a null to the member's child builder.
    pub append: AppendNull,
}

/// The steps that append an optional value.
#[derive(Debug, PartialEq, Eq)]
pub struct AppendPlan {
    /// Whether the value is a sequence of elements, each of which is wrapped
    /// as present before it is appended.
    pub wrap_items: bool,
    /// The steps for a present value.
    pub value: AppendValue,
    /// The steps for an absent value.
    pub null: AppendNull,
}

/// The step that turns a stored input value into the value a user function
/// takes.
#[derive(Clone, Copy, PartialEq, Eq, Structural, Debug)]
pub enum InputTransform {
    /// Hand the stored value over as it is.
    Direct,
    /// Parse the stored text as a decimal number.
    ParseDecimal,
    /// Read days since the epoch as a date.
    DateFromDays,
    /// Read microseconds as a time of day.
    TimeFromMicros,
    /// Read microseconds since the epoch as a timestamp.
    TimestampFromMicros,
    /// Unpack months, days and nanoseconds into an interval.
    IntervalFromParts,
    /// Parse the stored text as a document.
    ParseJson,
    /// Hand a list of primitives over as a slice of the stored values, read
    /// from an array of the given type.
    PrimitiveSlice(PhysicalType),
}

/// Whether `p` is the builder for the type `t`.
pub open spec fn builds(t: TypeModel, p: BuilderPlan) -> bool
    decreases p,
{
    match t {
        TypeModel::Scalar(ScalarType::Varchar) => p == BuilderPlan::Bytes(
            PhysicalType::Utf8,
            DataCapacity::Fixed(1024),
        ),
        TypeModel::Scalar(ScalarType::Bytea) => p == BuilderPlan::Bytes(
            PhysicalType::Binary,
            DataCapacity::Fixed(1024),
        ),
        TypeModel::Scalar(ScalarType::Decimal) => p == BuilderPlan::Bytes(
            PhysicalType::LargeUtf8,
            DataCapacity::PerRow(8),
        ),
        TypeModel::Scalar(ScalarType::Json) => p == BuilderPlan::Bytes(
            PhysicalType::LargeUtf8,
            DataCapacity::PerRow(8),
        ),
        TypeModel::Scalar(s) => p == BuilderPlan::Values(s.spec_physical()),
        TypeModel::List(e) => match p {
            BuilderPlan::List(q) => builds(*e, *q),
            _ => false,
        },
        TypeModel::Struct(_) => match p {
            BuilderPlan::Struct(fs) => stored_as(t) == Some(DataModel::Struct(fields_data(fs@))),
            _ => false,
        },
        _ => false,
    }
}

/// Whether `p` appends a present value of the type `t`.
pub open spec fn appends_value(t: TypeModel, p: AppendValue) -> bool
    decreases p,
{
    match t {
        TypeModel::Struct(fs) => match p {
            AppendValue::Struct(items) => items@.len() == fs.len() && forall|i: int|
                0 <= i < fs.len() ==> {
                    &&& (#[trigger] items@[i]).index == i
                    &&& Some(items@[i].builder) == fs[i].ty.array_kind()
                    &&& appends_value(fs[i].ty, items@[i].append)
                },
            _ => false,
        },
        TypeModel::Scalar(ScalarType::Decimal) | TypeModel::Scalar(ScalarType::Json) => p
            is FormatText,
        TypeModel::Scalar(ScalarType::Date) => p is DateToDays,
        TypeModel::Scalar(ScalarType::Time) => p is TimeToMicros,
        TypeModel::Scalar(ScalarType::Timestamp) => p is TimestampToMicros,
        TypeModel::Scalar(ScalarType::Interval) => p is IntervalToParts,
        TypeModel::Scalar(ScalarType::Void) => p is Placeholder,
        TypeModel::Scalar(_) => p is Direct,
        TypeModel::List(e) => p is Direct && e.is_concrete(),
        _ => false,
    }
}

/// Whether `p` appends a null of the type `t`: for a struct, a null to the
/// child builder of every member, in order; for any other type, one null.
pub open spec fn appends_null(t: TypeModel, p: AppendNull) -> bool
    decreases p,
{
    match t {
        TypeModel::Struct(fs) => match p {
            AppendNull::Struct(items) => items@.len() == fs.len() && forall|i: int|
                0 <= i < fs.len() ==> {
                    &&& (#[trigger] items@[i]).index == i
                    &&& Some(items@[i].builder) == fs[i].ty.array_kind()
                    &&& appends_null(fs[i].ty, items@[i].append)
                },
            _ => false,
        },
        _ => p is Direct && t.is_concrete(),
    }
}

/// The step that reads an input of the type `t`.
pub open spec fn input_step(t: TypeModel) -> InputTransform {
    match t {
        TypeModel::Scalar(ScalarType::Decimal) => InputTransform::ParseDecimal,
        TypeModel::Scalar(ScalarType::Date) => InputTransform::DateFromDays,
        TypeModel::Scalar(ScalarType::Time) => InputTransform::TimeFromMicros,
        TypeModel::Scalar(ScalarType::Timestamp) => InputTransform::TimestampFromMicros,
        TypeModel::Scalar(ScalarType::Interval) => InputTransform::IntervalFromParts,
        TypeModel::Scalar(ScalarType::Json) => InputTransform::ParseJson,
        TypeModel::List(e) => match *e {
            TypeModel::Scalar(s) => if s.spec_is_primitive() {
                InputTransform::PrimitiveSlice(s.spec_physical())
            } else {
                InputTransform::Direct
            },
            _ => InputTransform::Direct,
        },
        _ => InputTransform::Direct,
    }
}

/// The builder for `ty`.
///
/// Returns `None` exactly when `ty` is not concrete.
pub fn builder(ty: &LogicalType) -> (r: Option<BuilderPlan>)
    ensures
        r is Some <==> ty@.is_concrete(),
        r is Some ==> builds(ty@, r->0),
    decreases ty,
{
    proof {
        lemma_stored_iff_concrete(ty@);
    }
    match ty {
        LogicalType::Scalar(ScalarType::Varchar) => Some(
            BuilderPlan::Bytes(PhysicalType::Utf8, DataCapacity::Fixed(1024)),
        ),
        LogicalType::Scalar(ScalarType::Bytea) => Some(
            BuilderPlan::Bytes(PhysicalType::Binary, DataCapacity::Fixed(1024)),
        ),
        LogicalType::Scalar(ScalarType::Decimal) => Some(
            BuilderPlan::Bytes(PhysicalType::LargeUtf8, DataCapacity::PerRow(8)),
        ),
        LogicalType::Scalar(ScalarType::Json) => Some(
            BuilderPlan::Bytes(PhysicalType::LargeUtf8, DataCapacity::PerRow(8)),
        ),
        LogicalType::Scalar(s) => Some(BuilderPlan::Values(s.physical())),
        LogicalType::List(e) => match builder(e) {
            Some(q) => Some(BuilderPlan::List(Box::new(q))),
            None => None,
        },
        LogicalType::Struct(fs) => match fields(fs) {
            Some(out) => {
                proof {
                    let ms = ty@->Struct_0;
                    assert forall|i: int| 0 <= i < ms.len() implies stored_field(
                        #[trigger] ms[i],
                    ) is Some by {
                        assert(ms[i] == fs@[i]@);
                    }
                    assert(stored_as(ty@)->0->Struct_0 =~= fields_data(out@)) by {
                        assert forall|i: int| 0 <= i < ms.len() implies fields_data(out@)[i]
                            == stored_field(ms[i])->0 by {
                            assert(ms[i] == fs@[i]@);
                        }
                    }
                }
                Some(BuilderPlan::Struct(out))
            },
            None => {
                proof {
                    let ms = ty@->Struct_0;
                    let k = choose|k: int|
                        0 <= k < fs@.len() && stored_field(#[trigger] fs@[k]@)
                            is None;
                    assert(ms[k] == fs@[k]@);
                }
                None
            },
        },
        _ => None,
    }
}

/// The steps that append a present value of the type `ty`.
///
/// Returns `None` exactly when `ty` is not concrete.
pub fn gen_append_value(ty: &LogicalType) -> (r: Option<AppendValue>)
    ensures
        r is Some <==> ty@.is_concrete(),
        r is Some ==> appends_value(ty@, r->0),
    decreases ty,
{
    match ty {
        LogicalType::Struct(fs) => {
            let mut items: Vec<FieldAppend> = Vec::new();
            let mut i: usize = 0;
            while i < fs.len()
                invariant
                    i <= fs.len(),
                    ty is Struct,
                    ty->Struct_0 == *fs,
                    items@.len() == i,
                    forall|j: int|
                        0 <= j < i ==> {
                            &&& (#[trigger] items@[j]).index == j
                            &&& Some(items@[j].builder) == fs@[j]@.ty.array_kind()
                            &&& appends_value(fs@[j]@.ty, items@[j].append)
                            &&& fs@[j]@.ty.is_concrete()
                        },
                decreases fs.len() - i,
            {
                proof {
                    assert(decreases_to!(*ty => ty->Struct_0));
                    assert(decreases_to!(*fs => fs@));
                    assert(decreases_to!(fs@ => fs@[i as int]));
                    assert(ty@->Struct_0[i as int] == fs@[i as int]@);
                }
                let kind = fs[i].ty.array_kind();
                let append = gen_append_value(&fs[i].ty);
                match (kind, append) {
                    (Some(builder), Some(append)) => {
                        items.push(FieldAppend { index: i, builder, append });
                    },
                    _ => {
                        return None;
                    },
                }
                i += 1;
            }
            proof {
                let ms = ty@->Struct_0;
                assert forall|j: int| 0 <= j < ms.len() implies {
                    &&& (#[trigger] items@[j]).index == j
                    &&& Some(items@[j].builder) == ms[j].ty.array_kind()
                    &&& appends_value(ms[j].ty, items@[j].append)
                } by {
                    assert(ms[j] == fs@[j]@);
                }
                assert forall|j: int| 0 <= j < ms.len() implies (#[trigger] ms[j]).ty.is_concrete() by {
                    assert(ms[j] == fs@[j]@);
                    assert(items@[j].index == j);
                }
            }
            Some(AppendValue::Struct(items))
        },
        LogicalType::Scalar(ScalarType::Decimal) | LogicalType::Scalar(ScalarType::Json) => Some(
            AppendValue::FormatText,
        ),
        LogicalType::Scalar(ScalarType::Date) => Some(AppendValue::DateToDays),
        LogicalType::Scalar(ScalarType::Time) => Some(AppendValue::TimeToMicros),
        LogicalType::Scalar(ScalarType::Timestamp) => Some(AppendValue::TimestampToMicros),
        LogicalType::Scalar(ScalarType::Interval) => Some(AppendValue::IntervalToParts),
        LogicalType::Scalar(ScalarType::Void) => Some(AppendValue::Placeholder),
        LogicalType::Scalar(_) => Some(AppendValue::Direct),
        LogicalType::List(e) => if e.is_concrete() {
            Some(AppendValue::Direct)
        } else {
            None
        },
        _ => None,
    }
}

/// The steps that append a null of the type `ty`.
///
/// Returns `None` exactly when `ty` is not concrete.
pub fn gen_append_null(ty: &LogicalType) -> (r: Option<AppendNull>)
    ensures
        r is Some <==> ty@.is_concrete(),
        r is Some ==> appends_null(ty@, r->0),
    decreases ty,
{
    match ty {
        LogicalType::Struct(fs) => {
            let mut items: Vec<FieldNull> = Vec::new();
            let mut i: usize = 0;
            while i < fs.len()
                invariant
                    i <= fs.len(),
                    ty is Struct,
                    ty->Struct_0 == *fs,
                    items@.len() == i,
                    forall|j: int|
                        0 <= j < i ==> {
                            &&& (#[trigger] items@[j]).index == j
                            &&& Some(items@[j].builder) == fs@[j]@.ty.array_kind()
                            &&& appends_null(fs@[j]@.ty, items@[j].append)
                            &&& fs@[j]@.ty.is_concrete()
                        },
                decreases fs.len() - i,
            {
                proof {
                    assert(decreases_to!(*ty => ty->Struct_0));
                    assert(decreases_to!(*fs => fs@));
                    assert(decreases_to!(fs@ => fs@[i as int]));
                    assert(ty@->Struct_0[i as int] == fs@[i as int]@);
                }
                let kind = fs[i].ty.array_kind();
                let append = gen_append_null(&fs[i].ty);
                match (kind, append) {
                    (Some(builder), Some(append)) => {
                        items.push(FieldNull { index: i, builder, append });
                    },
                    _ => {
                        return None;
                    },
                }
                i += 1;
            }
            proof {
                let ms = ty@->Struct_0;
                assert forall|j: int| 0 <= j < ms.len() implies {
                    &&& (#[trigger] items@[j]).index == j
                    &&& Some(items@[j].builder) == ms[j].ty.array_kind()
                    &&& appends_null(ms[j].ty, items@[j].append)
                } by {
                    assert(ms[j] == fs@[j]@);
                }
                assert forall|j: int| 0 <= j < ms.len() implies (#[trigger] ms[j]).ty.is_concrete() by {
                    assert(ms[j] == fs@[j]@);
                    assert(items@[j].index == j);
                }
            }
            Some(AppendNull::Struct(items))
        },
        _ => if ty.is_concrete() {
            Some(AppendNull::Direct)
        } else {
            None
        },
    }
}

/// The steps that append an optional value of the type `ty`: those for a
/// present value, those for a null, and whether the elements of the value are
/// wrapped first, which holds for a list.
///
/// Returns `None` exactly when `ty` is not concrete.
pub fn gen_append(ty: &LogicalType) -> (r: Option<AppendPlan>)
    ensures
        r is Some <==> ty@.is_concrete(),
        r is Some ==> {
            &&& r->0.wrap_items == (ty@ is List)
            &&& appends_value(ty@, r->0.value)
            &&& appends_null(ty@, r->0.null)
        },
{
    let value = gen_append_value(ty);
    let null = gen_append_null(ty);
    let wrap_items = match ty {
        LogicalType::List(_) => true,
        _ => false,
    };
    match (value, null) {
        (Some(value), Some(null)) => Some(AppendPlan { wrap_items, value, null }),
        _ => None,
    }
}

/// The step that reads an input of the type `ty`.
pub fn transform_input(ty: &LogicalType) -> (r: InputTransform)
    ensures
        r == input_step(ty@),
{
    proof {
        reveal_with_fuel(crate::types::type_model, 2);
    }
    match ty {
        LogicalType::Scalar(ScalarType::Decimal) => InputTransform::ParseDecimal,
        LogicalType::Scalar(ScalarType::Date) => InputTransform::DateFromDays,
        LogicalType::Scalar(ScalarType::Time) => InputTransform::TimeFromMicros,
        LogicalType::Scalar(ScalarType::Timestamp) => InputTransform::TimestampFromMicros,
        LogicalType::Scalar(ScalarType::Interval) => InputTransform::IntervalFromParts,
        LogicalType::Scalar(ScalarType::Json) => InputTransform::ParseJson,
        LogicalType::List(e) => match &**e {
            LogicalType::Scalar(s) => if s.is_primitive() {
                InputTransform::PrimitiveSlice(s.physical())
            } else {
                InputTransform::Direct
            },
            _ => InputTransform::Direct,
        },
        _ => InputTransform::Direct,
    }
}

} // verus!
