//! The logical type vocabulary and its mapping onto physical storage.
use vstd::prelude::*;

verus! {

/// A concrete scalar type of the vocabulary.
#[derive(Clone, Copy, PartialEq, Eq, Structural, Debug, Hash)]
pub enum ScalarType {
    Void,
    Boolean,
    SmallInt,
    Int,
    BigInt,
    Real,
    Float,
    Decimal,
    Date,
    Time,
    Timestamp,
    Interval,
    Json,
    Varchar,
    Bytea,
}

/// A physical storage type without members of its own.
#[derive(Clone, Copy, PartialEq, Eq, Structural, Debug, Hash)]
pub enum PhysicalType {
    Null,
    Boolean,
    Int16,
    Int32,
    Int64,
    Float32,
    Float64,
    Date32,
    Time64Microsecond,
    TimestampMicrosecond,
    IntervalMonthDayNano,
    LargeUtf8,
    Utf8,
    Binary,
}

/// The class of column that stores values of a type: what an input column is
/// downcast to, and what a builder produces.
#[derive(Clone, Copy, PartialEq, Eq, Structural, Debug, Hash)]
pub enum ArrayKind {
    Plain(PhysicalType),
    List,
    Struct,
}

/// A named member of a struct type.
#[derive(Debug, PartialEq, Eq)]
pub struct StructField {
    pub name: String,
    pub ty: LogicalType,
}

/// A parsed logical type.
///
/// `Any`, `AnyArray` and `AnyStruct` stand for every type of the respective
/// shape and are resolved by type inference; `Variadic` marks trailing
/// arguments.
#[derive(Debug, PartialEq, Eq)]
pub enum LogicalType {
    Scalar(ScalarType),
    List(Box<LogicalType>),
    Struct(Vec<StructField>),
    Any,
    AnyArray,
    AnyStruct,
    Variadic,
}

/// The mathematical value of a [`StructField`].
pub struct FieldModel {
    pub name: Seq<char>,
    pub ty: TypeModel,
}

/// The mathematical value of a [`LogicalType`].
pub enum TypeModel {
    Scalar(ScalarType),
    List(Box<TypeModel>),
    Struct(Seq<FieldModel>),
    Any,
    AnyArray,
    AnyStruct,
    Variadic,
}

impl View for StructField {
    type V = FieldModel;

    open spec fn view(&self) -> FieldModel {
        field_model(*self)
    }
}

impl View for LogicalType {
    type V = TypeModel;

    open spec fn view(&self) -> TypeModel {
        type_model(*self)
    }
}

/// The model of a field: its name's characters and its type's model.
pub open spec fn field_model(f: StructField) -> FieldModel
    decreases f,
{
    FieldModel { name: f.name@, ty: type_model(f.ty) }
}

/// The model of a type, by structural recursion.
pub open spec fn type_model(ty: LogicalType) -> TypeModel
    decreases ty,
{
    match ty {
        LogicalType::Scalar(s) => TypeModel::Scalar(s),
        LogicalType::List(e) => TypeModel::List(Box::new(type_model(*e))),
        LogicalType::Struct(fs) => TypeModel::Struct(
            Seq::new(
                fs@.len(),
                |i: int|
                    if 0 <= i < fs@.len() {
                        field_model(fs@[i])
                    } else {
                        arbitrary()
                    },
            ),
        ),
        LogicalType::Any => TypeModel::Any,
        LogicalType::AnyArray => TypeModel::AnyArray,
        LogicalType::AnyStruct => TypeModel::AnyStruct,
        LogicalType::Variadic => TypeModel::Variadic,
    }
}

/// The models of a list of fields, in order.
pub open spec fn fields_model(fs: Seq<StructField>) -> Seq<FieldModel> {
    Seq::new(fs.len(), |i: int| fs[i]@)
}

impl Clone for StructField {
    fn clone(&self) -> (r: Self)
        ensures
            r@ == self@,
        decreases self,
    {
        StructField { name: self.name.clone(), ty: self.ty.clone() }
    }
}

impl Clone for LogicalType {
    fn clone(&self) -> (r: Self)
        ensures
            r@ == self@,
        decreases self,
    {
        match self {
            LogicalType::Scalar(s) => LogicalType::Scalar(*s),
            LogicalType::List(e) => LogicalType::List(Box::new((**e).clone())),
            LogicalType::Struct(fs) => {
                let mut out: Vec<StructField> = Vec::new();
                let mut i: usize = 0;
                while i < fs.len()
                    invariant
                        i <= fs.len(),
                        self->Struct_0 == *fs,
                        self is Struct,
                        out@.len() == i,
                        forall|j: int| 0 <= j < i ==> out@[j]@ == fs@[j]@,
                    decreases fs.len() - i,
                {
                    proof {
                        assert(decreases_to!(*self => self->Struct_0));
                        assert(decreases_to!(*fs => fs@));
                        assert(decreases_to!(fs@ => fs@[i as int]));
                    }
                    let f = fs[i].clone();
                    out.push(f);
                    i += 1;
                }
                let r = LogicalType::Struct(out);
                proof {
                    assert(r@->Struct_0 =~= self@->Struct_0);
                }
                r
            },
            LogicalType::Any => LogicalType::Any,
            LogicalType::AnyArray => LogicalType::AnyArray,
            LogicalType::AnyStruct => LogicalType::AnyStruct,
            LogicalType::Variadic => LogicalType::Variadic,
        }
    }
}

impl ScalarType {
    /// The physical type that stores this scalar.
    pub open spec fn spec_physical(self) -> PhysicalType {
        match self {
            ScalarType::Void => PhysicalType::Null,
            ScalarType::Boolean => PhysicalType::Boolean,
            ScalarType::SmallInt => PhysicalType::Int16,
            ScalarType::Int => PhysicalType::Int32,
            ScalarType::BigInt => PhysicalType::Int64,
            ScalarType::Real => PhysicalType::Float32,
            ScalarType::Float => PhysicalType::Float64,
            ScalarType::Decimal => PhysicalType::LargeUtf8,
            ScalarType::Date => PhysicalType::Date32,
            ScalarType::Time => PhysicalType::Time64Microsecond,
            ScalarType::Timestamp => PhysicalType::TimestampMicrosecond,
            ScalarType::Interval => PhysicalType::IntervalMonthDayNano,
            ScalarType::Json => PhysicalType::LargeUtf8,
            ScalarType::Varchar => PhysicalType::Utf8,
            ScalarType::Bytea => PhysicalType::Binary,
        }
    }

    /// Whether values of this scalar are fixed-width numbers that a
    /// vectorized kernel can take as they are stored.
    pub open spec fn spec_is_primitive(self) -> bool {
        self is SmallInt || self is Int || self is BigInt || self is Real || self is Float
    }

    /// Computes [`Self::spec_physical`].
    pub fn physical(self) -> (r: PhysicalType)
        ensures
            r == self.spec_physical(),
    {
        match self {
            ScalarType::Void => PhysicalType::Null,
            ScalarType::Boolean => PhysicalType::Boolean,
            ScalarType::SmallInt => PhysicalType::Int16,
            ScalarType::Int => PhysicalType::Int32,
            ScalarType::BigInt => PhysicalType::Int64,
            ScalarType::Real => PhysicalType::Float32,
            ScalarType::Float => PhysicalType::Float64,
            ScalarType::Decimal => PhysicalType::LargeUtf8,
            ScalarType::Date => PhysicalType::Date32,
            ScalarType::Time => PhysicalType::Time64Microsecond,
            ScalarType::Timestamp => PhysicalType::TimestampMicrosecond,
            ScalarType::Interval => PhysicalType::IntervalMonthDayNano,
            ScalarType::Json => PhysicalType::LargeUtf8,
            ScalarType::Varchar => PhysicalType::Utf8,
            ScalarType::Bytea => PhysicalType::Binary,
        }
    }

    /// Decides [`Self::spec_is_primitive`].
    pub fn is_primitive(self) -> (r: bool)
        ensures
            r == self.spec_is_primitive(),
    {
        match self {
            ScalarType::SmallInt
            | ScalarType::Int
            | ScalarType::BigInt
            | ScalarType::Real
            | ScalarType::Float => true,
            _ => false,
        }
    }
}

impl TypeModel {
    /// Whether the type is a primitive scalar.
    pub open spec fn is_primitive(self) -> bool {
        match self {
            TypeModel::Scalar(s) => s.spec_is_primitive(),
            _ => false,
        }
    }

    /// The class of column that stores the type; none for a wildcard or the
    /// variadic marker.
    pub open spec fn array_kind(self) -> Option<ArrayKind> {
        match self {
            TypeModel::Scalar(s) => Some(ArrayKind::Plain(s.spec_physical())),
            TypeModel::List(_) => Some(ArrayKind::List),
            TypeModel::Struct(_) => Some(ArrayKind::Struct),
            _ => None,
        }
    }

    /// Whether the type holds no wildcard and no variadic marker, at any depth.
    pub open spec fn is_concrete(self) -> bool
        decreases self,
    {
        match self {
            TypeModel::Scalar(_) => true,
            TypeModel::List(e) => e.is_concrete(),
            TypeModel::Struct(fs) => forall|i: int|
                0 <= i < fs.len() ==> (#[trigger] fs[i]).ty.is_concrete(),
            _ => false,
        }
    }
}

impl LogicalType {
    /// Decides [`TypeModel::is_primitive`].
    pub fn is_primitive(&self) -> (r: bool)
        ensures
            r == self@.is_primitive(),
    {
        match self {
            LogicalType::Scalar(s) => s.is_primitive(),
            _ => false,
        }
    }

    /// Computes [`TypeModel::array_kind`].
    pub fn array_kind(&self) -> (r: Option<ArrayKind>)
        ensures
            r == self@.array_kind(),
    {
        match self {
            LogicalType::Scalar(s) => Some(ArrayKind::Plain(s.physical())),
            LogicalType::List(_) => Some(ArrayKind::List),
            LogicalType::Struct(_) => Some(ArrayKind::Struct),
            _ => None,
        }
    }

    /// Decides [`TypeModel::is_concrete`].
    pub fn is_concrete(&self) -> (r: bool)
        ensures
            r == self@.is_concrete(),
        decreases self,
    {
        match self {
            LogicalType::Scalar(_) => true,
            LogicalType::List(e) => e.is_concrete(),
            LogicalType::Struct(fs) => {
                let mut i: usize = 0;
                while i < fs.len()
                    invariant
                        i <= fs.len(),
                        self is Struct,
                        self->Struct_0 == *fs,
                        forall|j: int| 0 <= j < i ==> (#[trigger] fs@[j])@.ty.is_concrete(),
                    decreases fs.len() - i,
                {
                    proof {
                        assert(decreases_to!(*self => self->Struct_0));
                        assert(decreases_to!(*fs => fs@));
                        assert(decreases_to!(fs@ => fs@[i as int]));
                    }
                    if !fs[i].ty.is_concrete() {
                        proof {
                            assert(self@->Struct_0[i as int] == fs@[i as int]@);
                        }
                        return false;
                    }
                    i += 1;
                }
                proof {
                    assert forall|j: int| 0 <= j < self@->Struct_0.len() implies (
                    #[trigger] self@->Struct_0[j]).ty.is_concrete() by {
                        assert(self@->Struct_0[j] == fs@[j]@);
                    }
                }
                true
            },
            _ => false,
        }
    }
}

impl PhysicalType {
    /// The name of the physical type as a data type.
    pub open spec fn spec_data_type_name(self) -> Seq<char> {
        match self {
            PhysicalType::Null => "Null"@,
            PhysicalType::Boolean => "Boolean"@,
            PhysicalType::Int16 => "Int16"@,
            PhysicalType::Int32 => "Int32"@,
            PhysicalType::Int64 => "Int64"@,
            PhysicalType::Float32 => "Float32"@,
            PhysicalType::Float64 => "Float64"@,
            PhysicalType::Date32 => "Date32"@,
            PhysicalType::Time64Microsecond => "Time64(TimeUnit::Microsecond)"@,
            PhysicalType::TimestampMicrosecond => "Timestamp(TimeUnit::Microsecond, None)"@,
            PhysicalType::IntervalMonthDayNano => "Interval(IntervalUnit::MonthDayNano)"@,
            PhysicalType::LargeUtf8 => "LargeUtf8"@,
            PhysicalType::Utf8 => "Utf8"@,
            PhysicalType::Binary => "Binary"@,
        }
    }

    /// Computes [`Self::spec_data_type_name`].
    pub fn data_type_name(self) -> (r: &'static str)
        ensures
            r@ == self.spec_data_type_name(),
    {
        match self {
            PhysicalType::Null => "Null",
            PhysicalType::Boolean => "Boolean",
            PhysicalType::Int16 => "Int16",
            PhysicalType::Int32 => "Int32",
            PhysicalType::Int64 => "Int64",
            PhysicalType::Float32 => "Float32",
            PhysicalType::Float64 => "Float64",
            PhysicalType::Date32 => "Date32",
            PhysicalType::Time64Microsecond => "Time64(TimeUnit::Microsecond)",
            PhysicalType::TimestampMicrosecond => "Timestamp(TimeUnit::Microsecond, None)",
            PhysicalType::IntervalMonthDayNano => "Interval(IntervalUnit::MonthDayNano)",
            PhysicalType::LargeUtf8 => "LargeUtf8",
            PhysicalType::Utf8 => "Utf8",
            PhysicalType::Binary => "Binary",
        }
    }
}

impl ArrayKind {
    /// What the names of the array and of the builder of this class start
    /// with.
    pub open spec fn spec_prefix(self) -> Seq<char> {
        match self {
            ArrayKind::List => "List"@,
            ArrayKind::Struct => "Struct"@,
            ArrayKind::Plain(PhysicalType::Null) => "Null"@,
            ArrayKind::Plain(PhysicalType::Boolean) => "Boolean"@,
            ArrayKind::Plain(PhysicalType::Int16) => "Int16"@,
            ArrayKind::Plain(PhysicalType::Int32) => "Int32"@,
            ArrayKind::Plain(PhysicalType::Int64) => "Int64"@,
            ArrayKind::Plain(PhysicalType::Float32) => "Float32"@,
            ArrayKind::Plain(PhysicalType::Float64) => "Float64"@,
            ArrayKind::Plain(PhysicalType::Date32) => "Date32"@,
            ArrayKind::Plain(PhysicalType::Time64Microsecond) => "Time64Microsecond"@,
            ArrayKind::Plain(PhysicalType::TimestampMicrosecond) => "TimestampMicrosecond"@,
            ArrayKind::Plain(PhysicalType::IntervalMonthDayNano) => "IntervalMonthDayNano"@,
            ArrayKind::Plain(PhysicalType::LargeUtf8) => "LargeString"@,
            ArrayKind::Plain(PhysicalType::Utf8) => "String"@,
            ArrayKind::Plain(PhysicalType::Binary) => "Binary"@,
        }
    }

    /// Computes [`Self::spec_prefix`].
    pub fn prefix(self) -> (r: &'static str)
        ensures
            r@ == self.spec_prefix(),
    {
        match self {
            ArrayKind::List => "List",
            ArrayKind::Struct => "Struct",
            ArrayKind::Plain(PhysicalType::Null) => "Null",
            ArrayKind::Plain(PhysicalType::Boolean) => "Boolean",
            ArrayKind::Plain(PhysicalType::Int16) => "Int16",
            ArrayKind::Plain(PhysicalType::Int32) => "Int32",
            ArrayKind::Plain(PhysicalType::Int64) => "Int64",
            ArrayKind::Plain(PhysicalType::Float32) => "Float32",
            ArrayKind::Plain(PhysicalType::Float64) => "Float64",
            ArrayKind::Plain(PhysicalType::Date32) => "Date32",
            ArrayKind::Plain(PhysicalType::Time64Microsecond) => "Time64Microsecond",
            ArrayKind::Plain(PhysicalType::TimestampMicrosecond) => "TimestampMicrosecond",
            ArrayKind::Plain(PhysicalType::IntervalMonthDayNano) => "IntervalMonthDayNano",
            ArrayKind::Plain(PhysicalType::LargeUtf8) => "LargeString",
            ArrayKind::Plain(PhysicalType::Utf8) => "String",
            ArrayKind::Plain(PhysicalType::Binary) => "Binary",
        }
    }

    /// The name of the array type of this class: the prefix and `Array`.
    pub fn array_type(self) -> (r: String)
        ensures
            r@ == self.spec_prefix() + "Array"@,
    {
        let mut name = self.prefix().to_owned();
        name.append("Array");
        name
    }

    /// The name of the builder type of this class: the prefix and `Builder`.
    pub fn array_builder_type(self) -> (r: String)
        ensures
            r@ == self.spec_prefix() + "Builder"@,
    {
        let mut name = self.prefix().to_owned();
        name.append("Builder");
        name
    }
}

} // verus!
