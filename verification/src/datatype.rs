//! Physical data types and the mapping from logical types onto them.
use crate::types::{FieldModel, LogicalType, PhysicalType, StructField, TypeModel};
use vstd::prelude::*;

verus! {

/// A named, nullable member of a physical struct type.
#[derive(Debug, PartialEq, Eq)]
pub struct Field {
    pub name: String,
    pub data_type: DataType,
    pub nullable: bool,
}

/// A physical data type. The element of a list is a nullable field named
/// as [`list_item_name`] says.
#[derive(Debug, PartialEq, Eq)]
pub enum DataType {
    Plain(PhysicalType),
    List(Box<DataType>),
    Struct(Vec<Field>),
}

/// The type of an argument or result as a function catalog sees it: one of
/// the three wildcard classes, or exactly one physical type.
#[derive(Debug, PartialEq, Eq)]
pub enum SigDataType {
    Any,
    AnyArray,
    AnyStruct,
    Exact(DataType),
}

/// The mathematical value of a [`Field`].
pub struct FieldData {
    pub name: Seq<char>,
    pub data_type: DataModel,
    pub nullable: bool,
}

/// The mathematical value of a [`DataType`].
pub enum DataModel {
    Plain(PhysicalType),
    List(Box<DataModel>),
    Struct(Seq<FieldData>),
}

/// The mathematical value of a [`SigDataType`].
pub enum SigModel {
    Any,
    AnyArray,
    AnyStruct,
    Exact(DataModel),
}

/// The model of a physical field.
pub open spec fn field_data(f: Field) -> FieldData
    decreases f,
{
    FieldData { name: f.name@, data_type: data_model(f.data_type), nullable: f.nullable }
}

/// The model of a physical type, by structural recursion.
pub open spec fn data_model(d: DataType) -> DataModel
    decreases d,
{
    match d {
        DataType::Plain(p) => DataModel::Plain(p),
        DataType::List(e) => DataModel::List(Box::new(data_model(*e))),
        DataType::Struct(fs) => DataModel::Struct(
            Seq::new(
                fs@.len(),
                |i: int|
                    if 0 <= i < fs@.len() {
                        field_data(fs@[i])
                    } else {
                        arbitrary()
                    },
            ),
        ),
    }
}

impl View for Field {
    type V = FieldData;

    open spec fn view(&self) -> FieldData {
        field_data(*self)
    }
}

impl View for DataType {
    type V = DataModel;

    open spec fn view(&self) -> DataModel {
        data_model(*self)
    }
}

impl View for SigDataType {
    type V = SigModel;

    open spec fn view(&self) -> SigModel {
        match self {
            SigDataType::Any => SigModel::Any,
            SigDataType::AnyArray => SigModel::AnyArray,
            SigDataType::AnyStruct => SigModel::AnyStruct,
            SigDataType::Exact(d) => SigModel::Exact(d@),
        }
    }
}

/// The name of the field that holds the elements of a list.
pub fn list_item_name() -> (r: &'static str)
    ensures
        r@ == "item"@,
{
    "item"
}

/// The models of a list of physical fields, in order.
pub open spec fn fields_data(fs: Seq<Field>) -> Seq<FieldData> {
    Seq::new(fs.len(), |i: int| fs[i]@)
}

impl Clone for Field {
    fn clone(&self) -> (r: Self)
        ensures
            r@ == self@,
        decreases self,
    {
        Field {
            name: self.name.clone(),
            data_type: self.data_type.clone(),
            nullable: self.nullable,
        }
    }
}

impl Clone for DataType {
    fn clone(&self) -> (r: Self)
        ensures
            r@ == self@,
        decreases self,
    {
        match self {
            DataType::Plain(p) => DataType::Plain(*p),
            DataType::List(e) => DataType::List(Box::new((**e).clone())),
            DataType::Struct(fs) => {
                let mut out: Vec<Field> = Vec::new();
                let mut i: usize = 0;
                while i < fs.len()
                    invariant
                        i <= fs.len(),
                        self is Struct,
                        self->Struct_0 == *fs,
                        out@.len() == i,
                        forall|j: int| 0 <= j < i ==> out@[j]@ == fs@[j]@,
                    decreases fs.len() - i,
                {
                    proof {
                        assert(decreases_to!(*self => self->Struct_0));
                        assert(decreases_to!(*fs => fs@));
                        assert(decreases_to!(fs@ => fs@[i as int]));
                    }
                    let f = fs[i].clone();
                    out.push(f);
                    i += 1;
                }
                let r = DataType::Struct(out);
                proof {
                    assert(r@->Struct_0 =~= self@->Struct_0);
                }
                r
            },
        }
    }
}

/// The physical member that stores a logical member: same name, the member's
/// type stored physically, nullable.
pub open spec fn stored_field(f: FieldModel) -> Option<FieldData>
    decreases f,
{
    match stored_as(f.ty) {
        Some(d) => Some(FieldData { name: f.name, data_type: d, nullable: true }),
        None => None,
    }
}

/// The physical type that stores a logical type; none where the type holds a
/// wildcard or the variadic marker.
pub open spec fn stored_as(t: TypeModel) -> Option<DataModel>
    decreases t,
{
    match t {
        TypeModel::Scalar(s) => Some(DataModel::Plain(s.spec_physical())),
        TypeModel::List(e) => match stored_as(*e) {
            Some(d) => Some(DataModel::List(Box::new(d))),
            None => None,
        },
        TypeModel::Struct(fs) => if forall|i: int|
            0 <= i < fs.len() ==> stored_field(#[trigger] fs[i]) is Some {
            Some(
                DataModel::Struct(
                    Seq::new(
                        fs.len(),
                        |i: int|
                            if 0 <= i < fs.len() {
                                stored_field(fs[i])->0
                            } else {
                                arbitrary()
                            },
                    ),
                ),
            )
        } else {
            None
        },
        _ => None,
    }
}

/// A type is stored physically exactly when it is concrete.
pub proof fn lemma_stored_iff_concrete(t: TypeModel)
    ensures
        stored_as(t) is Some <==> t.is_concrete(),
    decreases t,
{
    match t {
        TypeModel::List(e) => {
            lemma_stored_iff_concrete(*e);
        },
        TypeModel::Struct(fs) => {
            assert forall|i: int| 0 <= i < fs.len() implies (stored_field(#[trigger] fs[i]) is Some
                <==> fs[i].ty.is_concrete()) by {
                lemma_stored_iff_concrete(fs[i].ty);
            }
        },
        _ => {},
    }
}

/// The catalog's view of a logical type: a wildcard class for each of the
/// three wildcards, else the exact physical type.
pub open spec fn catalog_type(t: TypeModel) -> Option<SigModel> {
    match t {
        TypeModel::Any => Some(SigModel::Any),
        TypeModel::AnyArray => Some(SigModel::AnyArray),
        TypeModel::AnyStruct => Some(SigModel::AnyStruct),
        _ => match stored_as(t) {
            Some(d) => Some(SigModel::Exact(d)),
            None => None,
        },
    }
}

/// The physical type that stores `ty`.
///
/// Returns `None` exactly when `ty` is not concrete.
pub fn data_type(ty: &LogicalType) -> (r: Option<DataType>)
    ensures
        match r {
            Some(d) => stored_as(ty@) == Some(d@),
            None => stored_as(ty@) is None,
        },
    decreases ty, 1int,
{
    match ty {
        LogicalType::Scalar(s) => Some(DataType::Plain(s.physical())),
        LogicalType::List(e) => match data_type(e) {
            Some(d) => Some(DataType::List(Box::new(d))),
            None => None,
        },
        LogicalType::Struct(fs) => {
            proof {
                assert(decreases_to!(*ty => ty->Struct_0));
            }
            match fields(fs) {
                Some(out) => {
                    let r = DataType::Struct(out);
                    proof {
                        let ms = ty@->Struct_0;
                        assert forall|i: int| 0 <= i < ms.len() implies stored_field(
                            #[trigger] ms[i],
                        ) is Some by {
                            assert(ms[i] == fs@[i]@);
                        }
                        assert(r@->Struct_0 =~= stored_as(ty@)->0->Struct_0) by {
                            assert forall|i: int| 0 <= i < ms.len() implies r@->Struct_0[i]
                                == stored_field(ms[i])->0 by {
                                assert(ms[i] == fs@[i]@);
                            }
                        }
                    }
                    Some(r)
                },
                None => {
                    proof {
                        let ms = ty@->Struct_0;
                        let k = choose|k: int|
                            0 <= k < fs@.len() && stored_field(#[trigger] fs@[k]@) is None;
                        assert(ms[k] == fs@[k]@);
                    }
                    None
                },
            }
        },
        _ => None,
    }
}

/// The physical members that store the members `fs` of a struct type.
///
/// Returns `None` exactly when some member's type is not concrete.
pub fn fields(fs: &Vec<StructField>) -> (r: Option<Vec<Field>>)
    ensures
        match r {
            Some(out) => out@.len() == fs@.len() && forall|i: int|
                0 <= i < fs@.len() ==> stored_field(#[trigger] fs@[i]@) == Some(out@[i]@),
            None => exists|k: int| 0 <= k < fs@.len() && stored_field(#[trigger] fs@[k]@) is None,
        },
    decreases fs, 0int,
{
    let mut out: Vec<Field> = Vec::new();
    let mut i: usize = 0;
    while i < fs.len()
        invariant
            i <= fs.len(),
            out@.len() == i,
            forall|j: int| 0 <= j < i ==> stored_field(#[trigger] fs@[j]@) == Some(out@[j]@),
        decreases fs.len() - i,
    {
        proof {
            assert(decreases_to!(*fs => fs@));
            assert(decreases_to!(fs@ => fs@[i as int]));
        }
        match data_type(&fs[i].ty) {
            Some(d) => {
                out.push(Field { name: fs[i].name.clone(), data_type: d, nullable: true });
            },
            None => {
                proof {
                    assert(stored_field(fs@[i as int]@) is None);
                }
                return None;
            },
        }
        i += 1;
    }
    Some(out)
}

/// The catalog's view of `ty`.
///
/// Returns `None` exactly when `ty` is none of the three wildcards and is not
/// concrete.
pub fn sig_data_type(ty: &LogicalType) -> (r: Option<SigDataType>)
    ensures
        match r {
            Some(t) => catalog_type(ty@) == Some(t@),
            None => catalog_type(ty@) is None,
        },
{
    match ty {
        LogicalType::Any => Some(SigDataType::Any),
        LogicalType::AnyArray => Some(SigDataType::AnyArray),
        LogicalType::AnyStruct => Some(SigDataType::AnyStruct),
        _ => match data_type(ty) {
            Some(d) => Some(SigDataType::Exact(d)),
            None => None,
        },
    }
}

} // verus!
