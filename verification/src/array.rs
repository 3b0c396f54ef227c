//! Columns under construction.
//!
//! A column of a struct type keeps one child column per member beside its
//! own validity. Every append, of a value or of a null, reaches every child,
//! so that the children always hold as many rows as their parent.
use crate::datatype::{DataModel, DataType};
use crate::types::{ArrayKind, PhysicalType};
use crate::value::Value;
use vstd::prelude::*;

verus! {

/// A column, finished or under construction.
#[derive(Debug, PartialEq, Eq)]
pub enum Array {
    /// A column of one physical type, or of lists: one cell per row.
    Cells { kind: ArrayKind, cells: Vec<Option<Value>> },
    /// A column of structs: one child per member, and for each row whether
    /// the struct is present.
    Struct { children: Vec<Array>, validity: Vec<bool> },
}

impl Value {
    /// Whether a value of this form is what the physical type `p` stores.
    pub open spec fn stored_in(self, p: PhysicalType) -> bool {
        match p {
            PhysicalType::Null => self is Unit,
            PhysicalType::Boolean => self is Bool,
            PhysicalType::Int16 => self is I16,
            PhysicalType::Int32 | PhysicalType::Date32 => self is I32,
            PhysicalType::Int64
            | PhysicalType::Time64Microsecond
            | PhysicalType::TimestampMicrosecond => self is I64,
            PhysicalType::Float32 => self is F32,
            PhysicalType::Float64 => self is F64,
            PhysicalType::IntervalMonthDayNano => self is Interval,
            PhysicalType::Utf8 | PhysicalType::LargeUtf8 => self is Text,
            PhysicalType::Binary => self is Bytes,
        }
    }

    /// Decides [`Self::stored_in`].
    pub fn is_stored_in(&self, p: PhysicalType) -> (r: bool)
        ensures
            r == self.stored_in(p),
    {
        match p {
            PhysicalType::Null => matches!(self, Value::Unit),
            PhysicalType::Boolean => matches!(self, Value::Bool(_)),
            PhysicalType::Int16 => matches!(self, Value::I16(_)),
            PhysicalType::Int32 | PhysicalType::Date32 => matches!(self, Value::I32(_)),
            PhysicalType::Int64
            | PhysicalType::Time64Microsecond
            | PhysicalType::TimestampMicrosecond => matches!(self, Value::I64(_)),
            PhysicalType::Float32 => matches!(self, Value::F32(_)),
            PhysicalType::Float64 => matches!(self, Value::F64(_)),
            PhysicalType::IntervalMonthDayNano => matches!(self, Value::Interval(_, _, _)),
            PhysicalType::Utf8 | PhysicalType::LargeUtf8 => matches!(self, Value::Text(_)),
            PhysicalType::Binary => matches!(self, Value::Bytes(_)),
        }
    }
}

impl Array {
    /// The number of rows.
    pub open spec fn rows(self) -> nat {
        match self {
            Array::Cells { cells, .. } => cells@.len(),
            Array::Struct { validity, .. } => validity@.len(),
        }
    }

    /// Whether every child, at every depth, holds as many rows as its
    /// parent.
    pub open spec fn well_formed(self) -> bool
        decreases self,
    {
        match self {
            Array::Cells { kind, .. } => !(kind is Struct),
            Array::Struct { children, validity } => forall|k: int|
                0 <= k < children@.len() ==> (#[trigger] children@[k]).well_formed()
                    && children@[k].rows() == validity@.len(),
        }
    }

    /// Whether the column has the form that stores the type `d`.
    pub open spec fn shaped(self, d: DataModel) -> bool
        decreases self,
    {
        match self {
            Array::Cells { kind, .. } => match d {
                DataModel::Plain(p) => kind == ArrayKind::Plain(p),
                DataModel::List(_) => kind == ArrayKind::List,
                DataModel::Struct(_) => false,
            },
            Array::Struct { children, .. } => match d {
                DataModel::Struct(fs) => children@.len() == fs.len() && forall|k: int|
                    0 <= k < children@.len() ==> (#[trigger] children@[k]).shaped(fs[k].data_type),
                _ => false,
            },
        }
    }

    /// Whether the column takes the value `v`: a column of a physical type
    /// takes the values that type stores, a column of lists takes lists, and
    /// a column of structs takes structs with one member per child, each
    /// present member taken by its child.
    pub open spec fn accepts(self, v: Value) -> bool
        decreases self,
    {
        match self {
            Array::Cells { kind, .. } => match kind {
                ArrayKind::Plain(p) => v.stored_in(p),
                ArrayKind::List => v is List,
                ArrayKind::Struct => false,
            },
            Array::Struct { children, .. } => match v {
                Value::Struct(ms) => ms@.len() == children@.len() && forall|k: int|
                    0 <= k < children@.len() ==> (#[trigger] ms@[k] is Some ==> children@[k].accepts(
                        ms@[k]->0,
                    )),
                _ => false,
            },
        }
    }

    /// Whether row `i` holds `v`. A row of a struct column holds a struct
    /// when it is marked present and every child holds the struct's member
    /// in that row; it holds null when it is marked absent and every child
    /// holds null in that row.
    pub open spec fn holds(self, i: int, v: Option<Value>) -> bool
        decreases self,
    {
        match self {
            Array::Cells { cells, .. } => 0 <= i < cells@.len() && cells@[i] == v,
            Array::Struct { children, validity } => {
                &&& 0 <= i < validity@.len()
                &&& validity@[i] == (v is Some)
                &&& match v {
                    Some(Value::Struct(ms)) => ms@.len() == children@.len() && forall|k: int|
                        0 <= k < children@.len() ==> (#[trigger] children@[k]).holds(i, ms@[k]),
                    Some(_) => false,
                    None => forall|k: int|
                        0 <= k < children@.len() ==> (#[trigger] children@[k]).holds(i, None),
                }
            },
        }
    }

    /// Whether `new` is this column with rows appended.
    pub open spec fn extended_by(self, new: Array) -> bool
        decreases self,
    {
        match self {
            Array::Cells { kind, cells } => match new {
                Array::Cells { kind: k2, cells: c2 } => kind == k2 && cells@.len() <= c2@.len()
                    && c2@.take(cells@.len() as int) == cells@,
                _ => false,
            },
            Array::Struct { children, validity } => match new {
                Array::Struct { children: c2, validity: v2 } => {
                    &&& children@.len() == c2@.len()
                    &&& validity@.len() <= v2@.len()
                    &&& v2@.take(validity@.len() as int) == validity@
                    &&& forall|k: int|
                        0 <= k < children@.len() ==> (#[trigger] children@[k]).extended_by(c2@[k])
                },
                _ => false,
            },
        }
    }

    /// Appending rows changes no row that was there.
    pub proof fn lemma_extended_holds(self, new: Array, i: int, v: Option<Value>)
        requires
            self.extended_by(new),
            self.holds(i, v),
        ensures
            new.holds(i, v),
        decreases self,
    {
        match self {
            Array::Cells { kind, cells } => {
                let c2 = new->Cells_cells;
                assert(c2@.take(cells@.len() as int)[i] == c2@[i]);
            },
            Array::Struct { children, validity } => {
                let c2 = new->Struct_children;
                let v2 = new->Struct_validity;
                assert(v2@.take(validity@.len() as int)[i] == v2@[i]);
                match v {
                    Some(Value::Struct(ms)) => {
                        assert forall|k: int| 0 <= k < c2@.len() implies (#[trigger] c2@[k]).holds(
                            i,
                            ms@[k],
                        ) by {
                            assert(children@[k].extended_by(c2@[k]));
                            assert(children@[k].holds(i, ms@[k]));
                            children@[k].lemma_extended_holds(c2@[k], i, ms@[k]);
                        }
                    },
                    Some(_) => {},
                    None => {
                        assert forall|k: int| 0 <= k < c2@.len() implies (#[trigger] c2@[k]).holds(
                            i,
                            None,
                        ) by {
                            assert(children@[k].extended_by(c2@[k]));
                            assert(children@[k].holds(i, None));
                            children@[k].lemma_extended_holds(c2@[k], i, None);
                        }
                    },
                }
            },
        }
    }

    /// Appending rows keeps the form of a column.
    pub proof fn lemma_extended_shaped(self, new: Array, d: DataModel)
        requires
            self.extended_by(new),
            self.shaped(d),
        ensures
            new.shaped(d),
        decreases self,
    {
        match self {
            Array::Cells { .. } => {},
            Array::Struct { children, validity } => {
                let c2 = new->Struct_children;
                let fs = d->Struct_0;
                assert forall|k: int| 0 <= k < c2@.len() implies (#[trigger] c2@[k]).shaped(
                    fs[k].data_type,
                ) by {
                    assert(children@[k].extended_by(c2@[k]));
                    assert(children@[k].shaped(fs[k].data_type));
                    children@[k].lemma_extended_shaped(c2@[k], fs[k].data_type);
                }
            },
        }
    }

    /// An empty column for the type `d`.
    pub fn new(d: &DataType) -> (r: Array)
        ensures
            r.well_formed(),
            r.rows() == 0,
            r.shaped(d@),
        decreases d,
    {
        match d {
            DataType::Plain(p) => Array::Cells { kind: ArrayKind::Plain(*p), cells: Vec::new() },
            DataType::List(_) => Array::Cells { kind: ArrayKind::List, cells: Vec::new() },
            DataType::Struct(fs) => {
                let mut children: Vec<Array> = Vec::new();
                let mut k: usize = 0;
                while k < fs.len()
                    invariant
                        k <= fs.len(),
                        d is Struct,
                        d->Struct_0 == *fs,
                        children@.len() == k,
                        forall|j: int|
                            0 <= j < k ==> {
                                &&& (#[trigger] children@[j]).well_formed()
                                &&& children@[j].rows() == 0
                                &&& children@[j].shaped(fs@[j]@.data_type)
                            },
                    decreases fs.len() - k,
                {
                    proof {
                        assert(decreases_to!(*d => d->Struct_0));
                        assert(decreases_to!(*fs => fs@));
                        assert(decreases_to!(fs@ => fs@[k as int]));
                    }
                    children.push(Array::new(&fs[k].data_type));
                    k += 1;
                }
                let r = Array::Struct { children, validity: Vec::new() };
                proof {
                    let ms = d@->Struct_0;
                    assert forall|j: int| 0 <= j < children@.len() implies (
                    #[trigger] children@[j]).shaped(ms[j].data_type) by {
                        assert(ms[j] == fs@[j]@);
                    }
                }
                r
            },
        }
    }

    /// The number of rows.
    pub fn len(&self) -> (r: usize)
        ensures
            r == self.rows(),
    {
        match self {
            Array::Cells { cells, .. } => cells.len(),
            Array::Struct { validity, .. } => validity.len(),
        }
    }

    /// Whether the column takes the value `v`.
    pub fn takes(&self, v: &Value) -> (r: bool)
        ensures
            r == self.accepts(*v),
        decreases self,
    {
        match self {
            Array::Cells { kind, .. } => match kind {
                ArrayKind::Plain(p) => v.is_stored_in(*p),
                ArrayKind::List => matches!(v, Value::List(_)),
                ArrayKind::Struct => false,
            },
            Array::Struct { children, .. } => match v {
                Value::Struct(ms) => {
                    if ms.len() != children.len() {
                        return false;
                    }
                    let mut k: usize = 0;
                    while k < children.len()
                        invariant
                            k <= children.len(),
                            ms@.len() == children@.len(),
                            self is Struct,
                            self->Struct_children == *children,
                            *v is Struct,
                            v->Struct_0 == *ms,
                            forall|j: int|
                                0 <= j < k ==> (#[trigger] ms@[j] is Some ==> children@[j].accepts(
                                    ms@[j]->0,
                                )),
                        decreases children.len() - k,
                    {
                        proof {
                            assert(decreases_to!(*self => self->Struct_children));
                            assert(decreases_to!(*children => children@));
                            assert(decreases_to!(children@ => children@[k as int]));
                        }
                        match &ms[k] {
                            Some(m) => {
                                if !children[k].takes(m) {
                                    proof {
                                        assert(ms@[k as int] is Some);
                                    }
                                    return false;
                                }
                            },
                            None => {},
                        }
                        k += 1;
                    }
                    true
                },
                _ => false,
            },
        }
    }
}

impl Array {
    /// Appends a null: to a struct column, a null to every child and a row
    /// marked absent.
    pub fn append_null(&mut self)
        requires
            old(self).well_formed(),
        ensures
            final(self).well_formed(),
            final(self).rows() == old(self).rows() + 1,
            old(self).extended_by(*final(self)),
            final(self).holds(old(self).rows() as int, None),
        decreases *old(self),
    {
        let ghost before = *self;
        match self {
            Array::Cells { cells, .. } => {
                cells.push(None);
                proof {
                    assert(cells@.take(before->Cells_cells@.len() as int) =~= before->Cells_cells@);
                }
            },
            Array::Struct { children, validity } => {
                let n = children.len();
                let ghost old_children = children@;
                let ghost rows = validity@.len();
                let mut k: usize = 0;
                while k < n
                    invariant
                        before == *old(self),
                        before is Struct,
                        before->Struct_children@ == old_children,
                        old_children.len() == n,
                        n == children@.len(),
                        k <= n,
                        rows == validity@.len(),
                        forall|j: int|
                            0 <= j < n ==> (#[trigger] old_children[j]).well_formed()
                                && old_children[j].rows() == rows,
                        forall|j: int| k <= j < n ==> children@[j] == old_children[j],
                        forall|j: int|
                            0 <= j < k ==> {
                                &&& (#[trigger] children@[j]).well_formed()
                                &&& children@[j].rows() == rows + 1
                                &&& old_children[j].extended_by(children@[j])
                                &&& children@[j].holds(rows as int, None)
                            },
                    decreases n - k,
                {
                    proof {
                        assert(decreases_to!(before => before->Struct_children));
                        assert(decreases_to!(before->Struct_children => before->Struct_children@));
                        assert(decreases_to!(old_children => old_children[k as int]));
                        assert(old_children[k as int].well_formed());
                    }
                    children[k].append_null();
                    k += 1;
                }
                validity.push(false);
                proof {
                    assert(validity@.take(rows as int) =~= before->Struct_validity@);
                }
            },
        }
    }

    /// Appends the value `v`: to a struct column, each member to its child,
    /// a null where the member is absent, and a row marked present.
    pub fn append_value(&mut self, v: Value)
        requires
            old(self).well_formed(),
            old(self).accepts(v),
        ensures
            final(self).well_formed(),
            final(self).rows() == old(self).rows() + 1,
            old(self).extended_by(*final(self)),
            final(self).holds(old(self).rows() as int, Some(v)),
        decreases *old(self),
    {
        let ghost before = *self;
        match self {
            Array::Cells { cells, .. } => {
                cells.push(Some(v));
                proof {
                    assert(cells@.take(before->Cells_cells@.len() as int) =~= before->Cells_cells@);
                }
            },
            Array::Struct { children, validity } => {
                let n = children.len();
                let ghost old_children = children@;
                let ghost rows = validity@.len();
                let ghost members = v->Struct_0@;
                let mut rest: Vec<Option<Value>> = match v {
                    Value::Struct(ms) => ms,
                    _ => Vec::new(),
                };
                let mut stack: Vec<Option<Value>> = Vec::new();
                while rest.len() > 0
                    invariant
                        members.len() == n,
                        rest@.len() + stack@.len() == n,
                        rest@ == members.take(rest@.len() as int),
                        forall|j: int|
                            0 <= j < stack@.len() ==> #[trigger] stack@[j] == members[n - 1 - j],
                    decreases rest@.len(),
                {
                    let m = rest.pop();
                    match m {
                        Some(m) => {
                            stack.push(m);
                        },
                        None => {},
                    }
                }
                let mut k: usize = 0;
                while k < n
                    invariant
                        before == *old(self),
                        before is Struct,
                        before->Struct_children@ == old_children,
                        old_children.len() == n,
                        n == children@.len(),
                        members.len() == n,
                        k <= n,
                        rows == validity@.len(),
                        stack@.len() == n - k,
                        forall|j: int|
                            0 <= j < stack@.len() ==> #[trigger] stack@[j] == members[n - 1 - j],
                        forall|j: int|
                            0 <= j < n ==> (#[trigger] old_children[j]).well_formed()
                                && old_children[j].rows() == rows,
                        forall|j: int|
                            0 <= j < n ==> (#[trigger] members[j] is Some
                                ==> old_children[j].accepts(members[j]->0)),
                        forall|j: int| k <= j < n ==> children@[j] == old_children[j],
                        forall|j: int|
                            0 <= j < k ==> {
                                &&& (#[trigger] children@[j]).well_formed()
                                &&& children@[j].rows() == rows + 1
                                &&& old_children[j].extended_by(children@[j])
                                &&& children@[j].holds(rows as int, members[j])
                            },
                    decreases n - k,
                {
                    proof {
                        assert(decreases_to!(before => before->Struct_children));
                        assert(decreases_to!(before->Struct_children => before->Struct_children@));
                        assert(decreases_to!(old_children => old_children[k as int]));
                        assert(old_children[k as int].well_formed());
                        assert(stack@[n - k - 1] == members[k as int]);
                        assert(members[k as int] is Some ==> old_children[k as int].accepts(
                            members[k as int]->0,
                        ));
                    }
                    let m = stack.pop();
                    match m {
                        Some(Some(x)) => {
                            children[k].append_value(x);
                        },
                        _ => {
                            children[k].append_null();
                        },
                    }
                    k += 1;
                }
                validity.push(true);
                proof {
                    assert(validity@.take(rows as int) =~= before->Struct_validity@);
                }
            },
        }
    }
}

/// Whether the type `d` takes the value `v`: a physical type takes the
/// values it stores, a list type takes lists, and a struct type takes
/// structs with one member per field, each present member taken by its
/// field's type.
pub open spec fn admits(d: DataModel, v: Value) -> bool
    decreases d,
{
    match d {
        DataModel::Plain(p) => v.stored_in(p),
        DataModel::List(_) => v is List,
        DataModel::Struct(fs) => match v {
            Value::Struct(ms) => ms@.len() == fs.len() && forall|k: int|
                0 <= k < fs.len() ==> (#[trigger] ms@[k] is Some ==> admits(
                    fs[k].data_type,
                    ms@[k]->0,
                )),
            _ => false,
        },
    }
}

/// A column of the form of a type takes what the type takes.
pub proof fn lemma_shaped_admits(a: Array, d: DataModel, v: Value)
    requires
        a.shaped(d),
    ensures
        a.accepts(v) == admits(d, v),
    decreases a,
{
    match a {
        Array::Cells { .. } => {},
        Array::Struct { children, validity } => {
            let fs = d->Struct_0;
            match v {
                Value::Struct(ms) => {
                    if ms@.len() == fs.len() {
                        assert forall|k: int| 0 <= k < fs.len() implies (#[trigger] ms@[k] is Some
                            ==> children@[k].accepts(ms@[k]->0)) == (ms@[k] is Some ==> admits(
                            fs[k].data_type,
                            ms@[k]->0,
                        )) by {
                            if ms@[k] is Some {
                                assert(children@[k].shaped(fs[k].data_type));
                                lemma_shaped_admits(children@[k], fs[k].data_type, ms@[k]->0);
                            }
                        }
                    }
                },
                _ => {},
            }
        },
    }
}

} // verus!
