//! Values that move through an evaluation, and the projection of what a user
//! function returned onto a value cell and an error cell.
use crate::descriptor::ReturnShape;
use vstd::prelude::*;

verus! {

/// A stored value. Numbers of the floating-point types are held by their
/// bits; dates, times and timestamps by their numeric encodings.
#[derive(Debug, PartialEq, Eq)]
pub enum Value {
    Unit,
    Bool(bool),
    I16(i16),
    I32(i32),
    I64(i64),
    F32(u32),
    F64(u64),
    Interval(i32, i32, i64),
    Text(String),
    Bytes(Vec<u8>),
    List(Vec<Value>),
    Struct(Vec<Option<Value>>),
}

/// What a user function returned, in one of the four shapes.
#[derive(Debug, PartialEq, Eq)]
pub enum Returned<T> {
    Value(T),
    Optional(Option<T>),
    Fallible(Result<T, String>),
    FallibleOptional(Result<Option<T>, String>),
}

/// A value cell and an error cell: the value, or null; the error's text, or
/// null.
#[derive(Debug, PartialEq, Eq)]
pub struct Projected<T> {
    pub value: Option<T>,
    pub error: Option<String>,
}

impl<T> Returned<T> {
    /// The shape of what was returned.
    pub open spec fn spec_shape(self) -> ReturnShape {
        match self {
            Returned::Value(_) => ReturnShape::Value,
            Returned::Optional(_) => ReturnShape::Optional,
            Returned::Fallible(_) => ReturnShape::Fallible,
            Returned::FallibleOptional(_) => ReturnShape::FallibleOptional,
        }
    }

    /// Whether the call failed.
    pub open spec fn failed(self) -> bool {
        match self {
            Returned::Fallible(Err(_)) => true,
            Returned::FallibleOptional(Err(_)) => true,
            _ => false,
        }
    }

    /// The value that the call yielded, if it succeeded and yielded one.
    pub open spec fn yielded(self) -> Option<T> {
        match self {
            Returned::Value(v) => Some(v),
            Returned::Optional(o) => o,
            Returned::Fallible(Ok(v)) => Some(v),
            Returned::FallibleOptional(Ok(o)) => o,
            _ => None,
        }
    }

    /// The text of the failure, if the call failed.
    pub open spec fn failure(self) -> Option<String> {
        match self {
            Returned::Fallible(Err(e)) => Some(e),
            Returned::FallibleOptional(Err(e)) => Some(e),
            _ => None,
        }
    }

    /// The cells that stand for what was returned: the yielded value beside
    /// a null error, or a null value beside the failure's text.
    pub open spec fn projected(self) -> Projected<T> {
        Projected { value: self.yielded(), error: self.failure() }
    }

    /// A failure is projected onto a null value and its text; a success onto
    /// a null error and the value it yielded, which is present unless the
    /// shape allows absence and the value was absent.
    pub proof fn lemma_projection(self)
        ensures
            self.failed() ==> self.projected().value is None && self.projected().error is Some,
            !self.failed() ==> self.projected().error is None,
            !self.failed() && !self.spec_shape().may_be_absent() ==> self.projected().value
                is Some,
            self.failed() ==> self.spec_shape().may_fail(),
    {
    }

    /// Computes [`Self::spec_shape`].
    pub fn shape(&self) -> (r: ReturnShape)
        ensures
            r == self.spec_shape(),
    {
        match self {
            Returned::Value(_) => ReturnShape::Value,
            Returned::Optional(_) => ReturnShape::Optional,
            Returned::Fallible(_) => ReturnShape::Fallible,
            Returned::FallibleOptional(_) => ReturnShape::FallibleOptional,
        }
    }

    /// Computes [`Self::projected`].
    pub fn project(self) -> (r: Projected<T>)
        ensures
            r == self.projected(),
    {
        match self {
            Returned::Value(v) => Projected { value: Some(v), error: None },
            Returned::Optional(o) => Projected { value: o, error: None },
            Returned::Fallible(Ok(v)) => Projected { value: Some(v), error: None },
            Returned::Fallible(Err(e)) => Projected { value: None, error: Some(e) },
            Returned::FallibleOptional(Ok(o)) => Projected { value: o, error: None },
            Returned::FallibleOptional(Err(e)) => Projected { value: None, error: Some(e) },
        }
    }
}

} // verus!
