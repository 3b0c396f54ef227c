//! Function descriptors and the reflected shape of user functions.
use vstd::prelude::*;

verus! {

/// How the result of a user function, or of an item it yields, may fall
/// short of a plain value: it may be absent, the call may fail, or both.
#[derive(Clone, Copy, PartialEq, Eq, Structural, Debug, Hash)]
pub enum ReturnShape {
    Value,
    Optional,
    Fallible,
    FallibleOptional,
}

impl ReturnShape {
    /// Whether a call of this shape may fail.
    pub open spec fn may_fail(self) -> bool {
        self is Fallible || self is FallibleOptional
    }

    /// Whether a successful call of this shape may yield no value.
    pub open spec fn may_be_absent(self) -> bool {
        self is Optional || self is FallibleOptional
    }

    /// Decides [`Self::may_fail`].
    pub fn is_result(self) -> (r: bool)
        ensures
            r == self.may_fail(),
    {
        match self {
            ReturnShape::Fallible | ReturnShape::FallibleOptional => true,
            _ => false,
        }
    }

    /// Decides [`Self::may_be_absent`].
    pub fn is_option(self) -> (r: bool)
        ensures
            r == self.may_be_absent(),
    {
        match self {
            ReturnShape::Optional | ReturnShape::FallibleOptional => true,
            _ => false,
        }
    }
}

/// Whether the function will be called when some of its arguments are null.
#[derive(Clone, Copy, PartialEq, Eq, Structural, PartialOrd, Ord, Debug, Hash)]
pub enum CallMode {
    /// The function is called normally when some of its arguments are null,
    /// and it is the function's business to check for them.
    CalledOnNullInput,
    /// The function is not called when some of its arguments are null; a null
    /// result is assumed instead.
    ReturnNullOnNullInput,
}

impl Default for CallMode {
    fn default() -> (r: Self)
        ensures
            r == CallMode::CalledOnNullInput,
    {
        CallMode::CalledOnNullInput
    }
}

impl CallMode {
    /// Whether a row is answered with null without calling the function:
    /// under `ReturnNullOnNullInput`, when one of its arguments is null.
    pub open spec fn spec_skips(self, nulls: Seq<bool>) -> bool {
        self == CallMode::ReturnNullOnNullInput && exists|i: int|
            0 <= i < nulls.len() && #[trigger] nulls[i]
    }

    /// Decides [`Self::spec_skips`] for a row whose argument `i` is null
    /// exactly when `nulls[i]` holds.
    pub fn skips(self, nulls: &Vec<bool>) -> (r: bool)
        ensures
            r == self.spec_skips(nulls@),
    {
        match self {
            CallMode::CalledOnNullInput => false,
            CallMode::ReturnNullOnNullInput => {
                let mut i: usize = 0;
                while i < nulls.len()
                    invariant
                        self == CallMode::ReturnNullOnNullInput,
                        i <= nulls.len(),
                        forall|j: int| 0 <= j < i ==> !#[trigger] nulls@[j],
                    decreases nulls.len() - i,
                {
                    if nulls[i] {
                        assert(nulls@[i as int]);
                        return true;
                    }
                    i += 1;
                }
                false
            },
        }
    }
}

/// A declarative description of a function to bind.
///
/// Types are written as names of the type grammar. An argument or the result
/// may be one of the patterns `*`, `*int` and `*float`, which stand for lists
/// of types and are removed by expansion.
#[derive(Debug, PartialEq, Eq)]
pub struct FunctionAttr {
    /// The function's name in the catalog.
    pub name: String,
    /// The argument types, in order; the last may be `...`.
    pub args: Vec<String>,
    /// The result type.
    pub ret: String,
    /// Whether the function yields rows rather than one value per row.
    pub is_table_function: bool,
    /// The name of a user-supplied function that evaluates whole batches.
    pub batch_fn: Option<String>,
    /// An expression that infers the result type, or `panic`.
    pub type_infer: Option<String>,
    /// A name for the generated evaluation routine.
    pub output: Option<String>,
}

/// The reflected shape of a user function.
#[derive(Debug, PartialEq, Eq)]
pub struct UserFunctionAttr {
    /// The function's name in the host language.
    pub name: String,
    /// Whether calling the function suspends.
    pub async_: bool,
    /// Whether the function takes the evaluation context.
    pub context: bool,
    /// Whether the function writes its output into a sink it is handed.
    pub write: bool,
    /// For each argument, whether the function takes null itself.
    pub args_option: Vec<bool>,
    /// The shape of the function's result.
    pub return_type_kind: ReturnShape,
    /// For a table function, the shape of the items its result yields.
    pub iterator_item_kind: Option<ReturnShape>,
}

/// The characters of an optional string.
pub open spec fn opt_chars(s: Option<String>) -> Option<Seq<char>> {
    match s {
        Some(t) => Some(t@),
        None => None,
    }
}

/// The mathematical value of a [`FunctionAttr`].
pub struct Descriptor {
    pub name: Seq<char>,
    pub args: Seq<Seq<char>>,
    pub ret: Seq<char>,
    pub is_table_function: bool,
    pub batch_fn: Option<Seq<char>>,
    pub type_infer: Option<Seq<char>>,
    pub output: Option<Seq<char>>,
}

/// The mathematical value of a [`UserFunctionAttr`].
pub struct UserShape {
    pub name: Seq<char>,
    pub async_: bool,
    pub context: bool,
    pub write: bool,
    pub args_option: Seq<bool>,
    pub return_type_kind: ReturnShape,
    pub iterator_item_kind: Option<ReturnShape>,
}

/// The characters of each string of a list.
pub open spec fn names_of(v: Seq<String>) -> Seq<Seq<char>> {
    Seq::new(v.len(), |i: int| v[i]@)
}

impl View for FunctionAttr {
    type V = Descriptor;

    open spec fn view(&self) -> Descriptor {
        Descriptor {
            name: self.name@,
            args: names_of(self.args@),
            ret: self.ret@,
            is_table_function: self.is_table_function,
            batch_fn: opt_chars(self.batch_fn),
            type_infer: opt_chars(self.type_infer),
            output: opt_chars(self.output),
        }
    }
}

impl View for UserFunctionAttr {
    type V = UserShape;

    open spec fn view(&self) -> UserShape {
        UserShape {
            name: self.name@,
            async_: self.async_,
            context: self.context,
            write: self.write,
            args_option: self.args_option@,
            return_type_kind: self.return_type_kind,
            iterator_item_kind: self.iterator_item_kind,
        }
    }
}

impl UserShape {
    /// Whether the function is a plain function of its arguments: it does
    /// not suspend, takes no sink and no context, takes no null and returns
    /// a plain value.
    pub open spec fn is_pure(self) -> bool {
        &&& !self.async_
        &&& !self.write
        &&& !self.context
        &&& forall|i: int| 0 <= i < self.args_option.len() ==> !#[trigger] self.args_option[i]
        &&& self.return_type_kind == ReturnShape::Value
    }

    /// Whether a call, or an item that a call yields, may fail.
    pub open spec fn has_error(self) -> bool {
        self.return_type_kind.may_fail() || (self.iterator_item_kind is Some
            && self.iterator_item_kind->0.may_fail())
    }
}

impl UserFunctionAttr {
    /// Decides [`UserShape::is_pure`].
    pub fn is_pure(&self) -> (r: bool)
        ensures
            r == self@.is_pure(),
    {
        if self.async_ || self.write || self.context {
            return false;
        }
        let mut i: usize = 0;
        while i < self.args_option.len()
            invariant
                i <= self.args_option.len(),
                forall|j: int| 0 <= j < i ==> !#[trigger] self.args_option@[j],
            decreases self.args_option.len() - i,
        {
            if self.args_option[i] {
                assert(self@.args_option[i as int]);
                return false;
            }
            i += 1;
        }
        match self.return_type_kind {
            ReturnShape::Value => true,
            _ => false,
        }
    }

    /// Decides [`UserShape::has_error`].
    pub fn has_error(&self) -> (r: bool)
        ensures
            r == self@.has_error(),
    {
        if self.return_type_kind.is_result() {
            return true;
        }
        match self.iterator_item_kind {
            Some(k) => k.is_result(),
            None => false,
        }
    }
}

/// A copy of a list of strings.
pub fn clone_names(v: &Vec<String>) -> (r: Vec<String>)
    ensures
        names_of(r@) == names_of(v@),
{
    let mut out: Vec<String> = Vec::new();
    let mut i: usize = 0;
    while i < v.len()
        invariant
            i <= v.len(),
            out@.len() == i,
            forall|j: int| 0 <= j < i ==> out@[j]@ == v@[j]@,
        decreases v.len() - i,
    {
        out.push(v[i].clone());
        i += 1;
    }
    proof {
        assert(names_of(out@) =~= names_of(v@));
    }
    out
}

/// A copy of an optional string.
pub fn clone_opt(s: &Option<String>) -> (r: Option<String>)
    ensures
        opt_chars(r) == opt_chars(*s),
{
    match s {
        Some(t) => Some(t.clone()),
        None => None,
    }
}

impl Clone for FunctionAttr {
    fn clone(&self) -> (r: Self)
        ensures
            r@ == self@,
    {
        FunctionAttr {
            name: self.name.clone(),
            args: clone_names(&self.args),
            ret: self.ret.clone(),
            is_table_function: self.is_table_function,
            batch_fn: clone_opt(&self.batch_fn),
            type_infer: clone_opt(&self.type_infer),
            output: clone_opt(&self.output),
        }
    }
}

} // verus!
