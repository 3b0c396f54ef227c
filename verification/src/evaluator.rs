//! The evaluation plan of a bound function.
//!
//! From a descriptor whose types are concrete and the shape of the user
//! function, the generator decides how a batch is evaluated: which class each
//! input column is downcast to, how the user function is called for a row,
//! which rows are answered with null without a call, and by which path the
//! output column comes about.
use crate::datatype::{data_type, fields_data, lemma_stored_iff_concrete, stored_as};
use crate::datatype::{DataModel, DataType, Field, FieldData};
use crate::descriptor::{Descriptor, FunctionAttr, ReturnShape, UserFunctionAttr, UserShape};
use crate::error::ConfigError;
use crate::grammar::{is_list_name, is_struct_name, keyword_type, parse_type, parsed};
use crate::planner::{appends_null, appends_value, builds, input_step};
use crate::planner::{builder, gen_append, transform_input};
use crate::planner::{AppendPlan, BuilderPlan, InputTransform};
use crate::text::same_text;
use crate::types::{ArrayKind, LogicalType, PhysicalType, ScalarType, TypeModel};
use vstd::prelude::*;

verus! {

/// The number of rows at which a table function flushes a batch.
pub const BATCH_SIZE: usize = 1024;

/// How the user function is called for one row.
#[derive(Debug, PartialEq, Eq)]
pub struct CallPlan {
    /// The user function's name.
    pub function: String,
    /// For each argument, the step that reads it from its column.
    pub inputs: Vec<InputTransform>,
    /// Whether the trailing arguments are handed over as one row.
    pub variadic: bool,
    /// Whether the evaluation context is handed over.
    pub context: bool,
    /// Whether a sink for the output is handed over.
    pub writer: bool,
    /// Whether the call is awaited.
    pub awaited: bool,
}

/// The path by which the output comes about.
#[derive(Clone, Copy, PartialEq, Eq, Structural, Debug)]
pub enum Path {
    /// Rows are streamed in batches of bounded size.
    Table,
    /// A user-supplied function evaluates the whole batch.
    CustomBatch,
    /// One computed value is replicated over the rows.
    Nullary,
    /// An elementwise transform of one column.
    Unary,
    /// An elementwise transform of two columns.
    Binary,
    /// A loop over the rows.
    Rows,
}

/// How a row loop stores the result of a call.
#[derive(Debug, PartialEq, Eq)]
pub enum RowOutput {
    /// The function has written into the builder's sink; the entry is
    /// finished if it reported a value and replaced by null otherwise.
    Writer,
    /// The projected result is appended.
    Append(AppendPlan),
}

/// The chosen path with what it needs.
#[derive(Debug, PartialEq, Eq)]
pub enum Evaluation {
    Table { builder: BuilderPlan, append: AppendPlan, item_shape: ReturnShape, batch_size: usize },
    CustomBatch { function: String },
    Nullary,
    Unary,
    Binary,
    Rows { builder: BuilderPlan, output: RowOutput },
}

/// The evaluation routine of a bound function, as a plan.
#[derive(Debug, PartialEq, Eq)]
pub struct EvalPlan {
    /// The routine's name.
    pub name: String,
    /// The function's name in the catalog, which names the output column.
    pub column: String,
    /// For each argument, the class its input column is downcast to.
    pub downcasts: Vec<ArrayKind>,
    /// How the user function is called.
    pub call: CallPlan,
    /// For each argument, whether a null in it answers the row with null
    /// without a call.
    pub unwrap: Vec<bool>,
    /// The shape of the user function's result.
    pub shape: ReturnShape,
    /// Whether the output carries an error column.
    pub has_error: bool,
    /// The class of the output column.
    pub return_array: ArrayKind,
    /// The physical type of the output column.
    pub return_type: DataType,
    /// The chosen path.
    pub evaluation: Evaluation,
}

impl Evaluation {
    /// The path of this evaluation.
    pub open spec fn path(self) -> Path {
        match self {
            Evaluation::Table { .. } => Path::Table,
            Evaluation::CustomBatch { .. } => Path::CustomBatch,
            Evaluation::Nullary => Path::Nullary,
            Evaluation::Unary => Path::Unary,
            Evaluation::Binary => Path::Binary,
            Evaluation::Rows { .. } => Path::Rows,
        }
    }
}

impl Descriptor {
    /// Whether the last argument is the variadic marker.
    pub open spec fn is_variadic(self) -> bool {
        self.args.len() > 0 && self.args.last() == "..."@
    }

    /// The number of arguments before the variadic marker.
    pub open spec fn arity(self) -> int {
        if self.is_variadic() {
            self.args.len() - 1
        } else {
            self.args.len() as int
        }
    }

    /// Whether the argument `i` names a concrete type.
    pub open spec fn arg_ok(self, i: int) -> bool {
        parsed(self.args[i]) is Some && parsed(self.args[i])->0.is_concrete()
    }

    /// The type of the argument `i`.
    pub open spec fn arg_type(self, i: int) -> TypeModel {
        parsed(self.args[i])->0
    }

    /// Whether the result names a concrete type.
    pub open spec fn ret_ok(self) -> bool {
        parsed(self.ret) is Some && parsed(self.ret)->0.is_concrete()
    }

    /// The type of the result.
    pub open spec fn ret_type(self) -> TypeModel {
        parsed(self.ret)->0
    }

    /// The first argument before the variadic marker that names no concrete
    /// type.
    pub open spec fn first_bad_arg(self) -> Option<int> {
        if exists|i: int| 0 <= i < self.arity() && !self.arg_ok(i) {
            let k = choose|k: int|
                0 <= k < self.arity() && !self.arg_ok(k) && forall|j: int|
                    0 <= j < k ==> self.arg_ok(j);
            Some(k)
        } else {
            None
        }
    }

    /// Whether the vectorized path applies: the result and every argument
    /// are primitive, there are at most two arguments, none of them variadic,
    /// and the user function is pure.
    pub open spec fn is_vectorizable(self, u: UserShape) -> bool {
        &&& self.ret_type().is_primitive()
        &&& forall|i: int| 0 <= i < self.args.len() ==> #[trigger] self.arg_type(i).is_primitive()
        &&& self.args.len() <= 2
        &&& u.is_pure()
        &&& !self.is_variadic()
    }

    /// The path by which a function of this descriptor is evaluated: a table
    /// function streams; else a named whole-batch implementation is used;
    /// else the vectorized path of the function's arity where it applies;
    /// else the row loop.
    pub open spec fn path(self, u: UserShape) -> Path {
        if self.is_table_function {
            Path::Table
        } else if self.batch_fn is Some {
            Path::CustomBatch
        } else if self.is_vectorizable(u) {
            if self.args.len() == 0 {
                Path::Nullary
            } else if self.args.len() == 1 {
                Path::Unary
            } else {
                Path::Binary
            }
        } else {
            Path::Rows
        }
    }

    /// Whether the result is text or binary, which a sink can take.
    pub open spec fn returns_text_or_binary(self) -> bool {
        self.ret_type() == TypeModel::Scalar(ScalarType::Varchar) || self.ret_type()
            == TypeModel::Scalar(ScalarType::Bytea)
    }

    /// Why nothing can be generated, if so. The first that applies: an
    /// argument that names no concrete type, the earliest such; a result that
    /// names none; a user function with too few arguments; a table function
    /// without an item shape; a whole-batch implementation for a variadic
    /// function; a sink for a result that is neither text nor binary. The
    /// last two are errors whatever the path of the evaluation would be.
    pub open spec fn generation_error(self, u: UserShape) -> Option<ConfigError> {
        if self.first_bad_arg() is Some {
            Some(ConfigError::MalformedArgument(self.first_bad_arg()->0 as usize))
        } else if !self.ret_ok() {
            Some(ConfigError::MalformedReturn)
        } else if u.args_option.len() < self.arity() {
            Some(ConfigError::MissingArguments)
        } else if self.is_table_function && u.iterator_item_kind is None {
            Some(ConfigError::MissingItemShape)
        } else if self.batch_fn is Some && self.is_variadic() {
            Some(ConfigError::VariadicBatchFunction)
        } else if u.write && !self.returns_text_or_binary() {
            Some(ConfigError::WriterNeedsTextOrBinary)
        } else {
            None
        }
    }
}

/// Whether `p` is the call of the user function `u` for the descriptor `d`.
pub open spec fn calls(d: Descriptor, u: UserShape, p: CallPlan) -> bool {
    &&& p.function@ == u.name
    &&& p.inputs@ == Seq::new(d.arity() as nat, |i: int| input_step(d.arg_type(i)))
    &&& p.variadic == d.is_variadic()
    &&& p.context == u.context
    &&& p.writer == u.write
    &&& p.awaited == u.async_
}

/// Whether `e` is the evaluation of the descriptor `d` with the user function
/// `u`: it follows the path that `d` and `u` select, with the builder and the
/// append steps of the result type where the path builds the output.
pub open spec fn evaluates(d: Descriptor, u: UserShape, e: Evaluation) -> bool {
    &&& e.path() == d.path(u)
    &&& match e {
        Evaluation::Table { builder, append, item_shape, batch_size } => {
            &&& builds(d.ret_type(), builder)
            &&& append.wrap_items == (d.ret_type() is List)
            &&& appends_value(d.ret_type(), append.value)
            &&& appends_null(d.ret_type(), append.null)
            &&& Some(item_shape) == u.iterator_item_kind
            &&& batch_size == BATCH_SIZE
        },
        Evaluation::CustomBatch { function } => Some(function@) == d.batch_fn,
        Evaluation::Rows { builder, output } => {
            &&& builds(d.ret_type(), builder)
            &&& match output {
                RowOutput::Writer => u.write,
                RowOutput::Append(append) => {
                    &&& !u.write
                    &&& append.wrap_items == (d.ret_type() is List)
                    &&& appends_value(d.ret_type(), append.value)
                    &&& appends_null(d.ret_type(), append.null)
                },
            }
        },
        _ => true,
    }
}

/// Whether `p` is the plan named `name` for the descriptor `d` and the user
/// function `u`.
pub open spec fn plans(d: Descriptor, u: UserShape, name: Seq<char>, p: EvalPlan) -> bool {
    &&& p.name@ == name
    &&& p.column@ == d.name
    &&& p.downcasts@ == Seq::new(d.arity() as nat, |i: int| d.arg_type(i).array_kind()->0)
    &&& calls(d, u, p.call)
    &&& p.unwrap@ == Seq::new(d.arity() as nat, |i: int| !u.args_option[i])
    &&& p.shape == u.return_type_kind
    &&& p.has_error == u.has_error()
    &&& Some(p.return_array) == d.ret_type().array_kind()
    &&& Some(p.return_type@) == stored_as(d.ret_type())
    &&& evaluates(d, u, p.evaluation)
}

impl FunctionAttr {
    /// Decides [`Descriptor::is_variadic`].
    pub fn is_variadic(&self) -> (r: bool)
        ensures
            r == self@.is_variadic(),
    {
        let n = self.args.len();
        if n == 0 {
            return false;
        }
        proof {
            assert(self@.args.last() == self.args@[n - 1]@);
        }
        same_text(self.args[n - 1].as_str(), "...")
    }

    /// The types of the arguments before the variadic marker, or the first
    /// position that names no concrete type.
    fn parse_args(&self) -> (r: Result<Vec<LogicalType>, usize>)
        ensures
            match r {
                Ok(ts) => {
                    &&& self@.first_bad_arg() is None
                    &&& ts@.len() == self@.arity()
                    &&& forall|i: int|
                        0 <= i < ts@.len() ==> (#[trigger] ts@[i])@ == self@.arg_type(i)
                    &&& forall|i: int| 0 <= i < ts@.len() ==> #[trigger] self@.arg_ok(i)
                },
                Err(k) => self@.first_bad_arg() == Some(k as int),
            },
    {
        let variadic = self.is_variadic();
        let n: usize = if variadic {
            self.args.len() - 1
        } else {
            self.args.len()
        };
        let mut out: Vec<LogicalType> = Vec::new();
        let mut i: usize = 0;
        while i < n
            invariant
                n == self@.arity(),
                n <= self.args.len(),
                i <= n,
                out@.len() == i,
                forall|j: int| 0 <= j < i ==> (#[trigger] out@[j])@ == self@.arg_type(j),
                forall|j: int| 0 <= j < i ==> #[trigger] self@.arg_ok(j),
            decreases n - i,
        {
            proof {
                assert(self@.args[i as int] == self.args@[i as int]@);
            }
            match parse_type(self.args[i].as_str()) {
                Some(t) => {
                    if !t.is_concrete() {
                        proof {
                            self@.lemma_first_bad_arg(i as int);
                        }
                        return Err(i);
                    }
                    out.push(t);
                },
                None => {
                    proof {
                        self@.lemma_first_bad_arg(i as int);
                    }
                    return Err(i);
                },
            }
            i += 1;
        }
        Ok(out)
    }

    /// The plan of the evaluation routine named `eval_fn_name` for this
    /// descriptor and the user function `user_fn`.
    ///
    /// Fails exactly where [`Descriptor::generation_error`] names an error,
    /// with that error.
    pub fn generate_function(&self, user_fn: &UserFunctionAttr, eval_fn_name: &str) -> (r: Result<
        EvalPlan,
        ConfigError,
    >)
        ensures
            match r {
                Ok(p) => self@.generation_error(user_fn@) is None && plans(
                    self@,
                    user_fn@,
                    eval_fn_name@,
                    p,
                ),
                Err(e) => self@.generation_error(user_fn@) == Some(e),
            },
    {
        let variadic = self.is_variadic();
        let types = match self.parse_args() {
            Ok(ts) => ts,
            Err(k) => {
                return Err(ConfigError::MalformedArgument(k));
            },
        };
        let num_args = types.len();
        let ret = match parse_type(self.ret.as_str()) {
            Some(t) => t,
            None => {
                return Err(ConfigError::MalformedReturn);
            },
        };
        let (return_array, return_type) = match (ret.array_kind(), data_type(&ret)) {
            (Some(a), Some(d)) => (a, d),
            _ => {
                proof {
                    lemma_stored_iff_concrete(ret@);
                }
                return Err(ConfigError::MalformedReturn);
            },
        };
        proof {
            lemma_stored_iff_concrete(ret@);
        }
        if user_fn.args_option.len() < num_args {
            return Err(ConfigError::MissingArguments);
        }
        let mut downcasts: Vec<ArrayKind> = Vec::new();
        let mut inputs: Vec<InputTransform> = Vec::new();
        let mut unwrap: Vec<bool> = Vec::new();
        let mut all_primitive = true;
        let mut i: usize = 0;
        while i < num_args
            invariant
                num_args == types@.len(),
                num_args == self@.arity(),
                num_args <= user_fn.args_option@.len(),
                i <= num_args,
                forall|j: int|
                    0 <= j < types@.len() ==> (#[trigger] types@[j])@ == self@.arg_type(j),
                forall|j: int| 0 <= j < types@.len() ==> #[trigger] self@.arg_ok(j),
                downcasts@ == Seq::new(i as nat, |j: int| self@.arg_type(j).array_kind()->0),
                inputs@ == Seq::new(i as nat, |j: int| input_step(self@.arg_type(j))),
                unwrap@ == Seq::new(i as nat, |j: int| !user_fn@.args_option[j]),
                all_primitive == forall|j: int|
                    0 <= j < i ==> #[trigger] self@.arg_type(j).is_primitive(),
            decreases num_args - i,
        {
            let ty = &types[i];
            proof {
                assert(types@[i as int]@ == self@.arg_type(i as int));
                assert(self@.arg_ok(i as int));
            }
            match ty.array_kind() {
                Some(k) => {
                    downcasts.push(k);
                },
                None => {
                    proof {
                        assert(false);
                    }
                    return Err(ConfigError::MalformedArgument(i));
                },
            }
            inputs.push(transform_input(ty));
            unwrap.push(!user_fn.args_option[i]);
            if !ty.is_primitive() {
                all_primitive = false;
            }
            proof {
                assert(downcasts@ =~= Seq::new(
                    (i + 1) as nat,
                    |j: int| self@.arg_type(j).array_kind()->0,
                ));
                assert(inputs@ =~= Seq::new((i + 1) as nat, |j: int| input_step(self@.arg_type(j))));
                assert(unwrap@ =~= Seq::new((i + 1) as nat, |j: int| !user_fn@.args_option[j]));
            }
            i += 1;
        }
        let call = CallPlan {
            function: user_fn.name.clone(),
            inputs,
            variadic,
            context: user_fn.context,
            writer: user_fn.write,
            awaited: user_fn.async_,
        };
        let pure_fn = user_fn.is_pure();
        if self.is_table_function && user_fn.iterator_item_kind.is_none() {
            return Err(ConfigError::MissingItemShape);
        }
        if self.batch_fn.is_some() && variadic {
            return Err(ConfigError::VariadicBatchFunction);
        }
        let text = match &ret {
            LogicalType::Scalar(ScalarType::Varchar) => true,
            LogicalType::Scalar(ScalarType::Bytea) => true,
            _ => false,
        };
        if user_fn.write && !text {
            return Err(ConfigError::WriterNeedsTextOrBinary);
        }
        let evaluation = if self.is_table_function {
            let item_shape = match user_fn.iterator_item_kind {
                Some(k) => k,
                None => {
                    proof {
                        assert(false);
                    }
                    return Err(ConfigError::MissingItemShape);
                },
            };
            match (builder(&ret), gen_append(&ret)) {
                (Some(b), Some(append)) => Evaluation::Table {
                    builder: b,
                    append,
                    item_shape,
                    batch_size: BATCH_SIZE,
                },
                _ => {
                    proof {
                        assert(false);
                    }
                    return Err(ConfigError::MalformedReturn);
                },
            }
        } else if let Some(batch_fn) = &self.batch_fn {
            Evaluation::CustomBatch { function: batch_fn.clone() }
        } else if ret.is_primitive() && all_primitive && self.args.len() <= 2 && pure_fn
            && !variadic {
            if self.args.len() == 0 {
                Evaluation::Nullary
            } else if self.args.len() == 1 {
                Evaluation::Unary
            } else {
                Evaluation::Binary
            }
        } else {
            proof {
                if variadic {
                    let last = self@.args.len() - 1;
                    reveal_strlit("...");
                    assert(parsed(self@.args[last]) == keyword_type(
                        self@.args[last].subrange(0, 3),
                    )) by {
                        assert(self@.args[last].len() == 3);
                        assert(!is_list_name(self@.args[last], 0, 3));
                        assert(!is_struct_name(self@.args[last], 0, 3));
                    }
                }
            }
            let b = match builder(&ret) {
                Some(b) => b,
                None => {
                    proof {
                        assert(false);
                    }
                    return Err(ConfigError::MalformedReturn);
                },
            };
            let output = if user_fn.write {
                RowOutput::Writer
            } else {
                match gen_append(&ret) {
                    Some(append) => RowOutput::Append(append),
                    None => {
                        proof {
                            assert(false);
                        }
                        return Err(ConfigError::MalformedReturn);
                    },
                }
            };
            Evaluation::Rows { builder: b, output }
        };
        Ok(
            EvalPlan {
                name: eval_fn_name.to_owned(),
                column: self.name.clone(),
                downcasts,
                call,
                unwrap,
                shape: user_fn.return_type_kind,
                has_error: user_fn.has_error(),
                return_array,
                return_type,
                evaluation,
            },
        )
    }
}

impl Descriptor {
    /// The position `k` is the first bad argument when it is bad and every
    /// earlier one is good.
    pub proof fn lemma_first_bad_arg(self, k: int)
        requires
            0 <= k < self.arity(),
            !self.arg_ok(k),
            forall|j: int| 0 <= j < k ==> self.arg_ok(j),
        ensures
            self.first_bad_arg() == Some(k),
    {
        let c = choose|c: int|
            0 <= c < self.arity() && !self.arg_ok(c) && forall|j: int|
                0 <= j < c ==> self.arg_ok(j);
        assert(0 <= c < self.arity() && !self.arg_ok(c) && forall|j: int|
            0 <= j < c ==> self.arg_ok(j));
        if c < k {
            assert(self.arg_ok(c));
        }
        if k < c {
            assert(self.arg_ok(k));
        }
    }
}

/// The columns of the output of a plan: for a table function the index of
/// the input row first; then the value, under the function's name; then,
/// where the function may fail, the error text. Every column is nullable.
pub open spec fn output_schema(p: EvalPlan) -> Seq<FieldData> {
    let value = FieldData { name: p.column@, data_type: p.return_type@, nullable: true };
    let row = FieldData {
        name: "row"@,
        data_type: DataModel::Plain(PhysicalType::Int32),
        nullable: true,
    };
    let error = FieldData {
        name: "error"@,
        data_type: DataModel::Plain(PhysicalType::Utf8),
        nullable: true,
    };
    let head = if p.evaluation is Table {
        seq![row, value]
    } else {
        seq![value]
    };
    if p.has_error {
        head.push(error)
    } else {
        head
    }
}

impl EvalPlan {
    /// Whether a row that is answered with null without a call is given a
    /// null in the error column as well, so that the error column keeps one
    /// entry per row: where the output has an error column and one row per
    /// input row, which a table function has not.
    pub fn pads_error_on_skip(&self) -> (r: bool)
        ensures
            r == (self.has_error && !(self.evaluation is Table)),
    {
        match &self.evaluation {
            Evaluation::Table { .. } => false,
            _ => self.has_error,
        }
    }

    /// The columns of the output, as [`output_schema`] states them. There is
    /// an error column exactly when the plan says that the function may
    /// fail.
    pub fn schema(&self) -> (r: Vec<Field>)
        ensures
            fields_data(r@) == output_schema(*self),
    {
        let mut out: Vec<Field> = Vec::new();
        match &self.evaluation {
            Evaluation::Table { .. } => {
                out.push(
                    Field {
                        name: "row".to_owned(),
                        data_type: DataType::Plain(PhysicalType::Int32),
                        nullable: true,
                    },
                );
            },
            _ => {},
        }
        out.push(
            Field { name: self.column.clone(), data_type: self.return_type.clone(), nullable: true },
        );
        if self.has_error {
            out.push(
                Field {
                    name: "error".to_owned(),
                    data_type: DataType::Plain(PhysicalType::Utf8),
                    nullable: true,
                },
            );
        }
        proof {
            assert(fields_data(out@) =~= output_schema(*self));
        }
        out
    }
}

} // verus!
