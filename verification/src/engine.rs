//! Evaluation of a plan over a batch of rows.
//!
//! The user function is called once for every row whose arguments pass the
//! null gate. What it returns is projected onto a value cell and, where the
//! function may fail, an error cell. A failure is recorded in its row and
//! the evaluation goes on; a column of the wrong class ends it before any
//! row is looked at.
use crate::array::{admits, lemma_shaped_admits, Array};
use crate::datatype::DataModel;
use crate::descriptor::{Descriptor, ReturnShape, UserShape};
use crate::evaluator::{plans, EvalPlan, Evaluation};
use crate::types::ArrayKind;
use crate::value::{Returned, Value};
use vstd::prelude::*;

verus! {

/// An input column: its class, and one cell per row.
#[derive(Debug, PartialEq, Eq)]
pub struct Column {
    pub kind: ArrayKind,
    pub cells: Vec<Option<Value>>,
}

/// A batch of rows, column by column.
#[derive(Debug, PartialEq, Eq)]
pub struct RecordBatch {
    pub columns: Vec<Column>,
    pub num_rows: usize,
}

/// The output of a scalar function for one batch: one value per input row
/// and, where the function may fail, one error text per input row.
#[derive(Debug, PartialEq, Eq)]
pub struct ScalarOutput {
    pub values: Array,
    pub errors: Option<Vec<Option<String>>>,
    pub num_rows: usize,
}

/// Why an evaluation ended without output.
#[derive(Clone, Copy, PartialEq, Eq, Structural, Debug)]
pub enum EvalError {
    /// The plan is of another path than the one asked for, or its parts do
    /// not fit together.
    WrongPlan,
    /// The input holds no column of the expected class at this position.
    Cast(usize),
    /// The column at this position holds another number of rows than the
    /// batch.
    Ragged(usize),
    /// The function returned another shape than the plan states, in this
    /// row.
    ShapeMismatch(usize),
    /// The function returned a value that the output column does not take,
    /// in this row.
    TypeMismatch(usize),
    /// The batch holds more rows than a row index can number.
    TooManyRows,
    /// The whole-batch function returned a column of another number of rows
    /// than the batch.
    WrongLength,
}

/// The first fault among the columns from `j` on: a column that is missing
/// or of another class than the plan expects, or one whose length is not the
/// batch's.
pub open spec fn input_fault_from(kinds: Seq<ArrayKind>, input: RecordBatch, j: int) -> Option<
    EvalError,
>
    decreases kinds.len() - j,
{
    if j < 0 || j >= kinds.len() {
        None
    } else if j >= input.columns@.len() || input.columns@[j].kind != kinds[j] {
        Some(EvalError::Cast(j as usize))
    } else if input.columns@[j].cells@.len() != input.num_rows {
        Some(EvalError::Ragged(j as usize))
    } else {
        input_fault_from(kinds, input, j + 1)
    }
}

/// The first fault among the columns that the plan reads.
pub open spec fn input_fault(kinds: Seq<ArrayKind>, input: RecordBatch) -> Option<EvalError> {
    input_fault_from(kinds, input, 0)
}

/// Without a fault, every column that the plan reads is there, of the
/// expected class and of the batch's length.
pub proof fn lemma_no_fault(kinds: Seq<ArrayKind>, input: RecordBatch, j: int)
    requires
        0 <= j,
        input_fault_from(kinds, input, j) is None,
    ensures
        forall|k: int|
            j <= k < kinds.len() ==> k < input.columns@.len() && (#[trigger] input.columns@[k]).kind
                == kinds[k] && input.columns@[k].cells@.len() == input.num_rows,
    decreases kinds.len() - j,
{
    if j < kinds.len() {
        lemma_no_fault(kinds, input, j + 1);
    }
}

/// A fault of the input names a column: it is a failed cast or a ragged
/// column.
pub proof fn lemma_fault_kind(kinds: Seq<ArrayKind>, input: RecordBatch, j: int)
    ensures
        match input_fault_from(kinds, input, j) {
            Some(e) => e is Cast || e is Ragged,
            None => true,
        },
    decreases kinds.len() - j,
{
    if 0 <= j < kinds.len() {
        lemma_fault_kind(kinds, input, j + 1);
    }
}

/// The error text of row `i`: what the error column holds there, and null
/// where there is no error column.
pub open spec fn error_at(errors: Option<Vec<Option<String>>>, i: int) -> Option<String> {
    match errors {
        Some(es) => es@[i],
        None => None,
    }
}

/// The arguments of row `i`: the cells of the first `n` columns in that
/// row.
pub open spec fn arguments(input: RecordBatch, n: int, i: int) -> Seq<Option<Value>> {
    Seq::new(n as nat, |j: int| input.columns@[j].cells@[i])
}

/// Whether `row` refers to the arguments `args`, cell by cell.
pub open spec fn refers(row: Seq<Option<&Value>>, args: Seq<Option<Value>>) -> bool {
    row.len() == args.len() && forall|j: int|
        0 <= j < row.len() ==> match #[trigger] row[j] {
            Some(r) => args[j] == Some(*r),
            None => args[j] is None,
        }
}

/// Whether the null gate lets a row through: every argument that the user
/// function does not take null for is present.
pub open spec fn gate_open(unwrap: Seq<bool>, args: Seq<Option<Value>>) -> bool {
    forall|j: int| 0 <= j < unwrap.len() && j < args.len() && unwrap[j] ==> (#[trigger] args[j])
        is Some
}

/// Checks the columns that a plan reads, in order.
pub fn check_inputs(kinds: &Vec<ArrayKind>, input: &RecordBatch) -> (r: Result<(), EvalError>)
    ensures
        match r {
            Ok(_) => input_fault(kinds@, *input) is None,
            Err(e) => input_fault(kinds@, *input) == Some(e),
        },
{
    let mut j: usize = 0;
    while j < kinds.len()
        invariant
            j <= kinds.len(),
            input_fault(kinds@, *input) == input_fault_from(kinds@, *input, j as int),
        decreases kinds.len() - j,
    {
        if j >= input.columns.len() {
            return Err(EvalError::Cast(j));
        }
        if input.columns[j].kind != kinds[j] {
            return Err(EvalError::Cast(j));
        }
        if input.columns[j].cells.len() != input.num_rows {
            return Err(EvalError::Ragged(j));
        }
        j += 1;
    }
    Ok(())
}

/// The cells of row `i` in the first `n` columns.
pub fn row_at(input: &RecordBatch, n: usize, i: usize) -> (row: Vec<Option<&Value>>)
    requires
        n <= input.columns@.len(),
        forall|j: int| 0 <= j < n ==> i < (#[trigger] input.columns@[j]).cells@.len(),
    ensures
        refers(row@, arguments(*input, n as int, i as int)),
{
    let mut row: Vec<Option<&Value>> = Vec::new();
    let mut j: usize = 0;
    while j < n
        invariant
            j <= n <= input.columns@.len(),
            forall|j: int| 0 <= j < n ==> i < (#[trigger] input.columns@[j]).cells@.len(),
            row@.len() == j,
            forall|k: int|
                0 <= k < j ==> match #[trigger] row@[k] {
                    Some(r) => input.columns@[k].cells@[i as int] == Some(*r),
                    None => input.columns@[k].cells@[i as int] is None,
                },
        decreases n - j,
    {
        let cell: Option<&Value> = match &input.columns[j].cells[i] {
            Some(v) => Some(v),
            None => None,
        };
        row.push(cell);
        j += 1;
    }
    row
}

/// Whether no row of the batch passes the null gate, so that no call is
/// made.
pub open spec fn every_row_gated(unwrap: Seq<bool>, input: RecordBatch, n: int) -> bool {
    forall|i: int| 0 <= i < input.num_rows ==> !gate_open(unwrap, #[trigger] arguments(input, n, i))
}

/// Decides [`gate_open`] for a row.
pub fn passes_gate(unwrap: &Vec<bool>, row: &Vec<Option<&Value>>) -> (r: bool)
    ensures
        forall|args: Seq<Option<Value>>| refers(row@, args) ==> r == gate_open(unwrap@, args),
{
    let mut j: usize = 0;
    while j < unwrap.len() && j < row.len()
        invariant
            j <= unwrap.len(),
            j <= row.len(),
            forall|k: int| 0 <= k < j && unwrap@[k] ==> (#[trigger] row@[k]) is Some,
        decreases unwrap.len() - j,
    {
        if unwrap[j] && row[j].is_none() {
            proof {
                assert forall|args: Seq<Option<Value>>| refers(row@, args) implies !gate_open(
                    unwrap@,
                    args,
                ) by {
                    assert(row@[j as int] is None);
                    assert(args[j as int] is None);
                }
            }
            return false;
        }
        j += 1;
    }
    proof {
        assert forall|args: Seq<Option<Value>>| refers(row@, args) implies gate_open(
            unwrap@,
            args,
        ) by {
            assert forall|k: int| 0 <= k < unwrap@.len() && k < args.len() && unwrap@[k] implies (
            #[trigger] args[k]) is Some by {
                assert(row@[k] is Some);
            }
        }
    }
    true
}

/// Whether row `i` of the output is what the evaluation of the arguments
/// `args` stores: where the arguments do not pass the null gate, a null value
/// and a null error; where they pass, the projection of what a call of `f`
/// on the arguments returned, which is of the shape `shape`.
pub open spec fn row_stored<F: Fn(&Vec<Option<&Value>>) -> Returned<Value>>(
    f: F,
    unwrap: Seq<bool>,
    shape: ReturnShape,
    args: Seq<Option<Value>>,
    values: Array,
    error: Option<String>,
    i: int,
) -> bool {
    if gate_open(unwrap, args) {
        exists|row: Vec<Option<&Value>>, ret: Returned<Value>|
            {
                &&& refers(row@, args)
                &&& call_ensures(f, (&row,), ret)
                &&& ret.spec_shape() == shape
                &&& values.holds(i, ret.yielded())
                &&& error == ret.failure()
            }
    } else {
        values.holds(i, None) && error is None
    }
}

/// Whether the evaluation of the arguments `args` of row `i` fails with `e`:
/// a call of `f` on the arguments returned another shape than `shape`, or a
/// value that the type `d` does not take.
pub open spec fn row_fails<F: Fn(&Vec<Option<&Value>>) -> Returned<Value>>(
    f: F,
    shape: ReturnShape,
    d: DataModel,
    args: Seq<Option<Value>>,
    e: EvalError,
    i: usize,
) -> bool {
    exists|row: Vec<Option<&Value>>, ret: Returned<Value>|
        {
            &&& refers(row@, args)
            &&& call_ensures(f, (&row,), ret)
            &&& if ret.spec_shape() != shape {
                e == EvalError::ShapeMismatch(i)
            } else {
                ret.yielded() is Some && !admits(d, ret.yielded()->0) && e
                    == EvalError::TypeMismatch(i)
            }
        }
}

/// Why a plan cannot be evaluated row by row into one output batch, if so:
/// it streams or forwards whole batches, or it reads another number of
/// columns than it gates, or its function may fail and it has no error
/// column.
pub open spec fn unfit_for_rows(plan: EvalPlan) -> bool {
    ||| plan.evaluation is Table
    ||| plan.evaluation is CustomBatch
    ||| plan.unwrap@.len() != plan.downcasts@.len()
    ||| (plan.shape.may_fail() && !plan.has_error)
}

/// The plan that is generated for a scalar function without a whole-batch
/// implementation can be evaluated row by row.
pub proof fn lemma_generated_plan_fits_rows(
    d: Descriptor,
    u: UserShape,
    name: Seq<char>,
    plan: EvalPlan,
)
    requires
        plans(d, u, name, plan),
        !d.is_table_function,
        d.batch_fn is None,
        d.generation_error(u) is None,
    ensures
        !unfit_for_rows(plan),
{
}

/// Evaluates a scalar plan over `input` with the user function `f`.
///
/// The vectorized paths and the row loop give the same output: the user
/// function of a vectorized plan takes no null and cannot fail, so a row
/// with a null argument is answered with null, and every other row with the
/// function's value.
///
/// Fails with `WrongPlan` exactly for a plan that is unfit; else with a
/// cast error or a ragged column exactly where the input has that fault,
/// the first one, before any call. Beyond that only what the user function
/// returns can fail the evaluation: a result of another shape than the plan
/// states, or a value that the output column does not take, fails it at
/// that row, so that a batch of which no row passes the null gate always
/// succeeds. Failures of the user function end up in the error column and
/// do not fail the evaluation.
pub fn eval_scalar<F: Fn(&Vec<Option<&Value>>) -> Returned<Value>>(
    plan: &EvalPlan,
    f: &F,
    input: &RecordBatch,
) -> (r: Result<ScalarOutput, EvalError>)
    requires
        forall|row: &Vec<Option<&Value>>| call_requires(*f, (row,)),
    ensures
        unfit_for_rows(*plan) <==> r == Err::<ScalarOutput, EvalError>(EvalError::WrongPlan),
        !unfit_for_rows(*plan) && input_fault(plan.downcasts@, *input) is Some ==> r == Err::<
            ScalarOutput,
            EvalError,
        >(input_fault(plan.downcasts@, *input)->0),
        r is Err && (r->Err_0 is Cast || r->Err_0 is Ragged) ==> !unfit_for_rows(*plan)
            && input_fault(plan.downcasts@, *input) == Some(r->Err_0),
        !unfit_for_rows(*plan) && input_fault(plan.downcasts@, *input) is None && every_row_gated(
            plan.unwrap@,
            *input,
            plan.downcasts@.len() as int,
        ) ==> r is Ok,
        match r {
            Ok(out) => {
                &&& input_fault(plan.downcasts@, *input) is None
                &&& out.num_rows == input.num_rows
                &&& out.values.well_formed()
                &&& out.values.rows() == input.num_rows
                &&& out.values.shaped(plan.return_type@)
                &&& out.errors is Some == plan.has_error
                &&& out.errors is Some ==> out.errors->0@.len() == input.num_rows
                &&& forall|i: int|
                    0 <= i < input.num_rows ==> row_stored(
                        *f,
                        plan.unwrap@,
                        plan.shape,
                        arguments(*input, plan.downcasts@.len() as int, i),
                        out.values,
                        #[trigger] error_at(out.errors, i),
                        i,
                    )
            },
            Err(EvalError::ShapeMismatch(i)) | Err(EvalError::TypeMismatch(i)) => {
                &&& !unfit_for_rows(*plan)
                &&& input_fault(plan.downcasts@, *input) is None
                &&& i < input.num_rows
                &&& gate_open(plan.unwrap@, arguments(*input, plan.downcasts@.len() as int, i as int))
                &&& row_fails(
                    *f,
                    plan.shape,
                    plan.return_type@,
                    arguments(*input, plan.downcasts@.len() as int, i as int),
                    r->Err_0,
                    i,
                )
            },
            Err(EvalError::TooManyRows) | Err(EvalError::WrongLength) => false,
            Err(EvalError::WrongPlan) => unfit_for_rows(*plan),
            Err(EvalError::Cast(_)) | Err(EvalError::Ragged(_)) => input_fault(
                plan.downcasts@,
                *input,
            ) == Some(r->Err_0),
        },
{
    match &plan.evaluation {
        Evaluation::Table { .. } => {
            return Err(EvalError::WrongPlan);
        },
        Evaluation::CustomBatch { .. } => {
            return Err(EvalError::WrongPlan);
        },
        _ => {},
    }
    let n = plan.downcasts.len();
    if plan.unwrap.len() != n || (plan.shape.is_result() && !plan.has_error) {
        return Err(EvalError::WrongPlan);
    }
    match check_inputs(&plan.downcasts, input) {
        Ok(_) => {},
        Err(e) => {
            proof {
                lemma_fault_kind(plan.downcasts@, *input, 0);
            }
            return Err(e);
        },
    }
    proof {
        lemma_fault_kind(plan.downcasts@, *input, 0);
        lemma_no_fault(plan.downcasts@, *input, 0);
        if n > 0 {
            assert(input.columns@[n - 1].kind == plan.downcasts@[n - 1]);
        }
    }
    let mut values = Array::new(&plan.return_type);
    let mut errors: Vec<Option<String>> = Vec::new();
    let mut i: usize = 0;
    while i < input.num_rows
        invariant
            forall|row: &Vec<Option<&Value>>| call_requires(*f, (row,)),
            !unfit_for_rows(*plan),
            input_fault(plan.downcasts@, *input) is None,
            n == plan.downcasts@.len(),
            n <= input.columns@.len(),
            forall|k: int|
                0 <= k < n ==> k < input.columns@.len() && (#[trigger] input.columns@[k]).cells@.len()
                    == input.num_rows,
            i <= input.num_rows,
            values.well_formed(),
            values.rows() == i,
            values.shaped(plan.return_type@),
            errors@.len() == i,
            !plan.has_error ==> forall|k: int| 0 <= k < i ==> (#[trigger] errors@[k]) is None,
            forall|k: int|
                0 <= k < i ==> row_stored(
                    *f,
                    plan.unwrap@,
                    plan.shape,
                    arguments(*input, n as int, k),
                    values,
                    #[trigger] errors@[k],
                    k,
                ),
        decreases input.num_rows - i,
    {
        let ghost before = values;
        let ghost errors_before = errors@;
        let ghost args = arguments(*input, n as int, i as int);
        let row = row_at(input, n, i);
        if !passes_gate(&plan.unwrap, &row) {
            values.append_null();
            errors.push(None);
        } else {
            let ret = f(&row);
            let ghost returned = ret;
            if ret.shape() != plan.shape {
                proof {
                    assert(refers(row@, args) && call_ensures(*f, (&row,), returned)
                        && returned.spec_shape() != plan.shape);
                }
                return Err(EvalError::ShapeMismatch(i));
            }
            let cell = ret.project();
            match cell.value {
                Some(v) => {
                    if !values.takes(&v) {
                        proof {
                            lemma_shaped_admits(values, plan.return_type@, v);
                            assert(refers(row@, args) && call_ensures(*f, (&row,), returned)
                                && returned.spec_shape() == plan.shape && returned.yielded()
                                is Some && !admits(plan.return_type@, returned.yielded()->0));
                        }
                        return Err(EvalError::TypeMismatch(i));
                    }
                    values.append_value(v);
                },
                None => {
                    values.append_null();
                },
            }
            errors.push(cell.error);
            proof {
                assert(refers(row@, args) && call_ensures(*f, (&row,), returned)
                    && returned.spec_shape() == plan.shape && values.holds(
                    i as int,
                    returned.yielded(),
                ) && errors@[i as int] == returned.failure());
                assert(row_stored(
                    *f,
                    plan.unwrap@,
                    plan.shape,
                    args,
                    values,
                    errors@[i as int],
                    i as int,
                ));
            }
        }
        proof {
            before.lemma_extended_shaped(values, plan.return_type@);
            assert forall|k: int| 0 <= k < i implies row_stored(
                *f,
                plan.unwrap@,
                plan.shape,
                arguments(*input, n as int, k),
                values,
                #[trigger] errors@[k],
                k,
            ) by {
                let a = arguments(*input, n as int, k);
                assert(errors@[k] == errors_before[k]);
                assert(row_stored(*f, plan.unwrap@, plan.shape, a, before, errors_before[k], k));
                if gate_open(plan.unwrap@, a) {
                    let (row0, ret0) = choose|row0: Vec<Option<&Value>>, ret0: Returned<Value>|
                        {
                            &&& refers(row0@, a)
                            &&& call_ensures(*f, (&row0,), ret0)
                            &&& ret0.spec_shape() == plan.shape
                            &&& before.holds(k, ret0.yielded())
                            &&& errors_before[k] == ret0.failure()
                        };
                    before.lemma_extended_holds(values, k, ret0.yielded());
                    assert(refers(row0@, a) && call_ensures(*f, (&row0,), ret0)
                        && ret0.spec_shape() == plan.shape && values.holds(k, ret0.yielded())
                        && errors@[k] == ret0.failure());
                } else {
                    before.lemma_extended_holds(values, k, None);
                }
            }
        }
        i += 1;
    }
    let ghost collected = errors@;
    let errors = if plan.has_error {
        Some(errors)
    } else {
        None
    };
    proof {
        assert forall|k: int| 0 <= k < input.num_rows implies row_stored(
            *f,
            plan.unwrap@,
            plan.shape,
            arguments(*input, n as int, k),
            values,
            #[trigger] error_at(errors, k),
            k,
        ) by {
            assert(error_at(errors, k) == collected[k]);
        }
    }
    Ok(ScalarOutput { values, errors, num_rows: input.num_rows })
}

/// Evaluates a plan of the whole-batch path over `input`: the
/// user-supplied function `h` is handed the batch, and the column it
/// returns is the output. No error column is filled on this path.
///
/// Fails with `WrongPlan` exactly for a plan of another path; else with a
/// cast error or a ragged column exactly where the input has that fault,
/// the first one, before the call; else with `WrongLength`, and only when
/// the returned column holds another number of rows than the batch.
pub fn eval_batch<H: Fn(&RecordBatch) -> Array>(plan: &EvalPlan, h: &H, input: &RecordBatch) -> (r:
    Result<ScalarOutput, EvalError>)
    requires
        forall|batch: &RecordBatch| call_requires(*h, (batch,)),
    ensures
        !(plan.evaluation is CustomBatch) <==> r == Err::<ScalarOutput, EvalError>(
            EvalError::WrongPlan,
        ),
        plan.evaluation is CustomBatch && input_fault(plan.downcasts@, *input) is Some ==> r
            == Err::<ScalarOutput, EvalError>(input_fault(plan.downcasts@, *input)->0),
        r is Err && (r->Err_0 is Cast || r->Err_0 is Ragged) ==> plan.evaluation is CustomBatch
            && input_fault(plan.downcasts@, *input) == Some(r->Err_0),
        match r {
            Ok(out) => {
                &&& input_fault(plan.downcasts@, *input) is None
                &&& call_ensures(*h, (input,), out.values)
                &&& out.values.rows() == input.num_rows
                &&& out.num_rows == input.num_rows
                &&& out.errors is None
            },
            Err(EvalError::WrongLength) => {
                &&& plan.evaluation is CustomBatch
                &&& input_fault(plan.downcasts@, *input) is None
                &&& exists|column: Array|
                    call_ensures(*h, (input,), column) && column.rows() != input.num_rows
            },
            Err(EvalError::WrongPlan) => !(plan.evaluation is CustomBatch),
            Err(EvalError::Cast(_)) | Err(EvalError::Ragged(_)) => input_fault(
                plan.downcasts@,
                *input,
            ) == Some(r->Err_0),
            Err(_) => false,
        },
{
    match &plan.evaluation {
        Evaluation::CustomBatch { .. } => {},
        _ => {
            return Err(EvalError::WrongPlan);
        },
    }
    match check_inputs(&plan.downcasts, input) {
        Ok(_) => {},
        Err(e) => {
            proof {
                lemma_fault_kind(plan.downcasts@, *input, 0);
            }
            return Err(e);
        },
    }
    proof {
        lemma_fault_kind(plan.downcasts@, *input, 0);
    }
    let values = h(input);
    if values.len() != input.num_rows {
        return Err(EvalError::WrongLength);
    }
    Ok(ScalarOutput { values, errors: None, num_rows: input.num_rows })
}

} // verus!
