//! The batches that a table function's rows are emitted in.
//!
//! Every item that a table function yields becomes one output row: the index
//! of the input row it came from, the item's value and the item's error. The
//! rows are emitted in batches of at most [`BATCH_SIZE`] rows: a batch is
//! flushed as soon as it is full, and what is left at the end is flushed as
//! a last, shorter batch. [`TableStream`] holds the batch under construction
//! and takes one row at a time; [`batches_of`] and [`eval_table`] run it
//! over all rows.
use crate::array::{admits, lemma_shaped_admits, Array};
use crate::datatype::{DataModel, DataType};
use crate::descriptor::{Descriptor, ReturnShape, UserShape};
use crate::engine::{arguments, check_inputs, every_row_gated, gate_open, input_fault};
use crate::engine::passes_gate;
use crate::engine::{lemma_fault_kind, lemma_no_fault, refers, row_at};
use crate::engine::{EvalError, RecordBatch};
use crate::evaluator::{plans, EvalPlan, Evaluation, BATCH_SIZE};
use crate::stream::{chunks, lemma_chunks_index, lemma_chunks_len, lemma_chunks_sizes, reversed};
use crate::value::{Returned, Value};
use vstd::prelude::*;

verus! {

/// One output row of a table function.
#[derive(Debug, PartialEq, Eq)]
pub struct TableRow {
    /// The index of the input row.
    pub row: usize,
    /// The item's value, or null.
    pub value: Option<Value>,
    /// The text of the item's error, or null.
    pub error: Option<String>,
}

/// One batch of output rows, column by column.
#[derive(Debug, PartialEq, Eq)]
pub struct TableBatch {
    /// The indices of the input rows.
    pub rows: Vec<i32>,
    /// The values.
    pub values: Array,
    /// The error texts, where the function or its items may fail.
    pub errors: Option<Vec<Option<String>>>,
}

/// The error text that a batch stores for a row: the row's own where the
/// batch has an error column, and none where it has not.
pub open spec fn kept_error(has_error: bool, row: TableRow) -> Option<String> {
    if has_error {
        row.error
    } else {
        None
    }
}

/// Whether position `j` of the columns holds the output row `row`.
pub open spec fn slot_holds(
    index: Seq<i32>,
    values: Array,
    errors: Seq<Option<String>>,
    j: int,
    row: TableRow,
    has_error: bool,
) -> bool {
    &&& 0 <= j < index.len()
    &&& j < errors.len()
    &&& index[j] as int == row.row
    &&& values.holds(j, row.value)
    &&& errors[j] == kept_error(has_error, row)
}

/// The error texts of a batch, one per row: nulls where the batch has no
/// error column.
pub open spec fn error_cells(batch: TableBatch) -> Seq<Option<String>> {
    match batch.errors {
        Some(es) => es@,
        None => Seq::new(batch.rows@.len(), |j: int| None),
    }
}

/// Whether `batch` holds exactly the rows `rows`, in order.
pub open spec fn represents(batch: TableBatch, rows: Seq<TableRow>, has_error: bool) -> bool {
    &&& batch.rows@.len() == rows.len()
    &&& batch.values.well_formed()
    &&& batch.values.rows() == rows.len()
    &&& batch.errors is Some == has_error
    &&& error_cells(batch).len() == rows.len()
    &&& forall|j: int|
        0 <= j < rows.len() ==> slot_holds(
            batch.rows@,
            batch.values,
            error_cells(batch),
            j,
            #[trigger] rows[j],
            has_error,
        )
}

/// The fault of one output row for values of the type `d`, if it has one:
/// an index that is too large to be stored, or a value that the type does
/// not take.
pub open spec fn fault_of(row: TableRow, d: DataModel) -> Option<EvalError> {
    if row.row > i32::MAX {
        Some(EvalError::TooManyRows)
    } else if row.value is Some && !admits(d, row.value->0) {
        Some(EvalError::TypeMismatch(row.row))
    } else {
        None
    }
}

/// The first fault among the rows from `j` on.
pub open spec fn row_fault_from(rows: Seq<TableRow>, d: DataModel, j: int) -> Option<EvalError>
    decreases rows.len() - j,
{
    if j < 0 || j >= rows.len() {
        None
    } else if fault_of(rows[j], d) is Some {
        fault_of(rows[j], d)
    } else {
        row_fault_from(rows, d, j + 1)
    }
}

/// The first fault among the rows.
pub open spec fn row_fault(rows: Seq<TableRow>, d: DataModel) -> Option<EvalError> {
    row_fault_from(rows, d, 0)
}

/// A fault of the rows is an index that is too large or a value that is not
/// taken.
pub proof fn lemma_row_fault_kind(rows: Seq<TableRow>, d: DataModel, j: int)
    ensures
        match row_fault_from(rows, d, j) {
            Some(e) => e is TooManyRows || e is TypeMismatch,
            None => true,
        },
    decreases rows.len() - j,
{
    if 0 <= j < rows.len() {
        lemma_row_fault_kind(rows, d, j + 1);
    }
}

/// The batch under construction of a table function: the output rows that
/// were appended since the last flush.
#[derive(Debug, PartialEq, Eq)]
pub struct TableStream {
    /// The indices of the input rows.
    pub index: Vec<i32>,
    /// The values.
    pub values: Array,
    /// The error texts.
    pub errors: Vec<Option<String>>,
    /// Whether a flushed batch has an error column.
    pub has_error: bool,
    /// The type of the values.
    pub data_type: DataType,
}

impl TableStream {
    /// Whether the three columns are in step, of the form of the type, and
    /// not yet full.
    pub open spec fn well_formed(self) -> bool {
        &&& self.values.well_formed()
        &&& self.values.shaped(self.data_type@)
        &&& self.values.rows() == self.index@.len()
        &&& self.errors@.len() == self.index@.len()
        &&& self.index@.len() < 1024
    }

    /// Whether the batch under construction holds exactly the rows `rows`,
    /// in order.
    pub open spec fn holding(self, rows: Seq<TableRow>) -> bool {
        &&& rows.len() == self.index@.len()
        &&& forall|j: int|
            0 <= j < rows.len() ==> slot_holds(
                self.index@,
                self.values,
                self.errors@,
                j,
                #[trigger] rows[j],
                self.has_error,
            )
    }

    /// A stream for values of the type `d` that holds no row.
    pub fn new(d: &DataType, has_error: bool) -> (r: TableStream)
        ensures
            r.well_formed(),
            r.holding(Seq::empty()),
            r.has_error == has_error,
            r.data_type@ == d@,
    {
        let values = Array::new(d);
        TableStream {
            index: Vec::new(),
            values,
            errors: Vec::new(),
            has_error,
            data_type: d.clone(),
        }
    }

    /// The number of rows in the batch under construction.
    pub fn len(&self) -> (r: usize)
        ensures
            r == self.index@.len(),
    {
        self.index.len()
    }

    /// Appends one output row, and flushes the batch if it is full with it.
    ///
    /// Returns the flushed batch of [`BATCH_SIZE`] rows, which are the rows
    /// held before and `row`, or nothing if the batch is not full yet. Fails
    /// exactly where `row` has a fault, with that fault, and appends nothing
    /// then.
    pub fn push(&mut self, row: TableRow) -> (r: Result<Option<TableBatch>, EvalError>)
        requires
            old(self).well_formed(),
        ensures
            final(self).well_formed(),
            final(self).has_error == old(self).has_error,
            final(self).data_type == old(self).data_type,
            match r {
                Ok(None) => {
                    &&& fault_of(row, old(self).data_type@) is None
                    &&& old(self).index@.len() + 1 < 1024
                    &&& final(self).index@.len() == old(self).index@.len() + 1
                    &&& forall|rows: Seq<TableRow>| #[trigger]
                        old(self).holding(rows) ==> final(self).holding(rows.push(row))
                },
                Ok(Some(batch)) => {
                    &&& fault_of(row, old(self).data_type@) is None
                    &&& old(self).index@.len() + 1 == 1024
                    &&& final(self).index@.len() == 0
                    &&& batch.values.shaped(old(self).data_type@)
                    &&& forall|rows: Seq<TableRow>| #[trigger]
                        old(self).holding(rows) ==> represents(
                            batch,
                            rows.push(row),
                            old(self).has_error,
                        )
                },
                Err(e) => fault_of(row, old(self).data_type@) == Some(e) && *final(self) == *old(
                    self,
                ),
            },
    {
        if row.row > i32::MAX as usize {
            return Err(EvalError::TooManyRows);
        }
        let ghost before = *self;
        let ghost taken = row;
        let has_error = self.has_error;
        match row.value {
            Some(v) => {
                proof {
                    lemma_shaped_admits(self.values, self.data_type@, v);
                }
                if !self.values.takes(&v) {
                    return Err(EvalError::TypeMismatch(row.row));
                }
                self.values.append_value(v);
            },
            None => {
                self.values.append_null();
            },
        }
        self.index.push(row.row as i32);
        self.errors.push(
            if has_error {
                row.error
            } else {
                None
            },
        );
        proof {
            before.values.lemma_extended_shaped(self.values, self.data_type@);
            assert forall|rows: Seq<TableRow>| #[trigger]
                before.holding(rows) implies self.holding(rows.push(taken)) by {
                let more = rows.push(taken);
                assert forall|j: int| 0 <= j < more.len() implies slot_holds(
                    self.index@,
                    self.values,
                    self.errors@,
                    j,
                    #[trigger] more[j],
                    has_error,
                ) by {
                    if j < rows.len() {
                        assert(more[j] == rows[j]);
                        assert(slot_holds(
                            before.index@,
                            before.values,
                            before.errors@,
                            j,
                            rows[j],
                            has_error,
                        ));
                        assert(self.index@[j] == before.index@[j]);
                        assert(self.errors@[j] == before.errors@[j]);
                        before.values.lemma_extended_holds(self.values, j, rows[j].value);
                    } else {
                        assert(more[j] == taken);
                    }
                }
            }
        }
        if self.index.len() < BATCH_SIZE {
            return Ok(None);
        }
        let ghost full = *self;
        let mut index: Vec<i32> = Vec::new();
        let mut values = Array::new(&self.data_type);
        let mut errors: Vec<Option<String>> = Vec::new();
        core::mem::swap(&mut self.index, &mut index);
        core::mem::swap(&mut self.values, &mut values);
        core::mem::swap(&mut self.errors, &mut errors);
        let batch = TableBatch {
            rows: index,
            values,
            errors: if has_error {
                Some(errors)
            } else {
                None
            },
        };
        proof {
            assert forall|rows: Seq<TableRow>| #[trigger]
                before.holding(rows) implies represents(batch, rows.push(taken), has_error) by {
                let more = rows.push(taken);
                assert(full.holding(more));
                assert forall|j: int| 0 <= j < more.len() implies slot_holds(
                    batch.rows@,
                    batch.values,
                    error_cells(batch),
                    j,
                    #[trigger] more[j],
                    has_error,
                ) by {
                    assert(slot_holds(
                        full.index@,
                        full.values,
                        full.errors@,
                        j,
                        more[j],
                        has_error,
                    ));
                }
            }
        }
        Ok(Some(batch))
    }

    /// Flushes what is left at the end.
    ///
    /// Returns the last batch, which holds the rows held before, or nothing
    /// if no row is held.
    pub fn finish(self) -> (r: Option<TableBatch>)
        requires
            self.well_formed(),
        ensures
            r is Some <==> self.index@.len() > 0,
            r is Some ==> r->0.values.shaped(self.data_type@),
            r is Some ==> forall|rows: Seq<TableRow>| #[trigger]
                self.holding(rows) ==> represents(r->0, rows, self.has_error),
    {
        if self.index.len() == 0 {
            return None;
        }
        let has_error = self.has_error;
        let ghost held = self;
        let batch = TableBatch {
            rows: self.index,
            values: self.values,
            errors: if has_error {
                Some(self.errors)
            } else {
                None
            },
        };
        proof {
            assert forall|rows: Seq<TableRow>| #[trigger]
                held.holding(rows) implies represents(batch, rows, has_error) by {
                assert forall|j: int| 0 <= j < rows.len() implies slot_holds(
                    batch.rows@,
                    batch.values,
                    error_cells(batch),
                    j,
                    #[trigger] rows[j],
                    has_error,
                ) by {
                    assert(slot_holds(
                        held.index@,
                        held.values,
                        held.errors@,
                        j,
                        rows[j],
                        has_error,
                    ));
                }
            }
        }
        Some(batch)
    }
}

/// Cuts `rows` into batches of at most [`BATCH_SIZE`] rows, which is 1024,
/// with values of the type `d`.
///
/// The batches hold the rows in order, in the stretches that [`chunks`]
/// states: every batch but the last is full, none is empty, and of no rows
/// there is no batch. Fails exactly where [`row_fault`] names a fault, with
/// that fault.
pub fn batches_of(rows: Vec<TableRow>, d: &DataType, has_error: bool) -> (r: Result<
    Vec<TableBatch>,
    EvalError,
>)
    ensures
        match r {
            Ok(batches) => {
                &&& row_fault(rows@, d@) is None
                &&& batches@.len() == chunks(rows@, 1024).len()
                &&& forall|k: int|
                    0 <= k < batches@.len() ==> represents(
                        #[trigger] batches@[k],
                        chunks(rows@, 1024)[k],
                        has_error,
                    )
                &&& forall|k: int|
                    0 <= k < batches@.len() ==> (#[trigger] batches@[k]).values.shaped(d@)
                &&& forall|k: int|
                    0 <= k < batches@.len() ==> 0 < (#[trigger] batches@[k]).rows@.len() <= 1024
                &&& forall|k: int|
                    0 <= k < batches@.len() - 1 ==> (#[trigger] batches@[k]).rows@.len() == 1024
                &&& rows@.len() == 0 ==> batches@.len() == 0
                &&& rows@.len() % 1024 != 0 ==> batches@.len() > 0 && batches@[batches@.len()
                    - 1].rows@.len() == rows@.len() % 1024
            },
            Err(e) => row_fault(rows@, d@) == Some(e),
        },
{
    let ghost all = rows@;
    let n = rows.len();
    let mut stack = reversed(rows);
    let mut batches: Vec<TableBatch> = Vec::new();
    let mut stream = TableStream::new(d, has_error);
    let mut c: usize = 0;
    proof {
        assert(all.subrange(0, 0) =~= Seq::empty());
    }
    while c < n
        invariant
            all == rows@,
            n == all.len(),
            c <= n,
            stack@.len() == n - c,
            forall|j: int| 0 <= j < stack@.len() ==> #[trigger] stack@[j] == all[n - 1 - j],
            row_fault(all, d@) == row_fault_from(all, d@, c as int),
            stream.well_formed(),
            stream.has_error == has_error,
            stream.data_type@ == d@,
            1024 * batches@.len() + stream.index@.len() == c,
            stream.holding(all.subrange(1024 * (batches@.len() as int), c as int)),
            forall|k: int|
                0 <= k < batches@.len() ==> represents(
                    #[trigger] batches@[k],
                    all.subrange(1024 * k, 1024 * (k + 1)),
                    has_error,
                ),
            forall|k: int| 0 <= k < batches@.len() ==> (#[trigger] batches@[k]).values.shaped(d@),
        decreases n - c,
    {
        let ghost start = 1024 * (batches@.len() as int);
        let ghost held = all.subrange(start, c as int);
        proof {
            assert(stack@[n - c - 1] == all[c as int]);
        }
        let row = match stack.pop() {
            Some(row) => row,
            None => {
                proof {
                    assert(false);
                }
                return Err(EvalError::TooManyRows);
            },
        };
        proof {
            assert(row == all[c as int]);
            assert(held.push(row) =~= all.subrange(start, c as int + 1));
        }
        match stream.push(row) {
            Ok(None) => {},
            Ok(Some(batch)) => {
                batches.push(batch);
                proof {
                    assert(all.subrange(1024 * (batches@.len() as int), c as int + 1) =~= Seq::empty());
                    assert(stream.holding(Seq::empty()));
                }
            },
            Err(e) => {
                return Err(e);
            },
        }
        c += 1;
    }
    let ghost full = batches@.len() as int;
    let ghost held = all.subrange(1024 * full, n as int);
    match stream.finish() {
        Some(batch) => {
            batches.push(batch);
        },
        None => {},
    }
    proof {
        lemma_chunks_len(all, 1024);
        lemma_chunks_sizes(all, 1024);
        let cs = chunks(all, 1024);
        assert(batches@.len() == cs.len());
        assert forall|k: int| 0 <= k < batches@.len() implies represents(
            #[trigger] batches@[k],
            cs[k],
            has_error,
        ) by {
            lemma_chunks_index(all, 1024, k);
            if k < full {
                assert(cs[k] == all.subrange(1024 * k, 1024 * (k + 1)));
            } else {
                assert(cs[k] == held);
            }
        }
        assert forall|k: int| 0 <= k < batches@.len() implies 0 < (
        #[trigger] batches@[k]).rows@.len() <= 1024 by {
            assert(represents(batches@[k], cs[k], has_error));
        }
        assert forall|k: int| 0 <= k < batches@.len() - 1 implies (
        #[trigger] batches@[k]).rows@.len() == 1024 by {
            assert(represents(batches@[k], cs[k], has_error));
        }
        if all.len() % 1024 != 0 {
            assert(represents(batches@[batches@.len() - 1], cs[cs.len() - 1], has_error));
        }
    }
    Ok(batches)
}

/// The output rows that come of the input row `row` when the user function
/// returned `ret`: for a failure one row with a null value and the
/// failure's text; for no value none; else one row for each item, with the
/// item's value and the item's error.
pub open spec fn emitted(row: usize, ret: Returned<Vec<Returned<Value>>>) -> Seq<TableRow> {
    if ret.failed() {
        seq![TableRow { row, value: None, error: ret.failure() }]
    } else {
        match ret.yielded() {
            None => Seq::empty(),
            Some(items) => Seq::new(
                items@.len(),
                |k: int| TableRow { row, value: items@[k].yielded(), error: items@[k].failure() },
            ),
        }
    }
}

/// Whether every item that `ret` yielded is of the shape `item_shape`.
pub open spec fn conforming(ret: Returned<Vec<Returned<Value>>>, item_shape: ReturnShape) -> bool {
    match ret.yielded() {
        Some(items) => forall|k: int|
            0 <= k < items@.len() ==> (#[trigger] items@[k]).spec_shape() == item_shape,
        None => true,
    }
}

/// Appends to `out` the output rows that come of the input row `row` when
/// the user function returned `ret`.
///
/// Fails exactly when an item is of another shape than `item_shape`, with a
/// shape mismatch at `row`.
pub fn emit_rows(
    row: usize,
    ret: Returned<Vec<Returned<Value>>>,
    item_shape: ReturnShape,
    out: &mut Vec<TableRow>,
) -> (r: Result<(), EvalError>)
    ensures
        match r {
            Ok(_) => conforming(ret, item_shape) && final(out)@ == old(out)@ + emitted(row, ret),
            Err(e) => !conforming(ret, item_shape) && e == EvalError::ShapeMismatch(row),
        },
{
    let ghost before = out@;
    let cell = ret.project();
    match cell.error {
        Some(e) => {
            out.push(TableRow { row, value: None, error: Some(e) });
            proof {
                assert(out@ =~= before + emitted(row, ret));
            }
            return Ok(());
        },
        None => {},
    }
    let items = match cell.value {
        Some(items) => items,
        None => {
            proof {
                assert(out@ =~= before + emitted(row, ret));
            }
            return Ok(());
        },
    };
    let ghost all = items@;
    let n = items.len();
    let mut stack = reversed(items);
    let mut k: usize = 0;
    while k < n
        invariant
            !ret.failed(),
            ret.yielded() is Some,
            ret.yielded()->0@ == all,
            before == old(out)@,
            n == all.len(),
            k <= n,
            stack@.len() == n - k,
            forall|j: int| 0 <= j < stack@.len() ==> #[trigger] stack@[j] == all[n - 1 - j],
            forall|j: int| 0 <= j < k ==> (#[trigger] all[j]).spec_shape() == item_shape,
            out@.len() == before.len() + k,
            forall|j: int| 0 <= j < before.len() ==> out@[j] == before[j],
            forall|j: int|
                0 <= j < k ==> #[trigger] out@[before.len() + j] == (TableRow {
                    row,
                    value: all[j].yielded(),
                    error: all[j].failure(),
                }),
        decreases n - k,
    {
        proof {
            assert(stack@[n - k - 1] == all[k as int]);
        }
        let item = match stack.pop() {
            Some(item) => item,
            None => {
                proof {
                    assert(false);
                }
                return Err(EvalError::ShapeMismatch(row));
            },
        };
        if item.shape() != item_shape {
            proof {
                assert(all[k as int].spec_shape() != item_shape);
            }
            return Err(EvalError::ShapeMismatch(row));
        }
        let cell = item.project();
        out.push(TableRow { row, value: cell.value, error: cell.error });
        k += 1;
    }
    proof {
        let target = before + emitted(row, ret);
        assert(out@.len() == target.len());
        assert forall|i: int| 0 <= i < out@.len() implies out@[i] == target[i] by {
            if i >= before.len() {
                let j = i - before.len();
                assert(out@[before.len() + j] == (TableRow {
                    row,
                    value: all[j].yielded(),
                    error: all[j].failure(),
                }));
            }
        }
        assert(out@ =~= target);
    }
    Ok(())
}

/// Whether `part` holds the output rows of one input row with the arguments
/// `args`: none where the arguments do not pass the null gate; where they
/// pass, those that come of what a call of `g` on the arguments returned,
/// which is of the shape `shape` and yields items of the shape `item_shape`.
pub open spec fn part_of<G: Fn(&Vec<Option<&Value>>) -> Returned<Vec<Returned<Value>>>>(
    g: G,
    unwrap: Seq<bool>,
    shape: ReturnShape,
    item_shape: ReturnShape,
    args: Seq<Option<Value>>,
    row: usize,
    part: Seq<TableRow>,
) -> bool {
    if gate_open(unwrap, args) {
        exists|cells: Vec<Option<&Value>>, ret: Returned<Vec<Returned<Value>>>|
            {
                &&& refers(cells@, args)
                &&& call_ensures(g, (&cells,), ret)
                &&& ret.spec_shape() == shape
                &&& conforming(ret, item_shape)
                &&& part == emitted(row, ret)
            }
    } else {
        part.len() == 0
    }
}

/// Whether `all` holds the output rows of the first `upto` input rows, one
/// input row after the other.
pub open spec fn produced<G: Fn(&Vec<Option<&Value>>) -> Returned<Vec<Returned<Value>>>>(
    g: G,
    unwrap: Seq<bool>,
    shape: ReturnShape,
    item_shape: ReturnShape,
    input: RecordBatch,
    upto: int,
    all: Seq<TableRow>,
) -> bool
    decreases upto,
{
    if upto <= 0 {
        all.len() == 0
    } else {
        exists|cut: int|
            {
                &&& 0 <= cut <= all.len()
                &&& produced(g, unwrap, shape, item_shape, input, upto - 1, all.take(cut))
                &&& part_of(
                    g,
                    unwrap,
                    shape,
                    item_shape,
                    arguments(input, unwrap.len() as int, upto - 1),
                    (upto - 1) as usize,
                    all.skip(cut),
                )
            }
    }
}

/// Whether the evaluation of the arguments `args` of a row fails on a shape:
/// a call of `g` on the arguments returned another shape than `shape`, or an
/// item of another shape than `item_shape`.
pub open spec fn call_misshapen<G: Fn(&Vec<Option<&Value>>) -> Returned<Vec<Returned<Value>>>>(
    g: G,
    shape: ReturnShape,
    item_shape: ReturnShape,
    args: Seq<Option<Value>>,
) -> bool {
    exists|cells: Vec<Option<&Value>>, ret: Returned<Vec<Returned<Value>>>|
        {
            &&& refers(cells@, args)
            &&& call_ensures(g, (&cells,), ret)
            &&& (ret.spec_shape() != shape || !conforming(ret, item_shape))
        }
}

/// The shape of the items of a table plan.
pub open spec fn item_shape_of(plan: EvalPlan) -> ReturnShape {
    plan.evaluation->Table_item_shape
}

/// Whether a plan cannot be evaluated as a table function: it does not
/// stream, or it flushes at another number of rows than [`BATCH_SIZE`], or
/// it reads another number of columns than it gates, or its function or its
/// items may fail and it has no error column.
pub open spec fn unfit_for_table(plan: EvalPlan) -> bool {
    ||| !(plan.evaluation is Table)
    ||| plan.evaluation->Table_batch_size != 1024
    ||| plan.unwrap@.len() != plan.downcasts@.len()
    ||| ((plan.shape.may_fail() || item_shape_of(plan).may_fail()) && !plan.has_error)
}

/// The plan that is generated for a table function can be evaluated as one.
pub proof fn lemma_generated_plan_fits_table(
    d: Descriptor,
    u: UserShape,
    name: Seq<char>,
    plan: EvalPlan,
)
    requires
        plans(d, u, name, plan),
        d.is_table_function,
        d.generation_error(u) is None,
    ensures
        !unfit_for_table(plan),
        Some(item_shape_of(plan)) == u.iterator_item_kind,
{
}

/// Evaluates a table plan over `input` with the user function `g`, which
/// returns the items of one input row.
///
/// The output rows of all input rows, in order, are cut into batches as
/// [`batches_of`] states. The batches come back together; nothing is
/// emitted where the evaluation fails.
///
/// Fails with `WrongPlan` exactly for a plan that is unfit; else with a
/// cast error or a ragged column exactly where the input has that fault,
/// the first one; else with `TooManyRows` exactly for a batch of more rows
/// than a row index can number; all of this before any call. Beyond that
/// only what the user function returns can fail the evaluation: a result or
/// an item of another shape than the plan states, or a value that the
/// output column does not take, fails it at that row, so that a batch of
/// which no row passes the null gate always succeeds, with no batch.
pub fn eval_table<G: Fn(&Vec<Option<&Value>>) -> Returned<Vec<Returned<Value>>>>(
    plan: &EvalPlan,
    g: &G,
    input: &RecordBatch,
) -> (r: Result<Vec<TableBatch>, EvalError>)
    requires
        forall|cells: &Vec<Option<&Value>>| call_requires(*g, (cells,)),
    ensures
        unfit_for_table(*plan) <==> r == Err::<Vec<TableBatch>, EvalError>(EvalError::WrongPlan),
        !unfit_for_table(*plan) && input_fault(plan.downcasts@, *input) is Some ==> r == Err::<
            Vec<TableBatch>,
            EvalError,
        >(input_fault(plan.downcasts@, *input)->0),
        r is Err && (r->Err_0 is Cast || r->Err_0 is Ragged) ==> !unfit_for_table(*plan)
            && input_fault(plan.downcasts@, *input) == Some(r->Err_0),
        !unfit_for_table(*plan) && input_fault(plan.downcasts@, *input) is None ==> (input.num_rows
            > 0x8000_0000 <==> r == Err::<Vec<TableBatch>, EvalError>(EvalError::TooManyRows)),
        !unfit_for_table(*plan) && input_fault(plan.downcasts@, *input) is None && input.num_rows
            <= 0x8000_0000 && every_row_gated(plan.unwrap@, *input, plan.unwrap@.len() as int)
            ==> r is Ok && r->Ok_0@.len() == 0,
        match r {
            Ok(batches) => {
                &&& input_fault(plan.downcasts@, *input) is None
                &&& exists|all: Seq<TableRow>|
                    {
                        &&& produced(
                            *g,
                            plan.unwrap@,
                            plan.shape,
                            item_shape_of(*plan),
                            *input,
                            input.num_rows as int,
                            all,
                        )
                        &&& batches@.len() == chunks(all, 1024).len()
                        &&& forall|k: int|
                            0 <= k < batches@.len() ==> represents(
                                #[trigger] batches@[k],
                                chunks(all, 1024)[k],
                                plan.has_error,
                            )
                    }
                &&& forall|k: int|
                    0 <= k < batches@.len() ==> (#[trigger] batches@[k]).values.shaped(
                        plan.return_type@,
                    )
                &&& forall|k: int|
                    0 <= k < batches@.len() ==> 0 < (#[trigger] batches@[k]).rows@.len() <= 1024
                &&& forall|k: int|
                    0 <= k < batches@.len() - 1 ==> (#[trigger] batches@[k]).rows@.len() == 1024
            },
            Err(EvalError::ShapeMismatch(i)) => {
                &&& input_fault(plan.downcasts@, *input) is None
                &&& i < input.num_rows
                &&& gate_open(plan.unwrap@, arguments(*input, plan.unwrap@.len() as int, i as int))
                &&& call_misshapen(
                    *g,
                    plan.shape,
                    item_shape_of(*plan),
                    arguments(*input, plan.unwrap@.len() as int, i as int),
                )
            },
            Err(EvalError::TypeMismatch(i)) => {
                &&& input_fault(plan.downcasts@, *input) is None
                &&& i < input.num_rows
                &&& exists|all: Seq<TableRow>|
                    {
                        &&& produced(
                            *g,
                            plan.unwrap@,
                            plan.shape,
                            item_shape_of(*plan),
                            *input,
                            input.num_rows as int,
                            all,
                        )
                        &&& row_fault(all, plan.return_type@) == Some(EvalError::TypeMismatch(i))
                    }
            },
            Err(EvalError::WrongLength) => false,
            Err(EvalError::WrongPlan) => unfit_for_table(*plan),
            Err(EvalError::TooManyRows) => input_fault(plan.downcasts@, *input) is None
                && input.num_rows > 0x8000_0000,
            Err(EvalError::Cast(_)) | Err(EvalError::Ragged(_)) => input_fault(
                plan.downcasts@,
                *input,
            ) == Some(r->Err_0),
        },
{
    let item_shape = match &plan.evaluation {
        Evaluation::Table { item_shape, batch_size, .. } => {
            if *batch_size != BATCH_SIZE {
                return Err(EvalError::WrongPlan);
            }
            *item_shape
        },
        _ => {
            return Err(EvalError::WrongPlan);
        },
    };
    let n = plan.downcasts.len();
    if plan.unwrap.len() != n || ((plan.shape.is_result() || item_shape.is_result())
        && !plan.has_error) {
        return Err(EvalError::WrongPlan);
    }
    match check_inputs(&plan.downcasts, input) {
        Ok(_) => {},
        Err(e) => {
            proof {
                lemma_fault_kind(plan.downcasts@, *input, 0);
            }
            return Err(e);
        },
    }
    if input.num_rows > 0x8000_0000 {
        return Err(EvalError::TooManyRows);
    }
    proof {
        lemma_fault_kind(plan.downcasts@, *input, 0);
        lemma_no_fault(plan.downcasts@, *input, 0);
        if n > 0 {
            assert(input.columns@[n - 1].kind == plan.downcasts@[n - 1]);
        }
    }
    let mut rows: Vec<TableRow> = Vec::new();
    let mut i: usize = 0;
    while i < input.num_rows
        invariant
            forall|cells: &Vec<Option<&Value>>| call_requires(*g, (cells,)),
            !unfit_for_table(*plan),
            item_shape == item_shape_of(*plan),
            input_fault(plan.downcasts@, *input) is None,
            input.num_rows <= 0x8000_0000,
            n == plan.downcasts@.len(),
            n == plan.unwrap@.len(),
            n <= input.columns@.len(),
            forall|k: int|
                0 <= k < n ==> k < input.columns@.len() && (#[trigger] input.columns@[k]).cells@.len()
                    == input.num_rows,
            i <= input.num_rows,
            forall|j: int| 0 <= j < rows@.len() ==> (#[trigger] rows@[j]).row < i,
            every_row_gated(plan.unwrap@, *input, n as int) ==> rows@.len() == 0,
            produced(*g, plan.unwrap@, plan.shape, item_shape, *input, i as int, rows@),
        decreases input.num_rows - i,
    {
        let ghost before = rows@;
        let ghost args = arguments(*input, n as int, i as int);
        let cells = row_at(input, n, i);
        if passes_gate(&plan.unwrap, &cells) {
            let ret = g(&cells);
            let ghost returned = ret;
            if ret.shape() != plan.shape {
                proof {
                    assert(refers(cells@, args) && call_ensures(*g, (&cells,), returned) && (
                    returned.spec_shape() != plan.shape || !conforming(returned, item_shape)));
                }
                return Err(EvalError::ShapeMismatch(i));
            }
            match emit_rows(i, ret, item_shape, &mut rows) {
                Ok(_) => {},
                Err(e) => {
                    proof {
                        assert(refers(cells@, args) && call_ensures(*g, (&cells,), returned) && (
                        returned.spec_shape() != plan.shape || !conforming(returned, item_shape)));
                    }
                    return Err(e);
                },
            }
            proof {
                let cut = before.len() as int;
                assert(rows@.take(cut) =~= before);
                assert(rows@.skip(cut) =~= emitted(i, returned));
                assert(refers(cells@, args) && call_ensures(*g, (&cells,), returned)
                    && returned.spec_shape() == plan.shape && conforming(returned, item_shape)
                    && rows@.skip(cut) == emitted(i, returned));
                assert(part_of(
                    *g,
                    plan.unwrap@,
                    plan.shape,
                    item_shape,
                    args,
                    i,
                    rows@.skip(cut),
                ));
                assert forall|j: int| 0 <= j < rows@.len() implies (#[trigger] rows@[j]).row < i
                    + 1 by {
                    if j >= cut {
                        assert(rows@[j] == emitted(i, returned)[j - cut]);
                    } else {
                        assert(rows@[j] == before[j]);
                    }
                }
            }
        } else {
            proof {
                let cut = before.len() as int;
                assert(rows@.take(cut) =~= before);
                assert(rows@.skip(cut).len() == 0);
            }
        }
        proof {
            let cut = before.len() as int;
            assert(0 <= cut <= rows@.len() && produced(
                *g,
                plan.unwrap@,
                plan.shape,
                item_shape,
                *input,
                i as int,
                rows@.take(cut),
            ) && part_of(
                *g,
                plan.unwrap@,
                plan.shape,
                item_shape,
                arguments(*input, plan.unwrap@.len() as int, i as int),
                i,
                rows@.skip(cut),
            ));
        }
        i += 1;
    }
    let ghost all = rows@;
    proof {
        lemma_row_fault_kind(all, plan.return_type@, 0);
        lemma_row_fault_within(all, plan.return_type@, 0, input.num_rows as int);
    }
    match batches_of(rows, &plan.return_type, plan.has_error) {
        Ok(batches) => Ok(batches),
        Err(e) => Err(e),
    }
}

/// A fault among rows whose indices all lie below `bound`, where `bound` is
/// small enough to be stored, is a value that is not taken, at a row below
/// `bound`.
pub proof fn lemma_row_fault_within(rows: Seq<TableRow>, d: DataModel, j: int, bound: int)
    requires
        bound <= 0x8000_0000,
        forall|k: int| 0 <= k < rows.len() ==> (#[trigger] rows[k]).row < bound,
    ensures
        match row_fault_from(rows, d, j) {
            Some(EvalError::TypeMismatch(i)) => i < bound,
            Some(_) => false,
            None => true,
        },
    decreases rows.len() - j,
{
    if 0 <= j < rows.len() {
        assert(rows[j].row < bound);
        lemma_row_fault_within(rows, d, j + 1, bound);
    }
}

} // verus!
