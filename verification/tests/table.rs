use udf_binding::array::Array;
use udf_binding::datatype::DataType;
use udf_binding::descriptor::{FunctionAttr, ReturnShape, UserFunctionAttr};
use udf_binding::engine::{Column, EvalError, RecordBatch};
use udf_binding::evaluator::EvalPlan;
use udf_binding::table::{batches_of, emit_rows, eval_table, TableBatch, TableRow, TableStream};
use udf_binding::types::{ArrayKind, PhysicalType};
use udf_binding::value::{Returned, Value};

fn table_plan(shape: ReturnShape, item_shape: ReturnShape) -> EvalPlan {
    let d = FunctionAttr {
        name: "series".to_string(),
        args: vec!["int".to_string()],
        ret: "int".to_string(),
        is_table_function: true,
        batch_fn: None,
        type_infer: None,
        output: None,
    };
    let u = UserFunctionAttr {
        name: "user_series".to_string(),
        async_: false,
        context: false,
        write: false,
        args_option: vec![false],
        return_type_kind: shape,
        iterator_item_kind: Some(item_shape),
    };
    d.generate_function(&u, "eval").unwrap()
}

fn ints(cells: &[Option<i32>]) -> Column {
    Column {
        kind: ArrayKind::Plain(PhysicalType::Int32),
        cells: cells.iter().map(|c| c.map(Value::I32)).collect(),
    }
}

fn int_cells(cells: &[Option<i32>]) -> Array {
    Array::Cells {
        kind: ArrayKind::Plain(PhysicalType::Int32),
        cells: cells.iter().map(|c| c.map(Value::I32)).collect(),
    }
}

fn input(cells: &[Option<i32>]) -> RecordBatch {
    RecordBatch { columns: vec![ints(cells)], num_rows: cells.len() }
}

fn series(row: &Vec<Option<&Value>>) -> Returned<Vec<Returned<Value>>> {
    let n = match row[0] {
        Some(Value::I32(n)) => *n,
        other => panic!("{:?}", other),
    };
    Returned::Value((0..n).map(|i| Returned::Value(Value::I32(i))).collect())
}

fn int32() -> DataType {
    DataType::Plain(PhysicalType::Int32)
}

fn plain_rows(n: usize) -> Vec<TableRow> {
    (0..n)
        .map(|i| TableRow { row: i / 7, value: Some(Value::I32(i as i32)), error: None })
        .collect()
}

fn sizes(batches: &[TableBatch]) -> Vec<usize> {
    batches.iter().map(|b| b.rows.len()).collect()
}

#[test]
fn series_yields_row_index_and_value_pairs() {
    let p = table_plan(ReturnShape::Value, ReturnShape::Value);
    let out = eval_table(&p, &series, &input(&[Some(2), Some(0), Some(1)])).unwrap();
    assert_eq!(
        out,
        vec![TableBatch {
            rows: vec![0, 0, 2],
            values: int_cells(&[Some(0), Some(1), Some(0)]),
            errors: None,
        }]
    );
}

#[test]
fn no_items_yield_no_batch() {
    let p = table_plan(ReturnShape::Value, ReturnShape::Value);
    assert_eq!(eval_table(&p, &series, &input(&[Some(0), Some(0)])), Ok(vec![]));
    assert_eq!(eval_table(&p, &series, &input(&[])), Ok(vec![]));
    assert_eq!(eval_table(&p, &series, &input(&[None, None])), Ok(vec![]));
}

#[test]
fn batches_hold_at_most_1024_rows() {
    let p = table_plan(ReturnShape::Value, ReturnShape::Value);
    let out = eval_table(&p, &series, &input(&[Some(1000), None, Some(1500)])).unwrap();
    assert_eq!(sizes(&out), vec![1024, 1024, 452]);
    assert_eq!(out[0].rows[999], 0);
    assert_eq!(out[0].rows[1000], 2);
    assert_eq!(
        out[0].values,
        int_cells(&(0..1000).chain(0..24).map(Some).collect::<Vec<_>>())
    );
    assert_eq!(
        out[2].values,
        int_cells(&(1048..1500).map(Some).collect::<Vec<_>>())
    );
}

#[test]
fn multiple_of_1024_has_no_partial_batch() {
    assert_eq!(sizes(&batches_of(plain_rows(2048), &int32(), false).unwrap()), vec![1024, 1024]);
    assert_eq!(sizes(&batches_of(plain_rows(1024), &int32(), false).unwrap()), vec![1024]);
    assert_eq!(sizes(&batches_of(plain_rows(1025), &int32(), false).unwrap()), vec![1024, 1]);
    assert_eq!(sizes(&batches_of(plain_rows(1023), &int32(), false).unwrap()), vec![1023]);
    assert_eq!(sizes(&batches_of(plain_rows(1), &int32(), false).unwrap()), vec![1]);
    assert_eq!(batches_of(plain_rows(0), &int32(), false), Ok(vec![]));
}

#[test]
fn batches_keep_rows_in_order() {
    let out = batches_of(plain_rows(2500), &int32(), true).unwrap();
    let mut seen = 0usize;
    for b in &out {
        assert!(b.rows.len() <= 1024 && !b.rows.is_empty());
        assert_eq!(b.values.len(), b.rows.len());
        assert_eq!(b.errors.as_ref().unwrap().len(), b.rows.len());
        for (j, r) in b.rows.iter().enumerate() {
            assert_eq!(*r as usize, (seen + j) / 7);
        }
        assert_eq!(
            b.values,
            int_cells(&(seen..seen + b.rows.len()).map(|i| Some(i as i32)).collect::<Vec<_>>())
        );
        seen += b.rows.len();
    }
    assert_eq!(seen, 2500);
}

#[test]
fn failure_of_a_call_is_one_row_with_its_text() {
    let p = table_plan(ReturnShape::Fallible, ReturnShape::Value);
    let f = |row: &Vec<Option<&Value>>| match row[0] {
        Some(Value::I32(n)) if *n < 0 => Returned::Fallible(Err(format!("negative: {}", n))),
        Some(Value::I32(n)) => {
            Returned::Fallible(Ok((0..*n).map(|i| Returned::Value(Value::I32(i))).collect()))
        }
        other => panic!("{:?}", other),
    };
    let out = eval_table(&p, &f, &input(&[Some(1), Some(-3), None, Some(2)])).unwrap();
    assert_eq!(
        out,
        vec![TableBatch {
            rows: vec![0, 1, 3, 3],
            values: int_cells(&[Some(0), None, Some(0), Some(1)]),
            errors: Some(vec![None, Some("negative: -3".to_string()), None, None]),
        }]
    );
}

#[test]
fn failure_of_an_item_is_scoped_to_the_item() {
    let p = table_plan(ReturnShape::Optional, ReturnShape::FallibleOptional);
    let f = |row: &Vec<Option<&Value>>| match row[0] {
        Some(Value::I32(0)) => Returned::Optional(None),
        Some(Value::I32(_)) => Returned::Optional(Some(vec![
            Returned::FallibleOptional(Ok(Some(Value::I32(1)))),
            Returned::FallibleOptional(Err("bad item".to_string())),
            Returned::FallibleOptional(Ok(None)),
        ])),
        other => panic!("{:?}", other),
    };
    let out = eval_table(&p, &f, &input(&[Some(0), Some(5)])).unwrap();
    assert_eq!(
        out,
        vec![TableBatch {
            rows: vec![1, 1, 1],
            values: int_cells(&[Some(1), None, None]),
            errors: Some(vec![None, Some("bad item".to_string()), None]),
        }]
    );
}

#[test]
fn failure_rows_count_towards_the_batch_size() {
    let p = table_plan(ReturnShape::Fallible, ReturnShape::Value);
    let f = |row: &Vec<Option<&Value>>| match row[0] {
        Some(Value::I32(n)) if *n < 0 => Returned::Fallible(Err("failed".to_string())),
        Some(Value::I32(n)) => {
            Returned::Fallible(Ok((0..*n).map(|i| Returned::Value(Value::I32(i))).collect()))
        }
        other => panic!("{:?}", other),
    };
    let out = eval_table(&p, &f, &input(&[Some(1023), Some(-1), Some(3)])).unwrap();
    assert_eq!(sizes(&out), vec![1024, 3]);
    assert_eq!(out[0].errors.as_ref().unwrap()[1023], Some("failed".to_string()));
    assert_eq!(out[1].rows, vec![2, 2, 2]);
}

#[test]
fn emitted_rows_of_one_call() {
    let mut out = vec![TableRow { row: 0, value: None, error: None }];
    let ret = Returned::Value(vec![
        Returned::Optional(Some(Value::I32(1))),
        Returned::Optional(None),
    ]);
    assert_eq!(emit_rows(4, ret, ReturnShape::Optional, &mut out), Ok(()));
    assert_eq!(
        out,
        vec![
            TableRow { row: 0, value: None, error: None },
            TableRow { row: 4, value: Some(Value::I32(1)), error: None },
            TableRow { row: 4, value: None, error: None },
        ]
    );
    let ret = Returned::FallibleOptional(Ok(None));
    assert_eq!(emit_rows(5, ret, ReturnShape::Value, &mut out), Ok(()));
    assert_eq!(out.len(), 3);
    let ret = Returned::FallibleOptional(Err("e".to_string()));
    assert_eq!(emit_rows(6, ret, ReturnShape::Value, &mut out), Ok(()));
    assert_eq!(out[3], TableRow { row: 6, value: None, error: Some("e".to_string()) });
    let ret = Returned::Value(vec![Returned::Value(Value::I32(1)), Returned::Optional(None)]);
    assert_eq!(
        emit_rows(7, ret, ReturnShape::Value, &mut out),
        Err(EvalError::ShapeMismatch(7))
    );
}

#[test]
fn error_texts_are_dropped_without_an_error_column() {
    let rows = vec![TableRow { row: 0, value: None, error: Some("e".to_string()) }];
    assert_eq!(
        batches_of(rows, &int32(), false),
        Ok(vec![TableBatch { rows: vec![0], values: int_cells(&[None]), errors: None }])
    );
}

#[test]
fn faults_of_rows_are_reported_in_order() {
    let rows = vec![
        TableRow { row: 3, value: Some(Value::I32(1)), error: None },
        TableRow { row: 4, value: Some(Value::Text("x".to_string())), error: None },
        TableRow { row: usize::MAX, value: None, error: None },
    ];
    assert_eq!(batches_of(rows, &int32(), true), Err(EvalError::TypeMismatch(4)));
    let rows = vec![
        TableRow { row: (i32::MAX as usize) + 1, value: None, error: None },
        TableRow { row: 4, value: Some(Value::Text("x".to_string())), error: None },
    ];
    assert_eq!(batches_of(rows, &int32(), true), Err(EvalError::TooManyRows));
    let rows = vec![TableRow { row: i32::MAX as usize, value: None, error: None }];
    assert_eq!(batches_of(rows, &int32(), false).unwrap()[0].rows, vec![i32::MAX]);
}

#[test]
fn table_evaluation_checks_plan_and_input_first() {
    let p = table_plan(ReturnShape::Value, ReturnShape::Value);
    let wrong = RecordBatch {
        columns: vec![Column { kind: ArrayKind::Plain(PhysicalType::Int64), cells: vec![] }],
        num_rows: 0,
    };
    assert_eq!(eval_table(&p, &series, &wrong), Err(EvalError::Cast(0)));
    let mut q = table_plan(ReturnShape::Value, ReturnShape::Fallible);
    q.has_error = false;
    assert_eq!(eval_table(&q, &series, &input(&[])), Err(EvalError::WrongPlan));
    let shape = |_row: &Vec<Option<&Value>>| Returned::Optional(None);
    assert_eq!(
        eval_table(&p, &shape, &input(&[None, Some(1)])),
        Err(EvalError::ShapeMismatch(1))
    );
    let items = |_row: &Vec<Option<&Value>>| {
        Returned::Value(vec![Returned::Value(Value::I64(1))])
    };
    assert_eq!(
        eval_table(&p, &items, &input(&[Some(1)])),
        Err(EvalError::TypeMismatch(0))
    );
}

#[test]
fn scalar_plan_is_refused_by_table_evaluation() {
    let d = FunctionAttr {
        name: "f".to_string(),
        args: vec!["int".to_string()],
        ret: "int".to_string(),
        is_table_function: false,
        batch_fn: None,
        type_infer: None,
        output: None,
    };
    let u = UserFunctionAttr {
        name: "u".to_string(),
        async_: false,
        context: false,
        write: false,
        args_option: vec![false],
        return_type_kind: ReturnShape::Value,
        iterator_item_kind: None,
    };
    let p = d.generate_function(&u, "e").unwrap();
    assert_eq!(eval_table(&p, &series, &input(&[Some(1)])), Err(EvalError::WrongPlan));
}

#[test]
fn plan_with_another_batch_size_is_refused() {
    let mut p = table_plan(ReturnShape::Value, ReturnShape::Value);
    match &mut p.evaluation {
        udf_binding::evaluator::Evaluation::Table { batch_size, .. } => *batch_size = 10,
        other => panic!("{:?}", other),
    }
    assert_eq!(eval_table(&p, &series, &input(&[Some(1)])), Err(EvalError::WrongPlan));
}

#[test]
fn stream_flushes_exactly_when_full() {
    let mut stream = TableStream::new(&int32(), true);
    assert_eq!(stream.finish(), None);
    let mut stream = TableStream::new(&int32(), true);
    for i in 0..1023 {
        let row = TableRow { row: i, value: Some(Value::I32(i as i32)), error: None };
        assert_eq!(stream.push(row), Ok(None));
        assert_eq!(stream.len(), i + 1);
    }
    let last = TableRow { row: 1023, value: None, error: Some("late".to_string()) };
    let batch = stream.push(last).unwrap().unwrap();
    assert_eq!(batch.rows, (0..1024).collect::<Vec<i32>>());
    assert_eq!(batch.values.len(), 1024);
    assert_eq!(batch.errors.as_ref().unwrap()[1023], Some("late".to_string()));
    assert_eq!(batch.errors.as_ref().unwrap()[0], None);
    assert_eq!(stream.len(), 0);
    let row = TableRow { row: 7, value: Some(Value::I32(1)), error: None };
    assert_eq!(stream.push(row), Ok(None));
    assert_eq!(
        stream.finish(),
        Some(TableBatch { rows: vec![7], values: int_cells(&[Some(1)]), errors: Some(vec![None]) })
    );
}

#[test]
fn stream_refuses_a_faulty_row_and_keeps_its_rows() {
    let mut stream = TableStream::new(&int32(), false);
    let row = TableRow { row: 0, value: Some(Value::I32(5)), error: None };
    assert_eq!(stream.push(row), Ok(None));
    let bad = TableRow { row: 1, value: Some(Value::Bool(true)), error: None };
    assert_eq!(stream.push(bad), Err(EvalError::TypeMismatch(1)));
    let far = TableRow { row: usize::MAX, value: None, error: None };
    assert_eq!(stream.push(far), Err(EvalError::TooManyRows));
    assert_eq!(stream.len(), 1);
    assert_eq!(
        stream.finish(),
        Some(TableBatch { rows: vec![0], values: int_cells(&[Some(5)]), errors: None })
    );
}

#[test]
fn cast_error_comes_before_the_row_count() {
    let p = table_plan(ReturnShape::Value, ReturnShape::Value);
    let many = (1usize << 31) + 1;
    let wrong = RecordBatch {
        columns: vec![Column { kind: ArrayKind::Plain(PhysicalType::Int64), cells: vec![] }],
        num_rows: many,
    };
    assert_eq!(eval_table(&p, &series, &wrong), Err(EvalError::Cast(0)));
    let ragged = RecordBatch { columns: vec![ints(&[Some(1)])], num_rows: many };
    assert_eq!(eval_table(&p, &series, &ragged), Err(EvalError::Ragged(0)));
    let no_columns = EvalPlan { downcasts: vec![], unwrap: vec![], ..table_plan(ReturnShape::Value, ReturnShape::Value) };
    let empty = RecordBatch { columns: vec![], num_rows: many };
    let never = |_row: &Vec<Option<&Value>>| -> Returned<Vec<Returned<Value>>> { panic!("called") };
    assert_eq!(eval_table(&no_columns, &never, &empty), Err(EvalError::TooManyRows));
}

#[test]
fn division_with_a_gated_row() {
    let d = FunctionAttr {
        name: "div".to_string(),
        args: vec!["int".to_string(), "int".to_string()],
        ret: "int".to_string(),
        is_table_function: false,
        batch_fn: None,
        type_infer: None,
        output: None,
    };
    let u = UserFunctionAttr {
        name: "div".to_string(),
        async_: false,
        context: false,
        write: false,
        args_option: vec![false, false],
        return_type_kind: ReturnShape::Fallible,
        iterator_item_kind: None,
    };
    let p = d.generate_function(&u, "e").unwrap();
    let calls = std::cell::Cell::new(0);
    let div = |row: &Vec<Option<&Value>>| {
        calls.set(calls.get() + 1);
        match (row[0], row[1]) {
            (Some(Value::I32(_)), Some(Value::I32(0))) => {
                Returned::Fallible(Err("division by zero".to_string()))
            }
            (Some(Value::I32(a)), Some(Value::I32(b))) => Returned::Fallible(Ok(Value::I32(a / b))),
            other => panic!("{:?}", other),
        }
    };
    let input = RecordBatch {
        columns: vec![ints(&[Some(6), Some(1), Some(1)]), ints(&[Some(3), None, Some(0)])],
        num_rows: 3,
    };
    let out = udf_binding::engine::eval_scalar(&p, &div, &input).unwrap();
    assert_eq!(out.values, int_cells(&[Some(2), None, None]));
    assert_eq!(out.errors, Some(vec![None, None, Some("division by zero".to_string())]));
    assert_eq!(calls.get(), 2);
}
