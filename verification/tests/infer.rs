use udf_binding::datatype::{DataType, Field};
use udf_binding::descriptor::FunctionAttr;
use udf_binding::error::ConfigError;
use udf_binding::infer::{InferError, InferRule, TypeInfer};
use udf_binding::types::PhysicalType;

fn attr(args: &[&str], ret: &str) -> FunctionAttr {
    FunctionAttr {
        name: "f".to_string(),
        args: args.iter().map(|s| s.to_string()).collect(),
        ret: ret.to_string(),
        is_table_function: false,
        batch_fn: None,
        type_infer: None,
        output: None,
    }
}

fn int32() -> DataType {
    DataType::Plain(PhysicalType::Int32)
}

fn utf8() -> DataType {
    DataType::Plain(PhysicalType::Utf8)
}

fn list(d: DataType) -> DataType {
    DataType::List(Box::new(d))
}

#[test]
fn any_result_takes_type_of_first_any_argument() {
    let rule = attr(&["int", "any", "any"], "any").generate_type_infer_fn();
    assert_eq!(rule, Ok(TypeInfer::Rule(InferRule::SameAs(1))));
    let r = InferRule::SameAs(1);
    assert_eq!(r.infer(&vec![int32(), utf8(), int32()]), Ok(utf8()));
    assert_eq!(r.infer(&vec![utf8(), utf8(), list(int32())]), Ok(utf8()));
    assert_eq!(r.infer(&vec![utf8(), list(int32())]), Ok(list(int32())));
}

#[test]
fn any_result_falls_back_to_element_of_anyarray() {
    let rule = attr(&["int", "anyarray"], "any").generate_type_infer_fn();
    assert_eq!(rule, Ok(TypeInfer::Rule(InferRule::ElementOf(1))));
    let r = InferRule::ElementOf(1);
    assert_eq!(r.infer(&vec![int32(), list(utf8())]), Ok(utf8()));
    assert_eq!(r.infer(&vec![int32(), utf8()]), Err(InferError::NotAList(1)));
    assert_eq!(r.infer(&vec![int32()]), Err(InferError::MissingArgument(1)));
}

#[test]
fn any_takes_precedence_over_anyarray_for_any_result() {
    let rule = attr(&["anyarray", "any"], "any").generate_type_infer_fn();
    assert_eq!(rule, Ok(TypeInfer::Rule(InferRule::SameAs(1))));
}

#[test]
fn anyarray_result_takes_anyarray_then_list_of_any() {
    assert_eq!(
        attr(&["any", "anyarray"], "anyarray").generate_type_infer_fn(),
        Ok(TypeInfer::Rule(InferRule::SameAs(1)))
    );
    assert_eq!(
        attr(&["int", "any"], "anyarray").generate_type_infer_fn(),
        Ok(TypeInfer::Rule(InferRule::ListOf(1)))
    );
    assert_eq!(InferRule::ListOf(0).infer(&vec![utf8()]), Ok(list(utf8())));
    assert_eq!(
        InferRule::ListOf(2).infer(&vec![utf8()]),
        Err(InferError::MissingArgument(2))
    );
}

#[test]
fn struct_result_takes_first_struct_argument() {
    assert_eq!(
        attr(&["int", "struct", "struct"], "struct").generate_type_infer_fn(),
        Ok(TypeInfer::Rule(InferRule::SameAs(1)))
    );
    let s = DataType::Struct(vec![Field {
        name: "a".to_string(),
        data_type: int32(),
        nullable: true,
    }]);
    assert_eq!(
        InferRule::SameAs(1).infer(&vec![int32(), s.clone()]),
        Ok(s)
    );
}

#[test]
fn wildcard_result_without_fitting_argument_is_an_error() {
    for (args, ret) in [
        (vec!["int"], "any"),
        (vec![], "any"),
        (vec!["struct"], "any"),
        (vec!["struct", "int"], "anyarray"),
        (vec!["any", "anyarray"], "struct"),
    ] {
        assert_eq!(
            attr(&args, ret).generate_type_infer_fn(),
            Err(ConfigError::TypeInferenceRequired)
        );
    }
}

#[test]
fn concrete_result_is_a_constant() {
    assert_eq!(
        attr(&["any"], "int[]").generate_type_infer_fn(),
        Ok(TypeInfer::Rule(InferRule::Constant(list(int32()))))
    );
    assert_eq!(
        InferRule::Constant(utf8()).infer(&vec![]),
        Ok(utf8())
    );
    assert_eq!(
        attr(&[], "struct<a:int>").generate_type_infer_fn(),
        Ok(TypeInfer::Rule(InferRule::Constant(DataType::Struct(vec![Field {
            name: "a".to_string(),
            data_type: int32(),
            nullable: true,
        }]))))
    );
}

#[test]
fn result_that_names_no_concrete_type_is_malformed() {
    for ret in ["integer", "any[]", "...", "struct<a:any>"] {
        assert_eq!(
            attr(&["int"], ret).generate_type_infer_fn(),
            Err(ConfigError::MalformedReturn)
        );
    }
}

#[test]
fn explicit_expression_wins() {
    let mut a = attr(&["int"], "any");
    a.type_infer = Some("|args| Ok(args[0].clone())".to_string());
    assert_eq!(
        a.generate_type_infer_fn(),
        Ok(TypeInfer::Custom("|args| Ok(args[0].clone())".to_string()))
    );
    a.type_infer = Some("panic".to_string());
    assert_eq!(a.generate_type_infer_fn(), Ok(TypeInfer::Panic));
}
