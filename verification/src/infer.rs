//! Inference of a function's result type from its argument types.
use crate::datatype::{data_type, stored_as, DataModel, DataType};
use crate::descriptor::{names_of, Descriptor, FunctionAttr};
use crate::error::ConfigError;
use crate::grammar::{parse_type, parsed};
use crate::text::same_text;
use vstd::prelude::*;

verus! {

/// A rule that gives the result type for the types of the arguments.
#[derive(Debug, PartialEq, Eq)]
pub enum InferRule {
    /// The type of the argument at this position.
    SameAs(usize),
    /// The element type of the list argument at this position.
    ElementOf(usize),
    /// The type of lists of the argument at this position.
    ListOf(usize),
    /// One type, whatever the arguments.
    Constant(DataType),
}

/// How the result type of a function is found.
#[derive(Debug, PartialEq, Eq)]
pub enum TypeInfer {
    /// It is never asked for; asking is a fatal error.
    Panic,
    /// By an expression that the descriptor gives, taken as it stands.
    Custom(String),
    /// By a rule.
    Rule(InferRule),
}

/// Why a rule gives no type for some argument types.
#[derive(Clone, Copy, PartialEq, Eq, Structural, Debug)]
pub enum InferError {
    /// There is no argument at this position.
    MissingArgument(usize),
    /// The argument at this position is not a list.
    NotAList(usize),
}

/// The mathematical value of an [`InferRule`].
pub enum RuleModel {
    SameAs(int),
    ElementOf(int),
    ListOf(int),
    Constant(DataModel),
}

/// The mathematical value of a [`TypeInfer`].
pub enum InferModel {
    Panic,
    Custom(Seq<char>),
    Rule(RuleModel),
}

impl View for InferRule {
    type V = RuleModel;

    open spec fn view(&self) -> RuleModel {
        match self {
            InferRule::SameAs(i) => RuleModel::SameAs(*i as int),
            InferRule::ElementOf(i) => RuleModel::ElementOf(*i as int),
            InferRule::ListOf(i) => RuleModel::ListOf(*i as int),
            InferRule::Constant(d) => RuleModel::Constant(d@),
        }
    }
}

impl View for TypeInfer {
    type V = InferModel;

    open spec fn view(&self) -> InferModel {
        match self {
            TypeInfer::Panic => InferModel::Panic,
            TypeInfer::Custom(s) => InferModel::Custom(s@),
            TypeInfer::Rule(r) => InferModel::Rule(r@),
        }
    }
}

/// The first position at or after `from` at which `args` holds `word`.
pub open spec fn position_from(args: Seq<Seq<char>>, word: Seq<char>, from: int) -> Option<int>
    decreases args.len() - from,
{
    if from < 0 || from >= args.len() {
        None
    } else if args[from] == word {
        Some(from)
    } else {
        position_from(args, word, from + 1)
    }
}

/// The first position at which `args` holds `word`.
pub open spec fn position(args: Seq<Seq<char>>, word: Seq<char>) -> Option<int> {
    position_from(args, word, 0)
}

/// The position `i` is the first that holds `word` when it holds it and no
/// position from `from` up to it does.
pub proof fn lemma_position_from(args: Seq<Seq<char>>, word: Seq<char>, from: int, i: int)
    requires
        0 <= from <= i < args.len(),
        args[i] == word,
        forall|j: int| from <= j < i ==> args[j] != word,
    ensures
        position_from(args, word, from) == Some(i),
    decreases i - from,
{
    if from < i {
        lemma_position_from(args, word, from + 1, i);
    }
}

/// No position holds `word` when none from `from` on does.
pub proof fn lemma_position_none(args: Seq<Seq<char>>, word: Seq<char>, from: int)
    requires
        0 <= from,
        forall|j: int| from <= j < args.len() ==> args[j] != word,
    ensures
        position_from(args, word, from) is None,
    decreases args.len() - from,
{
    if from < args.len() {
        lemma_position_none(args, word, from + 1);
    }
}

/// The rule of a descriptor whose result is a wildcard, from the first
/// argument of a fitting shape: for `any` the type of the first `any`, else
/// the element type of the first `anyarray`; for `anyarray` the type of the
/// first `anyarray`, else lists of the first `any`; for `struct` the type of
/// the first `struct`.
pub open spec fn wildcard_rule(d: Descriptor) -> Option<RuleModel> {
    let any = position(d.args, "any"@);
    let anyarray = position(d.args, "anyarray"@);
    let anystruct = position(d.args, "struct"@);
    if d.ret == "any"@ {
        if any is Some {
            Some(RuleModel::SameAs(any->0))
        } else if anyarray is Some {
            Some(RuleModel::ElementOf(anyarray->0))
        } else {
            None
        }
    } else if d.ret == "anyarray"@ {
        if anyarray is Some {
            Some(RuleModel::SameAs(anyarray->0))
        } else if any is Some {
            Some(RuleModel::ListOf(any->0))
        } else {
            None
        }
    } else if d.ret == "struct"@ && anystruct is Some {
        Some(RuleModel::SameAs(anystruct->0))
    } else {
        None
    }
}

/// Whether the result of `d` is one of the three wildcards.
pub open spec fn returns_wildcard(d: Descriptor) -> bool {
    d.ret == "any"@ || d.ret == "anyarray"@ || d.ret == "struct"@
}

/// How the result type of `d` is found. First the descriptor's own
/// expression, where `panic` stands for a fatal error; then, for a wildcard
/// result, the rule of [`wildcard_rule`], and an error where there is none;
/// else the constant rule of the result's physical type, and an error where
/// the result names no concrete type.
pub open spec fn inference(d: Descriptor) -> Result<InferModel, ConfigError> {
    if d.type_infer is Some {
        if d.type_infer->0 == "panic"@ {
            Ok(InferModel::Panic)
        } else {
            Ok(InferModel::Custom(d.type_infer->0))
        }
    } else if returns_wildcard(d) {
        match wildcard_rule(d) {
            Some(r) => Ok(InferModel::Rule(r)),
            None => Err(ConfigError::TypeInferenceRequired),
        }
    } else if parsed(d.ret) is Some && stored_as(parsed(d.ret)->0) is Some {
        Ok(InferModel::Rule(RuleModel::Constant(stored_as(parsed(d.ret)->0)->0)))
    } else {
        Err(ConfigError::MalformedReturn)
    }
}

/// The type that `rule` gives for the argument types `types`.
pub open spec fn inferred(rule: RuleModel, types: Seq<DataModel>) -> Result<DataModel, InferError> {
    match rule {
        RuleModel::SameAs(i) => if 0 <= i < types.len() {
            Ok(types[i])
        } else {
            Err(InferError::MissingArgument(i as usize))
        },
        RuleModel::ElementOf(i) => if 0 <= i < types.len() {
            match types[i] {
                DataModel::List(e) => Ok(*e),
                _ => Err(InferError::NotAList(i as usize)),
            }
        } else {
            Err(InferError::MissingArgument(i as usize))
        },
        RuleModel::ListOf(i) => if 0 <= i < types.len() {
            Ok(DataModel::List(Box::new(types[i])))
        } else {
            Err(InferError::MissingArgument(i as usize))
        },
        RuleModel::Constant(d) => Ok(d),
    }
}

/// The models of a list of physical types, in order.
pub open spec fn types_of(v: Seq<DataType>) -> Seq<DataModel> {
    Seq::new(v.len(), |i: int| v[i]@)
}

/// A function that returns `any` and takes `any` first at position `i`
/// returns the type of its argument `i`, whatever the other arguments are.
pub proof fn lemma_any_returns_its_argument(d: Descriptor, i: int, types: Seq<DataModel>)
    requires
        d.type_infer is None,
        d.ret == "any"@,
        0 <= i < d.args.len(),
        d.args[i] == "any"@,
        forall|j: int| 0 <= j < i ==> d.args[j] != "any"@,
        i < types.len(),
    ensures
        inference(d) == Ok::<InferModel, ConfigError>(InferModel::Rule(RuleModel::SameAs(i))),
        inferred(RuleModel::SameAs(i), types) == Ok::<DataModel, InferError>(types[i]),
{
    lemma_position_from(d.args, "any"@, 0, i);
}

/// The first position at which `args` holds `word`.
fn find_position(args: &Vec<String>, word: &str) -> (r: Option<usize>)
    ensures
        match r {
            Some(i) => position(names_of(args@), word@) == Some(i as int),
            None => position(names_of(args@), word@) is None,
        },
{
    let ghost names = names_of(args@);
    let mut i: usize = 0;
    while i < args.len()
        invariant
            i <= args.len(),
            names == names_of(args@),
            forall|j: int| 0 <= j < i ==> names[j] != word@,
        decreases args.len() - i,
    {
        proof {
            assert(names[i as int] == args@[i as int]@);
        }
        if same_text(args[i].as_str(), word) {
            proof {
                lemma_position_from(names, word@, 0, i as int);
            }
            return Some(i);
        }
        i += 1;
    }
    proof {
        lemma_position_none(names, word@, 0);
    }
    None
}

impl FunctionAttr {
    /// How the result type of this descriptor is found, as [`inference`]
    /// states it.
    pub fn generate_type_infer_fn(&self) -> (r: Result<TypeInfer, ConfigError>)
        ensures
            match r {
                Ok(t) => inference(self@) == Ok::<InferModel, ConfigError>(t@),
                Err(e) => inference(self@) == Err::<InferModel, ConfigError>(e),
            },
    {
        if let Some(func) = &self.type_infer {
            if same_text(func.as_str(), "panic") {
                return Ok(TypeInfer::Panic);
            }
            return Ok(TypeInfer::Custom(func.clone()));
        }
        let ret = self.ret.as_str();
        if same_text(ret, "any") {
            if let Some(i) = find_position(&self.args, "any") {
                return Ok(TypeInfer::Rule(InferRule::SameAs(i)));
            }
            if let Some(i) = find_position(&self.args, "anyarray") {
                return Ok(TypeInfer::Rule(InferRule::ElementOf(i)));
            }
        } else if same_text(ret, "anyarray") {
            if let Some(i) = find_position(&self.args, "anyarray") {
                return Ok(TypeInfer::Rule(InferRule::SameAs(i)));
            }
            if let Some(i) = find_position(&self.args, "any") {
                return Ok(TypeInfer::Rule(InferRule::ListOf(i)));
            }
        } else if same_text(ret, "struct") {
            if let Some(i) = find_position(&self.args, "struct") {
                return Ok(TypeInfer::Rule(InferRule::SameAs(i)));
            }
        } else {
            return match parse_type(ret) {
                Some(t) => match data_type(&t) {
                    Some(d) => Ok(TypeInfer::Rule(InferRule::Constant(d))),
                    None => Err(ConfigError::MalformedReturn),
                },
                None => Err(ConfigError::MalformedReturn),
            };
        }
        Err(ConfigError::TypeInferenceRequired)
    }
}

impl InferRule {
    /// The result type for the argument types `arg_types`, as [`inferred`]
    /// states it.
    pub fn infer(&self, arg_types: &Vec<DataType>) -> (r: Result<DataType, InferError>)
        ensures
            match r {
                Ok(d) => inferred(self@, types_of(arg_types@)) == Ok::<DataModel, InferError>(d@),
                Err(e) => inferred(self@, types_of(arg_types@)) == Err::<DataModel, InferError>(e),
            },
    {
        match self {
            InferRule::SameAs(i) => {
                if *i < arg_types.len() {
                    Ok(arg_types[*i].clone())
                } else {
                    Err(InferError::MissingArgument(*i))
                }
            },
            InferRule::ElementOf(i) => {
                if *i < arg_types.len() {
                    match &arg_types[*i] {
                        DataType::List(e) => Ok((**e).clone()),
                        _ => Err(InferError::NotAList(*i)),
                    }
                } else {
                    Err(InferError::MissingArgument(*i))
                }
            },
            InferRule::ListOf(i) => {
                if *i < arg_types.len() {
                    Ok(DataType::List(Box::new(arg_types[*i].clone())))
                } else {
                    Err(InferError::MissingArgument(*i))
                }
            },
            InferRule::Constant(d) => Ok(d.clone()),
        }
    }
}

} // verus!
