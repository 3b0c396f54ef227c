//! The catalog signature and the exported symbol of a bound function.
use crate::datatype::{catalog_type, lemma_stored_iff_concrete, sig_data_type, SigDataType};
use crate::descriptor::{names_of, Descriptor, FunctionAttr, UserFunctionAttr, UserShape};
use crate::error::ConfigError;
use crate::evaluator::{plans, EvalPlan};
use crate::grammar::{parse_type, parsed};
use crate::symbol::{base64_encode, encodable_len, encoded, lemma_encoded_injective};
use crate::text::chars_of;
use vstd::prelude::*;
use vstd::utf8::{encode_utf8, encode_utf8_decode_utf8};

verus! {

/// The parts, with `sep` between each two of them.
pub open spec fn joined(parts: Seq<Seq<char>>, sep: Seq<char>) -> Seq<char>
    decreases parts.len(),
{
    if parts.len() == 0 {
        Seq::empty()
    } else if parts.len() == 1 {
        parts[0]
    } else {
        joined(parts.drop_last(), sep) + sep + parts.last()
    }
}

/// The arrow that stands before the result in a canonical signature: `->>`
/// for a table function, `->` for a scalar function.
pub open spec fn arrow_of(table: bool) -> Seq<char> {
    if table {
        "->>"@
    } else {
        "->"@
    }
}

/// The canonical signature: the name, the argument types in brackets with
/// commas between them, the arrow and the result type.
pub open spec fn canonical_signature(d: Descriptor) -> Seq<char> {
    d.name + "("@ + joined(d.args, ","@) + ")"@ + arrow_of(d.is_table_function) + d.ret
}

/// The exported symbol: `arrowudf_` and the encoding of the canonical
/// signature.
pub open spec fn export_symbol(d: Descriptor) -> Seq<char> {
    "arrowudf_"@ + encoded(encode_utf8(canonical_signature(d)))
}

/// Two descriptors that differ in the result type alone have different
/// exported symbols.
pub proof fn lemma_symbols_differ(a: Descriptor, b: Descriptor)
    requires
        a.name == b.name,
        a.args == b.args,
        a.is_table_function == b.is_table_function,
        a.ret != b.ret,
    ensures
        export_symbol(a) != export_symbol(b),
{
    let head = a.name + "("@ + joined(a.args, ","@) + ")"@ + arrow_of(a.is_table_function);
    let sa = canonical_signature(a);
    let sb = canonical_signature(b);
    assert(sa.skip(head.len() as int) =~= a.ret);
    assert(sb.skip(head.len() as int) =~= b.ret);
    assert(sa != sb);
    encode_utf8_decode_utf8(sa);
    encode_utf8_decode_utf8(sb);
    let ea = encoded(encode_utf8(sa));
    let eb = encoded(encode_utf8(sb));
    if ea == eb {
        lemma_encoded_injective(encode_utf8(sa), encode_utf8(sb));
    }
    let prefix = "arrowudf_"@;
    assert(export_symbol(a).skip(prefix.len() as int) =~= ea);
    assert(export_symbol(b).skip(prefix.len() as int) =~= eb);
}

/// The strings, with `sep` between each two of them.
pub fn join(parts: &Vec<String>, sep: &str) -> (r: String)
    ensures
        r@ == joined(names_of(parts@), sep@),
{
    let mut out = String::new();
    let ghost names = names_of(parts@);
    let mut i: usize = 0;
    while i < parts.len()
        invariant
            i <= parts.len(),
            names == names_of(parts@),
            out@ == joined(names.take(i as int), sep@),
        decreases parts.len() - i,
    {
        if i > 0 {
            out.append(sep);
        }
        out.append(parts[i].as_str());
        proof {
            let next = names.take(i as int + 1);
            assert(next.drop_last() =~= names.take(i as int));
            assert(next.last() == parts@[i as int]@);
            if i == 0 {
                assert(out@ =~= next[0]);
            }
        }
        i += 1;
    }
    proof {
        assert(names.take(parts.len() as int) =~= names);
    }
    out
}

impl FunctionAttr {
    /// The canonical signature of this descriptor.
    pub fn normalize_signature(&self) -> (r: String)
        ensures
            r@ == canonical_signature(self@),
    {
        let mut out = self.name.clone();
        out.append("(");
        let args = join(&self.args, ",");
        out.append(args.as_str());
        out.append(")");
        if self.is_table_function {
            out.append("->>");
        } else {
            out.append("->");
        }
        out.append(self.ret.as_str());
        out
    }

    /// The symbol under which the evaluation routine is exported.
    ///
    /// It is a function of the name, the argument types, the kind and the
    /// result type alone. Returns `None` exactly when the signature is too
    /// long for its encoding's length to fit.
    pub fn export_name(&self) -> (r: Option<String>)
        ensures
            r is None <==> encode_utf8(canonical_signature(self@)).len() > encodable_len(),
            r is Some ==> r->0@ == export_symbol(self@),
    {
        let signature = self.normalize_signature();
        if signature.as_str().as_bytes().len() > (usize::MAX / 4) * 3 {
            return None;
        }
        let code = base64_encode(signature.as_str());
        let mut out = String::from_str("arrowudf_");
        out.append(code.as_str());
        Some(out)
    }
}

/// Whether `c` may stand in an identifier: a letter or digit of ASCII, or
/// `_`.
pub open spec fn is_ident_char(c: char) -> bool {
    let n = c as u32;
    (0x61 <= n <= 0x7A) || (0x41 <= n <= 0x5A) || (0x30 <= n <= 0x39) || n == 0x5F
}

/// The text with `_` in place of every character that may not stand in an
/// identifier.
pub open spec fn sanitized(s: Seq<char>) -> Seq<char> {
    Seq::new(
        s.len(),
        |i: int|
            if is_ident_char(s[i]) {
                s[i]
            } else {
                '_'
            },
    )
}

/// A name for the descriptor that can stand in an identifier: the name, the
/// argument types and the result type with `_` between them, sanitized.
pub open spec fn ident_name(d: Descriptor) -> Seq<char> {
    sanitized(d.name + "_"@ + joined(d.args, "_"@) + "_"@ + d.ret)
}

/// The name of the evaluation routine: the one the descriptor gives, else
/// the descriptor's identifier followed by `_eval`.
pub open spec fn routine_name(d: Descriptor) -> Seq<char> {
    match d.output {
        Some(o) => o,
        None => ident_name(d) + "_eval"@,
    }
}

/// The generated routine that a signature refers to, tagged with its kind.
#[derive(Debug, PartialEq, Eq)]
pub enum FunctionKind {
    Scalar(String),
    Table(String),
}

/// The record under which a function is registered in a catalog.
#[derive(Debug, PartialEq, Eq)]
pub struct FunctionSignature {
    /// The function's name.
    pub name: String,
    /// The types of the arguments before the variadic marker.
    pub arg_types: Vec<SigDataType>,
    /// Whether further arguments may follow.
    pub variadic: bool,
    /// The type of the result.
    pub return_type: SigDataType,
    /// The evaluation routine.
    pub function: FunctionKind,
}

/// The low-level entry point through which a scalar routine is found and
/// called across a boundary.
#[derive(Debug, PartialEq, Eq)]
pub struct ExportedEntry {
    /// The symbol the entry point is exported under.
    pub symbol: String,
    /// The entry point's own name.
    pub name: String,
}

/// Everything that is generated for one descriptor.
#[derive(Debug, PartialEq, Eq)]
pub struct GeneratedFunction {
    /// The evaluation routine.
    pub eval: EvalPlan,
    /// The exported entry point; table functions have none.
    pub entry: Option<ExportedEntry>,
    /// The name of the function that yields the signature.
    pub sig_name: String,
    /// The signature for the catalog.
    pub signature: FunctionSignature,
}

impl Descriptor {
    /// Whether the argument `i` names a type that a catalog can list.
    pub open spec fn arg_listed(self, i: int) -> bool {
        parsed(self.args[i]) is Some && catalog_type(parsed(self.args[i])->0) is Some
    }

    /// Whether the result names a type that a catalog can list.
    pub open spec fn ret_listed(self) -> bool {
        parsed(self.ret) is Some && catalog_type(parsed(self.ret)->0) is Some
    }

    /// The first argument before the variadic marker that names no type a
    /// catalog can list.
    pub open spec fn first_unlisted_arg(self) -> Option<int> {
        if exists|i: int| 0 <= i < self.arity() && !self.arg_listed(i) {
            let k = choose|k: int|
                0 <= k < self.arity() && !self.arg_listed(k) && forall|j: int|
                    0 <= j < k ==> self.arg_listed(j);
            Some(k)
        } else {
            None
        }
    }

    /// Why there is no signature, if so: the earliest argument that a
    /// catalog cannot list, else the result if a catalog cannot list it.
    pub open spec fn signature_error(self) -> Option<ConfigError> {
        if self.first_unlisted_arg() is Some {
            Some(ConfigError::MalformedArgument(self.first_unlisted_arg()->0 as usize))
        } else if !self.ret_listed() {
            Some(ConfigError::MalformedReturn)
        } else {
            None
        }
    }

    /// The position `k` is the first unlisted argument when it is unlisted
    /// and every earlier one is listed.
    pub proof fn lemma_first_unlisted_arg(self, k: int)
        requires
            0 <= k < self.arity(),
            !self.arg_listed(k),
            forall|j: int| 0 <= j < k ==> self.arg_listed(j),
        ensures
            self.first_unlisted_arg() == Some(k),
    {
        let c = choose|c: int|
            0 <= c < self.arity() && !self.arg_listed(c) && forall|j: int|
                0 <= j < c ==> self.arg_listed(j);
        assert(0 <= c < self.arity() && !self.arg_listed(c) && forall|j: int|
            0 <= j < c ==> self.arg_listed(j));
        if c < k {
            assert(self.arg_listed(c));
        }
        if k < c {
            assert(self.arg_listed(k));
        }
    }

    /// Why nothing is generated, if so: what keeps the evaluation routine
    /// from being generated, else a signature of a scalar function that is
    /// too long to be encoded.
    pub open spec fn descriptor_error(self, u: UserShape) -> Option<
        ConfigError,
    > {
        if self.generation_error(u) is Some {
            self.generation_error(u)
        } else if !self.is_table_function && encode_utf8(canonical_signature(self)).len()
            > encodable_len() {
            Some(ConfigError::SignatureTooLong)
        } else {
            None
        }
    }
}

/// Whether `s` is the signature of `d` with the evaluation routine named
/// `routine`.
pub open spec fn describes(d: Descriptor, routine: Seq<char>, s: FunctionSignature) -> bool {
    &&& s.name@ == d.name
    &&& s.arg_types@.len() == d.arity()
    &&& forall|i: int|
        0 <= i < d.arity() ==> Some((#[trigger] s.arg_types@[i])@) == catalog_type(d.arg_type(i))
    &&& s.variadic == d.is_variadic()
    &&& Some(s.return_type@) == catalog_type(d.ret_type())
    &&& match s.function {
        FunctionKind::Scalar(f) => !d.is_table_function && f@ == routine,
        FunctionKind::Table(f) => d.is_table_function && f@ == routine,
    }
}

/// Whether `g` is what is generated for `d` and the user function `u`.
pub open spec fn generated(d: Descriptor, u: UserShape, g: GeneratedFunction) -> bool {
    &&& plans(d, u, routine_name(d), g.eval)
    &&& describes(d, routine_name(d), g.signature)
    &&& g.sig_name@ == ident_name(d) + "_sig"@
    &&& match g.entry {
        Some(e) => {
            &&& !d.is_table_function
            &&& e.symbol@ == export_symbol(d)
            &&& e.name@ == ident_name(d) + "_ffi"@
        },
        None => d.is_table_function,
    }
}

/// Decides [`is_ident_char`].
fn ident_char(c: char) -> (r: bool)
    ensures
        r == is_ident_char(c),
{
    let n: u32 = c as u32;
    (0x61 <= n && n <= 0x7A) || (0x41 <= n && n <= 0x5A) || (0x30 <= n && n <= 0x39) || n == 0x5F
}

impl FunctionAttr {
    /// A name for this descriptor that can stand in an identifier.
    pub fn ident_name(&self) -> (r: String)
        ensures
            r@ == ident_name(self@),
    {
        let mut raw = self.name.clone();
        raw.append("_");
        let args = join(&self.args, "_");
        raw.append(args.as_str());
        raw.append("_");
        raw.append(self.ret.as_str());
        let chars = chars_of(raw.as_str());
        let mut out = String::new();
        let mut i: usize = 0;
        while i < chars.len()
            invariant
                chars@ == raw@,
                i <= chars.len(),
                out@ == sanitized(raw@).take(i as int),
            decreases chars.len() - i,
        {
            if ident_char(chars[i]) {
                out.append(raw.as_str().substring_char(i, i + 1));
            } else {
                proof {
                    reveal_strlit("_");
                }
                out.append("_");
            }
            proof {
                assert(out@ =~= sanitized(raw@).take(i as int + 1));
            }
            i += 1;
        }
        proof {
            assert(sanitized(raw@).take(chars.len() as int) =~= sanitized(raw@));
        }
        out
    }

    /// The name of the evaluation routine.
    pub fn eval_name(&self) -> (r: String)
        ensures
            r@ == routine_name(self@),
    {
        match &self.output {
            Some(o) => o.clone(),
            None => {
                let mut name = self.ident_name();
                name.append("_eval");
                name
            },
        }
    }

    /// The signature of this descriptor for a catalog, with the evaluation
    /// routine named `routine`.
    ///
    /// Fails exactly where [`Descriptor::signature_error`] names an error,
    /// with that error.
    pub fn signature(&self, routine: &str) -> (r: Result<FunctionSignature, ConfigError>)
        ensures
            match r {
                Ok(s) => self@.signature_error() is None && describes(self@, routine@, s),
                Err(e) => self@.signature_error() == Some(e),
            },
    {
        let variadic = self.is_variadic();
        let n: usize = if variadic {
            self.args.len() - 1
        } else {
            self.args.len()
        };
        let mut arg_types: Vec<SigDataType> = Vec::new();
        let mut i: usize = 0;
        while i < n
            invariant
                n == self@.arity(),
                n <= self.args.len(),
                i <= n,
                arg_types@.len() == i,
                forall|j: int| 0 <= j < i ==> #[trigger] self@.arg_listed(j),
                forall|j: int|
                    0 <= j < i ==> Some((#[trigger] arg_types@[j])@) == catalog_type(
                        self@.arg_type(j),
                    ),
            decreases n - i,
        {
            proof {
                assert(self@.args[i as int] == self.args@[i as int]@);
            }
            let listed = match parse_type(self.args[i].as_str()) {
                Some(t) => sig_data_type(&t),
                None => None,
            };
            match listed {
                Some(t) => {
                    arg_types.push(t);
                },
                None => {
                    proof {
                        self@.lemma_first_unlisted_arg(i as int);
                    }
                    return Err(ConfigError::MalformedArgument(i));
                },
            }
            i += 1;
        }
        let listed = match parse_type(self.ret.as_str()) {
            Some(t) => sig_data_type(&t),
            None => None,
        };
        let return_type = match listed {
            Some(t) => t,
            None => {
                return Err(ConfigError::MalformedReturn);
            },
        };
        let function = if self.is_table_function {
            FunctionKind::Table(routine.to_owned())
        } else {
            FunctionKind::Scalar(routine.to_owned())
        };
        Ok(
            FunctionSignature {
                name: self.name.clone(),
                arg_types,
                variadic,
                return_type,
                function,
            },
        )
    }

    /// Generates the evaluation routine, the exported entry point and the
    /// catalog signature of this descriptor for the user function `user_fn`.
    ///
    /// The types of the arguments and of the result must be concrete. Fails
    /// exactly where [`Descriptor::descriptor_error`] names an error, with
    /// that error; nothing is generated then.
    pub fn generate_function_descriptor(&self, user_fn: &UserFunctionAttr) -> (r: Result<
        GeneratedFunction,
        ConfigError,
    >)
        ensures
            match r {
                Ok(g) => self@.descriptor_error(user_fn@) is None && generated(
                    self@,
                    user_fn@,
                    g,
                ),
                Err(e) => self@.descriptor_error(user_fn@) == Some(e),
            },
    {
        let routine = self.eval_name();
        let ident = self.ident_name();
        let eval = match self.generate_function(user_fn, routine.as_str()) {
            Ok(p) => p,
            Err(e) => {
                return Err(e);
            },
        };
        proof {
            assert forall|i: int| 0 <= i < self@.arity() implies self@.arg_listed(i) by {
                assert(self@.arg_ok(i));
                lemma_stored_iff_concrete(self@.arg_type(i));
            }
            lemma_stored_iff_concrete(self@.ret_type());
        }
        let entry = if self.is_table_function {
            None
        } else {
            let symbol = match self.export_name() {
                Some(s) => s,
                None => {
                    return Err(ConfigError::SignatureTooLong);
                },
            };
            let mut name = ident.clone();
            name.append("_ffi");
            Some(ExportedEntry { symbol, name })
        };
        let signature = match self.signature(routine.as_str()) {
            Ok(s) => s,
            Err(e) => {
                proof {
                    assert(false);
                }
                return Err(e);
            },
        };
        let mut sig_name = ident;
        sig_name.append("_sig");
        Ok(GeneratedFunction { eval, entry, sig_name, signature })
    }
}

} // verus!
