//! The grammar of logical type names.
//!
//! A name is a keyword (`int`, `varchar`, `any`, ...), a name followed by
//! `[]` for a list, or `struct<name: type, ...>`. Members of a struct are
//! separated by the commas that stand outside every pair of angle brackets,
//! and white space around a member's name and type is dropped.
use crate::text::{chars_of, drop_space, range_is, skip_space, trim_hi, trim_lo};
use crate::text::{lemma_trim_hi_bounds, lemma_trim_lo_bounds};
use crate::types::{fields_model, FieldModel, LogicalType, ScalarType, StructField, TypeModel};
use vstd::prelude::*;

verus! {

/// The type that a keyword names, if any.
pub open spec fn keyword_type(word: Seq<char>) -> Option<TypeModel> {
    if word == "void"@ {
        Some(TypeModel::Scalar(ScalarType::Void))
    } else if word == "boolean"@ {
        Some(TypeModel::Scalar(ScalarType::Boolean))
    } else if word == "smallint"@ {
        Some(TypeModel::Scalar(ScalarType::SmallInt))
    } else if word == "int"@ {
        Some(TypeModel::Scalar(ScalarType::Int))
    } else if word == "bigint"@ {
        Some(TypeModel::Scalar(ScalarType::BigInt))
    } else if word == "real"@ {
        Some(TypeModel::Scalar(ScalarType::Real))
    } else if word == "float"@ {
        Some(TypeModel::Scalar(ScalarType::Float))
    } else if word == "decimal"@ {
        Some(TypeModel::Scalar(ScalarType::Decimal))
    } else if word == "date"@ {
        Some(TypeModel::Scalar(ScalarType::Date))
    } else if word == "time"@ {
        Some(TypeModel::Scalar(ScalarType::Time))
    } else if word == "timestamp"@ {
        Some(TypeModel::Scalar(ScalarType::Timestamp))
    } else if word == "interval"@ {
        Some(TypeModel::Scalar(ScalarType::Interval))
    } else if word == "json"@ {
        Some(TypeModel::Scalar(ScalarType::Json))
    } else if word == "varchar"@ {
        Some(TypeModel::Scalar(ScalarType::Varchar))
    } else if word == "bytea"@ {
        Some(TypeModel::Scalar(ScalarType::Bytea))
    } else if word == "any"@ {
        Some(TypeModel::Any)
    } else if word == "anyarray"@ {
        Some(TypeModel::AnyArray)
    } else if word == "struct"@ {
        Some(TypeModel::AnyStruct)
    } else if word == "..."@ {
        Some(TypeModel::Variadic)
    } else {
        None
    }
}

/// Whether `[lo, hi)` ends in `[]`.
pub open spec fn is_list_name(s: Seq<char>, lo: int, hi: int) -> bool {
    hi - lo >= 2 && s[hi - 2] == '[' && s[hi - 1] == ']'
}

/// Whether `[lo, hi)` starts with `struct<` and ends with `>`.
pub open spec fn is_struct_name(s: Seq<char>, lo: int, hi: int) -> bool {
    &&& hi - lo >= 8
    &&& s[lo] == 's'
    &&& s[lo + 1] == 't'
    &&& s[lo + 2] == 'r'
    &&& s[lo + 3] == 'u'
    &&& s[lo + 4] == 'c'
    &&& s[lo + 5] == 't'
    &&& s[lo + 6] == '<'
    &&& s[hi - 1] == '>'
}

/// The bracket depth after the character `c`, coming from `depth`.
pub open spec fn depth_after(depth: int, c: char) -> int {
    if c == '<' {
        depth + 1
    } else if c == '>' {
        depth - 1
    } else {
        depth
    }
}

/// The position of the first comma in `[lo, hi)` that stands at bracket depth
/// zero, counting from `depth` at `lo`; `hi` if there is none.
pub open spec fn member_end(s: Seq<char>, lo: int, hi: int, depth: int) -> int
    decreases hi - lo,
{
    if 0 <= lo < hi <= s.len() {
        if s[lo] == ',' && depth == 0 {
            lo
        } else {
            member_end(s, lo + 1, hi, depth_after(depth, s[lo]))
        }
    } else {
        hi
    }
}

/// The position of the first colon in `[lo, hi)`; `hi` if there is none.
pub open spec fn colon_at(s: Seq<char>, lo: int, hi: int) -> int
    decreases hi - lo,
{
    if 0 <= lo < hi <= s.len() && s[lo] != ':' {
        colon_at(s, lo + 1, hi)
    } else {
        lo
    }
}

/// The end of a member lies within the stretch it is sought in.
pub proof fn lemma_member_end_bounds(s: Seq<char>, lo: int, hi: int, depth: int)
    requires
        lo <= hi,
    ensures
        lo <= member_end(s, lo, hi, depth) <= hi,
    decreases hi - lo,
{
    if 0 <= lo < hi <= s.len() {
        if !(s[lo] == ',' && depth == 0) {
            lemma_member_end_bounds(s, lo + 1, hi, depth_after(depth, s[lo]));
        }
    }
}

/// The position of a colon lies within the stretch it is sought in.
pub proof fn lemma_colon_at_bounds(s: Seq<char>, lo: int, hi: int)
    requires
        lo <= hi,
    ensures
        lo <= colon_at(s, lo, hi) <= hi,
    decreases hi - lo,
{
    if 0 <= lo < hi <= s.len() && s[lo] != ':' {
        lemma_colon_at_bounds(s, lo + 1, hi);
    }
}

/// The stretch `[lo, hi)` without the white space at its ends.
pub open spec fn trimmed(s: Seq<char>, lo: int, hi: int) -> (int, int) {
    let a = trim_lo(s, lo, hi);
    (a, trim_hi(s, a, hi))
}

/// The type that the stretch `[lo, hi)` of `s` names, if it names one.
pub open spec fn type_at(s: Seq<char>, lo: int, hi: int) -> Option<TypeModel>
    decreases hi - lo, 1int,
{
    if !(0 <= lo <= hi <= s.len()) {
        None
    } else if is_list_name(s, lo, hi) {
        match type_at(s, lo, hi - 2) {
            Some(t) => Some(TypeModel::List(Box::new(t))),
            None => None,
        }
    } else if is_struct_name(s, lo, hi) {
        match members_at(s, lo + 7, hi - 1) {
            Some(fs) => Some(TypeModel::Struct(fs)),
            None => None,
        }
    } else {
        keyword_type(s.subrange(lo, hi))
    }
}

/// The members that the stretch `[lo, hi)` of `s` lists, if it is a list of
/// members.
pub open spec fn members_at(s: Seq<char>, lo: int, hi: int) -> Option<Seq<FieldModel>>
    decreases hi - lo, 0int,
    via members_at_decreases
{
    if !(0 <= lo <= hi <= s.len()) {
        None
    } else if lo == hi {
        Some(Seq::empty())
    } else {
        let e = member_end(s, lo, hi, 0);
        let c = colon_at(s, lo, e);
        if c >= e {
            None
        } else {
            let (na, nb) = trimmed(s, lo, c);
            let (ta, tb) = trimmed(s, c + 1, e);
            let next = if e < hi {
                e + 1
            } else {
                hi
            };
            match type_at(s, ta, tb) {
                None => None,
                Some(ty) => match members_at(s, next, hi) {
                    None => None,
                    Some(rest) => Some(
                        seq![FieldModel { name: s.subrange(na, nb), ty }] + rest,
                    ),
                },
            }
        }
    }
}

/// Each member and the rest of the members are shorter than the whole.
#[via_fn]
proof fn members_at_decreases(s: Seq<char>, lo: int, hi: int) {
    if 0 <= lo < hi <= s.len() {
        lemma_member_end_bounds(s, lo, hi, 0);
        let e = member_end(s, lo, hi, 0);
        lemma_colon_at_bounds(s, lo, e);
        let c = colon_at(s, lo, e);
        if c < e {
            lemma_trim_lo_bounds(s, c + 1, e);
            lemma_trim_hi_bounds(s, trim_lo(s, c + 1, e), e);
        }
    }
}

/// The type that `s` names, if it names one.
pub open spec fn parsed(s: Seq<char>) -> Option<TypeModel> {
    type_at(s, 0, s.len() as int)
}

/// Computes [`member_end`] from depth zero.
fn find_member_end(chars: &Vec<char>, lo: usize, hi: usize) -> (r: usize)
    requires
        lo <= hi <= chars@.len(),
    ensures
        r == member_end(chars@, lo as int, hi as int, 0),
        lo <= r <= hi,
{
    let mut i: usize = lo;
    let mut depth: i128 = 0;
    while i < hi
        invariant
            lo <= i <= hi <= chars@.len(),
            -(i - lo) <= depth <= i - lo,
            member_end(chars@, lo as int, hi as int, 0) == member_end(
                chars@,
                i as int,
                hi as int,
                depth as int,
            ),
        decreases hi - i,
    {
        let c = chars[i];
        if c == ',' && depth == 0 {
            return i;
        }
        if c == '<' {
            depth = depth + 1;
        } else if c == '>' {
            depth = depth - 1;
        }
        i += 1;
    }
    i
}

/// Computes [`colon_at`].
fn find_colon(chars: &Vec<char>, lo: usize, hi: usize) -> (r: usize)
    requires
        lo <= hi <= chars@.len(),
    ensures
        r == colon_at(chars@, lo as int, hi as int),
        lo <= r <= hi,
{
    let mut i: usize = lo;
    while i < hi && chars[i] != ':'
        invariant
            lo <= i <= hi <= chars@.len(),
            colon_at(chars@, lo as int, hi as int) == colon_at(chars@, i as int, hi as int),
        decreases hi - i,
    {
        i += 1;
    }
    i
}

/// Decides [`is_struct_name`].
fn has_struct_frame(chars: &Vec<char>, lo: usize, hi: usize) -> (r: bool)
    requires
        lo <= hi <= chars@.len(),
    ensures
        r == is_struct_name(chars@, lo as int, hi as int),
{
    hi - lo >= 8 && chars[lo] == 's' && chars[lo + 1] == 't' && chars[lo + 2] == 'r' && chars[lo
        + 3] == 'u' && chars[lo + 4] == 'c' && chars[lo + 5] == 't' && chars[lo + 6] == '<'
        && chars[hi - 1] == '>'
}

/// Looks a keyword up.
fn keyword(chars: &Vec<char>, lo: usize, hi: usize) -> (r: Option<LogicalType>)
    requires
        lo <= hi <= chars@.len(),
    ensures
        match r {
            Some(t) => keyword_type(chars@.subrange(lo as int, hi as int)) == Some(t@),
            None => keyword_type(chars@.subrange(lo as int, hi as int)) is None,
        },
{
    if range_is(chars, lo, hi, "void") {
        Some(LogicalType::Scalar(ScalarType::Void))
    } else if range_is(chars, lo, hi, "boolean") {
        Some(LogicalType::Scalar(ScalarType::Boolean))
    } else if range_is(chars, lo, hi, "smallint") {
        Some(LogicalType::Scalar(ScalarType::SmallInt))
    } else if range_is(chars, lo, hi, "int") {
        Some(LogicalType::Scalar(ScalarType::Int))
    } else if range_is(chars, lo, hi, "bigint") {
        Some(LogicalType::Scalar(ScalarType::BigInt))
    } else if range_is(chars, lo, hi, "real") {
        Some(LogicalType::Scalar(ScalarType::Real))
    } else if range_is(chars, lo, hi, "float") {
        Some(LogicalType::Scalar(ScalarType::Float))
    } else if range_is(chars, lo, hi, "decimal") {
        Some(LogicalType::Scalar(ScalarType::Decimal))
    } else if range_is(chars, lo, hi, "date") {
        Some(LogicalType::Scalar(ScalarType::Date))
    } else if range_is(chars, lo, hi, "time") {
        Some(LogicalType::Scalar(ScalarType::Time))
    } else if range_is(chars, lo, hi, "timestamp") {
        Some(LogicalType::Scalar(ScalarType::Timestamp))
    } else if range_is(chars, lo, hi, "interval") {
        Some(LogicalType::Scalar(ScalarType::Interval))
    } else if range_is(chars, lo, hi, "json") {
        Some(LogicalType::Scalar(ScalarType::Json))
    } else if range_is(chars, lo, hi, "varchar") {
        Some(LogicalType::Scalar(ScalarType::Varchar))
    } else if range_is(chars, lo, hi, "bytea") {
        Some(LogicalType::Scalar(ScalarType::Bytea))
    } else if range_is(chars, lo, hi, "any") {
        Some(LogicalType::Any)
    } else if range_is(chars, lo, hi, "anyarray") {
        Some(LogicalType::AnyArray)
    } else if range_is(chars, lo, hi, "struct") {
        Some(LogicalType::AnyStruct)
    } else if range_is(chars, lo, hi, "...") {
        Some(LogicalType::Variadic)
    } else {
        None
    }
}

/// Parses the stretch `[lo, hi)` as a type name.
fn parse_range(src: &str, chars: &Vec<char>, lo: usize, hi: usize) -> (r: Option<LogicalType>)
    requires
        chars@ == src@,
        lo <= hi <= chars@.len(),
    ensures
        match r {
            Some(t) => type_at(chars@, lo as int, hi as int) == Some(t@),
            None => type_at(chars@, lo as int, hi as int) is None,
        },
    decreases hi - lo, 1int,
{
    if hi - lo >= 2 && chars[hi - 2] == '[' && chars[hi - 1] == ']' {
        match parse_range(src, chars, lo, hi - 2) {
            Some(t) => Some(LogicalType::List(Box::new(t))),
            None => None,
        }
    } else if has_struct_frame(chars, lo, hi) {
        match parse_members(src, chars, lo + 7, hi - 1) {
            Some(fs) => {
                let t = LogicalType::Struct(fs);
                proof {
                    assert(t@->Struct_0 =~= fields_model(fs@));
                }
                Some(t)
            },
            None => None,
        }
    } else {
        keyword(chars, lo, hi)
    }
}

/// Parses the stretch `[lo, hi)` as the members of a struct.
fn parse_members(src: &str, chars: &Vec<char>, lo: usize, hi: usize) -> (r: Option<
    Vec<StructField>,
>)
    requires
        chars@ == src@,
        lo <= hi <= chars@.len(),
    ensures
        match r {
            Some(fs) => members_at(chars@, lo as int, hi as int) == Some(fields_model(fs@)),
            None => members_at(chars@, lo as int, hi as int) is None,
        },
    decreases hi - lo, 0int,
{
    let mut out: Vec<StructField> = Vec::new();
    let mut pos: usize = lo;
    proof {
        assert(fields_model(out@) =~= Seq::empty());
        match members_at(chars@, lo as int, hi as int) {
            Some(rest) => {
                assert(fields_model(out@) + rest =~= rest);
            },
            None => {},
        }
    }
    while pos < hi
        invariant
            chars@ == src@,
            lo <= pos <= hi <= chars@.len(),
            members_at(chars@, lo as int, hi as int) == match members_at(
                chars@,
                pos as int,
                hi as int,
            ) {
                Some(rest) => Some(fields_model(out@) + rest),
                None => None,
            },
        decreases hi - pos,
    {
        let e = find_member_end(chars, pos, hi);
        let c = find_colon(chars, pos, e);
        if c >= e {
            return None;
        }
        let na = skip_space(chars, pos, c);
        let nb = drop_space(chars, na, c);
        let ta = skip_space(chars, c + 1, e);
        let tb = drop_space(chars, ta, e);
        let next: usize = if e < hi {
            e + 1
        } else {
            hi
        };
        let ty = match parse_range(src, chars, ta, tb) {
            Some(ty) => ty,
            None => {
                return None;
            },
        };
        let name = src.substring_char(na, nb).to_owned();
        let field = StructField { name, ty };
        proof {
            let rest = members_at(chars@, next as int, hi as int);
            if rest is Some {
                assert(fields_model(out@.push(field)) + rest->0 =~= fields_model(out@) + (
                seq![field@] + rest->0));
            }
        }
        out.push(field);
        pos = next;
    }
    proof {
        assert(fields_model(out@) + Seq::<FieldModel>::empty() =~= fields_model(out@));
    }
    Some(out)
}

/// Parses a type name.
///
/// Returns `Some` exactly for the names of the grammar, with the type that
/// the name stands for.
pub fn parse_type(name: &str) -> (r: Option<LogicalType>)
    ensures
        match r {
            Some(t) => parsed(name@) == Some(t@),
            None => parsed(name@) is None,
        },
{
    let chars = chars_of(name);
    parse_range(name, &chars, 0, chars.len())
}

} // verus!
