//! Expansion of type patterns into concrete descriptors.
//!
//! The patterns `*`, `*int` and `*float` stand for lists of types. A
//! descriptor that holds patterns stands for every descriptor that comes
//! about by choosing, independently for each argument and for the result, one
//! of the types its name stands for.
use crate::descriptor::{clone_names, clone_opt, names_of, Descriptor, FunctionAttr};
use crate::text::same_text;
use itertools::Itertools;
use vstd::prelude::*;

verus! {

/// Whether `ty` is a pattern.
pub open spec fn is_pattern(ty: Seq<char>) -> bool {
    ty == "*"@ || ty == "*int"@ || ty == "*float"@
}

/// The types that the name `ty` stands for: for `*` every scalar type, for
/// `*int` the integers, for `*float` the floating-point numbers, and for any
/// other name the name itself.
pub open spec fn candidates(ty: Seq<char>) -> Seq<Seq<char>> {
    if ty == "*"@ {
        seq![
            "void"@,
            "boolean"@,
            "smallint"@,
            "int"@,
            "bigint"@,
            "real"@,
            "float"@,
            "decimal"@,
            "date"@,
            "time"@,
            "timestamp"@,
            "interval"@,
            "json"@,
            "varchar"@,
            "bytea"@,
        ]
    } else if ty == "*int"@ {
        seq!["smallint"@, "int"@, "bigint"@]
    } else if ty == "*float"@ {
        seq!["real"@, "float"@]
    } else {
        seq![ty]
    }
}

/// The candidates of each name of a list.
pub open spec fn candidate_lists(tys: Seq<Seq<char>>) -> Seq<Seq<Seq<char>>> {
    Seq::new(tys.len(), |i: int| candidates(tys[i]))
}

/// Every way to choose one element from each list, in the order of the
/// lists: the choices are ordered by the first list first, and the last list
/// varies fastest. Of no lists there is one choice, the empty one.
pub open spec fn product(lists: Seq<Seq<Seq<char>>>) -> Seq<Seq<Seq<char>>>
    decreases lists.len(),
{
    if lists.len() == 0 {
        seq![Seq::empty()]
    } else {
        let rest = product(lists.skip(1));
        Seq::new(
            lists[0].len() * rest.len(),
            |k: int| seq![lists[0][k / (rest.len() as int)]] + rest[k % (rest.len() as int)],
        )
    }
}

/// The number of ways to choose one element from each list.
pub open spec fn combinations(lists: Seq<Seq<Seq<char>>>) -> nat
    decreases lists.len(),
{
    if lists.len() == 0 {
        1
    } else {
        lists[0].len() * combinations(lists.skip(1))
    }
}

/// The descriptors that `d` stands for: one for each choice of argument
/// types and each candidate of the result, the result varying fastest.
pub open spec fn expansion(d: Descriptor) -> Seq<Descriptor> {
    let combos = product(candidate_lists(d.args));
    let rets = candidates(d.ret);
    Seq::new(
        combos.len() * rets.len(),
        |k: int|
            Descriptor {
                args: combos[k / (rets.len() as int)],
                ret: rets[k % (rets.len() as int)],
                ..d
            },
    )
}

/// Whether `d` holds a pattern, as an argument or as the result.
pub open spec fn has_pattern(d: Descriptor) -> bool {
    is_pattern(d.ret) || exists|i: int| 0 <= i < d.args.len() && is_pattern(#[trigger] d.args[i])
}

/// The characters of each string of each list.
pub open spec fn name_lists(v: Seq<Vec<String>>) -> Seq<Seq<Seq<char>>> {
    Seq::new(v.len(), |i: int| names_of(v[i]@))
}

/// The product has as many elements as there are combinations.
pub proof fn lemma_product_len(lists: Seq<Seq<Seq<char>>>)
    ensures
        product(lists).len() == combinations(lists),
    decreases lists.len(),
{
    if lists.len() > 0 {
        lemma_product_len(lists.skip(1));
    }
}

/// The product of lists of one element each is the one choice of those
/// elements.
pub proof fn lemma_product_of_singletons(lists: Seq<Seq<Seq<char>>>, xs: Seq<Seq<char>>)
    requires
        lists.len() == xs.len(),
        forall|i: int| 0 <= i < xs.len() ==> #[trigger] lists[i] == seq![xs[i]],
    ensures
        product(lists) == seq![xs],
    decreases lists.len(),
{
    if lists.len() == 0 {
        assert(xs =~= Seq::empty());
    } else {
        lemma_product_of_singletons(lists.skip(1), xs.skip(1));
        let rest = product(lists.skip(1));
        assert(rest.len() == 1);
        assert(lists[0] == seq![xs[0]]);
        assert(seq![lists[0][0]] + rest[0] =~= xs);
        assert(product(lists) =~= seq![xs]);
    }
}

/// A descriptor without patterns stands for itself alone.
pub proof fn lemma_expansion_of_concrete(d: Descriptor)
    requires
        !has_pattern(d),
    ensures
        expansion(d) == seq![d],
{
    let lists = candidate_lists(d.args);
    assert forall|i: int| 0 <= i < d.args.len() implies #[trigger] lists[i] == seq![d.args[i]] by {
        assert(!is_pattern(d.args[i]));
    }
    lemma_product_of_singletons(lists, d.args);
    assert(candidates(d.ret) == seq![d.ret]);
    let combos = product(lists);
    let rets = candidates(d.ret);
    assert(combos.len() == 1 && rets.len() == 1);
    assert(combos.len() * rets.len() == 1) by (nonlinear_arith)
        requires
            combos.len() == 1,
            rets.len() == 1,
    ;
    assert(expansion(d).len() == 1);
    assert(0int / 1 == 0 && 0int % 1 == 0);
    assert(expansion(d)[0] == Descriptor { args: combos[0], ret: rets[0], ..d });
    assert(combos[0] == d.args);
    assert(expansion(d)[0] == d);
    assert(expansion(d) =~= seq![d]);
}

/// No candidate of a name is a pattern.
pub proof fn lemma_candidates_are_concrete(ty: Seq<char>, j: int)
    requires
        0 <= j < candidates(ty).len(),
    ensures
        !is_pattern(candidates(ty)[j]),
{
    reveal_strlit("*");
    reveal_strlit("*int");
    reveal_strlit("*float");
    reveal_strlit("void");
    reveal_strlit("boolean");
    reveal_strlit("smallint");
    reveal_strlit("int");
    reveal_strlit("bigint");
    reveal_strlit("real");
    reveal_strlit("float");
    reveal_strlit("decimal");
    reveal_strlit("date");
    reveal_strlit("time");
    reveal_strlit("timestamp");
    reveal_strlit("interval");
    reveal_strlit("json");
    reveal_strlit("varchar");
    reveal_strlit("bytea");
    assert("*"@[0] == '*' && "*int"@[0] == '*' && "*float"@[0] == '*');
    if is_pattern(ty) {
        let c = candidates(ty)[j];
        assert(c.len() > 0 && c[0] != '*');
    }
}

/// Every choice takes one element from each list.
pub proof fn lemma_product_member(lists: Seq<Seq<Seq<char>>>, k: int, i: int)
    requires
        0 <= k < product(lists).len(),
        0 <= i < lists.len(),
    ensures
        product(lists)[k].len() == lists.len(),
        exists|j: int| 0 <= j < lists[i].len() && product(lists)[k][i] == #[trigger] lists[i][j],
    decreases lists.len(),
{
    let rest = product(lists.skip(1));
    let m = rest.len() as int;
    let n = lists[0].len() as int;
    assert(m > 0 && 0 <= k / m < n && 0 <= k % m < m) by (nonlinear_arith)
        requires
            0 <= k < n * m,
            0 <= n,
            0 <= m,
    ;
    if lists.len() > 1 {
        lemma_product_member(lists.skip(1), k % m, if i == 0 {
            0
        } else {
            i - 1
        });
    } else {
        assert(lists.skip(1).len() == 0);
        assert(rest[k % m].len() == 0);
    }
    if i == 0 {
        assert(product(lists)[k][0] == lists[0][k / m]);
    } else {
        let j = choose|j: int|
            0 <= j < lists.skip(1)[i - 1].len() && rest[k % m][i - 1] == #[trigger] lists.skip(
                1,
            )[i - 1][j];
        assert(product(lists)[k][i] == rest[k % m][i - 1]);
        assert(lists.skip(1)[i - 1] == lists[i]);
        assert(product(lists)[k][i] == lists[i][j]);
    }
}

/// No descriptor that comes of an expansion holds a pattern, so that
/// expanding it gives it back alone: expansion is idempotent.
pub proof fn lemma_expansion_is_concrete(d: Descriptor, k: int)
    requires
        0 <= k < expansion(d).len(),
    ensures
        !has_pattern(expansion(d)[k]),
        expansion(expansion(d)[k]) == seq![expansion(d)[k]],
{
    let lists = candidate_lists(d.args);
    let combos = product(lists);
    let rets = candidates(d.ret);
    let r = rets.len() as int;
    let c = combos.len() as int;
    assert(r > 0 && 0 <= k / r < c && 0 <= k % r < r) by (nonlinear_arith)
        requires
            0 <= k < c * r,
            0 <= c,
            0 <= r,
    ;
    let e = expansion(d)[k];
    lemma_candidates_are_concrete(d.ret, k % r);
    lemma_product_member_len(lists, k / r);
    assert forall|i: int| 0 <= i < e.args.len() implies !is_pattern(#[trigger] e.args[i]) by {
        lemma_product_member(lists, k / r, i);
        let j = choose|j: int|
            0 <= j < lists[i].len() && combos[k / r][i] == #[trigger] lists[i][j];
        lemma_candidates_are_concrete(d.args[i], j);
    }
    lemma_expansion_of_concrete(e);
}

/// Every choice has as many elements as there are lists.
pub proof fn lemma_product_member_len(lists: Seq<Seq<Seq<char>>>, k: int)
    requires
        0 <= k < product(lists).len(),
    ensures
        product(lists)[k].len() == lists.len(),
    decreases lists.len(),
{
    if lists.len() > 0 {
        let rest = product(lists.skip(1));
        let m = rest.len() as int;
        let n = lists[0].len() as int;
        assert(m > 0 && 0 <= k / m < n && 0 <= k % m < m) by (nonlinear_arith)
            requires
                0 <= k < n * m,
                0 <= n,
                0 <= m,
        ;
        lemma_product_member_len(lists.skip(1), k % m);
    }
}

/// The number of descriptors that `d` stands for is the number of candidates
/// of its result times the number of candidates of each of its arguments.
/// Without arguments it is the number of candidates of the result.
pub proof fn lemma_expansion_count(d: Descriptor)
    ensures
        expansion(d).len() == candidates(d.ret).len() * combinations(candidate_lists(d.args)),
        d.args.len() == 0 ==> expansion(d).len() == candidates(d.ret).len(),
{
    lemma_product_len(candidate_lists(d.args));
    if d.args.len() == 0 {
        assert(combinations(candidate_lists(d.args)) == 1);
        assert(1 * candidates(d.ret).len() == candidates(d.ret).len()) by (nonlinear_arith);
    }
    assert(combinations(candidate_lists(d.args)) * candidates(d.ret).len() == candidates(
        d.ret,
    ).len() * combinations(candidate_lists(d.args))) by (nonlinear_arith);
}

/// The types that the name `ty` stands for.
pub fn expand_type_wildcard(ty: &str) -> (r: Vec<String>)
    ensures
        names_of(r@) == candidates(ty@),
{
    let mut out: Vec<String> = Vec::new();
    if same_text(ty, "*") {
        out.push("void".to_owned());
        out.push("boolean".to_owned());
        out.push("smallint".to_owned());
        out.push("int".to_owned());
        out.push("bigint".to_owned());
        out.push("real".to_owned());
        out.push("float".to_owned());
        out.push("decimal".to_owned());
        out.push("date".to_owned());
        out.push("time".to_owned());
        out.push("timestamp".to_owned());
        out.push("interval".to_owned());
        out.push("json".to_owned());
        out.push("varchar".to_owned());
        out.push("bytea".to_owned());
    } else if same_text(ty, "*int") {
        out.push("smallint".to_owned());
        out.push("int".to_owned());
        out.push("bigint".to_owned());
    } else if same_text(ty, "*float") {
        out.push("real".to_owned());
        out.push("float".to_owned());
    } else {
        out.push(ty.to_owned());
    }
    proof {
        assert(names_of(out@) =~= candidates(ty@));
    }
    out
}

/// Calls `multi_cartesian_product` of itertools on copies of the lists.
///
/// Of one or more lists it yields every choice of one element from each, the
/// last list varying fastest; of no lists it yields nothing.
#[verifier::external_body]
fn multi_cartesian_product(lists: &Vec<Vec<String>>) -> (r: Vec<Vec<String>>)
    ensures
        name_lists(r@) == if lists@.len() == 0 {
            Seq::empty()
        } else {
            product(name_lists(lists@))
        },
{
    lists.iter().map(|l| l.iter().cloned()).multi_cartesian_product().collect()
}

/// Calls `cartesian_product` of itertools on the choices and copies of the
/// results.
///
/// It yields every pair of a choice and a result, the result varying
/// fastest.
#[verifier::external_body]
fn cartesian_product(combos: Vec<Vec<String>>, rets: &Vec<String>) -> (r: Vec<
    (Vec<String>, String),
>)
    ensures
        r@.len() == combos@.len() * rets@.len(),
        forall|k: int|
            0 <= k < r@.len() ==> {
                &&& names_of((#[trigger] r@[k]).0@) == names_of(combos@[k / (rets@.len() as int)]@)
                &&& r@[k].1@ == rets@[k % (rets@.len() as int)]@
            },
{
    combos.into_iter().cartesian_product(rets.iter().cloned()).collect()
}

impl FunctionAttr {
    /// Expands the patterns in the arguments and the result.
    ///
    /// Returns the descriptors that this one stands for, in the order of
    /// [`expansion`]. A descriptor without patterns comes back alone.
    pub fn expand(&self) -> (r: Vec<FunctionAttr>)
        ensures
            r@.len() == expansion(self@).len(),
            forall|k: int| 0 <= k < r@.len() ==> (#[trigger] r@[k])@ == expansion(self@)[k],
            !has_pattern(self@) ==> r@.len() == 1 && r@[0]@ == self@,
    {
        let mut lists: Vec<Vec<String>> = Vec::new();
        let mut i: usize = 0;
        while i < self.args.len()
            invariant
                i <= self.args.len(),
                lists@.len() == i,
                forall|j: int|
                    0 <= j < i ==> names_of((#[trigger] lists@[j])@) == candidates(self.args@[j]@),
            decreases self.args.len() - i,
        {
            lists.push(expand_type_wildcard(self.args[i].as_str()));
            i += 1;
        }
        proof {
            assert(name_lists(lists@) =~= candidate_lists(self@.args));
        }
        let mut combos = multi_cartesian_product(&lists);
        if self.args.len() == 0 {
            proof {
                assert(combos@.len() == name_lists(combos@).len());
            }
            combos.push(Vec::new());
            proof {
                assert(names_of(combos@[0]@) =~= Seq::empty());
                assert(name_lists(combos@) =~= product(candidate_lists(self@.args)));
            }
        }
        let rets = expand_type_wildcard(self.ret.as_str());
        let ghost choices = product(candidate_lists(self@.args));
        let ghost results = candidates(self@.ret);
        proof {
            assert(combos@.len() == name_lists(combos@).len());
            assert(rets@.len() == names_of(rets@).len());
        }
        let ghost combos_before = combos@;
        let pairs = cartesian_product(combos, &rets);
        let mut attrs: Vec<FunctionAttr> = Vec::new();
        let mut k: usize = 0;
        while k < pairs.len()
            invariant
                k <= pairs.len(),
                attrs@.len() == k,
                choices == product(candidate_lists(self@.args)),
                results == candidates(self@.ret),
                name_lists(combos_before) == choices,
                names_of(rets@) == results,
                combos_before.len() == choices.len(),
                rets@.len() == results.len(),
                pairs@.len() == combos_before.len() * rets@.len(),
                forall|j: int|
                    0 <= j < pairs@.len() ==> {
                        &&& names_of((#[trigger] pairs@[j]).0@) == names_of(
                            combos_before[j / (rets@.len() as int)]@,
                        )
                        &&& pairs@[j].1@ == rets@[j % (rets@.len() as int)]@
                    },
                forall|j: int| 0 <= j < k ==> (#[trigger] attrs@[j])@ == expansion(self@)[j],
            decreases pairs.len() - k,
        {
            let attr = FunctionAttr {
                name: self.name.clone(),
                args: clone_names(&pairs[k].0),
                ret: pairs[k].1.clone(),
                is_table_function: self.is_table_function,
                batch_fn: clone_opt(&self.batch_fn),
                type_infer: clone_opt(&self.type_infer),
                output: clone_opt(&self.output),
            };
            proof {
                let n = rets@.len() as int;
                let m = combos_before.len() as int;
                assert(0 < n && 0 <= (k as int) / n < m && 0 <= (k as int) % n < n) by (nonlinear_arith)
                    requires
                        0 <= k < m * n,
                        0 <= m,
                        0 <= n,
                ;
                assert(names_of(combos_before[(k as int) / n]@) == name_lists(combos_before)[(
                k as int) / n]);
                assert(rets@[(k as int) % n]@ == names_of(rets@)[(k as int) % n]);
                assert(attr@ == expansion(self@)[k as int]);
            }
            attrs.push(attr);
            k += 1;
        }
        proof {
            if !has_pattern(self@) {
                lemma_expansion_of_concrete(self@);
            }
        }
        attrs
    }
}

} // verus!
