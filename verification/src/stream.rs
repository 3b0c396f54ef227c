//! Cutting the rows of a table function into batches of bounded size.
use vstd::prelude::*;

verus! {

/// The items in stretches of `size`, in order: every stretch but the last
/// holds `size` items, the last holds what is left, and no stretch is empty.
pub open spec fn chunks<T>(items: Seq<T>, size: int) -> Seq<Seq<T>>
    decreases items.len(),
{
    if size <= 0 || items.len() == 0 {
        Seq::empty()
    } else if items.len() <= size {
        seq![items]
    } else {
        seq![items.take(size)] + chunks(items.skip(size), size)
    }
}

/// The stretches of a sequence of sequences, one after the other.
pub open spec fn flattened<T>(parts: Seq<Seq<T>>) -> Seq<T>
    decreases parts.len(),
{
    if parts.len() == 0 {
        Seq::empty()
    } else {
        parts[0] + flattened(parts.skip(1))
    }
}

/// The number of stretches: the number of items divided by `size`, rounded
/// up.
pub proof fn lemma_chunks_len<T>(items: Seq<T>, size: int)
    requires
        size > 0,
    ensures
        chunks(items, size).len() == (items.len() + size - 1) / size,
        items.len() == 0 ==> chunks(items, size).len() == 0,
    decreases items.len(),
{
    if items.len() == 0 {
        assert((size - 1) / size == 0) by (nonlinear_arith)
            requires
                size > 0,
        ;
    } else if items.len() <= size {
        assert((items.len() + size - 1) / size == 1) by (nonlinear_arith)
            requires
                0 < items.len() <= size,
        ;
    } else {
        lemma_chunks_len(items.skip(size), size);
        let n = items.len() as int;
        assert(items.skip(size).len() == n - size);
        assert((n + size - 1) / size == 1 + (n - size + size - 1) / size) by (nonlinear_arith)
            requires
                size > 0,
                n > size,
        ;
    }
}

/// No stretch holds more than `size` items, none is empty, every stretch
/// but the last holds exactly `size`, and the last holds the remainder where
/// the number of items is no multiple of `size`.
pub proof fn lemma_chunks_sizes<T>(items: Seq<T>, size: int)
    requires
        size > 0,
    ensures
        forall|k: int|
            0 <= k < chunks(items, size).len() ==> 0 < (#[trigger] chunks(items, size)[k]).len()
                <= size,
        forall|k: int|
            0 <= k < chunks(items, size).len() - 1 ==> (#[trigger] chunks(items, size)[k]).len()
                == size,
        (items.len() as int) % size != 0 ==> chunks(items, size).len() > 0 && chunks(
            items,
            size,
        ).last().len() == (items.len() as int) % size,
    decreases items.len(),
{
    if items.len() == 0 {
    } else if items.len() <= size {
        let n = items.len() as int;
        if n % size != 0 {
            assert(n < size) by (nonlinear_arith)
                requires
                    0 < n <= size,
                    n % size != 0,
            ;
            assert(n % size == n) by (nonlinear_arith)
                requires
                    0 < n < size,
            ;
        }
    } else {
        let rest = items.skip(size);
        lemma_chunks_sizes(rest, size);
        let cs = chunks(items, size);
        let rs = chunks(rest, size);
        assert(rs.len() > 0);
        assert forall|k: int| 0 <= k < cs.len() implies 0 < (#[trigger] cs[k]).len() <= size by {
            if k > 0 {
                assert(cs[k] == rs[k - 1]);
            }
        }
        assert forall|k: int| 0 <= k < cs.len() - 1 implies (#[trigger] cs[k]).len() == size by {
            if k > 0 {
                assert(cs[k] == rs[k - 1]);
            }
        }
        assert(cs.last() == rs.last());
        let n = items.len() as int;
        assert((n - size) % size == n % size) by (nonlinear_arith)
            requires
                size > 0,
                n > size,
        ;
    }
}

/// The stretches, one after the other, are the items.
pub proof fn lemma_chunks_flatten<T>(items: Seq<T>, size: int)
    requires
        size > 0,
    ensures
        flattened(chunks(items, size)) == items,
    decreases items.len(),
{
    if items.len() == 0 {
        assert(flattened(chunks(items, size)) =~= items);
    } else if items.len() <= size {
        let cs = chunks(items, size);
        assert(cs.skip(1) =~= Seq::empty());
        assert(flattened(cs.skip(1)) =~= Seq::empty());
        assert(flattened(cs) =~= items);
    } else {
        let cs = chunks(items, size);
        lemma_chunks_flatten(items.skip(size), size);
        assert(cs.skip(1) =~= chunks(items.skip(size), size));
        assert(flattened(cs) =~= items);
    }
}

/// The stretch `k` holds the items from `size * k` up to `size * (k + 1)`,
/// or up to the last item.
pub proof fn lemma_chunks_index<T>(items: Seq<T>, size: int, k: int)
    requires
        size > 0,
        0 <= k < chunks(items, size).len(),
    ensures
        size * k < items.len(),
        chunks(items, size)[k] == items.subrange(
            size * k,
            if size * (k + 1) <= items.len() {
                size * (k + 1)
            } else {
                items.len() as int
            },
        ),
    decreases items.len(),
{
    let n = items.len() as int;
    if n == 0 {
    } else if n <= size {
        assert(k == 0);
        assert(size * 0 == 0 && size * 1 == size) by (nonlinear_arith);
        assert(items.subrange(0, n) =~= items);
    } else {
        if k == 0 {
            assert(size * 0 == 0 && size * 1 == size) by (nonlinear_arith);
            assert(items.take(size) =~= items.subrange(0, size));
        } else {
            let rest = items.skip(size);
            lemma_chunks_index(rest, size, k - 1);
            assert(chunks(items, size)[k] == chunks(rest, size)[k - 1]);
            assert(size * (k - 1) + size == size * k && size * k + size == size * (k + 1))
                by (nonlinear_arith);
            let hi = if size * (k + 1) <= n {
                size * (k + 1)
            } else {
                n
            };
            assert(rest.subrange(size * (k - 1), hi - size) =~= items.subrange(size * k, hi));
        }
    }
}

/// The elements of `v` in the opposite order.
pub fn reversed<T>(v: Vec<T>) -> (r: Vec<T>)
    ensures
        r@.len() == v@.len(),
        forall|j: int| 0 <= j < r@.len() ==> #[trigger] r@[j] == v@[v@.len() - 1 - j],
{
    let ghost all = v@;
    let mut rest = v;
    let mut out: Vec<T> = Vec::new();
    while rest.len() > 0
        invariant
            rest@.len() + out@.len() == all.len(),
            rest@ == all.take(rest@.len() as int),
            forall|j: int| 0 <= j < out@.len() ==> #[trigger] out@[j] == all[all.len() - 1 - j],
        decreases rest@.len(),
    {
        let x = rest.pop();
        match x {
            Some(x) => {
                out.push(x);
            },
            None => {},
        }
    }
    out
}

} // verus!
