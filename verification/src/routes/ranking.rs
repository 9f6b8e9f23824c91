//! Ranking: rows in the order of a number that each of them has.

use vstd::prelude::*;
use vstd::relations::{sorted_by, total_ordering};

verus! {

/// True when row `a` comes before row `b`: its key is smaller, or the keys are equal
/// and it is the earlier row.
pub open spec fn ranks_before(keys: Seq<i64>, a: int, b: int) -> bool {
    keys[a] < keys[b] || (keys[a] == keys[b] && a < b)
}

/// The same, or the same row.
pub open spec fn ranks_up_to(keys: Seq<i64>, a: int, b: int) -> bool {
    keys[a] < keys[b] || (keys[a] == keys[b] && a <= b)
}

/// The first `n` row numbers.
pub open spec fn first_rows(n: nat) -> Seq<int> {
    Seq::new(n, |i: int| i)
}

/// The rows that have these keys, in the order of the keys.
pub open spec fn ranked_rows(keys: Seq<i64>) -> Seq<int> {
    first_rows(keys.len()).sort_by(|a: int, b: int| ranks_up_to(keys, a, b))
}

/// Row numbers as mathematical integers.
pub open spec fn row_numbers(rows: Seq<usize>) -> Seq<int> {
    rows.map_values(|i: usize| i as int)
}

proof fn lemma_ranks_total(keys: Seq<i64>)
    ensures
        total_ordering(|a: int, b: int| ranks_up_to(keys, a, b)),
{
}

/// Ranking lists every row once, each before those that it ranks before.
pub proof fn lemma_ranked_rows(keys: Seq<i64>)
    ensures
        ranked_rows(keys).len() == keys.len(),
        forall|k: int|
            0 <= k < ranked_rows(keys).len() ==> 0 <= #[trigger] ranked_rows(keys)[k] < keys.len(),
        forall|i: int| 0 <= i < keys.len() ==> #[trigger] ranked_rows(keys).contains(i),
        forall|j: int, k: int|
            0 <= j < k < ranked_rows(keys).len() ==> ranks_before(
                keys,
                #[trigger] ranked_rows(keys)[j],
                #[trigger] ranked_rows(keys)[k],
            ),
{
    broadcast use vstd::seq_lib::group_to_multiset_ensures;

    let le = |a: int, b: int| ranks_up_to(keys, a, b);
    let all = first_rows(keys.len());
    let out = ranked_rows(keys);
    lemma_ranks_total(keys);
    all.lemma_sort_by_ensures(le);
    vstd::seq_lib::to_multiset_len(all);
    vstd::seq_lib::to_multiset_len(out);
    all.lemma_multiset_has_no_duplicates();
    out.lemma_multiset_has_no_duplicates_conv();
    assert forall|k: int| 0 <= k < out.len() implies 0 <= #[trigger] out[k] < keys.len() by {
        assert(out.contains(out[k]));
        assert(all.contains(out[k]));
    }
    assert forall|i: int| 0 <= i < keys.len() implies #[trigger] out.contains(i) by {
        assert(all[i] == i);
        assert(all.contains(i));
        assert(all.to_multiset().count(i) > 0);
    }
    assert forall|j: int, k: int| 0 <= j < k < out.len() implies ranks_before(
        keys,
        #[trigger] out[j],
        #[trigger] out[k],
    ) by {
        assert(le(out[j], out[k]));
        assert(out[j] != out[k]);
    }
}

/// Leaving rows out keeps the order of the others.
pub proof fn lemma_filter_keeps_rank(keys: Seq<i64>, rows: Seq<int>, p: spec_fn(int) -> bool)
    requires
        forall|j: int, k: int|
            0 <= j < k < rows.len() ==> ranks_before(keys, #[trigger] rows[j], #[trigger] rows[k]),
    ensures
        forall|j: int, k: int|
            0 <= j < k < rows.filter(p).len() ==> ranks_before(
                keys,
                #[trigger] rows.filter(p)[j],
                #[trigger] rows.filter(p)[k],
            ),
        forall|k: int| 0 <= k < rows.filter(p).len() ==> rows.contains(#[trigger] rows.filter(p)[k]),
    decreases rows.len(),
{
    reveal(Seq::filter);
    if rows.len() > 0 {
        let rest = rows.drop_last();
        let last = rows.last();
        assert forall|j: int, k: int| 0 <= j < k < rest.len() implies ranks_before(
            keys,
            #[trigger] rest[j],
            #[trigger] rest[k],
        ) by {
            assert(rest[j] == rows[j] && rest[k] == rows[k]);
        }
        lemma_filter_keeps_rank(keys, rest, p);
        let kept = rest.filter(p);
        let out = rows.filter(p);
        assert forall|k: int| 0 <= k < kept.len() implies rows.contains(#[trigger] kept[k])
            && ranks_before(keys, kept[k], last) by {
            assert(rest.contains(kept[k]));
            let i = rest.index_of(kept[k]);
            assert(rows[i] == kept[k]);
            assert(rows[rows.len() - 1] == last);
        }
        assert(rows[rows.len() - 1] == last);
        assert(rows.contains(last));
        assert forall|k: int| 0 <= k < out.len() implies rows.contains(#[trigger] out[k]) by {
            if k < kept.len() {
                assert(out[k] == kept[k]);
            }
        }
        assert forall|j: int, k: int| 0 <= j < k < out.len() implies ranks_before(
            keys,
            #[trigger] out[j],
            #[trigger] out[k],
        ) by {
            assert(out[j] == kept[j]);
            if k < kept.len() {
                assert(out[k] == kept[k]);
            }
        }
    }
}

/// The rows that have these keys, in the order of the keys.
pub fn rank(keys: &Vec<i64>) -> (r: Vec<usize>)
    ensures
        row_numbers(r@) == ranked_rows(keys@),
        forall|k: int| 0 <= k < r@.len() ==> #[trigger] r@[k] < keys@.len(),
{
    broadcast use vstd::seq_lib::group_to_multiset_ensures;

    let ghost le = |a: int, b: int| ranks_up_to(keys@, a, b);
    let ghost all = first_rows(keys@.len());
    let mut out: Vec<usize> = Vec::new();
    let mut k: usize = 0;
    proof {
        lemma_ranks_total(keys@);
        assert(row_numbers(out@) =~= all.take(0));
    }
    while k < keys.len()
        invariant
            k <= keys@.len(),
            le == (|a: int, b: int| ranks_up_to(keys@, a, b)),
            total_ordering(le),
            all == first_rows(keys@.len()),
            row_numbers(out@).to_multiset() == all.take(k as int).to_multiset(),
            sorted_by(row_numbers(out@), le),
            out@.len() == k,
            forall|j: int| 0 <= j < k ==> #[trigger] out@[j] < k,
        decreases keys@.len() - k,
    {
        let ghost before = row_numbers(out@);
        let mut at: usize = k;
        while at > 0 && keys[out[at - 1]] > keys[k]
            invariant
                at <= k < keys@.len(),
                out@.len() == k,
                le == (|a: int, b: int| ranks_up_to(keys@, a, b)),
                before == row_numbers(out@),
                forall|j: int| 0 <= j < k ==> #[trigger] out@[j] < k,
                forall|j: int| at <= j < k ==> le(k as int, #[trigger] before[j]),
            decreases at,
        {
            proof {
                assert(before[at - 1] == out@[at - 1]);
            }
            at -= 1;
        }
        proof {
            if at > 0 {
                assert(before[at - 1] == out@[at - 1]);
                assert forall|j: int| 0 <= j < at implies le(#[trigger] before[j], k as int) by {
                    assert(before[j] == out@[j]);
                    if j < at - 1 {
                        assert(le(before[j], before[at - 1]));
                    }
                }
            }
        }
        out.insert(at, k);
        proof {
            let after = row_numbers(out@);
            assert(after =~= before.insert(at as int, k as int));
            vstd::seq_lib::to_multiset_insert(before, at as int, k as int);
            assert(all.take(k + 1) =~= all.take(k as int).push(k as int));
            vstd::seq_lib::to_multiset_build(all.take(k as int), k as int);
            assert forall|i: int, j: int| 0 <= i < j < after.len() implies #[trigger] le(
                after[i],
                after[j],
            ) by {
                let x = if i < at { i } else { i - 1 };
                let y = if j < at { j } else { j - 1 };
                if i != at && j != at {
                    assert(le(before[x], before[y]));
                } else if i == at {
                    assert(le(k as int, before[y]));
                } else {
                    assert(le(before[x], k as int));
                }
            }
        }
        k += 1;
    }
    proof {
        assert(all.take(k as int) =~= all);
        all.lemma_sort_by_ensures(le);
        vstd::seq_lib::lemma_sorted_unique(row_numbers(out@), all.sort_by(le), le);
    }
    out
}

} // verus!
