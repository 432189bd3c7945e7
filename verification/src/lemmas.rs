//! Facts about sequences of rows that the proofs of the store share.

use crate::model::{clashes, distinct_by, first_of, has_key, top_key, with_row, without_key};
use vstd::prelude::*;

verus! {

/// The plain values of a list of records, in order.
pub open spec fn views_of<T: View>(rows: Seq<T>) -> Seq<T::V> {
    rows.map_values(|x: T| x@)
}

/// A prefix that is one longer is the shorter prefix with one more row.
pub proof fn lemma_take_step<T>(rows: Seq<T>, i: int)
    requires
        0 <= i < rows.len(),
    ensures
        rows.take(i + 1) == rows.take(i).push(rows[i]),
        rows.take(i + 1).drop_last() == rows.take(i),
        rows.take(i + 1).last() == rows[i],
{
    assert(rows.take(i + 1) =~= rows.take(i).push(rows[i]));
    assert(rows.take(i + 1).drop_last() =~= rows.take(i));
}

/// The views of a list with one more row are the views of the list with the
/// view of that row.
pub proof fn lemma_views_push<T: View>(rows: Seq<T>, x: T)
    ensures
        views_of(rows.push(x)) == views_of(rows).push(x@),
{
    assert(views_of(rows.push(x)) =~= views_of(rows).push(x@));
}

/// The views of a prefix that is one longer.
pub proof fn lemma_views_step<T: View>(rows: Seq<T>, i: int)
    requires
        0 <= i < rows.len(),
    ensures
        views_of(rows.take(i + 1)) == views_of(rows.take(i)).push(rows[i]@),
        views_of(rows.take(i + 1)).drop_last() == views_of(rows.take(i)),
        views_of(rows.take(i + 1)).last() == rows[i]@,
{
    lemma_take_step(rows, i);
    lemma_views_push(rows.take(i), rows[i]);
    assert(views_of(rows.take(i)).push(rows[i]@).drop_last() =~= views_of(rows.take(i)));
}

/// The whole list is its own longest prefix.
pub proof fn lemma_views_whole<T: View>(rows: Seq<T>)
    ensures
        views_of(rows.take(rows.len() as int)) == views_of(rows),
        views_of(rows.take(0)) == Seq::<T::V>::empty(),
{
    assert(rows.take(rows.len() as int) =~= rows);
    assert(views_of(rows.take(0)) =~= Seq::<T::V>::empty());
}

/// The largest key is no key's inferior, and it is between 0 and the largest
/// number a key can be.
pub proof fn lemma_top_key_bound<T>(rows: Seq<T>, key: spec_fn(T) -> i32)
    ensures
        0 <= top_key(rows, key) <= i32::MAX,
        forall|i: int| 0 <= i < rows.len() ==> key(#[trigger] rows[i]) <= top_key(rows, key),
    decreases rows.len(),
{
    if rows.len() > 0 {
        lemma_top_key_bound(rows.drop_last(), key);
        assert forall|i: int| 0 <= i < rows.len() implies key(#[trigger] rows[i]) <= top_key(
            rows,
            key,
        ) by {
            if i < rows.len() - 1 {
                assert(rows.drop_last()[i] == rows[i]);
            }
        }
    }
}

/// The largest key after one more row.
pub proof fn lemma_top_key_push<T>(rows: Seq<T>, key: spec_fn(T) -> i32, x: T)
    ensures
        top_key(rows.push(x), key) == if key(x) > top_key(rows, key) {
            key(x) as int
        } else {
            top_key(rows, key)
        },
{
    assert(rows.push(x).drop_last() =~= rows);
}

/// Whether a key is in use after one more row.
pub proof fn lemma_has_key_push<T, K>(rows: Seq<T>, key: spec_fn(T) -> K, x: T, k: K)
    ensures
        has_key(rows.push(x), key, k) == (has_key(rows, key, k) || key(x) == k),
{
    let longer = rows.push(x);
    if has_key(rows, key, k) {
        let i = choose|i: int| 0 <= i < rows.len() && key(#[trigger] rows[i]) == k;
        assert(longer[i] == rows[i]);
    }
    if key(x) == k {
        assert(longer[rows.len() as int] == x);
    }
    if has_key(longer, key, k) {
        let i = choose|i: int| 0 <= i < longer.len() && key(#[trigger] longer[i]) == k;
        if i < rows.len() {
            assert(longer[i] == rows[i]);
        }
    }
}

/// Whether a row clashes with the rows after one more of them.
pub proof fn lemma_clashes_push<T, K, U>(
    rows: Seq<T>,
    key: spec_fn(T) -> K,
    unique: spec_fn(T) -> U,
    x: T,
    row: T,
)
    ensures
        clashes(rows.push(x), key, unique, row) == (clashes(rows, key, unique, row) || (key(x)
            != key(row) && unique(x) == unique(row))),
{
    let longer = rows.push(x);
    if clashes(rows, key, unique, row) {
        let i = choose|i: int|
            0 <= i < rows.len() && key(#[trigger] rows[i]) != key(row) && unique(rows[i])
                == unique(row);
        assert(longer[i] == rows[i]);
    }
    if key(x) != key(row) && unique(x) == unique(row) {
        assert(longer[rows.len() as int] == x);
    }
    if clashes(longer, key, unique, row) {
        let i = choose|i: int|
            0 <= i < longer.len() && key(#[trigger] longer[i]) != key(row) && unique(longer[i])
                == unique(row);
        if i < rows.len() {
            assert(longer[i] == rows[i]);
        }
    }
}

/// The rows without a key, after one more row.
pub proof fn lemma_without_key_push<T, K>(rows: Seq<T>, key: spec_fn(T) -> K, x: T, k: K)
    ensures
        without_key(rows.push(x), key, k) == if key(x) != k {
            without_key(rows, key, k).push(x)
        } else {
            without_key(rows, key, k)
        },
{
    rows.lemma_filter_push(x, |r: T| key(r) != k);
}

/// The rows with one replaced, after one more row.
pub proof fn lemma_with_row_push<T, K>(rows: Seq<T>, key: spec_fn(T) -> K, x: T, row: T)
    ensures
        with_row(rows.push(x), key, row) == with_row(rows, key, row).push(
            if key(x) == key(row) {
                row
            } else {
                x
            },
        ),
{
    assert(with_row(rows.push(x), key, row) =~= with_row(rows, key, row).push(
        if key(x) == key(row) {
            row
        } else {
            x
        },
    ));
}

/// No rows, with or without a key, are no rows.
pub proof fn lemma_without_key_empty<T, K>(key: spec_fn(T) -> K, k: K)
    ensures
        without_key(Seq::<T>::empty(), key, k) == Seq::<T>::empty(),
{
    reveal(Seq::filter);
}

/// Rows that are distinct by a key stay so with one more row whose key none
/// of them has.
pub proof fn lemma_distinct_push<T, K>(rows: Seq<T>, key: spec_fn(T) -> K, x: T)
    requires
        distinct_by(rows, key),
        !has_key(rows, key, key(x)),
    ensures
        distinct_by(rows.push(x), key),
{
    let longer = rows.push(x);
    assert forall|i: int, j: int| 0 <= i < j < longer.len() implies key(#[trigger] longer[i])
        != key(#[trigger] longer[j]) by {
        assert(longer[i] == rows[i]);
        if j < rows.len() {
            assert(longer[j] == rows[j]);
        }
    }
}

/// Every row that a filter keeps is a row of the list, and the rows it keeps
/// come in the order that they had.
pub proof fn lemma_filter_order<T>(rows: Seq<T>, keep: spec_fn(T) -> bool) -> (at: Seq<int>)
    ensures
        at.len() == rows.filter(keep).len(),
        forall|i: int|
            0 <= i < at.len() ==> 0 <= #[trigger] at[i] < rows.len() && rows[at[i]]
                == rows.filter(keep)[i] && keep(rows[at[i]]),
        forall|i: int, j: int| 0 <= i < j < at.len() ==> #[trigger] at[i] < #[trigger] at[j],
        forall|k: int|
            0 <= k < rows.len() && keep(#[trigger] rows[k]) ==> exists|i: int|
                0 <= i < at.len() && #[trigger] at[i] == k,
    decreases rows.len(),
{
    reveal(Seq::filter);
    if rows.len() == 0 {
        Seq::empty()
    } else {
        let shorter = rows.drop_last();
        let inner = lemma_filter_order(shorter, keep);
        let n = rows.len() - 1;
        let at = if keep(rows.last()) {
            inner.push(n)
        } else {
            inner
        };
        assert forall|k: int| 0 <= k < rows.len() && keep(#[trigger] rows[k]) implies exists|
            i: int,
        |
            0 <= i < at.len() && #[trigger] at[i] == k by {
            if k < n {
                assert(shorter[k] == rows[k]);
                let i = choose|i: int| 0 <= i < inner.len() && #[trigger] inner[i] == k;
                assert(at[i] == k);
            } else {
                assert(at[at.len() - 1] == k);
            }
        }
        at
    }
}

/// Rows that are distinct by a key stay so when some of them leave.
pub proof fn lemma_distinct_filter<T, K>(
    rows: Seq<T>,
    key: spec_fn(T) -> K,
    keep: spec_fn(T) -> bool,
)
    requires
        distinct_by(rows, key),
    ensures
        distinct_by(rows.filter(keep), key),
{
    let at = lemma_filter_order(rows, keep);
    let kept = rows.filter(keep);
    assert forall|i: int, j: int| 0 <= i < j < kept.len() implies key(#[trigger] kept[i]) != key(
        #[trigger] kept[j],
    ) by {
        assert(at[i] < at[j]);
        assert(rows[at[i]] == kept[i]);
        assert(rows[at[j]] == kept[j]);
    }
}

/// Rows that are distinct by a key stay so when the rows with some key leave.
pub proof fn lemma_distinct_without_key<T, K, U>(
    rows: Seq<T>,
    by: spec_fn(T) -> U,
    key: spec_fn(T) -> K,
    k: K,
)
    requires
        distinct_by(rows, by),
    ensures
        distinct_by(without_key(rows, key, k), by),
{
    lemma_distinct_filter(rows, by, |r: T| key(r) != k);
}

/// The key after the largest one in use is not in use.
pub proof fn lemma_fresh_key_unused<T>(rows: Seq<T>, key: spec_fn(T) -> i32)
    requires
        top_key(rows, key) < i32::MAX,
    ensures
        !has_key(rows, key, (top_key(rows, key) + 1) as i32),
{
    lemma_top_key_bound(rows, key);
}

/// Rows that are distinct by a key stay so when each row keeps its key.
pub proof fn lemma_distinct_same_keys<T, K>(before: Seq<T>, after: Seq<T>, key: spec_fn(T) -> K)
    requires
        distinct_by(before, key),
        before.len() == after.len(),
        forall|i: int| 0 <= i < before.len() ==> key(#[trigger] after[i]) == key(before[i]),
    ensures
        distinct_by(after, key),
{
    assert forall|i: int, j: int| 0 <= i < j < after.len() implies key(#[trigger] after[i])
        != key(#[trigger] after[j]) by {
        assert(key(before[i]) != key(before[j]));
    }
}

/// Rows stay distinct by their key when one is replaced by a row with the
/// same key, and distinct by a second key where the new row clashes with no
/// other.
pub proof fn lemma_distinct_with_row<T, K, U>(
    rows: Seq<T>,
    key: spec_fn(T) -> K,
    unique: spec_fn(T) -> U,
    row: T,
)
    requires
        distinct_by(rows, key),
    ensures
        distinct_by(with_row(rows, key, row), key),
        distinct_by(rows, unique) && !clashes(rows, key, unique, row) ==> distinct_by(
            with_row(rows, key, row),
            unique,
        ),
{
    let after = with_row(rows, key, row);
    assert forall|i: int, j: int| 0 <= i < j < after.len() implies key(#[trigger] after[i])
        != key(#[trigger] after[j]) by {
        assert(key(rows[i]) != key(rows[j]));
    }
    if distinct_by(rows, unique) && !clashes(rows, key, unique, row) {
        assert forall|i: int, j: int| 0 <= i < j < after.len() implies unique(
            #[trigger] after[i],
        ) != unique(#[trigger] after[j]) by {
            assert(key(rows[i]) != key(rows[j]));
            assert(unique(rows[i]) != unique(rows[j]));
        }
    }
}

/// Whether a key is in use after some rows left.
pub proof fn lemma_has_key_filter<T, K>(
    rows: Seq<T>,
    key: spec_fn(T) -> K,
    keep: spec_fn(T) -> bool,
    k: K,
)
    ensures
        has_key(rows.filter(keep), key, k) == (exists|i: int|
            0 <= i < rows.len() && keep(#[trigger] rows[i]) && key(rows[i]) == k),
{
    let at = lemma_filter_order(rows, keep);
    let kept = rows.filter(keep);
    if has_key(kept, key, k) {
        let i = choose|i: int| 0 <= i < kept.len() && key(#[trigger] kept[i]) == k;
        assert(rows[at[i]] == kept[i]);
    }
    if exists|i: int| 0 <= i < rows.len() && keep(#[trigger] rows[i]) && key(rows[i]) == k {
        let n = choose|i: int| 0 <= i < rows.len() && keep(#[trigger] rows[i]) && key(rows[i]) == k;
        let i = choose|i: int| 0 <= i < at.len() && #[trigger] at[i] == n;
        assert(kept[i] == rows[n]);
    }
}

/// A filter that every row passes keeps the list as it is.
pub proof fn lemma_filter_all<T>(rows: Seq<T>, keep: spec_fn(T) -> bool)
    requires
        forall|i: int| 0 <= i < rows.len() ==> keep(#[trigger] rows[i]),
    ensures
        rows.filter(keep) == rows,
    decreases rows.len(),
{
    reveal(Seq::filter);
    if rows.len() > 0 {
        let shorter = rows.drop_last();
        assert forall|i: int| 0 <= i < shorter.len() implies keep(#[trigger] shorter[i]) by {
            assert(shorter[i] == rows[i]);
        }
        lemma_filter_all(shorter, keep);
        assert(shorter.push(rows.last()) =~= rows);
    }
}

/// A filter that no row passes keeps nothing.
pub proof fn lemma_filter_none<T>(rows: Seq<T>, keep: spec_fn(T) -> bool)
    requires
        forall|i: int| 0 <= i < rows.len() ==> !keep(#[trigger] rows[i]),
    ensures
        rows.filter(keep) == Seq::<T>::empty(),
    decreases rows.len(),
{
    reveal(Seq::filter);
    if rows.len() > 0 {
        let shorter = rows.drop_last();
        assert forall|i: int| 0 <= i < shorter.len() implies !keep(#[trigger] shorter[i]) by {
            assert(shorter[i] == rows[i]);
        }
        lemma_filter_none(shorter, keep);
    }
}

/// Choosing among tagged rows is choosing among the rows and tagging what
/// was chosen, where the two choices agree.
pub proof fn lemma_filter_tagged<A, B>(
    rows: Seq<A>,
    tag: spec_fn(A) -> B,
    keep_tagged: spec_fn(B) -> bool,
    keep: spec_fn(A) -> bool,
)
    requires
        forall|a: A| keep_tagged(#[trigger] tag(a)) == keep(a),
    ensures
        rows.map_values(tag).filter(keep_tagged) == rows.filter(keep).map_values(tag),
    decreases rows.len(),
{
    reveal(Seq::filter);
    if rows.len() == 0 {
        assert(rows.map_values(tag) =~= Seq::<B>::empty());
        assert(rows.filter(keep).map_values(tag) =~= Seq::<B>::empty());
    } else {
        let shorter = rows.drop_last();
        lemma_filter_tagged(shorter, tag, keep_tagged, keep);
        assert(rows.map_values(tag).drop_last() =~= shorter.map_values(tag));
        assert(rows.map_values(tag).last() == tag(rows.last()));
        if keep(rows.last()) {
            assert(shorter.filter(keep).push(rows.last()).map_values(tag) =~= shorter.filter(
                keep,
            ).map_values(tag).push(tag(rows.last())));
        }
    }
}

/// A filter keeps something exactly where some row passes it.
pub proof fn lemma_filter_nonempty<T>(rows: Seq<T>, keep: spec_fn(T) -> bool)
    ensures
        rows.filter(keep).len() > 0 <==> exists|i: int|
            0 <= i < rows.len() && keep(#[trigger] rows[i]),
{
    let at = lemma_filter_order(rows, keep);
    if rows.filter(keep).len() > 0 {
        assert(keep(rows[at[0]]));
    }
}

/// Filters that agree on every row keep the same rows.
pub proof fn lemma_filter_same<T>(rows: Seq<T>, p: spec_fn(T) -> bool, q: spec_fn(T) -> bool)
    requires
        forall|x: T| #[trigger] p(x) == q(x),
    ensures
        rows.filter(p) == rows.filter(q),
    decreases rows.len(),
{
    reveal(Seq::filter);
    if rows.len() > 0 {
        lemma_filter_same(rows.drop_last(), p, q);
    }
}

/// Where a filter keeps nothing of the first `i` rows and keeps the row
/// after them, that row is the first that it keeps of all.
pub proof fn lemma_first_kept<T>(rows: Seq<T>, keep: spec_fn(T) -> bool, i: int)
    requires
        0 <= i < rows.len(),
        rows.take(i).filter(keep).len() == 0,
        keep(rows[i]),
    ensures
        first_of(rows.filter(keep)) == Some(rows[i]),
{
    let head = rows.take(i + 1);
    let tail = rows.skip(i + 1);
    assert(rows =~= head + tail);
    lemma_take_step(rows, i);
    rows.take(i).lemma_filter_push(rows[i], keep);
    Seq::filter_distributes_over_add(head, tail, keep);
    assert(head.filter(keep) =~= seq![rows[i]]);
    assert(rows.filter(keep)[0] == rows[i]);
}

} // verus!
