//! Stable ordering by keys made of a number and two texts, compared in that
//! order, as `sort_by` with chained comparisons orders records.

use vstd::prelude::*;
use crate::text::{
    chars_eq, lemma_text_lt_irreflexive, lemma_text_lt_total, lemma_text_lt_transitive, text_less,
    text_lt,
};

verus! {

/// A sort key as plain values.
pub type KeyModel = (int, Seq<char>, Seq<char>);

/// A sort key: a number, then two texts.
pub type SortKey = (i64, Vec<char>, Vec<char>);

/// The plain values of sort keys.
pub open spec fn key_models(v: Seq<SortKey>) -> Seq<KeyModel> {
    Seq::new(v.len(), |i: int| (v[i].0 as int, v[i].1@, v[i].2@))
}

/// Key `a` orders strictly before key `b`.
pub open spec fn key_lt(a: KeyModel, b: KeyModel) -> bool {
    a.0 < b.0 || (a.0 == b.0 && (text_lt(a.1, b.1) || (a.1 == b.1 && text_lt(a.2, b.2))))
}

/// Index `i` inserted into `order`, which lists indices by their keys: after
/// every index whose key does not order after the key of `i`.
pub open spec fn insert_index(order: Seq<int>, keys: Seq<KeyModel>, i: int) -> Seq<int>
    decreases order.len(),
{
    if order.len() == 0 {
        seq![i]
    } else if key_lt(keys[i], keys[order.last()]) {
        insert_index(order.drop_last(), keys, i).push(order.last())
    } else {
        order.push(i)
    }
}

/// The indices `0..n` in the stable order of their keys: by key, and in
/// index order among equal keys.
pub open spec fn stable_order(keys: Seq<KeyModel>, n: nat) -> Seq<int>
    decreases n,
{
    if n == 0 {
        Seq::empty()
    } else {
        insert_index(stable_order(keys, (n - 1) as nat), keys, n - 1)
    }
}

/// Inserting at the position found from the back.
proof fn lemma_insert_at(order: Seq<int>, keys: Seq<KeyModel>, i: int, pos: int)
    requires
        0 <= pos <= order.len(),
        forall|j: int| pos <= j < order.len() ==> key_lt(keys[i], #[trigger] keys[order[j]]),
        pos == 0 || !key_lt(keys[i], keys[order[pos - 1]]),
    ensures
        insert_index(order, keys, i) == order.subrange(0, pos).push(i) + order.subrange(pos, order.len() as int),
    decreases order.len(),
{
    if order.len() == 0 {
        assert(order.subrange(0, pos).push(i) + order.subrange(pos, order.len() as int) =~= seq![i]);
    } else if pos == order.len() {
        assert(order.subrange(0, pos) =~= order);
        assert(order.subrange(0, pos).push(i) + order.subrange(pos, order.len() as int) =~= order.push(i));
    } else {
        let last = order.len() - 1;
        assert(key_lt(keys[i], keys[order[last]]));
        let shorter = order.drop_last();
        assert forall|j: int| pos <= j < shorter.len() implies key_lt(keys[i], #[trigger] keys[shorter[j]]) by {
            assert(shorter[j] == order[j]);
        }
        if pos > 0 {
            assert(shorter[pos - 1] == order[pos - 1]);
        }
        lemma_insert_at(shorter, keys, i, pos);
        assert(shorter.subrange(0, pos) =~= order.subrange(0, pos));
        assert((shorter.subrange(0, pos).push(i) + shorter.subrange(pos, shorter.len() as int)).push(order.last())
            =~= order.subrange(0, pos).push(i) + order.subrange(pos, order.len() as int));
    }
}

/// The stable order lists each index below `n` once.
pub proof fn lemma_stable_order_indices(keys: Seq<KeyModel>, n: nat)
    ensures
        stable_order(keys, n).len() == n,
        forall|k: int| 0 <= k < n ==> 0 <= #[trigger] stable_order(keys, n)[k] < n,
        forall|a: int, b: int| 0 <= a < b < n ==> stable_order(keys, n)[a] != stable_order(keys, n)[b],
    decreases n,
{
    if n > 0 {
        lemma_stable_order_indices(keys, (n - 1) as nat);
        let prev = stable_order(keys, (n - 1) as nat);
        lemma_insert_index_shape(prev, keys, n - 1);
    }
}

/// Inserting keeps the old indices and adds the new one.
proof fn lemma_insert_index_shape(order: Seq<int>, keys: Seq<KeyModel>, i: int)
    requires
        0 <= i,
        forall|k: int| 0 <= k < order.len() ==> 0 <= #[trigger] order[k] < i,
        forall|a: int, b: int| 0 <= a < b < order.len() ==> order[a] != order[b],
    ensures
        insert_index(order, keys, i).len() == order.len() + 1,
        forall|k: int| 0 <= k < order.len() + 1 ==> 0 <= #[trigger] insert_index(order, keys, i)[k] <= i,
        forall|a: int, b: int| 0 <= a < b < order.len() + 1
            ==> insert_index(order, keys, i)[a] != insert_index(order, keys, i)[b],
    decreases order.len(),
{
    if order.len() > 0 && key_lt(keys[i], keys[order.last()]) {
        let shorter = order.drop_last();
        lemma_insert_index_shape(shorter, keys, i);
        let ins = insert_index(shorter, keys, i);
        let r = ins.push(order.last());
        assert(insert_index(order, keys, i) == r);
        assert forall|k: int| 0 <= k < ins.len() implies #[trigger] ins[k] != order.last() by {
            if ins[k] != i {
                lemma_insert_index_members(shorter, keys, i, k);
                let w = choose|w: int| 0 <= w < shorter.len() && shorter[w] == ins[k];
                assert(order[w] == shorter[w]);
                assert(w != order.len() - 1);
            }
        }
        assert forall|k: int| 0 <= k < order.len() + 1 implies 0 <= #[trigger] insert_index(order, keys, i)[k] <= i by {
            if k < ins.len() {
                assert(r[k] == ins[k]);
            } else {
                assert(r[k] == order.last());
            }
        }
    } else if order.len() > 0 {
        let r = order.push(i);
        assert(insert_index(order, keys, i) == r);
        assert forall|k: int| 0 <= k < order.len() + 1 implies 0 <= #[trigger] insert_index(order, keys, i)[k] <= i by {
            if k < order.len() {
                assert(r[k] == order[k]);
            }
        }
    }
}

/// Every inserted index other than the new one comes from the old order.
proof fn lemma_insert_index_members(order: Seq<int>, keys: Seq<KeyModel>, i: int, k: int)
    requires
        0 <= k < insert_index(order, keys, i).len(),
        insert_index(order, keys, i)[k] != i,
    ensures
        exists|w: int| 0 <= w < order.len() && order[w] == insert_index(order, keys, i)[k],
    decreases order.len(),
{
    if order.len() == 0 {
    } else if key_lt(keys[i], keys[order.last()]) {
        let shorter = order.drop_last();
        let ins = insert_index(shorter, keys, i);
        if k < ins.len() {
            lemma_insert_index_members(shorter, keys, i, k);
            let w = choose|w: int| 0 <= w < shorter.len() && shorter[w] == ins[k];
            assert(order[w] == shorter[w]);
        } else {
            assert(order[order.len() - 1] == insert_index(order, keys, i)[k]);
        }
    } else {
        assert(order[k] == insert_index(order, keys, i)[k]);
    }
}

/// Whether key `a` orders strictly before key `b`.
fn key_less(a: &SortKey, b: &SortKey) -> (r: bool)
    ensures
        r == key_lt((a.0 as int, a.1@, a.2@), (b.0 as int, b.1@, b.2@)),
{
    if a.0 < b.0 {
        true
    } else if a.0 > b.0 {
        false
    } else if text_less(a.1.as_slice(), b.1.as_slice()) {
        true
    } else if chars_eq(a.1.as_slice(), b.1.as_slice()) {
        text_less(a.2.as_slice(), b.2.as_slice())
    } else {
        false
    }
}

/// The indices of `keys` in the stable order of the keys.
pub fn stable_order_of(keys: &Vec<SortKey>) -> (r: Vec<usize>)
    ensures
        r@.len() == keys@.len(),
        forall|k: int| 0 <= k < r@.len() ==> r@[k] as int == #[trigger] stable_order(key_models(keys@), keys@.len())[k],
        forall|k: int| 0 <= k < r@.len() ==> #[trigger] r@[k] < keys@.len(),
{
    let ghost km = key_models(keys@);
    let mut order: Vec<usize> = Vec::new();
    let mut i: usize = 0;
    while i < keys.len()
        invariant
            km == key_models(keys@),
            i <= keys@.len(),
            order@.len() == i,
            forall|k: int| 0 <= k < i ==> order@[k] as int == #[trigger] stable_order(km, i as nat)[k],
            forall|k: int| 0 <= k < i ==> #[trigger] order@[k] < i,
        decreases keys@.len() - i,
    {
        proof {
            lemma_stable_order_indices(km, i as nat);
        }
        let ghost prev = stable_order(km, i as nat);
        let mut pos: usize = order.len();
        while pos > 0 && key_less(&keys[i], &keys[order[pos - 1]])
            invariant
                km == key_models(keys@),
                i < keys@.len(),
                pos <= order@.len(),
                order@.len() == i,
                forall|k: int| 0 <= k < i ==> #[trigger] order@[k] < i,
                forall|k: int| 0 <= k < i ==> order@[k] as int == #[trigger] prev[k],
                forall|j: int| pos <= j < i ==> key_lt(km[i as int], #[trigger] km[prev[j]]),
            decreases pos,
        {
            assert(km[order@[pos - 1] as int] == (keys@[order@[pos - 1] as int].0 as int,
                keys@[order@[pos - 1] as int].1@, keys@[order@[pos - 1] as int].2@));
            pos -= 1;
        }
        proof {
            if pos > 0 {
                assert(km[order@[pos - 1] as int] == (keys@[order@[pos - 1] as int].0 as int,
                    keys@[order@[pos - 1] as int].1@, keys@[order@[pos - 1] as int].2@));
            }
            lemma_insert_at(prev, km, i as int, pos as int);
        }
        let ghost old_order = order@;
        order.insert(pos, i);
        assert(order@ == old_order.insert(pos as int, i));
        i += 1;
        proof {
            let now = stable_order(km, i as nat);
            assert(now == insert_index(prev, km, i - 1));
            assert(now == prev.subrange(0, pos as int).push(i - 1) + prev.subrange(pos as int, prev.len() as int));
            assert forall|k: int| 0 <= k < i implies order@[k] as int == #[trigger] stable_order(km, i as nat)[k] by {
                if k < pos {
                    assert(order@[k] == old_order[k]);
                } else if k == pos {
                } else {
                    assert(order@[k] == old_order[k - 1]);
                }
            }
            assert forall|k: int| 0 <= k < i implies #[trigger] order@[k] < i by {
                if k < pos {
                    assert(order@[k] == old_order[k]);
                } else if k > pos {
                    assert(order@[k] == old_order[k - 1]);
                }
            }
        }
    }
    order
}

// ───────────────────────────── the key order ─────────────────────────────

/// No key orders before itself.
pub proof fn lemma_key_lt_irreflexive(a: KeyModel)
    ensures
        !key_lt(a, a),
{
    lemma_text_lt_irreflexive(a.1);
    lemma_text_lt_irreflexive(a.2);
}

/// The key order is transitive.
pub proof fn lemma_key_lt_transitive(a: KeyModel, b: KeyModel, c: KeyModel)
    requires
        key_lt(a, b),
        key_lt(b, c),
    ensures
        key_lt(a, c),
{
    if a.1 != b.1 && b.1 != c.1 && text_lt(a.1, b.1) && text_lt(b.1, c.1) {
        lemma_text_lt_transitive(a.1, b.1, c.1);
    }
    if a.2 != b.2 && b.2 != c.2 && text_lt(a.2, b.2) && text_lt(b.2, c.2) {
        lemma_text_lt_transitive(a.2, b.2, c.2);
    }
    if text_lt(a.1, b.1) && text_lt(b.1, c.1) {
        lemma_text_lt_transitive(a.1, b.1, c.1);
    }
    if text_lt(a.2, b.2) && text_lt(b.2, c.2) {
        lemma_text_lt_transitive(a.2, b.2, c.2);
    }
}

/// Of two different keys, one orders before the other.
pub proof fn lemma_key_lt_total(a: KeyModel, b: KeyModel)
    requires
        a != b,
    ensures
        key_lt(a, b) || key_lt(b, a),
{
    if a.0 == b.0 {
        if a.1 != b.1 {
            lemma_text_lt_total(a.1, b.1);
        } else {
            lemma_text_lt_total(a.2, b.2);
        }
    }
}

/// A key before `a` is before `b` or `b` is before `a`.
proof fn lemma_key_lt_split(c: KeyModel, b: KeyModel, a: KeyModel)
    requires
        key_lt(c, a),
    ensures
        key_lt(c, b) || key_lt(b, a),
{
    if b != c && b != a {
        lemma_key_lt_total(b, c);
        if key_lt(b, c) {
            lemma_key_lt_transitive(b, c, a);
        }
    }
}

/// The indices of `order` list their keys in non-decreasing order.
pub open spec fn keys_sorted(keys: Seq<KeyModel>, order: Seq<int>) -> bool {
    forall|a: int, b: int| 0 <= a < b < order.len() ==> !key_lt(#[trigger] keys[order[b]], #[trigger] keys[order[a]])
}

/// Inserting an index keeps the order sorted.
proof fn lemma_insert_sorted(order: Seq<int>, keys: Seq<KeyModel>, i: int)
    requires
        keys_sorted(keys, order),
    ensures
        keys_sorted(keys, insert_index(order, keys, i)),
    decreases order.len(),
{
    if order.len() == 0 {
    } else if key_lt(keys[i], keys[order.last()]) {
        let shorter = order.drop_last();
        assert forall|a: int, b: int| 0 <= a < b < shorter.len() implies !key_lt(#[trigger] keys[shorter[b]], #[trigger] keys[shorter[a]]) by {
            assert(shorter[a] == order[a] && shorter[b] == order[b]);
        }
        lemma_insert_sorted(shorter, keys, i);
        let ins = insert_index(shorter, keys, i);
        let r = ins.push(order.last());
        let last = order.last();
        assert forall|k: int| 0 <= k < ins.len() implies !key_lt(keys[last], #[trigger] keys[ins[k]]) by {
            if ins[k] == i {
                lemma_key_lt_irreflexive(keys[i]);
                if key_lt(keys[last], keys[i]) {
                    lemma_key_lt_transitive(keys[i], keys[last], keys[i]);
                }
            } else {
                lemma_insert_index_members(shorter, keys, i, k);
                let w = choose|w: int| 0 <= w < shorter.len() && shorter[w] == ins[k];
                assert(order[w] == ins[k]);
                assert(!key_lt(keys[order[order.len() - 1]], keys[order[w]]));
            }
        }
        assert forall|a: int, b: int| 0 <= a < b < r.len() implies !key_lt(#[trigger] keys[r[b]], #[trigger] keys[r[a]]) by {
            if b < ins.len() {
                assert(r[a] == ins[a] && r[b] == ins[b]);
            } else {
                assert(r[a] == ins[a]);
                assert(r[b] == last);
            }
        }
    } else {
        let r = order.push(i);
        let last = order.last();
        assert forall|a: int, b: int| 0 <= a < b < r.len() implies !key_lt(#[trigger] keys[r[b]], #[trigger] keys[r[a]]) by {
            if b < order.len() {
                assert(r[a] == order[a] && r[b] == order[b]);
            } else {
                assert(r[a] == order[a]);
                assert(r[b] == i);
                if a < order.len() - 1 {
                    assert(!key_lt(keys[order[order.len() - 1]], keys[order[a]]));
                    if key_lt(keys[i], keys[order[a]]) {
                        lemma_key_lt_split(keys[i], keys[last], keys[order[a]]);
                    }
                }
            }
        }
    }
}

/// The stable order lists keys in non-decreasing order.
pub proof fn lemma_stable_order_sorted(keys: Seq<KeyModel>, n: nat)
    ensures
        keys_sorted(keys, stable_order(keys, n)),
    decreases n,
{
    if n > 0 {
        lemma_stable_order_sorted(keys, (n - 1) as nat);
        lemma_insert_sorted(stable_order(keys, (n - 1) as nat), keys, n - 1);
    }
}

/// Inserting keeps every index already listed.
proof fn lemma_insert_keeps(order: Seq<int>, keys: Seq<KeyModel>, i: int, w: int)
    requires
        0 <= w < order.len(),
    ensures
        exists|k: int| 0 <= k < insert_index(order, keys, i).len() && insert_index(order, keys, i)[k] == order[w],
    decreases order.len(),
{
    if key_lt(keys[i], keys[order.last()]) {
        let shorter = order.drop_last();
        let ins = insert_index(shorter, keys, i);
        let r = ins.push(order.last());
        assert(insert_index(order, keys, i) == r);
        if w == order.len() - 1 {
            assert(insert_index(order, keys, i)[ins.len() as int] == order[w]);
        } else {
            lemma_insert_keeps(shorter, keys, i, w);
            let k = choose|k: int| 0 <= k < ins.len() && ins[k] == shorter[w];
            assert(insert_index(order, keys, i)[k] == order[w]);
        }
    } else {
        assert(insert_index(order, keys, i) == order.push(i));
        assert(insert_index(order, keys, i)[w] == order[w]);
    }
}

/// Inserting lists the new index.
proof fn lemma_insert_has_new(order: Seq<int>, keys: Seq<KeyModel>, i: int)
    ensures
        exists|k: int| 0 <= k < insert_index(order, keys, i).len() && insert_index(order, keys, i)[k] == i,
    decreases order.len(),
{
    if order.len() == 0 {
        assert(insert_index(order, keys, i)[0] == i);
    } else if key_lt(keys[i], keys[order.last()]) {
        let shorter = order.drop_last();
        lemma_insert_has_new(shorter, keys, i);
        let ins = insert_index(shorter, keys, i);
        let k = choose|k: int| 0 <= k < ins.len() && ins[k] == i;
        assert(insert_index(order, keys, i) == ins.push(order.last()));
        assert(insert_index(order, keys, i)[k] == i);
    } else {
        assert(insert_index(order, keys, i) == order.push(i));
        assert(insert_index(order, keys, i)[order.len() as int] == i);
    }
}

/// Every index below `n` is listed by the stable order.
pub proof fn lemma_stable_order_covers(keys: Seq<KeyModel>, n: nat, j: int)
    requires
        0 <= j < n,
    ensures
        exists|k: int| 0 <= k < n && stable_order(keys, n)[k] == j,
    decreases n,
{
    lemma_stable_order_indices(keys, n);
    let prev = stable_order(keys, (n - 1) as nat);
    lemma_stable_order_indices(keys, (n - 1) as nat);
    if j == n - 1 {
        lemma_insert_has_new(prev, keys, n - 1);
    } else {
        lemma_stable_order_covers(keys, (n - 1) as nat, j);
        let w = choose|w: int| 0 <= w < n - 1 && prev[w] == j;
        lemma_insert_keeps(prev, keys, n - 1, w);
    }
}

} // verus!
