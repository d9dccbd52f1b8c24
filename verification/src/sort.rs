//! Stable ordering by text keys (what `sort_by_key` with a `String` key does).
use vstd::prelude::*;
use crate::text::{text_lt, text_less, lowercase, to_lower, chars_of, views};

verus! {

/// Inserts position `x` into `t`, after every entry that `x` does not go
/// before.
pub open spec fn insert_by(t: Seq<usize>, x: usize, before: spec_fn(usize, usize) -> bool) -> Seq<usize>
    decreases t.len(),
{
    if t.len() == 0 || !before(x, t.last()) {
        t.push(x)
    } else {
        insert_by(t.drop_last(), x, before).push(t.last())
    }
}

/// The positions `0..n` in the order of a stable insertion sort by `before`.
pub open spec fn order_by(n: nat, before: spec_fn(usize, usize) -> bool) -> Seq<usize>
    decreases n,
{
    if n == 0 {
        Seq::empty()
    } else {
        insert_by(order_by((n - 1) as nat, before), (n - 1) as usize, before)
    }
}

/// Position `a` goes before position `b` when its key is smaller.
pub open spec fn text_before(keys: Seq<Seq<char>>) -> spec_fn(usize, usize) -> bool {
    |a: usize, b: usize| text_lt(keys[a as int], keys[b as int])
}

/// The positions `0..n` in the order of a stable sort by key.
pub open spec fn stable_order(n: nat, keys: Seq<Seq<char>>) -> Seq<usize> {
    order_by(n, text_before(keys))
}

/// The views of a list of character vectors.
pub open spec fn key_views(keys: Seq<Vec<char>>) -> Seq<Seq<char>> {
    keys.map_values(|k: Vec<char>| k@)
}

/// Inserting after a run of entries that `x` goes before splits off that run.
pub proof fn lemma_insert_split(t: Seq<usize>, x: usize, before: spec_fn(usize, usize) -> bool, j: int)
    requires
        0 <= j <= t.len(),
        forall|k: int| j <= k < t.len() ==> before(x, #[trigger] t[k]),
    ensures
        insert_by(t, x, before) == insert_by(t.take(j), x, before) + t.skip(j),
    decreases t.len() - j,
{
    if j == t.len() {
        assert(t.take(j) =~= t);
        assert(t.skip(j) =~= Seq::<usize>::empty());
        assert(insert_by(t, x, before) + Seq::<usize>::empty() =~= insert_by(t, x, before));
    } else {
        assert(before(x, t.last()));
        lemma_insert_split(t.drop_last(), x, before, j);
        assert(t.drop_last().take(j) =~= t.take(j));
        assert(insert_by(t.take(j), x, before) + t.drop_last().skip(j) + seq![t.last()]
            =~= insert_by(t.take(j), x, before) + t.skip(j));
        assert(insert_by(t, x, before) == insert_by(t.drop_last(), x, before).push(t.last()));
    }
}

/// The positions `0..n` in the order of a stable insertion sort, where
/// `goes_before` decides `before` for positions below `n`.
pub(crate) fn sort_positions<F: Fn(usize, usize) -> bool>(
    n: usize,
    goes_before: &F,
    Ghost(before): Ghost<spec_fn(usize, usize) -> bool>,
) -> (order: Vec<usize>)
    requires
        forall|a: usize, b: usize| a < n && b < n ==> #[trigger] goes_before.requires((a, b)),
        forall|a: usize, b: usize, r: bool| a < n && b < n && #[trigger] goes_before.ensures((a, b), r) ==> r == before(a, b),
    ensures
        order@ == order_by(n as nat, before),
        order@.len() == n,
        forall|k: int| 0 <= k < n ==> (#[trigger] order@[k]) < n,
{
    let mut order: Vec<usize> = Vec::new();
    let mut i: usize = 0;
    while i < n
        invariant
            i <= n,
            forall|a: usize, b: usize| a < n && b < n ==> #[trigger] goes_before.requires((a, b)),
            forall|a: usize, b: usize, r: bool| a < n && b < n && #[trigger] goes_before.ensures((a, b), r) ==> r == before(a, b),
            order@ == order_by(i as nat, before),
            order@.len() == i,
            forall|k: int| 0 <= k < i ==> (#[trigger] order@[k]) < i,
        decreases n - i,
    {
        let ghost t = order@;
        order.push(i);
        let mut j: usize = i;
        proof {
            assert(t.take(j as int) =~= t);
            assert(t.skip(j as int) =~= Seq::<usize>::empty());
        }
        let mut done = false;
        while j > 0 && !done
            invariant
                j <= i < n,
                forall|a: usize, b: usize| a < n && b < n ==> #[trigger] goes_before.requires((a, b)),
                forall|a: usize, b: usize, r: bool| a < n && b < n && #[trigger] goes_before.ensures((a, b), r) ==> r == before(a, b),
                t.len() == i,
                forall|k: int| 0 <= k < i ==> (#[trigger] t[k]) < i,
                order@ == t.take(j as int) + seq![i] + t.skip(j as int),
                forall|k: int| j <= k < i ==> before(i, #[trigger] t[k]),
                done ==> j > 0 && !before(i, t[j - 1]),
            decreases j, (if done { 0int } else { 1int }),
        {
            let prev = order[j - 1];
            assert(prev == t[j - 1]);
            if goes_before(i, prev) {
                order.set(j - 1, i);
                order.set(j, prev);
                assert(order@ =~= t.take(j - 1) + seq![i] + t.skip(j - 1));
                j = j - 1;
            } else {
                done = true;
            }
        }
        proof {
            lemma_insert_split(t, i, before, j as int);
            let head = t.take(j as int);
            if j > 0 {
                assert(head.last() == t[j - 1]);
                assert(insert_by(head, i, before) == head.push(i));
            } else {
                assert(head =~= Seq::<usize>::empty());
                assert(insert_by(head, i, before) == head.push(i));
            }
            assert(order@ =~= insert_by(head, i, before) + t.skip(j as int));
            assert forall|k: int| 0 <= k < i + 1 implies (#[trigger] order@[k]) < i + 1 by {
                if k < j {
                    assert(order@[k] == t[k]);
                } else if k > j {
                    assert(order@[k] == t[k - 1]);
                }
            }
        }
        i = i + 1;
    }
    order
}

/// The positions of `keys` in the order of a stable sort by key.
pub fn stable_order_by_keys(keys: &Vec<Vec<char>>) -> (order: Vec<usize>)
    ensures
        order@ == stable_order(keys@.len(), key_views(keys@)),
        order@.len() == keys@.len(),
        forall|k: int| 0 <= k < order@.len() ==> (#[trigger] order@[k]) < keys@.len(),
{
    let ghost kv = key_views(keys@);
    let n = keys.len();
    let goes_before = |a: usize, b: usize| -> (r: bool)
        requires
            a < keys@.len(),
            b < keys@.len(),
        ensures
            r == text_lt(keys@[a as int]@, keys@[b as int]@),
    {
        text_less(&keys[a], &keys[b])
    };
    proof {
        assert forall|a: usize, b: usize, r: bool| a < n && b < n && #[trigger] goes_before.ensures((a, b), r)
            implies r == text_before(kv)(a, b) by {
            assert(kv[a as int] == keys@[a as int]@ && kv[b as int] == keys@[b as int]@);
        }
    }
    sort_positions(n, &goes_before, Ghost(text_before(kv)))
}

/// Names ordered by their lower-case form, equal keys keeping list order.
pub open spec fn sorted_by_lowercase(names: Seq<Seq<char>>) -> Seq<Seq<char>> {
    let keys = names.map_values(|n: Seq<char>| lowercase(n));
    stable_order(names.len(), keys).map_values(|i: usize| names[i as int])
}

/// Names ordered by their lower-case form (`sort_by_key(|n| n.to_lowercase())`).
pub fn sort_by_lowercase(names: &Vec<String>) -> (v: Vec<String>)
    ensures
        views(v@) == sorted_by_lowercase(views(names@)),
{
    let ghost all = views(names@);
    let mut keys: Vec<Vec<char>> = Vec::new();
    let mut i: usize = 0;
    while i < names.len()
        invariant
            i <= names@.len(),
            all == views(names@),
            keys@.len() == i,
            forall|k: int| 0 <= k < i ==> (#[trigger] keys@[k])@ == lowercase(all[k]),
        decreases names@.len() - i,
    {
        let lower = to_lower(names[i].as_str());
        keys.push(chars_of(lower.as_str()));
        i = i + 1;
    }
    let ghost key_seq = all.map_values(|n: Seq<char>| lowercase(n));
    assert(key_views(keys@) =~= key_seq);
    let order = stable_order_by_keys(&keys);
    let ghost sorted = sorted_by_lowercase(all);
    let n = order.len();
    let mut out: Vec<String> = Vec::new();
    let mut k: usize = 0;
    while k < n
        invariant
            k <= n,
            n == order@.len(),
            n == names@.len(),
            all == views(names@),
            sorted == stable_order(all.len(), key_seq).map_values(|i: usize| all[i as int]),
            order@ == stable_order(all.len(), key_seq),
            forall|j: int| 0 <= j < n ==> (#[trigger] order@[j]) < n,
            out@.len() == k,
            forall|j: int| 0 <= j < k ==> (#[trigger] out@[j])@ == sorted[j],
        decreases n - k,
    {
        let idx = order[k];
        assert(names@[idx as int]@ == all[idx as int]);
        out.push(names[idx].clone());
        k = k + 1;
    }
    assert(views(out@) =~= sorted);
    out
}


proof fn lemma_insert_by_multiset(t: Seq<usize>, x: usize, before: spec_fn(usize, usize) -> bool)
    ensures
        insert_by(t, x, before).to_multiset() == t.to_multiset().insert(x),
        insert_by(t, x, before).len() == t.len() + 1,
    decreases t.len(),
{
    broadcast use vstd::seq_lib::group_to_multiset_ensures, vstd::multiset::group_multiset_properties;

    if t.len() > 0 && before(x, t.last()) {
        lemma_insert_by_multiset(t.drop_last(), x, before);
        assert(t.drop_last().push(t.last()) =~= t);
        assert(insert_by(t, x, before).to_multiset()
            =~= t.drop_last().to_multiset().insert(x).insert(t.last()));
        assert(t.to_multiset() =~= t.drop_last().to_multiset().insert(t.last()));
    }
}

proof fn lemma_order_by_counts(n: nat, before: spec_fn(usize, usize) -> bool)
    requires
        n <= usize::MAX + 1,
    ensures
        order_by(n, before).len() == n,
        forall|i: usize| #[trigger] order_by(n, before).to_multiset().count(i) == if (i as nat) < n { 1nat } else { 0nat },
    decreases n,
{
    broadcast use vstd::seq_lib::group_to_multiset_ensures, vstd::multiset::group_multiset_properties;

    if n > 0 {
        lemma_order_by_counts((n - 1) as nat, before);
        lemma_insert_by_multiset(order_by((n - 1) as nat, before), (n - 1) as usize, before);
    } else {
        assert(order_by(n, before) =~= Seq::<usize>::empty());
    }
}

/// A stable sort lists every position exactly once: the order of `n` items
/// holds each position below `n` once and nothing else, whatever the ordering.
pub proof fn law_order_is_permutation(n: nat, before: spec_fn(usize, usize) -> bool)
    requires
        n <= usize::MAX + 1,
    ensures
        order_by(n, before).len() == n,
        order_by(n, before).no_duplicates(),
        forall|i: usize| (i as nat) < n ==> #[trigger] order_by(n, before).contains(i),
        forall|k: int| 0 <= k < n ==> (#[trigger] order_by(n, before)[k] as nat) < n,
{
    broadcast use vstd::seq_lib::group_to_multiset_ensures, vstd::multiset::group_multiset_properties;

    let o = order_by(n, before);
    lemma_order_by_counts(n, before);
    assert forall|x: usize| o.to_multiset().contains(x) implies o.to_multiset().count(x) == 1 by {}
    o.lemma_multiset_has_no_duplicates_conv();
    assert forall|i: usize| (i as nat) < n implies #[trigger] o.contains(i) by {
        assert(o.to_multiset().count(i) > 0);
    }
    assert forall|k: int| 0 <= k < n implies (#[trigger] o[k] as nat) < n by {
        assert(o.contains(o[k]));
        assert(o.to_multiset().count(o[k]) > 0);
    }
}


/// Nothing goes before an entry that comes earlier: `s` is in `before` order.
pub open spec fn in_order(s: Seq<usize>, before: spec_fn(usize, usize) -> bool) -> bool {
    forall|i: int, j: int| 0 <= i < j < s.len() ==> !before(#[trigger] s[j], #[trigger] s[i])
}

/// `before` is a strict weak ordering: asymmetric, and "not before" is transitive.
pub open spec fn weak_order(before: spec_fn(usize, usize) -> bool) -> bool {
    &&& forall|a: usize, b: usize| #[trigger] before(a, b) ==> !before(b, a)
    &&& forall|a: usize, b: usize, c: usize| !#[trigger] before(a, b) && !#[trigger] before(b, c) ==> !before(a, c)
}

proof fn lemma_insert_in_order(t: Seq<usize>, x: usize, before: spec_fn(usize, usize) -> bool)
    requires
        weak_order(before),
        in_order(t, before),
    ensures
        in_order(insert_by(t, x, before), before),
    decreases t.len(),
{
    let r = insert_by(t, x, before);
    if t.len() == 0 {
    } else if !before(x, t.last()) {
        assert forall|i: int, j: int| 0 <= i < j < r.len() implies !before(#[trigger] r[j], #[trigger] r[i]) by {
            if j == t.len() {
                if i < t.len() - 1 {
                    assert(!before(t.last(), t[i]));
                }
            }
        }
    } else {
        let u = insert_by(t.drop_last(), x, before);
        lemma_insert_in_order(t.drop_last(), x, before);
        lemma_insert_by_multiset(t.drop_last(), x, before);
        assert(in_order(t.drop_last(), before)) by {
            assert forall|i: int, j: int| 0 <= i < j < t.drop_last().len()
                implies !before(#[trigger] t.drop_last()[j], #[trigger] t.drop_last()[i]) by {
                assert(t.drop_last()[j] == t[j] && t.drop_last()[i] == t[i]);
            }
        }
        assert forall|i: int, j: int| 0 <= i < j < r.len() implies !before(#[trigger] r[j], #[trigger] r[i]) by {
            if j == r.len() - 1 {
                assert(r[j] == t.last());
                assert(u.contains(r[i])) by { assert(u[i] == r[i]); }
                assert(u.to_multiset().count(r[i]) > 0) by {
                    broadcast use vstd::seq_lib::group_to_multiset_ensures;
                }
                if r[i] == x {
                    assert(!before(t.last(), x));
                } else {
                    assert(t.drop_last().to_multiset().count(r[i]) > 0) by {
                        broadcast use vstd::multiset::group_multiset_properties;
                    }
                    assert(t.drop_last().contains(r[i])) by {
                        broadcast use vstd::seq_lib::group_to_multiset_ensures;
                    }
                    let k = choose|k: int| 0 <= k < t.drop_last().len() && t.drop_last()[k] == r[i];
                    assert(t[k] == r[i]);
                    assert(!before(t[t.len() - 1], t[k]));
                }
            } else {
                assert(r[j] == u[j] && r[i] == u[i]);
            }
        }
    }
}

/// A stable sort by a strict weak ordering leaves its items in order:
/// nothing listed later goes before anything listed earlier.
pub proof fn law_order_is_sorted(n: nat, before: spec_fn(usize, usize) -> bool)
    requires
        weak_order(before),
    ensures
        in_order(order_by(n, before), before),
    decreases n,
{
    if n > 0 {
        law_order_is_sorted((n - 1) as nat, before);
        lemma_insert_in_order(order_by((n - 1) as nat, before), (n - 1) as usize, before);
    }
}

proof fn lemma_text_lt_asym(a: Seq<char>, b: Seq<char>)
    ensures
        text_lt(a, b) ==> !text_lt(b, a),
    decreases a.len(),
{
    if a.len() > 0 && b.len() > 0 && a[0] == b[0] {
        lemma_text_lt_asym(a.drop_first(), b.drop_first());
    }
}

proof fn lemma_text_lt_trans(a: Seq<char>, b: Seq<char>, c: Seq<char>)
    ensures
        text_lt(a, b) && text_lt(b, c) ==> text_lt(a, c),
    decreases a.len(),
{
    if a.len() > 0 && b.len() > 0 && c.len() > 0 {
        lemma_text_lt_trans(a.drop_first(), b.drop_first(), c.drop_first());
    }
}

proof fn lemma_text_lt_total(a: Seq<char>, b: Seq<char>)
    ensures
        a != b ==> text_lt(a, b) || text_lt(b, a),
    decreases a.len(),
{
    if a.len() > 0 && b.len() > 0 && a[0] == b[0] {
        lemma_text_lt_total(a.drop_first(), b.drop_first());
        if a.drop_first() == b.drop_first() {
            assert(a =~= seq![a[0]] + a.drop_first());
            assert(b =~= seq![b[0]] + b.drop_first());
        }
    } else if a.len() == 0 && b.len() == 0 {
        assert(a =~= b);
    }
}

/// Lexicographic order of texts is a strict weak ordering of positions by key.
pub proof fn lemma_text_before_weak(keys: Seq<Seq<char>>)
    ensures
        weak_order(text_before(keys)),
{
    let before = text_before(keys);
    assert forall|a: usize, b: usize| #[trigger] before(a, b) implies !before(b, a) by {
        lemma_text_lt_asym(keys[a as int], keys[b as int]);
    }
    assert forall|a: usize, b: usize, c: usize| !#[trigger] before(a, b) && !#[trigger] before(b, c) implies !before(a, c) by {
        let x = keys[a as int];
        let y = keys[b as int];
        let z = keys[c as int];
        lemma_text_lt_total(x, y);
        lemma_text_lt_total(y, z);
        lemma_text_lt_trans(z, y, x);
        lemma_text_lt_asym(x, z);
        lemma_text_lt_total(x, z);
        if text_lt(x, z) {
            if x == y {
            } else {
                lemma_text_lt_trans(y, x, z);
            }
        }
    }
}

/// Names sorted by their lower-case form come out in lower-case order.
pub proof fn law_sorted_names_in_order(names: Seq<Seq<char>>)
    ensures
        forall|i: int, j: int| 0 <= i < j < sorted_by_lowercase(names).len() ==>
            !text_lt(lowercase(#[trigger] sorted_by_lowercase(names)[j]), lowercase(#[trigger] sorted_by_lowercase(names)[i])),
        sorted_by_lowercase(names).len() == names.len(),
{
    let keys = names.map_values(|n: Seq<char>| lowercase(n));
    let o = stable_order(names.len(), keys);
    lemma_text_before_weak(keys);
    law_order_is_sorted(names.len(), text_before(keys));
    lemma_order_len(names.len(), text_before(keys));
    if names.len() <= usize::MAX + 1 {
        law_order_is_permutation(names.len(), text_before(keys));
    }
    assert forall|i: int, j: int| 0 <= i < j < sorted_by_lowercase(names).len() implies
        !text_lt(lowercase(#[trigger] sorted_by_lowercase(names)[j]), lowercase(#[trigger] sorted_by_lowercase(names)[i])) by {
        assert(!text_before(keys)(o[j], o[i]));
        assert(o[j] < names.len() && o[i] < names.len());
    }
}

proof fn lemma_order_len(n: nat, before: spec_fn(usize, usize) -> bool)
    ensures
        order_by(n, before).len() == n,
    decreases n,
{
    if n > 0 {
        lemma_order_len((n - 1) as nat, before);
        lemma_insert_by_multiset(order_by((n - 1) as nat, before), (n - 1) as usize, before);
    }
}

} // verus!
