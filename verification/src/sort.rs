//! A stable sort, highest score first.

use vstd::prelude::*;

verus! {

/// A value that is ranked by a score.
pub trait Scored: Sized {
    /// The score.
    spec fn rank(&self) -> nat;

    /// The score.
    fn score(&self) -> (r: u128)
        ensures
            r == self.rank(),
    ;
}

/// Puts `x` behind every element of `s` that does not rank below it.
pub open spec fn insert_by<T>(s: Seq<T>, x: T, key: spec_fn(T) -> nat) -> Seq<T>
    decreases s.len(),
{
    if s.len() == 0 || key(s.last()) >= key(x) {
        s.push(x)
    } else {
        insert_by(s.drop_last(), x, key).push(s.last())
    }
}

/// The elements of `s`, highest key first; equal keys keep their order.
pub open spec fn sort_by<T>(s: Seq<T>, key: spec_fn(T) -> nat) -> Seq<T>
    decreases s.len(),
{
    if s.len() == 0 {
        s
    } else {
        insert_by(sort_by(s.drop_last(), key), s.last(), key)
    }
}

/// The ranking of scored values.
pub open spec fn rank_key<T: Scored>() -> spec_fn(T) -> nat {
    |x: T| x.rank()
}

/// Whether the keys never increase.
pub open spec fn is_descending<T>(s: Seq<T>, key: spec_fn(T) -> nat) -> bool {
    forall|i: int, j: int| 0 <= i <= j < s.len() ==> key(s[i]) >= key(s[j])
}

/// The sum of a quantity over a list.
pub open spec fn sum_by<T>(s: Seq<T>, f: spec_fn(T) -> nat) -> nat
    decreases s.len(),
{
    if s.len() == 0 {
        0
    } else {
        sum_by(s.drop_last(), f) + f(s.last())
    }
}

/// Merges two descending lists. Of equal keys, that of `a` comes first.
spec fn merge_by<T>(a: Seq<T>, b: Seq<T>, key: spec_fn(T) -> nat) -> Seq<T>
    decreases a.len() + b.len(),
{
    if b.len() == 0 {
        a
    } else if a.len() == 0 {
        b
    } else if key(a.last()) < key(b.last()) {
        merge_by(a.drop_last(), b, key).push(a.last())
    } else {
        merge_by(a, b.drop_last(), key).push(b.last())
    }
}

proof fn lemma_merge_insert<T>(a: Seq<T>, b: Seq<T>, x: T, key: spec_fn(T) -> nat)
    ensures
        merge_by(a, insert_by(b, x, key), key) == insert_by(merge_by(a, b, key), x, key),
    decreases a.len() + b.len(),
{
    let c = insert_by(b, x, key);
    let m = merge_by(a, b, key);
    assert(c.len() > 0);
    if b.len() == 0 || key(b.last()) >= key(x) {
        assert(c.drop_last() == b);
        if a.len() == 0 {
            assert(m == b);
        } else if key(a.last()) < key(x) {
            lemma_merge_insert(a.drop_last(), b, x, key);
            assert(m == merge_by(a.drop_last(), b, key).push(a.last()));
            assert(m.drop_last() == merge_by(a.drop_last(), b, key));
        } else {
            assert(m.last() == a.last() || (b.len() > 0 && m.last() == b.last()));
        }
    } else {
        assert(c.drop_last() == insert_by(b.drop_last(), x, key));
        assert(c.last() == b.last());
        if a.len() == 0 {
            assert(m == b);
        } else if key(a.last()) < key(b.last()) {
            lemma_merge_insert(a.drop_last(), b, x, key);
            assert(m.drop_last() == merge_by(a.drop_last(), b, key));
        } else {
            lemma_merge_insert(a, b.drop_last(), x, key);
            assert(m.drop_last() == merge_by(a, b.drop_last(), key));
        }
    }
}

proof fn lemma_sort_concat<T>(a: Seq<T>, b: Seq<T>, key: spec_fn(T) -> nat)
    ensures
        sort_by(a + b, key) == merge_by(sort_by(a, key), sort_by(b, key), key),
    decreases b.len(),
{
    if b.len() == 0 {
        assert(a + b == a);
    } else {
        assert((a + b).drop_last() == a + b.drop_last());
        lemma_sort_concat(a, b.drop_last(), key);
        lemma_merge_insert(sort_by(a, key), sort_by(b.drop_last(), key), b.last(), key);
    }
}

fn merge<T: Scored>(a: Vec<T>, b: Vec<T>) -> (r: Vec<T>)
    ensures
        r@ == merge_by(a@, b@, rank_key()),
{
    let ghost key = rank_key::<T>();
    let ghost goal = merge_by(a@, b@, key);
    let mut a = a;
    let mut b = b;
    let mut tail: Vec<T> = Vec::new();
    assert(merge_by(a@, b@, key) + tail@.reverse() == goal);
    while a.len() > 0 && b.len() > 0
        invariant
            key == rank_key::<T>(),
            merge_by(a@, b@, key) + tail@.reverse() == goal,
        decreases a@.len() + b@.len(),
    {
        let ghost (a0, b0, t0) = (a@, b@, tail@);
        let lower = a[a.len() - 1].score() < b[b.len() - 1].score();
        let next = if lower {
            a.pop()
        } else {
            b.pop()
        };
        if let Some(x) = next {
            tail.push(x);
            assert(tail@.reverse() == seq![x] + t0.reverse());
            assert(lower ==> a@ == a0.drop_last());
            assert(!lower ==> b@ == b0.drop_last());
            assert(merge_by(a0, b0, key) == merge_by(a@, b@, key).push(x));
            assert(merge_by(a@, b@, key) + tail@.reverse() == merge_by(a0, b0, key) + t0.reverse());
        }
    }
    let mut r = if b.len() == 0 {
        a
    } else {
        b
    };
    while tail.len() > 0
        invariant
            r@ + tail@.reverse() == goal,
        decreases tail@.len(),
    {
        let ghost (r0, t0) = (r@, tail@);
        if let Some(x) = tail.pop() {
            r.push(x);
            assert(t0.reverse() == seq![x] + tail@.reverse());
            assert(r@ + tail@.reverse() == r0 + t0.reverse());
        }
    }
    assert(r@ + tail@.reverse() == r@);
    r
}

/// Sorts by score, highest first. Equal scores keep their order.
pub fn sort_descending<T: Scored>(v: Vec<T>) -> (r: Vec<T>)
    ensures
        r@ == sort_by(v@, rank_key()),
    decreases v@.len(),
{
    let ghost key = rank_key::<T>();
    if v.len() == 0 {
        return v;
    }
    if v.len() == 1 {
        assert(v@.drop_last() == Seq::<T>::empty());
        assert(sort_by(v@.drop_last(), key) == Seq::<T>::empty());
        assert(sort_by(v@, key) == Seq::<T>::empty().push(v@[0]));
        assert(sort_by(v@, key) == v@);
        return v;
    }
    let ghost all = v@;
    let mut left = v;
    let half = left.len() / 2;
    let right = left.split_off(half);
    proof {
        assert(all == left@ + right@);
        lemma_sort_concat(left@, right@, key);
    }
    merge(sort_descending(left), sort_descending(right))
}

/// Sorting commutes with a map that keeps the keys.
pub proof fn lemma_sort_map<A, B>(
    s: Seq<A>,
    f: spec_fn(A) -> B,
    key_a: spec_fn(A) -> nat,
    key_b: spec_fn(B) -> nat,
)
    requires
        forall|x: A| #[trigger] key_b(f(x)) == key_a(x),
    ensures
        sort_by(s, key_a).map_values(f) == sort_by(s.map_values(f), key_b),
    decreases s.len(),
{
    if s.len() > 0 {
        assert(s.map_values(f).drop_last() == s.drop_last().map_values(f));
        lemma_sort_map(s.drop_last(), f, key_a, key_b);
        lemma_insert_map(sort_by(s.drop_last(), key_a), s.last(), f, key_a, key_b);
    } else {
        assert(s.map_values(f) == sort_by(s.map_values(f), key_b));
    }
}

proof fn lemma_insert_map<A, B>(
    s: Seq<A>,
    x: A,
    f: spec_fn(A) -> B,
    key_a: spec_fn(A) -> nat,
    key_b: spec_fn(B) -> nat,
)
    requires
        forall|x: A| #[trigger] key_b(f(x)) == key_a(x),
    ensures
        insert_by(s, x, key_a).map_values(f) == insert_by(s.map_values(f), f(x), key_b),
    decreases s.len(),
{
    if s.len() == 0 || key_a(s.last()) >= key_a(x) {
        assert(s.len() > 0 ==> s.map_values(f).last() == f(s.last()));
        assert(s.push(x).map_values(f) == s.map_values(f).push(f(x)));
    } else {
        lemma_insert_map(s.drop_last(), x, f, key_a, key_b);
        assert(s.map_values(f).drop_last() == s.drop_last().map_values(f));
        assert(s.map_values(f).last() == f(s.last()));
        let r = insert_by(s.drop_last(), x, key_a);
        assert(r.push(s.last()).map_values(f) == r.map_values(f).push(f(s.last())));
    }
}

/// The result of sorting is descending.
pub proof fn law_sort_is_descending<T>(s: Seq<T>, key: spec_fn(T) -> nat)
    ensures
        is_descending(sort_by(s, key), key),
    decreases s.len(),
{
    if s.len() > 0 {
        law_sort_is_descending(s.drop_last(), key);
        lemma_insert_descending(sort_by(s.drop_last(), key), s.last(), key);
    }
}

proof fn lemma_insert_descending<T>(s: Seq<T>, x: T, key: spec_fn(T) -> nat)
    requires
        is_descending(s, key),
    ensures
        is_descending(insert_by(s, x, key), key),
        insert_by(s, x, key).len() == s.len() + 1,
        forall|i: int|
            #![trigger insert_by(s, x, key)[i]]
            0 <= i <= s.len() ==> insert_by(s, x, key)[i] == x || s.contains(
                insert_by(s, x, key)[i],
            ),
    decreases s.len(),
{
    let r = insert_by(s, x, key);
    if s.len() == 0 || key(s.last()) >= key(x) {
        assert forall|i: int| #![trigger r[i]] 0 <= i < s.len() implies s.contains(r[i]) by {
            assert(r[i] == s[i]);
        }
    } else {
        let init = s.drop_last();
        let q = insert_by(init, x, key);
        lemma_insert_descending(init, x, key);
        assert forall|i: int| #![trigger r[i]] 0 <= i <= s.len() implies r[i] == x || s.contains(
            r[i],
        ) by {
            if i < s.len() {
                assert(r[i] == q[i]);
                if q[i] != x {
                    let j = choose|j: int| 0 <= j < init.len() && init[j] == q[i];
                    assert(s[j] == r[i]);
                }
            } else {
                assert(r[i] == s[s.len() - 1]);
            }
        }
        assert forall|i: int, j: int| 0 <= i <= j < r.len() implies key(r[i]) >= key(r[j]) by {
            if j < s.len() {
                assert(r[i] == q[i] && r[j] == q[j]);
            } else if i < s.len() {
                assert(r[i] == q[i]);
                if q[i] != x {
                    let k = choose|k: int| 0 <= k < init.len() && init[k] == q[i];
                    assert(s[k] == q[i]);
                }
            }
        }
    }
}

/// Sorting keeps every element, as often as it occurs.
pub proof fn law_sort_is_permutation<T>(s: Seq<T>, key: spec_fn(T) -> nat)
    ensures
        sort_by(s, key).to_multiset() == s.to_multiset(),
        sort_by(s, key).len() == s.len(),
    decreases s.len(),
{
    broadcast use vstd::seq_lib::group_to_multiset_ensures;

    if s.len() > 0 {
        law_sort_is_permutation(s.drop_last(), key);
        lemma_insert_multiset(sort_by(s.drop_last(), key), s.last(), key);
        assert(s == s.drop_last().push(s.last()));
    }
}

proof fn lemma_insert_multiset<T>(s: Seq<T>, x: T, key: spec_fn(T) -> nat)
    ensures
        insert_by(s, x, key).to_multiset() == s.to_multiset().insert(x),
        insert_by(s, x, key).len() == s.len() + 1,
    decreases s.len(),
{
    broadcast use vstd::seq_lib::group_to_multiset_ensures;

    if s.len() == 0 || key(s.last()) >= key(x) {
    } else {
        lemma_insert_multiset(s.drop_last(), x, key);
        assert(s == s.drop_last().push(s.last()));
        assert(s.to_multiset().insert(x) =~= s.drop_last().to_multiset().insert(x).insert(
            s.last(),
        ));
    }
}

/// The elements with the given key.
pub open spec fn ranks_at<T>(key: spec_fn(T) -> nat, k: nat) -> spec_fn(T) -> bool {
    |x: T| key(x) == k
}

/// Sorting is stable: the elements of any one key keep their order.
pub proof fn law_sort_is_stable<T>(s: Seq<T>, key: spec_fn(T) -> nat, k: nat)
    ensures
        sort_by(s, key).filter(ranks_at(key, k)) == s.filter(ranks_at(key, k)),
    decreases s.len(),
{
    reveal(Seq::filter);
    if s.len() > 0 {
        law_sort_is_stable(s.drop_last(), key, k);
        lemma_insert_filter(sort_by(s.drop_last(), key), s.last(), key, k);
    }
}

proof fn lemma_insert_filter<T>(s: Seq<T>, x: T, key: spec_fn(T) -> nat, k: nat)
    ensures
        insert_by(s, x, key).filter(ranks_at(key, k)) == if key(x) == k {
            s.filter(ranks_at(key, k)).push(x)
        } else {
            s.filter(ranks_at(key, k))
        },
    decreases s.len(),
{
    reveal(Seq::filter);
    let r = insert_by(s, x, key);
    if s.len() == 0 || key(s.last()) >= key(x) {
        assert(r.drop_last() == s);
    } else {
        lemma_insert_filter(s.drop_last(), x, key, k);
        assert(r.drop_last() == insert_by(s.drop_last(), x, key));
    }
}

/// Sorting keeps the sum of any quantity.
pub proof fn law_sort_keeps_sum<T>(s: Seq<T>, key: spec_fn(T) -> nat, f: spec_fn(T) -> nat)
    ensures
        sum_by(sort_by(s, key), f) == sum_by(s, f),
    decreases s.len(),
{
    if s.len() > 0 {
        law_sort_keeps_sum(s.drop_last(), key, f);
        lemma_insert_sum(sort_by(s.drop_last(), key), s.last(), key, f);
    }
}

proof fn lemma_insert_sum<T>(s: Seq<T>, x: T, key: spec_fn(T) -> nat, f: spec_fn(T) -> nat)
    ensures
        sum_by(insert_by(s, x, key), f) == sum_by(s, f) + f(x),
    decreases s.len(),
{
    let r = insert_by(s, x, key);
    if s.len() == 0 || key(s.last()) >= key(x) {
        assert(r.drop_last() == s);
    } else {
        lemma_insert_sum(s.drop_last(), x, key, f);
        assert(r.drop_last() == insert_by(s.drop_last(), x, key));
    }
}

/// Whether the keys never increase, and `g` never decreases among equal keys.
pub open spec fn is_ordered<T>(s: Seq<T>, key: spec_fn(T) -> nat, g: spec_fn(T) -> nat) -> bool {
    forall|i: int, j: int|
        0 <= i <= j < s.len() ==> key(s[i]) > key(s[j]) || (key(s[i]) == key(s[j]) && g(s[i]) <= g(
            s[j],
        ))
}

/// What was in the order of `g` before sorting is so among equal keys afterwards.
pub proof fn law_sort_keeps_order_of_equals<T>(
    s: Seq<T>,
    key: spec_fn(T) -> nat,
    g: spec_fn(T) -> nat,
)
    requires
        forall|i: int, j: int| 0 <= i <= j < s.len() ==> g(s[i]) <= g(s[j]),
    ensures
        is_ordered(sort_by(s, key), key, g),
    decreases s.len(),
{
    broadcast use vstd::seq_lib::group_to_multiset_ensures;

    if s.len() > 0 {
        let init = s.drop_last();
        let t = sort_by(init, key);
        assert forall|i: int, j: int| 0 <= i <= j < init.len() implies g(init[i]) <= g(init[j]) by {
            assert(init[i] == s[i] && init[j] == s[j]);
        }
        law_sort_keeps_order_of_equals(init, key, g);
        law_sort_is_permutation(init, key);
        assert forall|i: int| 0 <= i < t.len() implies g(#[trigger] t[i]) <= g(s.last()) by {
            assert(t.contains(t[i]));
            assert(t.to_multiset().count(t[i]) > 0);
            assert(init.to_multiset().count(t[i]) > 0);
            assert(init.contains(t[i]));
            let j = choose|j: int| 0 <= j < init.len() && init[j] == t[i];
            assert(s[j] == t[i]);
            assert(s[s.len() - 1] == s.last());
        }
        lemma_insert_ordered(t, s.last(), key, g);
    }
}

proof fn lemma_insert_ordered<T>(s: Seq<T>, x: T, key: spec_fn(T) -> nat, g: spec_fn(T) -> nat)
    requires
        is_ordered(s, key, g),
        forall|i: int| 0 <= i < s.len() ==> g(#[trigger] s[i]) <= g(x),
    ensures
        is_ordered(insert_by(s, x, key), key, g),
    decreases s.len(),
{
    let r = insert_by(s, x, key);
    if s.len() == 0 || key(s.last()) >= key(x) {
        assert forall|i: int, j: int| 0 <= i <= j < r.len() implies key(r[i]) > key(r[j]) || (key(
            r[i],
        ) == key(r[j]) && g(r[i]) <= g(r[j])) by {
            if j < s.len() {
                assert(r[i] == s[i] && r[j] == s[j]);
            } else if i < s.len() {
                assert(r[i] == s[i] && r[j] == x);
                assert(s[s.len() - 1] == s.last());
            }
        }
    } else {
        let init = s.drop_last();
        let q = insert_by(init, x, key);
        assert forall|i: int, j: int| 0 <= i <= j < init.len() implies key(init[i]) > key(init[j])
            || (key(init[i]) == key(init[j]) && g(init[i]) <= g(init[j])) by {
            assert(init[i] == s[i] && init[j] == s[j]);
        }
        assert forall|i: int| 0 <= i < init.len() implies g(#[trigger] init[i]) <= g(x) by {
            assert(init[i] == s[i]);
        }
        lemma_insert_ordered(init, x, key, g);
        lemma_insert_multiset(init, x, key);
        broadcast use vstd::seq_lib::group_to_multiset_ensures;

        assert forall|i: int, j: int| 0 <= i <= j < r.len() implies key(r[i]) > key(r[j]) || (key(
            r[i],
        ) == key(r[j]) && g(r[i]) <= g(r[j])) by {
            if j < s.len() {
                assert(r[i] == q[i] && r[j] == q[j]);
            } else if i < s.len() {
                assert(r[i] == q[i] && r[j] == s[s.len() - 1]);
                assert(q.contains(q[i]));
                assert(q.to_multiset().count(q[i]) > 0);
                assert(q[i] == x || init.to_multiset().count(q[i]) > 0);
                if q[i] != x {
                    assert(init.contains(q[i]));
                    let k = choose|k: int| 0 <= k < init.len() && init[k] == q[i];
                    assert(s[k] == q[i]);
                }
            }
        }
    }
}

/// Sorting commutes with leaving out what ranks below a threshold, and what stays is a
/// prefix of the whole.
pub proof fn law_sort_keeps_threshold<T>(s: Seq<T>, key: spec_fn(T) -> nat, min: nat)
    ensures
        sort_by(s.filter(|x: T| key(x) >= min), key) == sort_by(s, key).filter(
            |x: T| key(x) >= min,
        ),
        sort_by(s.filter(|x: T| key(x) >= min), key).is_prefix_of(sort_by(s, key)),
{
    lemma_sort_threshold(s, key, min);
    law_sort_is_descending(s, key);
    lemma_threshold_prefix(sort_by(s, key), key, min);
}

proof fn lemma_sort_threshold<T>(s: Seq<T>, key: spec_fn(T) -> nat, min: nat)
    ensures
        sort_by(s.filter(|x: T| key(x) >= min), key) == sort_by(s, key).filter(
            |x: T| key(x) >= min,
        ),
    decreases s.len(),
{
    reveal(Seq::filter);
    if s.len() > 0 {
        let keep = |x: T| key(x) >= min;
        let kept = s.drop_last().filter(keep);
        lemma_sort_threshold(s.drop_last(), key, min);
        lemma_insert_threshold(sort_by(s.drop_last(), key), s.last(), key, min);
        assert(kept.push(s.last()).drop_last() == kept);
    }
}

proof fn lemma_insert_threshold<T>(s: Seq<T>, x: T, key: spec_fn(T) -> nat, min: nat)
    ensures
        insert_by(s, x, key).filter(|y: T| key(y) >= min) == if key(x) >= min {
            insert_by(s.filter(|y: T| key(y) >= min), x, key)
        } else {
            s.filter(|y: T| key(y) >= min)
        },
    decreases s.len(),
{
    reveal(Seq::filter);
    let keep = |y: T| key(y) >= min;
    let r = insert_by(s, x, key);
    if s.len() == 0 || key(s.last()) >= key(x) {
        assert(r.drop_last() == s);
        assert(s.len() > 0 && key(x) >= min ==> s.filter(keep).last() == s.last());
    } else {
        lemma_insert_threshold(s.drop_last(), x, key, min);
        assert(r.drop_last() == insert_by(s.drop_last(), x, key));
        let kept = s.drop_last().filter(keep);
        assert(kept.push(s.last()).drop_last() == kept);
    }
}

proof fn lemma_threshold_prefix<T>(s: Seq<T>, key: spec_fn(T) -> nat, min: nat)
    requires
        is_descending(s, key),
    ensures
        s.filter(|x: T| key(x) >= min).is_prefix_of(s),
        s.len() > 0 && key(s.last()) >= min ==> s.filter(|x: T| key(x) >= min) == s,
    decreases s.len(),
{
    reveal(Seq::filter);
    if s.len() > 0 {
        let init = s.drop_last();
        let kept = init.filter(|x: T| key(x) >= min);
        assert forall|i: int, j: int| 0 <= i <= j < init.len() implies key(init[i]) >= key(
            init[j],
        ) by {
            assert(init[i] == s[i] && init[j] == s[j]);
        }
        lemma_threshold_prefix(init, key, min);
        assert(kept == s.take(kept.len() as int)) by {
            assert(kept == init.take(kept.len() as int));
        }
        if key(s.last()) >= min {
            if init.len() > 0 {
                assert(s[s.len() - 2] == init.last() && s[s.len() - 1] == s.last());
            }
            assert(kept == init);
            assert(init.push(s.last()) == s);
        }
    }
}

proof fn lemma_remove_sum<T>(s: Seq<T>, i: int, f: spec_fn(T) -> nat)
    requires
        0 <= i < s.len(),
    ensures
        sum_by(s, f) == sum_by(s.remove(i), f) + f(s[i]),
    decreases s.len(),
{
    if i == s.len() - 1 {
        assert(s.remove(i) == s.drop_last());
    } else {
        lemma_remove_sum(s.drop_last(), i, f);
        assert(s.remove(i).drop_last() == s.drop_last().remove(i));
        assert(s.remove(i).last() == s.last());
    }
}

proof fn lemma_find_last<T>(s: Seq<T>, t: Seq<T>) -> (i: int)
    requires
        s.len() > 0,
        s.to_multiset() == t.to_multiset(),
    ensures
        0 <= i < t.len(),
        t[i] == s.last(),
        s.drop_last().to_multiset() == t.remove(i).to_multiset(),
{
    broadcast use vstd::seq_lib::group_to_multiset_ensures;

    let x = s.last();
    assert(s.contains(x)) by {
        assert(s[s.len() - 1] == x);
    }
    assert(t.to_multiset().count(x) > 0);
    assert(t.contains(x));
    let i = choose|i: int| 0 <= i < t.len() && t[i] == x;
    assert(s.drop_last() == s.remove(s.len() - 1));
    i
}

/// The sum of a quantity does not depend on the order of the list.
pub proof fn law_sum_ignores_order<T>(s: Seq<T>, t: Seq<T>, f: spec_fn(T) -> nat)
    requires
        s.to_multiset() == t.to_multiset(),
    ensures
        sum_by(s, f) == sum_by(t, f),
    decreases s.len(),
{
    broadcast use vstd::seq_lib::group_to_multiset_ensures;

    assert(s.len() == s.to_multiset().len() && t.len() == t.to_multiset().len());
    if s.len() > 0 {
        let i = lemma_find_last(s, t);
        law_sum_ignores_order(s.drop_last(), t.remove(i), f);
        lemma_remove_sum(t, i, f);
    }
}

proof fn lemma_map_permutation<A, B>(s: Seq<A>, t: Seq<A>, f: spec_fn(A) -> B)
    requires
        s.to_multiset() == t.to_multiset(),
    ensures
        s.map_values(f).to_multiset() == t.map_values(f).to_multiset(),
    decreases s.len(),
{
    broadcast use vstd::seq_lib::group_to_multiset_ensures;

    assert(s.len() == s.to_multiset().len() && t.len() == t.to_multiset().len());
    if s.len() > 0 {
        let i = lemma_find_last(s, t);
        lemma_map_permutation(s.drop_last(), t.remove(i), f);
        let a = s.map_values(f);
        let b = t.map_values(f);
        assert(s.drop_last().map_values(f) == a.remove(a.len() - 1));
        assert(t.remove(i).map_values(f) == b.remove(i));
        let x = f(s.last());
        assert(a[a.len() - 1] == x && b[i] == x);
        assert(a.contains(x) && b.contains(x));
        assert(a.to_multiset().count(x) > 0 && b.to_multiset().count(x) > 0);
        assert(a.to_multiset() =~= a.to_multiset().remove(x).insert(x));
        assert(b.to_multiset() =~= b.to_multiset().remove(x).insert(x));
    } else {
        assert(s.map_values(f) == t.map_values(f));
    }
}

/// The keys along a sorted list do not depend on the order before sorting.
pub proof fn law_sorted_keys_ignore_order<T>(s: Seq<T>, t: Seq<T>, key: spec_fn(T) -> nat)
    requires
        s.to_multiset() == t.to_multiset(),
    ensures
        sort_by(s, key).map_values(key) == sort_by(t, key).map_values(key),
{
    let a = sort_by(s, key);
    let b = sort_by(t, key);
    let above = |x: nat, y: nat| x >= y;
    law_sort_is_permutation(s, key);
    law_sort_is_permutation(t, key);
    law_sort_is_descending(s, key);
    law_sort_is_descending(t, key);
    lemma_map_permutation(a, b, key);
    vstd::seq_lib::lemma_sorted_unique(a.map_values(key), b.map_values(key), above);
}

} // verus!
