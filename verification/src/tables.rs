//! Shared reasoning about the keyed tables this crate keeps as vectors:
//! uniqueness of keys, and how `Seq::filter` behaves under the operations the
//! session managers perform on them.

use vstd::prelude::*;

verus! {

/// No two elements share a key.
pub open spec fn unique_by<A, K>(s: Seq<A>, key: spec_fn(A) -> K) -> bool {
    forall|i: int, j: int| 0 <= i < j < s.len() ==> key(#[trigger] s[i]) != key(#[trigger] s[j])
}

/// Filtering a sequence whose elements all pass keeps it whole.
pub proof fn lemma_filter_all_true<A>(s: Seq<A>, pred: spec_fn(A) -> bool)
    requires
        forall|i: int| 0 <= i < s.len() ==> pred(#[trigger] s[i]),
    ensures
        s.filter(pred) == s,
    decreases s.len(),
{
    reveal(Seq::filter);
    if s.len() == 0 {
        assert(s.filter(pred) =~= s);
    } else {
        lemma_filter_all_true(s.drop_last(), pred);
        assert(pred(s.last()));
        assert(s.filter(pred) == s.drop_last().push(s.last()));
        assert(s.drop_last().push(s.last()) =~= s);
    }
}

/// How `filter` steps when one element is appended.
pub proof fn lemma_filter_push<A>(s: Seq<A>, pred: spec_fn(A) -> bool, x: A)
    ensures
        s.push(x).filter(pred) == if pred(x) {
            s.filter(pred).push(x)
        } else {
            s.filter(pred)
        },
{
    reveal(Seq::filter);
    let t = s.push(x);
    assert(t.drop_last() =~= s);
    assert(t.last() == x);
}

/// Each element of a filtered sequence passes the test and comes from the
/// original sequence.
pub proof fn lemma_filter_elems<A>(s: Seq<A>, pred: spec_fn(A) -> bool)
    ensures
        forall|i: int|
            0 <= i < s.filter(pred).len() ==> pred(#[trigger] s.filter(pred)[i]) && exists|j: int|
                0 <= j < s.len() && s[j] == s.filter(pred)[i],
    decreases s.len(),
{
    reveal(Seq::filter);
    if s.len() == 0 {
    } else {
        let t = s.drop_last();
        lemma_filter_elems(t, pred);
        assert forall|i: int| 0 <= i < s.filter(pred).len() implies pred(
            #[trigger] s.filter(pred)[i],
        ) && exists|j: int| 0 <= j < s.len() && s[j] == s.filter(pred)[i] by {
            if i < t.filter(pred).len() {
                assert(s.filter(pred)[i] == t.filter(pred)[i]);
                let j = choose|j: int| 0 <= j < t.len() && t[j] == t.filter(pred)[i];
                assert(s[j] == s.filter(pred)[i]);
            } else {
                assert(s.filter(pred)[i] == s.last());
                assert(s[s.len() - 1] == s.filter(pred)[i]);
            }
        }
    }
}

/// A partition's sizes add up: keeping and dropping by the same test.
pub proof fn lemma_filter_partition_len<A>(
    s: Seq<A>,
    pred: spec_fn(A) -> bool,
    co: spec_fn(A) -> bool,
)
    requires
        forall|x: A| #[trigger] pred(x) <==> !co(x),
    ensures
        s.filter(pred).len() + s.filter(co).len() == s.len(),
    decreases s.len(),
{
    reveal(Seq::filter);
    if s.len() > 0 {
        lemma_filter_partition_len(s.drop_last(), pred, co);
        assert(pred(s.last()) <==> !co(s.last()));
    }
}

/// Filtering distributes over concatenation.
pub proof fn lemma_filter_append<A>(a: Seq<A>, b: Seq<A>, pred: spec_fn(A) -> bool)
    ensures
        (a + b).filter(pred) == a.filter(pred) + b.filter(pred),
    decreases b.len(),
{
    reveal(Seq::filter);
    if b.len() == 0 {
        assert(a + b =~= a);
        assert(b.filter(pred) =~= Seq::<A>::empty());
        assert(a.filter(pred) + b.filter(pred) =~= a.filter(pred));
    } else {
        let b0 = b.drop_last();
        lemma_filter_append(a, b0, pred);
        assert((a + b).drop_last() =~= a + b0);
        assert((a + b).last() == b.last());
        if pred(b.last()) {
            assert((a + b).filter(pred) == (a + b0).filter(pred).push(b.last()));
            assert(b.filter(pred) == b0.filter(pred).push(b.last()));
            assert((a.filter(pred) + b0.filter(pred)).push(b.last()) =~= a.filter(pred) + b0.filter(
                pred,
            ).push(b.last()));
        } else {
            assert((a + b).filter(pred) == (a + b0).filter(pred));
            assert(b.filter(pred) == b0.filter(pred));
        }
    }
}

/// Appending an element with a fresh key keeps keys unique.
pub proof fn lemma_unique_by_push<A, K>(s: Seq<A>, key: spec_fn(A) -> K, x: A)
    requires
        unique_by(s, key),
        forall|i: int| 0 <= i < s.len() ==> key(#[trigger] s[i]) != key(x),
    ensures
        unique_by(s.push(x), key),
{
    let t = s.push(x);
    assert forall|i: int, j: int| 0 <= i < j < t.len() implies key(#[trigger] t[i]) != key(
        #[trigger] t[j],
    ) by {
        if j < s.len() {
            assert(t[i] == s[i] && t[j] == s[j]);
        } else {
            assert(t[i] == s[i] && t[j] == x);
        }
    }
}

/// Filtering keeps keys unique.
pub proof fn lemma_filter_unique_by<A, K>(s: Seq<A>, pred: spec_fn(A) -> bool, key: spec_fn(A) -> K)
    requires
        unique_by(s, key),
    ensures
        unique_by(s.filter(pred), key),
    decreases s.len(),
{
    reveal(Seq::filter);
    if s.len() == 0 {
    } else {
        let t = s.drop_last();
        assert forall|i: int, j: int| 0 <= i < j < t.len() implies key(#[trigger] t[i]) != key(
            #[trigger] t[j],
        ) by {
            assert(t[i] == s[i] && t[j] == s[j]);
        }
        lemma_filter_unique_by(t, pred, key);
        if pred(s.last()) {
            lemma_filter_elems(t, pred);
            assert forall|i: int| 0 <= i < t.filter(pred).len() implies key(
                #[trigger] t.filter(pred)[i],
            ) != key(s.last()) by {
                let j = choose|j: int| 0 <= j < t.len() && t[j] == t.filter(pred)[i];
                assert(key(s[j]) != key(s[s.len() - 1]));
            }
            lemma_unique_by_push(t.filter(pred), key, s.last());
            assert(s.filter(pred) == t.filter(pred).push(s.last()));
        } else {
            assert(s.filter(pred) == t.filter(pred));
        }
    }
}

} // verus!
