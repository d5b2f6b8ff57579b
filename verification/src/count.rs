//! Counting the members of a sequence that have a property.

use vstd::prelude::*;

verus! {

/// How many members of `s` satisfy `p`.
pub open spec fn count<T>(s: Seq<T>, p: spec_fn(T) -> bool) -> nat
    decreases s.len(),
{
    if s.len() == 0 {
        0
    } else {
        count(s.drop_last(), p) + if p(s.last()) {
            1nat
        } else {
            0nat
        }
    }
}

/// One more member adds one to the count exactly when it has the property.
pub proof fn lemma_count_push<T>(s: Seq<T>, x: T, p: spec_fn(T) -> bool)
    ensures
        count(s.push(x), p) == count(s, p) + if p(x) {
            1nat
        } else {
            0nat
        },
{
    assert(s.push(x).drop_last() =~= s);
}

/// The count of two sequences joined is the sum of their counts.
pub proof fn lemma_count_concat<T>(a: Seq<T>, b: Seq<T>, p: spec_fn(T) -> bool)
    ensures
        count(a + b, p) == count(a, p) + count(b, p),
    decreases b.len(),
{
    if b.len() == 0 {
        assert(a + b =~= a);
    } else {
        assert((a + b).drop_last() =~= a + b.drop_last());
        lemma_count_concat(a, b.drop_last(), p);
    }
}

/// Taking the first member away takes one from the count exactly when that
/// member has the property.
pub proof fn lemma_count_drop_first<T>(s: Seq<T>, p: spec_fn(T) -> bool)
    requires
        s.len() > 0,
    ensures
        count(s, p) == count(s.drop_first(), p) + if p(s[0]) {
            1nat
        } else {
            0nat
        },
{
    let head = seq![s[0]];
    assert(s =~= head + s.drop_first());
    lemma_count_concat(head, s.drop_first(), p);
    assert(head.drop_last() =~= Seq::<T>::empty());
    assert(count(head, p) == count(head.drop_last(), p) + if p(head.last()) {
        1nat
    } else {
        0nat
    });
}

/// Replacing one member changes the count by what the old member gave and
/// what the new one gives.
pub proof fn lemma_count_update<T>(s: Seq<T>, i: int, x: T, p: spec_fn(T) -> bool)
    requires
        0 <= i < s.len(),
    ensures
        count(s.update(i, x), p) + (if p(s[i]) {
            1nat
        } else {
            0nat
        }) == count(s, p) + if p(x) {
            1nat
        } else {
            0nat
        },
{
    let front = s.subrange(0, i);
    let back = s.subrange(i + 1, s.len() as int);
    assert(s =~= front.push(s[i]) + back);
    assert(s.update(i, x) =~= front.push(x) + back);
    lemma_count_concat(front.push(s[i]), back, p);
    lemma_count_concat(front.push(x), back, p);
    lemma_count_push(front, s[i], p);
    lemma_count_push(front, x, p);
}

/// The count is zero exactly when no member has the property, and equals the
/// length exactly when every member has it.
pub proof fn lemma_count_extremes<T>(s: Seq<T>, p: spec_fn(T) -> bool)
    ensures
        count(s, p) <= s.len(),
        count(s, p) == 0 <==> forall|i: int| 0 <= i < s.len() ==> !p(#[trigger] s[i]),
        count(s, p) == s.len() <==> forall|i: int| 0 <= i < s.len() ==> p(#[trigger] s[i]),
    decreases s.len(),
{
    if s.len() > 0 {
        let init = s.drop_last();
        lemma_count_extremes(init, p);
        assert forall|i: int| 0 <= i < init.len() implies init[i] == s[i] by {}
        if count(s, p) == 0 {
            assert forall|i: int| 0 <= i < s.len() implies !p(#[trigger] s[i]) by {
                if i < init.len() {
                    assert(!p(init[i]));
                }
            }
        }
        if count(s, p) == s.len() {
            assert forall|i: int| 0 <= i < s.len() implies p(#[trigger] s[i]) by {
                if i < init.len() {
                    assert(p(init[i]));
                }
            }
        }
        if forall|i: int| 0 <= i < s.len() ==> !p(#[trigger] s[i]) {
            assert(!p(s[s.len() - 1]));
            assert forall|i: int| 0 <= i < init.len() implies !p(#[trigger] init[i]) by {
                assert(!p(s[i]));
            }
        }
        if forall|i: int| 0 <= i < s.len() ==> p(#[trigger] s[i]) {
            assert(p(s[s.len() - 1]));
            assert forall|i: int| 0 <= i < init.len() implies p(#[trigger] init[i]) by {
                assert(p(s[i]));
            }
        }
    }
}

/// Two properties that no member has together are counted apart: their
/// counts add up to no more than the length.
pub proof fn lemma_count_disjoint<T>(s: Seq<T>, p: spec_fn(T) -> bool, q: spec_fn(T) -> bool)
    requires
        forall|i: int| 0 <= i < s.len() ==> !(p(#[trigger] s[i]) && q(s[i])),
    ensures
        count(s, p) + count(s, q) <= s.len(),
    decreases s.len(),
{
    if s.len() > 0 {
        let init = s.drop_last();
        assert forall|i: int| 0 <= i < init.len() implies !(p(#[trigger] init[i]) && q(init[i])) by {
            assert(init[i] == s[i]);
        }
        lemma_count_disjoint(init, p, q);
        assert(!(p(s[s.len() - 1]) && q(s[s.len() - 1])));
    }
}

} // verus!
