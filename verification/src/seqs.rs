//! Facts about filtered sequences that the loops of the simulation rest on.

use vstd::prelude::*;

verus! {

/// Filtering one more element of a sequence either appends that element to
/// the filtered prefix or leaves the filtered prefix as it is.
pub proof fn lemma_filter_step<A>(s: Seq<A>, pred: spec_fn(A) -> bool, i: int)
    requires
        0 <= i < s.len(),
    ensures
        s.take(i + 1).filter(pred) == if pred(s[i]) {
            s.take(i).filter(pred).push(s[i])
        } else {
            s.take(i).filter(pred)
        },
{
    reveal(Seq::filter);
    assert(s.take(i + 1).drop_last() =~= s.take(i));
    assert(s.take(i + 1).last() == s[i]);
}

/// Every element that a filter keeps comes from the sequence and passes the
/// test.
pub proof fn lemma_filter_member<A>(s: Seq<A>, pred: spec_fn(A) -> bool, k: int)
    requires
        0 <= k < s.filter(pred).len(),
    ensures
        pred(s.filter(pred)[k]),
        exists|i: int| 0 <= i < s.len() && s[i] == s.filter(pred)[k],
    decreases s.len(),
{
    reveal(Seq::filter);
    if s.len() > 0 {
        let rest = s.drop_last();
        if pred(s.last()) && k == rest.filter(pred).len() {
            assert(s[s.len() - 1] == s.filter(pred)[k]);
        } else {
            lemma_filter_member(rest, pred, k);
            let i = choose|i: int| 0 <= i < rest.len() && rest[i] == rest.filter(pred)[k];
            assert(s[i] == s.filter(pred)[k]);
        }
    }
}

/// An element that passes the test is kept by the filter.
pub proof fn lemma_filter_keeps<A>(s: Seq<A>, pred: spec_fn(A) -> bool, i: int)
    requires
        0 <= i < s.len(),
        pred(s[i]),
    ensures
        s.filter(pred).contains(s[i]),
    decreases s.len(),
{
    reveal(Seq::filter);
    let rest = s.drop_last();
    if i == s.len() - 1 {
        assert(s.filter(pred).last() == s[i]);
    } else {
        lemma_filter_keeps(rest, pred, i);
        let k = choose|k: int| 0 <= k < rest.filter(pred).len() && rest.filter(pred)[k] == rest[i];
        assert(s.filter(pred)[k] == s[i]);
    }
}

/// Filtering twice keeps no more than the second filter alone.
pub proof fn lemma_filter_filter_len<A>(
    s: Seq<A>,
    first: spec_fn(A) -> bool,
    second: spec_fn(A) -> bool,
)
    ensures
        s.filter(first).filter(second).len() <= s.filter(second).len(),
    decreases s.len(),
{
    reveal(Seq::filter);
    if s.len() > 0 {
        let rest = s.drop_last();
        lemma_filter_filter_len(rest, first, second);
        if first(s.last()) {
            assert(s.filter(first) == rest.filter(first).push(s.last()));
            assert(s.filter(first).drop_last() =~= rest.filter(first));
        }
    }
}

/// What holds of every element of a sequence holds of every element that a
/// filter keeps.
pub proof fn lemma_filter_all<A>(s: Seq<A>, pred: spec_fn(A) -> bool, prop: spec_fn(A) -> bool)
    requires
        forall|i: int| 0 <= i < s.len() ==> prop(#[trigger] s[i]),
    ensures
        forall|k: int| 0 <= k < s.filter(pred).len() ==> prop(#[trigger] s.filter(pred)[k]),
{
    assert forall|k: int| 0 <= k < s.filter(pred).len() implies prop(
        #[trigger] s.filter(pred)[k],
    ) by {
        lemma_filter_member(s, pred, k);
    }
}

/// What a filter keeps of a sequence without duplicates has none.
pub proof fn lemma_filter_no_duplicates<A>(s: Seq<A>, pred: spec_fn(A) -> bool)
    requires
        s.no_duplicates(),
    ensures
        s.filter(pred).no_duplicates(),
    decreases s.len(),
{
    reveal(Seq::filter);
    if s.len() > 0 {
        let rest = s.drop_last();
        lemma_filter_no_duplicates(rest, pred);
        if pred(s.last()) {
            let kept = rest.filter(pred);
            assert forall|k: int| 0 <= k < kept.len() implies kept[k] != s.last() by {
                lemma_filter_member(rest, pred, k);
                let i = choose|i: int| 0 <= i < rest.len() && rest[i] == kept[k];
                assert(s[i] == kept[k]);
            }
        }
    }
}

/// Filtering a sequence with one more element at its end either appends
/// that element to the filtered sequence or leaves it as it is.
pub proof fn lemma_filter_push<A>(s: Seq<A>, pred: spec_fn(A) -> bool, a: A)
    ensures
        s.push(a).filter(pred) == if pred(a) {
            s.filter(pred).push(a)
        } else {
            s.filter(pred)
        },
{
    reveal(Seq::filter);
    assert(s.push(a).drop_last() =~= s);
}

/// Taking an element out of a sequence takes it out of the filtered
/// sequence if it passes the test, and leaves as many as there were if not.
pub proof fn lemma_filter_remove_len<A>(s: Seq<A>, pred: spec_fn(A) -> bool, i: int)
    requires
        0 <= i < s.len(),
    ensures
        s.remove(i).filter(pred).len() + (if pred(s[i]) {
            1int
        } else {
            0int
        }) == s.filter(pred).len(),
{
    let front = s.take(i);
    let back = s.skip(i + 1);
    assert(s =~= front.push(s[i]) + back);
    assert(s.remove(i) =~= front + back);
    Seq::filter_distributes_over_add(front.push(s[i]), back, pred);
    Seq::filter_distributes_over_add(front, back, pred);
    lemma_filter_push(front, pred, s[i]);
}

/// A filter keeps no more elements than there are.
pub proof fn lemma_filter_len_le<A>(s: Seq<A>, pred: spec_fn(A) -> bool)
    ensures
        s.filter(pred).len() <= s.len(),
{
    s.lemma_filter_len(pred);
}

} // verus!
