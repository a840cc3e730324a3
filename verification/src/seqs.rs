//! Facts about filtered sequences.
use vstd::prelude::*;

verus! {

/// Filtering one element more adds that element or nothing.
pub proof fn lemma_filter_take<A>(s: Seq<A>, keep: spec_fn(A) -> bool, i: int)
    requires
        0 <= i < s.len(),
    ensures
        s.take(i + 1).filter(keep) == if keep(s[i]) {
            s.take(i).filter(keep).push(s[i])
        } else {
            s.take(i).filter(keep)
        },
{
    reveal(Seq::filter);
    assert(s.take(i + 1).drop_last() =~= s.take(i));
}

/// A filtered sequence holds the kept elements and no others.
pub proof fn lemma_filter_contains<A>(s: Seq<A>, keep: spec_fn(A) -> bool)
    ensures
        forall|a: A| #[trigger] s.filter(keep).contains(a) <==> s.contains(a) && keep(a),
{
    broadcast use vstd::seq_lib::group_filter_ensures;

    assert forall|a: A| s.contains(a) && keep(a) implies #[trigger] s.filter(keep).contains(a) by {
        let i = choose|i: int| 0 <= i < s.len() && s[i] == a;
        assert(s.filter(keep).contains(s[i]));
    }
    assert forall|a: A| #[trigger] s.filter(keep).contains(a) implies s.contains(a) && keep(a) by {
        s.lemma_filter_contains_rev(keep, a);
    }
}

/// Filtering keeps elements distinct.
pub proof fn lemma_filter_no_duplicates<A>(s: Seq<A>, keep: spec_fn(A) -> bool)
    requires
        s.no_duplicates(),
    ensures
        s.filter(keep).no_duplicates(),
    decreases s.len(),
{
    reveal(Seq::filter);
    if s.len() > 0 {
        let rest = s.drop_last();
        lemma_filter_no_duplicates(rest, keep);
        lemma_filter_contains(rest, keep);
        if keep(s.last()) {
            assert(!rest.filter(keep).contains(s.last())) by {
                if rest.contains(s.last()) {
                    let i = choose|i: int| 0 <= i < rest.len() && rest[i] == s.last();
                    assert(s[i] == s[s.len() - 1]);
                }
            }
            assert(s.filter(keep) == rest.filter(keep).push(s.last()));
        }
    }
}

/// Filtering changes nothing where everything is kept.
pub proof fn lemma_filter_all<A>(s: Seq<A>, keep: spec_fn(A) -> bool)
    requires
        forall|i: int| 0 <= i < s.len() ==> keep(#[trigger] s[i]),
    ensures
        s.filter(keep) == s,
    decreases s.len(),
{
    reveal(Seq::filter);
    if s.len() > 0 {
        lemma_filter_all(s.drop_last(), keep);
        assert(s.drop_last().push(s.last()) =~= s);
    }
}

/// Filtering a sequence is filtering its two parts.
pub proof fn lemma_filter_parts<A>(s: Seq<A>, keep: spec_fn(A) -> bool, i: int)
    requires
        0 <= i <= s.len(),
    ensures
        s.filter(keep) == s.take(i).filter(keep) + s.skip(i).filter(keep),
{
    assert(s =~= s.take(i) + s.skip(i));
    Seq::filter_distributes_over_add(s.take(i), s.skip(i), keep);
}

/// Filtering goes by what is said of the elements alone.
pub proof fn lemma_filter_agrees<A>(s: Seq<A>, keep: spec_fn(A) -> bool, other: spec_fn(A) -> bool)
    requires
        forall|i: int| 0 <= i < s.len() ==> keep(#[trigger] s[i]) == other(s[i]),
    ensures
        s.filter(keep) == s.filter(other),
    decreases s.len(),
{
    reveal(Seq::filter);
    if s.len() > 0 {
        lemma_filter_agrees(s.drop_last(), keep, other);
    }
}

} // verus!
