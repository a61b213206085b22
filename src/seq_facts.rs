use vstd::prelude::*;

verus! {

/// Filtering by a predicate that every element meets changes nothing.
pub proof fn lemma_filter_all<A>(s: Seq<A>, p: spec_fn(A) -> bool)
    requires
        forall|i: int| 0 <= i < s.len() ==> p(#[trigger] s[i]),
    ensures
        s.filter(p) == s,
    decreases s.len(),
{
    reveal(Seq::filter);
    if s.len() > 0 {
        let t = s.drop_last();
        assert forall|i: int| 0 <= i < t.len() implies p(#[trigger] t[i]) by {
            assert(t[i] == s[i]);
        }
        lemma_filter_all(t, p);
        assert(t.push(s.last()) =~= s);
    }
}

/// Filtering by two predicates that agree on every element gives the same.
pub proof fn lemma_filter_congruent<A>(s: Seq<A>, p: spec_fn(A) -> bool, q: spec_fn(A) -> bool)
    requires
        forall|i: int| 0 <= i < s.len() ==> p(#[trigger] s[i]) == q(s[i]),
    ensures
        s.filter(p) == s.filter(q),
    decreases s.len(),
{
    reveal(Seq::filter);
    if s.len() > 0 {
        let t = s.drop_last();
        assert forall|i: int| 0 <= i < t.len() implies p(#[trigger] t[i]) == q(t[i]) by {
            assert(t[i] == s[i]);
        }
        lemma_filter_congruent(t, p, q);
    }
}

/// Filtering twice is filtering once by both predicates.
pub proof fn lemma_filter_filter<A>(
    s: Seq<A>,
    p: spec_fn(A) -> bool,
    q: spec_fn(A) -> bool,
    both: spec_fn(A) -> bool,
)
    requires
        forall|x: A| #[trigger] both(x) == (p(x) && q(x)),
    ensures
        s.filter(p).filter(q) == s.filter(both),
    decreases s.len(),
{
    reveal(Seq::filter);
    if s.len() > 0 {
        let t = s.drop_last();
        lemma_filter_filter(t, p, q, both);
        let x = s.last();
        if p(x) {
            assert(s.filter(p) == t.filter(p).push(x));
            assert(s.filter(p).drop_last() =~= t.filter(p));
        }
    }
}

/// Mapping by a function that keeps the predicate commutes with filtering.
pub proof fn lemma_filter_map_commute<A>(s: Seq<A>, f: spec_fn(A) -> A, p: spec_fn(A) -> bool)
    requires
        forall|x: A| #[trigger] p(f(x)) == p(x),
    ensures
        s.map_values(f).filter(p) == s.filter(p).map_values(f),
    decreases s.len(),
{
    reveal(Seq::filter);
    if s.len() > 0 {
        let t = s.drop_last();
        lemma_filter_map_commute(t, f, p);
        let m = s.map_values(f);
        assert(m.drop_last() =~= t.map_values(f));
        assert(m.last() == f(s.last()));
        if p(s.last()) {
            assert(s.filter(p).map_values(f) =~= t.filter(p).map_values(f).push(f(s.last())));
        }
    }
}

/// A predicate and its negation split a sequence.
pub proof fn lemma_filter_split_len<A>(s: Seq<A>, p: spec_fn(A) -> bool, q: spec_fn(A) -> bool)
    requires
        forall|x: A| #[trigger] q(x) == !p(x),
    ensures
        s.filter(p).len() + s.filter(q).len() == s.len(),
    decreases s.len(),
{
    reveal(Seq::filter);
    if s.len() > 0 {
        lemma_filter_split_len(s.drop_last(), p, q);
    }
}

/// If `f` tells apart any two kept elements, the kept elements' images have
/// no duplicates.
pub proof fn lemma_filter_map_distinct<A, B>(s: Seq<A>, p: spec_fn(A) -> bool, f: spec_fn(A) -> B)
    requires
        forall|a: int, b: int|
            0 <= a < b < s.len() && p(s[a]) && p(s[b]) ==> f(#[trigger] s[a]) != f(#[trigger] s[b]),
    ensures
        s.filter(p).map_values(f).no_duplicates(),
    decreases s.len(),
{
    reveal(Seq::filter);
    broadcast use vstd::seq_lib::group_filter_ensures;
    if s.len() > 0 {
        let t = s.drop_last();
        assert forall|a: int, b: int|
            0 <= a < b < t.len() && p(t[a]) && p(t[b]) implies f(#[trigger] t[a]) != f(#[trigger] t[b]) by {
            assert(t[a] == s[a] && t[b] == s[b]);
        }
        lemma_filter_map_distinct(t, p, f);
        let x = s.last();
        if p(x) {
            let ft = t.filter(p);
            let m = s.filter(p).map_values(f);
            assert(s.filter(p) == ft.push(x));
            assert forall|a: int, b: int| 0 <= a < b < m.len() implies m[a] != m[b] by {
                if b == m.len() - 1 {
                    assert(ft.contains(ft[a]));
                    t.lemma_filter_contains_rev(p, ft[a]);
                    let i = choose|i: int| 0 <= i < t.len() && t[i] == ft[a];
                    assert(p(ft[a]));
                    assert(s[i] == ft[a]);
                    assert(f(s[i]) != f(s[s.len() - 1]));
                } else {
                    assert(m[a] == ft.map_values(f)[a]);
                    assert(m[b] == ft.map_values(f)[b]);
                }
            }
        }
    }
}

} // verus!
