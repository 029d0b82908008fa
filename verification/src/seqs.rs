//! Facts about filtered sequences.
use vstd::prelude::*;

verus! {

/// Conditions that agree on the items of a sequence leave the same items.
pub proof fn lemma_filter_agree<A>(s: Seq<A>, p: spec_fn(A) -> bool, q: spec_fn(A) -> bool)
    requires
        forall|i: int| 0 <= i < s.len() ==> p(#[trigger] s[i]) == q(s[i]),
    ensures
        s.filter(p) == s.filter(q),
    decreases s.len(),
{
    reveal(Seq::filter);
    if s.len() > 0 {
        assert(p(s[s.len() - 1]) == q(s[s.len() - 1]));
        assert forall|i: int| 0 <= i < s.drop_last().len() implies p(
            #[trigger] s.drop_last()[i],
        ) == q(s.drop_last()[i]) by {
            assert(s.drop_last()[i] == s[i]);
        }
        lemma_filter_agree(s.drop_last(), p, q);
    }
}

/// A condition that no item meets leaves none.
pub proof fn lemma_filter_none<A>(s: Seq<A>, p: spec_fn(A) -> bool)
    requires
        forall|i: int| 0 <= i < s.len() ==> !p(#[trigger] s[i]),
    ensures
        s.filter(p) == Seq::<A>::empty(),
    decreases s.len(),
{
    reveal(Seq::filter);
    if s.len() > 0 {
        assert(!p(s[s.len() - 1]));
        assert forall|i: int| 0 <= i < s.drop_last().len() implies !p(
            #[trigger] s.drop_last()[i],
        ) by {
            assert(s.drop_last()[i] == s[i]);
        }
        lemma_filter_none(s.drop_last(), p);
    }
}

/// A condition that every item meets leaves all.
pub proof fn lemma_filter_all<A>(s: Seq<A>, p: spec_fn(A) -> bool)
    requires
        forall|i: int| 0 <= i < s.len() ==> p(#[trigger] s[i]),
    ensures
        s.filter(p) == s,
    decreases s.len(),
{
    reveal(Seq::filter);
    if s.len() > 0 {
        assert(p(s[s.len() - 1]));
        assert forall|i: int| 0 <= i < s.drop_last().len() implies p(
            #[trigger] s.drop_last()[i],
        ) by {
            assert(s.drop_last()[i] == s[i]);
        }
        lemma_filter_all(s.drop_last(), p);
        assert(s.drop_last().push(s.last()) =~= s);
    } else {
        assert(s.filter(p) =~= s);
    }
}

/// Two sequences joined hold what either holds.
pub proof fn lemma_contains_joined<A>(first: Seq<A>, second: Seq<A>, item: A)
    ensures
        (first + second).contains(item) <==> first.contains(item) || second.contains(item),
{
    let joined = first + second;
    if joined.contains(item) {
        let i = choose|i: int| 0 <= i < joined.len() && joined[i] == item;
        if i < first.len() {
            assert(first[i] == item);
        } else {
            assert(second[i - first.len()] == item);
        }
    }
    if first.contains(item) {
        let i = choose|i: int| 0 <= i < first.len() && first[i] == item;
        assert(joined[i] == item);
    }
    if second.contains(item) {
        let i = choose|i: int| 0 <= i < second.len() && second[i] == item;
        assert(joined[first.len() + i] == item);
    }
}

/// Flattening ends with the last part.
pub proof fn lemma_flatten_last<A>(parts: Seq<Seq<A>>)
    requires
        parts.len() > 0,
    ensures
        parts.flatten() == parts.drop_last().flatten() + parts.last(),
{
    parts.lemma_flatten_and_flatten_alt_are_equivalent();
    parts.drop_last().lemma_flatten_and_flatten_alt_are_equivalent();
}

/// What a part holds, the whole holds.
pub proof fn lemma_flatten_contains<A>(parts: Seq<Seq<A>>, part: int, at: int)
    requires
        0 <= part < parts.len(),
        0 <= at < parts[part].len(),
    ensures
        parts.flatten().contains(parts[part][at]),
    decreases parts.len(),
{
    lemma_flatten_last(parts);
    let before = parts.drop_last();
    lemma_contains_joined(before.flatten(), parts.last(), parts[part][at]);
    if part < before.len() {
        assert(before[part] == parts[part]);
        lemma_flatten_contains(before, part, at);
    } else {
        assert(parts.last().contains(parts[part][at]));
    }
}

/// What the whole holds, a part holds.
pub proof fn lemma_flatten_source<A>(parts: Seq<Seq<A>>, item: A) -> (source: (int, int))
    requires
        parts.flatten().contains(item),
    ensures
        0 <= source.0 < parts.len(),
        0 <= source.1 < parts[source.0].len(),
        parts[source.0][source.1] == item,
    decreases parts.len(),
{
    if parts.len() == 0 {
        assert(parts.flatten().len() == 0);
        (0, 0)
    } else {
        lemma_flatten_last(parts);
        let before = parts.drop_last();
        lemma_contains_joined(before.flatten(), parts.last(), item);
        if before.flatten().contains(item) {
            let source = lemma_flatten_source(before, item);
            assert(before[source.0] == parts[source.0]);
            source
        } else {
            let at = choose|at: int| 0 <= at < parts.last().len() && parts.last()[at] == item;
            (parts.len() - 1, at)
        }
    }
}

/// Empty parts make an empty whole.
pub proof fn lemma_flatten_none<A>(parts: Seq<Seq<A>>)
    requires
        forall|i: int| 0 <= i < parts.len() ==> (#[trigger] parts[i]).len() == 0,
    ensures
        parts.flatten() == Seq::<A>::empty(),
{
    if parts.flatten().len() > 0 {
        assert(parts.flatten().contains(parts.flatten()[0]));
        let source = lemma_flatten_source(parts, parts.flatten()[0]);
        assert(parts[source.0].len() == 0);
    }
    assert(parts.flatten() =~= Seq::<A>::empty());
}

/// An item that a filter leaves was there before.
pub proof fn lemma_filter_source<A>(s: Seq<A>, p: spec_fn(A) -> bool, at: int) -> (source: int)
    requires
        0 <= at < s.filter(p).len(),
    ensures
        0 <= source < s.len(),
        s[source] == s.filter(p)[at],
        p(s[source]),
    decreases s.len(),
{
    reveal(Seq::filter);
    let shorter = s.drop_last().filter(p);
    if at < shorter.len() {
        let source = lemma_filter_source(s.drop_last(), p, at);
        assert(s.drop_last()[source] == s[source]);
        source
    } else {
        s.len() - 1
    }
}

} // verus!
