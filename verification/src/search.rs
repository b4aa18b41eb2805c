//! Searching in sequences.
use vstd::prelude::*;

verus! {

/// Whether an entry of a table has the given key.
pub open spec fn keyed<K, V>(key: K) -> spec_fn((K, V)) -> bool {
    |entry: (K, V)| entry.0 == key
}

/// The first place at or after `from` whose element meets `p`.
pub open spec fn first_where<T>(s: Seq<T>, p: spec_fn(T) -> bool, from: int) -> Option<int>
    decreases s.len() - from,
{
    if from < 0 || from >= s.len() {
        None
    } else if p(s[from]) {
        Some(from)
    } else {
        first_where(s, p, from + 1)
    }
}

/// [first_where] finds a place that meets `p` exactly where there is one, and none before it does.
pub proof fn lemma_first_where<T>(s: Seq<T>, p: spec_fn(T) -> bool, from: int)
    requires
        0 <= from,
    ensures
        match first_where(s, p, from) {
            Some(at) => from <= at < s.len() && p(s[at]) && forall|i: int|
                from <= i < at ==> !p(#[trigger] s[i]),
            None => forall|i: int| from <= i < s.len() ==> !p(#[trigger] s[i]),
        },
    decreases s.len() - from,
{
    if from < s.len() && !p(s[from]) {
        lemma_first_where(s, p, from + 1);
    }
}

/// One more element that meets `p` is kept after those before it.
pub proof fn lemma_filter_take<T>(s: Seq<T>, p: spec_fn(T) -> bool, n: int)
    requires
        0 <= n < s.len(),
    ensures
        s.take(n + 1).filter(p) == (if p(s[n]) {
            s.take(n).filter(p).push(s[n])
        } else {
            s.take(n).filter(p)
        }),
{
    reveal(Seq::filter);
    assert(s.take(n + 1).drop_last() =~= s.take(n));
}

/// One more element adds what `f` makes of it, if anything, after what it makes of those before it.
pub proof fn lemma_filter_map_take<T, U>(s: Seq<T>, f: spec_fn(T) -> Option<U>, n: int)
    requires
        0 <= n < s.len(),
    ensures
        s.take(n + 1).filter_map(f) == (match f(s[n]) {
            Some(u) => s.take(n).filter_map(f).push(u),
            None => s.take(n).filter_map(f),
        }),
{
    assert(s.take(n + 1).drop_last() =~= s.take(n));
    if let Some(u) = f(s[n]) {
        assert(s.take(n).filter_map(f) + seq![u] =~= s.take(n).filter_map(f).push(u));
    }
}

} // verus!
