//! Facts about `filter_map` on sequences that several modules rely on.

use vstd::prelude::*;

verus! {

/// A `filter_map` whose function keeps every element as it is leaves the
/// sequence unchanged.
pub proof fn lemma_filter_map_keeps_all<A>(s: Seq<A>, f: spec_fn(A) -> Option<A>)
    requires
        forall|i: int| 0 <= i < s.len() ==> f(#[trigger] s[i]) == Some(s[i]),
    ensures
        s.filter_map(f) == s,
    decreases s.len(),
{
    if s.len() > 0 {
        let rest = s.drop_last();
        assert forall|i: int| 0 <= i < rest.len() implies f(#[trigger] rest[i]) == Some(rest[i]) by {
            assert(rest[i] == s[i]);
        }
        lemma_filter_map_keeps_all(rest, f);
        assert(f(s.last()) == Some(s[s.len() - 1]));
        assert(rest + seq![s.last()] =~= s);
    }
}

/// `filter_map` distributes over concatenation.
pub proof fn lemma_filter_map_add<A, B>(a: Seq<A>, b: Seq<A>, f: spec_fn(A) -> Option<B>)
    ensures
        (a + b).filter_map(f) == a.filter_map(f) + b.filter_map(f),
    decreases b.len(),
{
    if b.len() == 0 {
        assert(a + b =~= a);
        assert(a.filter_map(f) + b.filter_map(f) =~= a.filter_map(f));
    } else {
        lemma_filter_map_add(a, b.drop_last(), f);
        assert((a + b).drop_last() =~= a + b.drop_last());
        assert((a + b).last() == b.last());
        match f(b.last()) {
            Some(x) => {
                assert(a.filter_map(f) + b.filter_map(f) =~= a.filter_map(f) + b.drop_last().filter_map(f) + seq![x]);
            },
            None => {},
        }
    }
}


/// An element is in a `filter_map` exactly when some element maps to it.
pub proof fn lemma_filter_map_contains_iff<A, B>(s: Seq<A>, f: spec_fn(A) -> Option<B>, y: B)
    ensures
        s.filter_map(f).contains(y) <==> exists|i: int| 0 <= i < s.len() && f(s[i]) == Some(y),
    decreases s.len(),
{
    if s.len() > 0 {
        let d = s.drop_last();
        lemma_filter_map_contains_iff(d, f, y);
        let fd = d.filter_map(f);
        match f(s.last()) {
            Some(z) => {
                assert(s.filter_map(f) == fd + seq![z]);
                if s.filter_map(f).contains(y) {
                    let k = choose|k: int| 0 <= k < s.filter_map(f).len() && s.filter_map(f)[k] == y;
                    if k < fd.len() {
                        assert(fd[k] == y);
                        assert(fd.contains(y));
                        let i = choose|i: int| 0 <= i < d.len() && f(d[i]) == Some(y);
                        assert(s[i] == d[i]);
                    } else {
                        assert(f(s[s.len() - 1]) == Some(y));
                    }
                }
                if exists|i: int| 0 <= i < s.len() && f(s[i]) == Some(y) {
                    let i = choose|i: int| 0 <= i < s.len() && f(s[i]) == Some(y);
                    if i < s.len() - 1 {
                        assert(d[i] == s[i]);
                        assert(fd.contains(y));
                        let k = choose|k: int| 0 <= k < fd.len() && fd[k] == y;
                        assert(s.filter_map(f)[k] == y);
                    } else {
                        assert(s.filter_map(f)[fd.len() as int] == z);
                    }
                }
            },
            None => {
                assert(s.filter_map(f) == fd);
                if exists|i: int| 0 <= i < s.len() && f(s[i]) == Some(y) {
                    let i = choose|i: int| 0 <= i < s.len() && f(s[i]) == Some(y);
                    if i < s.len() - 1 {
                        assert(d[i] == s[i]);
                    }
                }
                if fd.contains(y) {
                    let i = choose|i: int| 0 <= i < d.len() && f(d[i]) == Some(y);
                    assert(s[i] == d[i]);
                }
            },
        }
    }
}

} // verus!
