//! Orders used for the library's sorted collections: the order of `String`
//! (code point by code point, as std's `Ord for str`) and of `usize`.

use vstd::prelude::*;
use crate::text::{chars_of, string_views};
use vstd::seq_lib::{to_multiset_build, to_multiset_insert};

verus! {

/// The result of a three-way comparison.
#[derive(Debug, Clone, Copy, PartialEq, Eq, Structural)]
pub enum Comparison {
    Less,
    Equal,
    Greater,
}

/// Lexicographic order on character sequences, by code point.
pub open spec fn seq_lt(a: Seq<char>, b: Seq<char>) -> bool
    decreases a.len(),
{
    if a.len() == 0 {
        b.len() > 0
    } else if b.len() == 0 {
        false
    } else if a[0] != b[0] {
        (a[0] as int) < (b[0] as int)
    } else {
        seq_lt(a.drop_first(), b.drop_first())
    }
}

proof fn lemma_seq_lt_irrefl(a: Seq<char>)
    ensures
        !seq_lt(a, a),
    decreases a.len(),
{
    if a.len() > 0 {
        lemma_seq_lt_irrefl(a.drop_first());
    }
}

proof fn lemma_seq_lt_total(a: Seq<char>, b: Seq<char>)
    ensures
        a == b || seq_lt(a, b) || seq_lt(b, a),
    decreases a.len(),
{
    if a.len() > 0 && b.len() > 0 {
        if a[0] == b[0] {
            lemma_seq_lt_total(a.drop_first(), b.drop_first());
            if a.drop_first() == b.drop_first() {
                assert(a =~= seq![a[0]] + a.drop_first());
                assert(b =~= seq![b[0]] + b.drop_first());
            }
        } else {
        }
    } else if a.len() == 0 && b.len() == 0 {
        assert(a =~= b);
    }
}

proof fn lemma_seq_lt_trans(a: Seq<char>, b: Seq<char>, c: Seq<char>)
    requires
        seq_lt(a, b),
        seq_lt(b, c),
    ensures
        seq_lt(a, c),
    decreases a.len(),
{
    if a.len() > 0 && a[0] == b[0] && b[0] == c[0] {
        lemma_seq_lt_trans(a.drop_first(), b.drop_first(), c.drop_first());
    }
}

proof fn lemma_seq_lt_asym(a: Seq<char>, b: Seq<char>)
    ensures
        !(seq_lt(a, b) && seq_lt(b, a)),
    decreases a.len(),
{
    if a.len() > 0 && b.len() > 0 && a[0] == b[0] {
        lemma_seq_lt_asym(a.drop_first(), b.drop_first());
    }
}

/// `seq_lt` is a strict total order.
pub proof fn lemma_seq_lt_order(a: Seq<char>, b: Seq<char>, c: Seq<char>)
    ensures
        !seq_lt(a, a),
        seq_lt(a, b) && seq_lt(b, c) ==> seq_lt(a, c),
        a == b || seq_lt(a, b) || seq_lt(b, a),
        !(seq_lt(a, b) && seq_lt(b, a)),
{
    lemma_seq_lt_irrefl(a);
    lemma_seq_lt_total(a, b);
    lemma_seq_lt_asym(a, b);
    if seq_lt(a, b) && seq_lt(b, c) {
        lemma_seq_lt_trans(a, b, c);
    }
}

/// Three-way comparison of character vectors in the order `seq_lt`.
pub fn compare_chars(a: &Vec<char>, b: &Vec<char>) -> (c: Comparison)
    ensures
        match c {
            Comparison::Less => seq_lt(a@, b@),
            Comparison::Equal => a@ == b@,
            Comparison::Greater => seq_lt(b@, a@),
        },
{
    let n = a.len();
    let m = b.len();
    let mut i: usize = 0;
    assert(a@.skip(0) =~= a@);
    assert(b@.skip(0) =~= b@);
    while i < n && i < m && a[i] == b[i]
        invariant
            i <= n == a@.len(),
            i <= m == b@.len(),
            a@.take(i as int) == b@.take(i as int),
            seq_lt(a@, b@) == seq_lt(a@.skip(i as int), b@.skip(i as int)),
            seq_lt(b@, a@) == seq_lt(b@.skip(i as int), a@.skip(i as int)),
        decreases n - i,
    {
        assert(a@.skip(i as int).drop_first() =~= a@.skip(i + 1));
        assert(b@.skip(i as int).drop_first() =~= b@.skip(i + 1));
        assert(a@.take(i + 1) =~= a@.take(i as int).push(a@[i as int]));
        assert(b@.take(i + 1) =~= b@.take(i as int).push(b@[i as int]));
        i = i + 1;
    }
    if i == n && i == m {
        assert(a@ =~= a@.take(i as int));
        assert(b@ =~= b@.take(i as int));
        Comparison::Equal
    } else if i == n {
        assert(a@.skip(i as int).len() == 0);
        Comparison::Less
    } else if i == m {
        assert(b@.skip(i as int).len() == 0);
        Comparison::Greater
    } else if a[i] < b[i] {
        assert(a@.skip(i as int)[0] == a@[i as int]);
        assert(b@.skip(i as int)[0] == b@[i as int]);
        assert(a@.skip(i as int).len() > 0 && b@.skip(i as int).len() > 0);
        Comparison::Less
    } else {
        assert(a@.skip(i as int)[0] == a@[i as int]);
        assert(b@.skip(i as int)[0] == b@[i as int]);
        assert(a@.skip(i as int).len() > 0 && b@.skip(i as int).len() > 0);
        Comparison::Greater
    }
}

/// Three-way comparison of strings (std's `Ord for String`).
pub fn compare_str(a: &str, b: &str) -> (c: Comparison)
    ensures
        match c {
            Comparison::Less => seq_lt(a@, b@),
            Comparison::Equal => a@ == b@,
            Comparison::Greater => seq_lt(b@, a@),
        },
{
    let x = chars_of(a);
    let y = chars_of(b);
    compare_chars(&x, &y)
}

/// Equality of string contents.
pub fn str_eq(a: &str, b: &str) -> (r: bool)
    ensures
        r == (a@ == b@),
{
    match compare_str(a, b) {
        Comparison::Equal => true,
        _ => {
            proof {
                lemma_seq_lt_order(a@, b@, b@);
            }
            false
        },
    }
}

/// A key type of a sorted collection: a strict total order on the key's view.
pub trait MapKey: View + Sized {
    spec fn key_lt(a: Self::V, b: Self::V) -> bool;

    proof fn lemma_key_order(a: Self::V, b: Self::V, c: Self::V)
        ensures
            !Self::key_lt(a, a),
            Self::key_lt(a, b) && Self::key_lt(b, c) ==> Self::key_lt(a, c),
            a == b || Self::key_lt(a, b) || Self::key_lt(b, a),
    ;

    fn compare(&self, other: &Self) -> (c: Comparison)
        ensures
            match c {
                Comparison::Less => Self::key_lt(self@, other@),
                Comparison::Equal => self@ == other@,
                Comparison::Greater => Self::key_lt(other@, self@),
            },
    ;

    fn copy_key(&self) -> (r: Self)
        ensures
            r@ == self@,
    ;
}

impl MapKey for String {
    open spec fn key_lt(a: Seq<char>, b: Seq<char>) -> bool {
        seq_lt(a, b)
    }

    proof fn lemma_key_order(a: Seq<char>, b: Seq<char>, c: Seq<char>) {
        lemma_seq_lt_order(a, b, c);
    }

    fn compare(&self, other: &Self) -> (c: Comparison) {
        compare_str(self.as_str(), other.as_str())
    }

    fn copy_key(&self) -> (r: Self) {
        self.clone()
    }
}

impl MapKey for usize {
    open spec fn key_lt(a: usize, b: usize) -> bool {
        a < b
    }

    proof fn lemma_key_order(a: usize, b: usize, c: usize) {
    }

    fn compare(&self, other: &Self) -> (c: Comparison) {
        if *self < *other {
            Comparison::Less
        } else if *self == *other {
            Comparison::Equal
        } else {
            Comparison::Greater
        }
    }

    fn copy_key(&self) -> (r: Self) {
        *self
    }
}

/// `v` is ascending in the order of `String`.
pub open spec fn ascending(v: Seq<Seq<char>>) -> bool {
    forall|i: int, j: int| 0 <= i < j < v.len() ==> !seq_lt(#[trigger] v[j], #[trigger] v[i])
}

/// Sorts texts ascending (`[String]::sort`): the same texts, each as often,
/// in the order of `String`.
pub fn sort_strings(v: Vec<String>) -> (r: Vec<String>)
    ensures
        ascending(string_views(r@)),
        string_views(r@).to_multiset() == string_views(v@).to_multiset(),
{
    let ghost sv = string_views(v@);
    let mut r: Vec<String> = Vec::new();
    let mut k: usize = 0;
    proof {
        assert(string_views(r@) =~= sv.take(0));
    }
    while k < v.len()
        invariant
            k <= v@.len(),
            sv == string_views(v@),
            ascending(string_views(r@)),
            string_views(r@).to_multiset() == sv.take(k as int).to_multiset(),
        decreases v.len() - k,
    {
        let x = v[k].as_str();
        let ghost rv = string_views(r@);
        let mut p: usize = 0;
        while p < r.len()
            invariant
                p <= r@.len(),
                rv == string_views(r@),
                forall|q: int| 0 <= q < p ==> !seq_lt(x@, #[trigger] rv[q]),
            ensures
                p <= r@.len(),
                forall|q: int| 0 <= q < p ==> !seq_lt(x@, #[trigger] rv[q]),
                p < r@.len() ==> seq_lt(x@, rv[p as int]),
            decreases r.len() - p,
        {
            assert(rv[p as int] == r@[p as int]@);
            if compare_str(x, r[p].as_str()) == Comparison::Less {
                break;
            }
            proof {
                lemma_seq_lt_order(x@, rv[p as int], x@);
            }
            p = p + 1;
        }
        r.insert(p, v[k].clone());
        proof {
            let nv = string_views(r@);
            assert(nv =~= rv.insert(p as int, x@));
            assert forall|i: int, j: int| 0 <= i < j < nv.len() implies !seq_lt(#[trigger] nv[j], #[trigger] nv[i]) by {
                if j < p {
                    assert(!seq_lt(rv[j], rv[i]));
                } else if j == p {
                    assert(!seq_lt(x@, rv[i]));
                } else if i < p {
                    assert(!seq_lt(x@, rv[i]));
                    assert(!seq_lt(rv[j - 1], x@)) by {
                        lemma_seq_lt_order(x@, rv[p as int], rv[j - 1]);
                        lemma_seq_lt_order(rv[j - 1], x@, rv[p as int]);
                        if j - 1 > p {
                            assert(!seq_lt(rv[j - 1], rv[p as int]));
                        }
                    }
                    lemma_seq_lt_order(rv[j - 1], x@, rv[i]);
                    lemma_seq_lt_order(rv[j - 1], rv[i], x@);
                    lemma_seq_lt_order(x@, rv[i], rv[j - 1]);
                } else if i == p {
                    lemma_seq_lt_order(rv[j - 1], x@, rv[p as int]);
                    lemma_seq_lt_order(x@, rv[p as int], rv[j - 1]);
                    if j - 1 > p {
                        assert(!seq_lt(rv[j - 1], rv[p as int]));
                    }
                    lemma_seq_lt_order(rv[j - 1], rv[p as int], x@);
                } else {
                    assert(!seq_lt(rv[j - 1], rv[i - 1]));
                }
            }
            to_multiset_insert(rv, p as int, x@);
            assert(sv.take(k + 1) =~= sv.take(k as int).push(x@));
            to_multiset_build(sv.take(k as int), x@);
        }
        k = k + 1;
    }
    assert(sv.take(v@.len() as int) =~= sv);
    r
}

} // verus!
