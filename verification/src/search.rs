//! The catalogue of land uses (Nutzungsarten) and searching it.

use vstd::prelude::*;
use crate::text::{chars_of, contains, contains_chars, copy_string};
use crate::collation::str_eq;
use crate::sorted_map::SortedMap;
use crate::seq_lemmas::lemma_filter_map_contains_iff;

verus! {

/// One land use of the catalogue.
#[derive(Debug, Clone, PartialEq, Eq, PartialOrd, Ord)]
pub struct NutzungsArt {
    pub atr: String,
    pub wia: String,
    pub nab: String,
    pub nak: String,
    pub bez: String,
    pub def: String,
    pub ken: String,
    pub oak: String,
    pub ehb: String,
}

pub struct NutzungsArtView {
    pub atr: Seq<char>,
    pub wia: Seq<char>,
    pub nab: Seq<char>,
    pub nak: Seq<char>,
    pub bez: Seq<char>,
    pub def: Seq<char>,
    pub ken: Seq<char>,
    pub oak: Seq<char>,
    pub ehb: Seq<char>,
}

impl View for NutzungsArt {
    type V = NutzungsArtView;

    open spec fn view(&self) -> NutzungsArtView {
        NutzungsArtView {
            atr: self.atr@,
            wia: self.wia@,
            nab: self.nab@,
            nak: self.nak@,
            bez: self.bez@,
            def: self.def@,
            ken: self.ken@,
            oak: self.oak@,
            ehb: self.ehb@,
        }
    }
}

impl NutzungsArt {
    pub fn copy(&self) -> (r: NutzungsArt)
        ensures
            r@ == self@,
    {
        NutzungsArt {
            atr: copy_string(&self.atr),
            wia: copy_string(&self.wia),
            nab: copy_string(&self.nab),
            nak: copy_string(&self.nak),
            bez: copy_string(&self.bez),
            def: copy_string(&self.def),
            ken: copy_string(&self.ken),
            oak: copy_string(&self.oak),
            ehb: copy_string(&self.ehb),
        }
    }
}

/// The catalogue, by abbreviation (Kürzel).
pub type NutzungsArtMap = SortedMap<String, NutzungsArt>;

/// What `str::to_lowercase` gives for a text.
pub uninterp spec fn lowercase(s: Seq<char>) -> Seq<char>;

/// Calls std's `str::to_lowercase`, whose result is a function of the text
/// alone (Unicode's lowercase mapping); the contract names that result.
#[verifier::external_body]
pub fn to_lowercase(s: &str) -> (r: String)
    ensures
        r@ == lowercase(s@),
{
    s.to_lowercase()
}

pub type Hit = (Seq<char>, NutzungsArtView);

/// An entry's abbreviation, name, definition and explanation, in lowercase.
pub type Lowered = (Seq<char>, Seq<char>, Seq<char>, Seq<char>);

/// Some of the lowercase texts contains the (lowercase) term.
pub open spec fn lowered_hit(l: Lowered, s: Seq<char>) -> bool {
    ||| contains(l.0, s)
    ||| contains(l.1, s)
    ||| contains(l.2, s)
    ||| contains(l.3, s)
}

/// The texts of an entry that the search compares, in lowercase.
pub open spec fn lowered_entry(e: Hit) -> Lowered {
    (lowercase(e.0), lowercase(e.1.bez), lowercase(e.1.def), lowercase(e.1.ehb))
}

pub open spec fn catalogue_view(m: NutzungsArtMap) -> Seq<Hit> {
    m.kv().map_values(|e: (Seq<char>, NutzungsArt)| (e.0, e.1@))
}

/// The entries paired with their lowercase texts.
pub open spec fn with_lowered(cat: Seq<Hit>, low: Seq<Lowered>) -> Seq<(Hit, Lowered)> {
    Seq::new(cat.len(), |i: int| (cat[i], low[i]))
}

/// The entries whose lowercase abbreviation is the lowercase term `s`, then
/// all entries with a lowercase text that contains it, each in catalogue
/// order; `low` holds the lowercase texts of the entries.
pub open spec fn spec_search_lowered(cat: Seq<Hit>, low: Seq<Lowered>, s: Seq<char>) -> Seq<Hit> {
    with_lowered(cat, low).filter_map(keep_direct(s)) + with_lowered(cat, low).filter_map(keep_hit(s))
}

/// Keeps an entry whose lowercase abbreviation is the term.
pub open spec fn keep_direct(s: Seq<char>) -> spec_fn((Hit, Lowered)) -> Option<Hit> {
    |e: (Hit, Lowered)| if e.1.0 == s { Some(e.0) } else { None }
}

/// Keeps an entry with a lowercase text that contains the term.
pub open spec fn keep_hit(s: Seq<char>) -> spec_fn((Hit, Lowered)) -> Option<Hit> {
    |e: (Hit, Lowered)| if lowered_hit(e.1, s) { Some(e.0) } else { None }
}

/// The search of the catalogue for a term, all texts compared in lowercase.
pub open spec fn spec_search_map(cat: Seq<Hit>, term: Seq<char>) -> Seq<Hit> {
    spec_search_lowered(cat, cat.map_values(|e: Hit| lowered_entry(e)), lowercase(term))
}

pub open spec fn hit_views(v: Seq<(String, NutzungsArt)>) -> Seq<Hit> {
    v.map_values(|e: (String, NutzungsArt)| (e.0@, e.1@))
}

pub open spec fn lowered_views(v: Seq<(String, String, String, String)>) -> Seq<Lowered> {
    v.map_values(|e: (String, String, String, String)| (e.0@, e.1@, e.2@, e.3@))
}

/// Searches the catalogue given the lowercase texts of its entries
/// (abbreviation, name, definition, explanation) and the lowercase term.
pub fn search_lowered(
    map: &NutzungsArtMap,
    lowered: &Vec<(String, String, String, String)>,
    term_lower: &str,
) -> (r: Vec<(String, NutzungsArt)>)
    requires
        lowered@.len() == map.kv().len(),
    ensures
        hit_views(r@) == spec_search_lowered(catalogue_view(*map), lowered_views(lowered@), term_lower@),
{
    let ghost cat = catalogue_view(*map);
    let ghost low = lowered_views(lowered@);
    let ghost w = with_lowered(cat, low);
    let sc = chars_of(term_lower);
    let ghost fd = keep_direct(term_lower@);
    let ghost fh = keep_hit(term_lower@);
    let mut direct: Vec<(String, NutzungsArt)> = Vec::new();
    let mut target: Vec<(String, NutzungsArt)> = Vec::new();
    let mut i: usize = 0;
    while i < map.len()
        invariant
            i <= cat.len(),
            cat == catalogue_view(*map),
            low == lowered_views(lowered@),
            low.len() == cat.len(),
            w == with_lowered(cat, low),
            sc@ == term_lower@,
            fd == keep_direct(term_lower@),
            fh == keep_hit(term_lower@),
            hit_views(direct@) == w.take(i as int).filter_map(fd),
            hit_views(target@) == w.take(i as int).filter_map(fh),
        decreases cat.len() - i,
    {
        proof {
            w.lemma_filter_map_take_succ(fd, i as int);
            w.lemma_filter_map_take_succ(fh, i as int);
        }
        let k = map.key_at(i);
        let v = map.value_at(i);
        let l = &lowered[i];
        assert(cat[i as int] == (k@, v@));
        assert(low[i as int] == (l.0@, l.1@, l.2@, l.3@));
        assert(w[i as int] == (cat[i as int], low[i as int]));
        let hit = contains_chars(&chars_of(l.0.as_str()), &sc) || contains_chars(
            &chars_of(l.1.as_str()),
            &sc,
        ) || contains_chars(&chars_of(l.2.as_str()), &sc) || contains_chars(
            &chars_of(l.3.as_str()),
            &sc,
        );
        if hit {
            let ghost before = target@;
            target.push((copy_string(k), v.copy()));
            assert(hit_views(target@) =~= hit_views(before).push(cat[i as int]));
        }
        if str_eq(l.0.as_str(), term_lower) {
            let ghost before = direct@;
            direct.push((copy_string(k), v.copy()));
            assert(hit_views(direct@) =~= hit_views(before).push(cat[i as int]));
        }
        i = i + 1;
    }
    assert(w.take(cat.len() as int) =~= w);
    let ghost d0 = hit_views(direct@);
    let mut j: usize = 0;
    while j < target.len()
        invariant
            j <= target@.len(),
            hit_views(direct@) == d0 + hit_views(target@).take(j as int),
        decreases target.len() - j,
    {
        let e = (copy_string(&target[j].0), target[j].1.copy());
        let ghost before = direct@;
        direct.push(e);
        assert(hit_views(direct@) =~= hit_views(before).push(hit_views(target@)[j as int]));
        assert(hit_views(target@).take(j + 1) =~= hit_views(target@).take(j as int).push(
            hit_views(target@)[j as int],
        ));
        j = j + 1;
    }
    assert(hit_views(target@).take(target@.len() as int) =~= hit_views(target@));
    direct
}

/// Searches the catalogue for a term: first the entries whose abbreviation
/// is the term, then all whose abbreviation, name, definition or
/// explanation contains it, all compared in lowercase.
pub fn search_map(map: &NutzungsArtMap, term: &str) -> (r: Vec<(String, NutzungsArt)>)
    ensures
        hit_views(r@) == spec_search_map(catalogue_view(*map), term@),
{
    let ghost cat = catalogue_view(*map);
    let mut lowered: Vec<(String, String, String, String)> = Vec::new();
    let mut i: usize = 0;
    while i < map.len()
        invariant
            i <= cat.len(),
            cat == catalogue_view(*map),
            lowered_views(lowered@) == cat.take(i as int).map_values(|e: Hit| lowered_entry(e)),
        decreases cat.len() - i,
    {
        let k = map.key_at(i);
        let v = map.value_at(i);
        assert(cat[i as int] == (k@, v@));
        let l = (
            to_lowercase(k.as_str()),
            to_lowercase(v.bez.as_str()),
            to_lowercase(v.def.as_str()),
            to_lowercase(v.ehb.as_str()),
        );
        let ghost before = lowered@;
        lowered.push(l);
        assert(lowered_views(lowered@) =~= lowered_views(before).push(lowered_entry(cat[i as int])));
        assert(cat.take(i + 1).map_values(|e: Hit| lowered_entry(e)) =~= cat.take(i as int).map_values(
            |e: Hit| lowered_entry(e),
        ).push(lowered_entry(cat[i as int])));
        i = i + 1;
    }
    assert(cat.take(cat.len() as int) =~= cat);
    let s = to_lowercase(term);
    search_lowered(map, &lowered, s.as_str())
}


/// An entry is a hit of the search with lowercase texts `low` and term `s`
/// exactly when its lowercase abbreviation is the term, or its lowercase
/// abbreviation, name (Bezeichnung), definition or explanation contains
/// the term.
pub proof fn lemma_search_lowered_hits(cat: Seq<Hit>, low: Seq<Lowered>, s: Seq<char>, h: Hit)
    requires
        low.len() == cat.len(),
    ensures
        spec_search_lowered(cat, low, s).contains(h) <==> exists|i: int|
            0 <= i < cat.len() && cat[i] == h && (low[i].0 == s || contains(low[i].0, s) || contains(
                low[i].1,
                s,
            ) || contains(low[i].2, s) || contains(low[i].3, s)),
{
    let w = with_lowered(cat, low);
    let fd = keep_direct(s);
    let fh = keep_hit(s);
    lemma_filter_map_contains_iff(w, fd, h);
    lemma_filter_map_contains_iff(w, fh, h);
    let a = w.filter_map(fd);
    let b = w.filter_map(fh);
    assert(spec_search_lowered(cat, low, s) == a + b);
    if (a + b).contains(h) {
        let k = choose|k: int| 0 <= k < (a + b).len() && (a + b)[k] == h;
        if k < a.len() {
            assert(a[k] == h);
            assert(a.contains(h));
            let i = choose|i: int| 0 <= i < w.len() && fd(w[i]) == Some(h);
            assert(w[i] == (cat[i], low[i]));
        } else {
            assert(b[k - a.len()] == h);
            assert(b.contains(h));
            let i = choose|i: int| 0 <= i < w.len() && fh(w[i]) == Some(h);
            assert(w[i] == (cat[i], low[i]));
        }
    }
    if exists|i: int|
        0 <= i < cat.len() && cat[i] == h && (low[i].0 == s || contains(low[i].0, s) || contains(
            low[i].1,
            s,
        ) || contains(low[i].2, s) || contains(low[i].3, s)) {
        let i = choose|i: int|
            0 <= i < cat.len() && cat[i] == h && (low[i].0 == s || contains(low[i].0, s) || contains(
                low[i].1,
                s,
            ) || contains(low[i].2, s) || contains(low[i].3, s));
        assert(w[i] == (cat[i], low[i]));
        if low[i].0 == s {
            assert(fd(w[i]) == Some(h));
            assert(a.contains(h));
            let k = choose|k: int| 0 <= k < a.len() && a[k] == h;
            assert((a + b)[k] == h);
        } else {
            assert(fh(w[i]) == Some(h));
            assert(b.contains(h));
            let k = choose|k: int| 0 <= k < b.len() && b[k] == h;
            assert((a + b)[a.len() + k] == h);
        }
    }
}

/// An entry of the catalogue is a hit of the search for `term` exactly
/// when, all in lowercase, its abbreviation is the term, or its
/// abbreviation, name (Bezeichnung), definition or explanation contains
/// the term.
pub proof fn lemma_search_map_hits(cat: Seq<Hit>, term: Seq<char>, h: Hit)
    ensures
        spec_search_map(cat, term).contains(h) <==> exists|i: int|
            0 <= i < cat.len() && cat[i] == h && (lowercase(h.0) == lowercase(term) || contains(
                lowercase(h.0),
                lowercase(term),
            ) || contains(lowercase(h.1.bez), lowercase(term)) || contains(
                lowercase(h.1.def),
                lowercase(term),
            ) || contains(lowercase(h.1.ehb), lowercase(term))),
{
    let low = cat.map_values(|e: Hit| lowered_entry(e));
    lemma_search_lowered_hits(cat, low, lowercase(term), h);
}


/// An entry whose lowercase abbreviation is the term is found, and before
/// its first place among the hits only entries whose lowercase abbreviation
/// is the term stand: exact abbreviations come first.
pub proof fn lemma_exact_abbreviation_first(cat: Seq<Hit>, low: Seq<Lowered>, s: Seq<char>, i: int)
    requires
        low.len() == cat.len(),
        0 <= i < cat.len(),
        low[i].0 == s,
    ensures
        exists|j: int|
            0 <= j < spec_search_lowered(cat, low, s).len() && spec_search_lowered(cat, low, s)[j] == cat[i]
                && forall|m: int|
                0 <= m < j ==> exists|q: int|
                    0 <= q < cat.len() && cat[q] == #[trigger] spec_search_lowered(cat, low, s)[m] && low[q].0 == s,
{
    let w = with_lowered(cat, low);
    let fd = keep_direct(s);
    let a = w.filter_map(fd);
    let b = w.filter_map(keep_hit(s));
    let r = spec_search_lowered(cat, low, s);
    assert(r == a + b);
    assert(w[i] == (cat[i], low[i]));
    lemma_filter_map_contains_iff(w, fd, cat[i]);
    assert(fd(w[i]) == Some(cat[i]));
    let j = choose|j: int| 0 <= j < a.len() && a[j] == cat[i];
    assert(r[j] == cat[i]);
    assert forall|m: int| 0 <= m < j implies exists|q: int|
        0 <= q < cat.len() && cat[q] == #[trigger] r[m] && low[q].0 == s by {
        assert(r[m] == a[m]);
        assert(a.contains(a[m]));
        lemma_filter_map_contains_iff(w, fd, a[m]);
        let q = choose|q: int| 0 <= q < w.len() && fd(w[q]) == Some(a[m]);
        assert(w[q] == (cat[q], low[q]));
    }
}

} // verus!
