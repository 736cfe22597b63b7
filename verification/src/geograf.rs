//! Owners of parcels, the Flur lists of a project, and the texts of the
//! survey sheet's header.

use vstd::prelude::*;
use std::cmp::Ordering;
use crate::text::{
    chars_of, contains, contains_chars, copy_string, dec, join, join_strings, push_all, push_str,
    replace, replace_str, split, split_str, string_from_chars, string_views, to_string, trim,
    trim_str, usize_to_chars, usize_to_string,
};
use crate::collation::{seq_lt, lemma_seq_lt_order, compare_str, str_eq, Comparison, ascending, sort_strings};
use crate::search::NutzungsArtMap;
use crate::ui::{AenderungenIntersection, AenderungenIntersections, is_auto_notiz, spec_auto_status, lists_sorted, lemma_push_contains};
use crate::csv::{DatensatzView, OldView, CsvDatensatz, datensaetze_view, old_view, spec_old_fallback};
use crate::csv::Status;
use crate::xlsx::{FlstIdParsedNumber, spec_format_with};
use crate::sorted_map::{SortedMap, lookup, key_index, keys_sorted, key_views, strictly_sorted, sorted_distinct, lemma_key_index_unique};
use crate::xlsx::of_flur;
use crate::xlsx::{FlstIdParsed, parse_key, spec_flst_from_str, spec_parse_num};
use crate::nas::{SplitNasXml, TaggedPolygon};
use crate::csv::{CsvDataType, data_keys};
use crate::first_parsed;

verus! {

/// An owner as read from the owner column.
#[derive(Debug, Clone, PartialEq, Eq)]
pub enum EigentuemerClean {
    Herr { vorname: String, nachname: String },
    Frau { vorname: String, nachname: String },
    Firma { name: String },
    Sonstige { name: String },
}

pub enum EigentuemerView {
    Herr(Seq<char>, Seq<char>),
    Frau(Seq<char>, Seq<char>),
    Firma(Seq<char>),
    Sonstige(Seq<char>),
}

impl View for EigentuemerClean {
    type V = EigentuemerView;

    open spec fn view(&self) -> EigentuemerView {
        match self {
            EigentuemerClean::Herr { vorname, nachname } => EigentuemerView::Herr(vorname@, nachname@),
            EigentuemerClean::Frau { vorname, nachname } => EigentuemerView::Frau(vorname@, nachname@),
            EigentuemerClean::Firma { name } => EigentuemerView::Firma(name@),
            EigentuemerClean::Sonstige { name } => EigentuemerView::Sonstige(name@),
        }
    }
}

/// Companies first, then others, then persons.
pub open spec fn eig_rank(e: EigentuemerView) -> nat {
    match e {
        EigentuemerView::Firma(_) => 0,
        EigentuemerView::Sonstige(_) => 1,
        EigentuemerView::Herr(_, _) => 2,
        EigentuemerView::Frau(_, _) => 2,
    }
}

/// What owners of one rank are compared by: a person's full name, else the name.
pub open spec fn eig_key(e: EigentuemerView) -> Seq<char> {
    match e {
        EigentuemerView::Herr(v, n) => v + " "@ + n,
        EigentuemerView::Frau(v, n) => v + " "@ + n,
        EigentuemerView::Firma(n) => n,
        EigentuemerView::Sonstige(n) => n,
    }
}

/// `a` sorts before `b`: by rank, then by key.
pub open spec fn eig_lt(a: EigentuemerView, b: EigentuemerView) -> bool {
    eig_rank(a) < eig_rank(b) || (eig_rank(a) == eig_rank(b) && seq_lt(eig_key(a), eig_key(b)))
}

/// `a` and `b` sort alike.
pub open spec fn eig_equiv(a: EigentuemerView, b: EigentuemerView) -> bool {
    eig_rank(a) == eig_rank(b) && eig_key(a) == eig_key(b)
}

/// The order of owners is a total preorder: of two owners exactly one sorts
/// first or they sort alike.
pub proof fn lemma_eigentuemer_order_total(a: EigentuemerView, b: EigentuemerView)
    ensures
        eig_lt(a, b) || eig_lt(b, a) || eig_equiv(a, b),
        !(eig_lt(a, b) && eig_lt(b, a)),
        !(eig_lt(a, b) && eig_equiv(a, b)),
        eig_equiv(a, b) == eig_equiv(b, a),
{
    lemma_seq_lt_order(eig_key(a), eig_key(b), eig_key(a));
    lemma_seq_lt_order(eig_key(b), eig_key(a), eig_key(b));
}

/// The order of owners is transitive.
pub proof fn lemma_eigentuemer_order_transitive(
    a: EigentuemerView,
    b: EigentuemerView,
    c: EigentuemerView,
)
    requires
        eig_lt(a, b),
        eig_lt(b, c),
    ensures
        eig_lt(a, c),
{
    lemma_seq_lt_order(eig_key(a), eig_key(b), eig_key(c));
}

pub open spec fn spec_eig_format(e: EigentuemerView) -> Seq<char> {
    match e {
        EigentuemerView::Herr(v, n) => v + " "@ + n,
        EigentuemerView::Frau(v, n) => v + " "@ + n,
        EigentuemerView::Firma(n) => trim(n),
        EigentuemerView::Sonstige(n) => trim(n),
    }
}

/// The comma-separated parts of the text, each trimmed.
pub open spec fn comma_parts(s: Seq<char>) -> Seq<Seq<char>> {
    split(s, ","@).map_values(|q: Seq<char>| trim(q))
}

pub open spec fn any_contains(ps: Seq<Seq<char>>, w: Seq<char>) -> bool {
    exists|i: int| 0 <= i < ps.len() && contains(#[trigger] ps[i], w)
}

/// Part `i` without the marker, trimmed; empty where there is no part `i`.
pub open spec fn part_without(ps: Seq<Seq<char>>, i: int, marker: Seq<char>) -> Seq<char> {
    if i < ps.len() {
        trim(replace(ps[i], marker, ""@))
    } else {
        Seq::empty()
    }
}

/// `Nachname, Vorname (Herr)` gives a person, as does `(Frau)` (also read as
/// `Herr`); `(Firma)` a company; anything else stays as it is, trimmed.
pub open spec fn spec_eig_from_str(s: Seq<char>) -> EigentuemerView {
    let ps = comma_parts(s);
    if any_contains(ps, "Herr"@) {
        EigentuemerView::Herr(part_without(ps, 1, "(Herr)"@), part_without(ps, 0, "(Herr)"@))
    } else if any_contains(ps, "Frau"@) {
        EigentuemerView::Herr(part_without(ps, 1, "(Frau)"@), part_without(ps, 0, "(Frau)"@))
    } else if any_contains(ps, "Firma"@) {
        EigentuemerView::Firma(trim(replace(s, "(Firma)"@, ""@)))
    } else {
        EigentuemerView::Sonstige(trim(s))
    }
}

fn any_contains_exec(ps: &Vec<String>, w: &str) -> (r: bool)
    ensures
        r == any_contains(string_views(ps@), w@),
{
    let wc = chars_of(w);
    let mut i: usize = 0;
    while i < ps.len()
        invariant
            i <= ps@.len(),
            wc@ == w@,
            forall|j: int| 0 <= j < i ==> !contains(#[trigger] string_views(ps@)[j], w@),
        decreases ps.len() - i,
    {
        let pc = chars_of(ps[i].as_str());
        if contains_chars(&pc, &wc) {
            assert(string_views(ps@)[i as int] == ps@[i as int]@);
            return true;
        }
        assert(string_views(ps@)[i as int] == ps@[i as int]@);
        i = i + 1;
    }
    false
}

fn part_without_exec(ps: &Vec<String>, i: usize, marker: &str) -> (r: String)
    ensures
        r@ == part_without(string_views(ps@), i as int, marker@),
{
    if i < ps.len() {
        let x = replace_str(ps[i].as_str(), marker, "");
        trim_str(x.as_str())
    } else {
        String::new()
    }
}

impl EigentuemerClean {
    /// Companies, then others, then persons; within a rank by name.
    pub fn order(&self, other: &Self) -> (r: Ordering)
        ensures
            (r is Less) == eig_lt(self@, other@),
            (r is Greater) == eig_lt(other@, self@),
            (r is Equal) == eig_equiv(self@, other@),
    {
        proof {
            lemma_eigentuemer_order_total(self@, other@);
        }
        let ra = self.rank();
        let rb = other.rank();
        if ra < rb {
            return Ordering::Less;
        }
        if rb < ra {
            return Ordering::Greater;
        }
        let ka = self.sort_key();
        let kb = other.sort_key();
        match compare_str(ka.as_str(), kb.as_str()) {
            Comparison::Less => Ordering::Less,
            Comparison::Equal => Ordering::Equal,
            Comparison::Greater => Ordering::Greater,
        }
    }

    fn sort_key(&self) -> (r: String)
        ensures
            r@ == eig_key(self@),
    {
        match self {
            EigentuemerClean::Herr { vorname, nachname } | EigentuemerClean::Frau {
                vorname,
                nachname,
            } => {
                let mut v = chars_of(vorname.as_str());
                push_str(&mut v, " ");
                push_str(&mut v, nachname.as_str());
                string_from_chars(v.as_slice())
            },
            EigentuemerClean::Firma { name } => copy_string(name),
            EigentuemerClean::Sonstige { name } => copy_string(name),
        }
    }

    /// A copy of the owner.
    pub fn copy(&self) -> (r: Self)
        ensures
            r@ == self@,
    {
        match self {
            EigentuemerClean::Herr { vorname, nachname } => EigentuemerClean::Herr {
                vorname: copy_string(vorname),
                nachname: copy_string(nachname),
            },
            EigentuemerClean::Frau { vorname, nachname } => EigentuemerClean::Frau {
                vorname: copy_string(vorname),
                nachname: copy_string(nachname),
            },
            EigentuemerClean::Firma { name } => EigentuemerClean::Firma { name: copy_string(name) },
            EigentuemerClean::Sonstige { name } => EigentuemerClean::Sonstige { name: copy_string(name) },
        }
    }

    /// Companies 0, others 1, persons 2.
    pub fn rank(&self) -> (r: usize)
        ensures
            r == eig_rank(self@),
    {
        match self {
            EigentuemerClean::Firma { name: _ } => 0,
            EigentuemerClean::Sonstige { name: _ } => 1,
            EigentuemerClean::Herr { .. } | EigentuemerClean::Frau { .. } => 2,
        }
    }

    /// `Vorname Nachname`, or the trimmed name.
    pub fn format(&self) -> (r: String)
        ensures
            r@ == spec_eig_format(self@),
    {
        match self {
            EigentuemerClean::Herr { vorname, nachname } | EigentuemerClean::Frau {
                vorname,
                nachname,
            } => {
                let mut v = chars_of(vorname.as_str());
                push_str(&mut v, " ");
                push_str(&mut v, nachname.as_str());
                string_from_chars(v.as_slice())
            },
            EigentuemerClean::Firma { name } => trim_str(name.as_str()),
            EigentuemerClean::Sonstige { name } => trim_str(name.as_str()),
        }
    }

    /// Reads an entry of the owner column.
    pub fn from_str(s: &str) -> (r: Self)
        ensures
            r@ == spec_eig_from_str(s@),
    {
        let raw = split_str(s, ",");
        let mut ps: Vec<String> = Vec::new();
        let mut i: usize = 0;
        while i < raw.len()
            invariant
                i <= raw@.len(),
                string_views(raw@) == split(s@, ","@),
                string_views(ps@) == split(s@, ","@).take(i as int).map_values(
                    |q: Seq<char>| trim(q),
                ),
            decreases raw.len() - i,
        {
            let t = trim_str(raw[i].as_str());
            let ghost before = ps@;
            ps.push(t);
            assert(string_views(ps@) =~= string_views(before).push(t@));
            assert(split(s@, ","@).take(i + 1).map_values(|q: Seq<char>| trim(q)) =~= split(
                s@,
                ","@,
            ).take(i as int).map_values(|q: Seq<char>| trim(q)).push(trim(raw@[i as int]@)));
            i = i + 1;
        }
        assert(split(s@, ","@).take(raw@.len() as int) =~= split(s@, ","@));
        if any_contains_exec(&ps, "Herr") {
            let vorname = part_without_exec(&ps, 1, "(Herr)");
            let nachname = part_without_exec(&ps, 0, "(Herr)");
            EigentuemerClean::Herr { vorname, nachname }
        } else if any_contains_exec(&ps, "Frau") {
            let vorname = part_without_exec(&ps, 1, "(Frau)");
            let nachname = part_without_exec(&ps, 0, "(Frau)");
            EigentuemerClean::Herr { vorname, nachname }
        } else if any_contains_exec(&ps, "Firma") {
            let x = replace_str(s, "(Firma)", "");
            EigentuemerClean::Firma { name: trim_str(x.as_str()) }
        } else {
            EigentuemerClean::Sonstige { name: trim_str(s) }
        }
    }
}


/// A parcel's use, status, owners and notes.
#[derive(Debug, Clone)]
pub struct FlstEigentuemer {
    pub nutzung: String,
    pub status: Status,
    pub eigentuemer: Vec<EigentuemerClean>,
    pub notiz: String,
    pub auto_notiz: String,
}

/// Nothing, the one Flur, or `first - last`.
pub open spec fn spec_format_fluren(fl: Seq<Seq<char>>) -> Seq<char> {
    if fl.len() == 0 {
        Seq::empty()
    } else if fl.len() == 1 {
        fl[0]
    } else {
        fl[0] + " - "@ + fl.last()
    }
}

pub fn format_fluren(fl: &[String]) -> (r: String)
    ensures
        r@ == spec_format_fluren(string_views(fl@)),
{
    if fl.len() == 0 {
        String::new()
    } else if fl.len() == 1 {
        copy_string(&fl[0])
    } else {
        let mut v = chars_of(fl[0].as_str());
        push_str(&mut v, " - ");
        push_str(&mut v, fl[fl.len() - 1].as_str());
        string_from_chars(v.as_slice())
    }
}

/// The maximal runs of consecutive numbers in an increasing sequence.
pub open spec fn runs(v: Seq<usize>) -> Seq<(usize, usize)>
    decreases v.len(),
{
    if v.len() == 0 {
        Seq::empty()
    } else {
        let r = runs(v.drop_last());
        if r.len() > 0 && r.last().1 + 1 == v.last() {
            r.update(r.len() - 1, (r.last().0, v.last()))
        } else {
            r.push((v.last(), v.last()))
        }
    }
}

/// `a` or `a - b`.
pub open spec fn render_run(r: (usize, usize)) -> Seq<char> {
    if r.0 == r.1 {
        dec(r.0 as nat)
    } else {
        dec(r.0 as nat) + " - "@ + dec(r.1 as nat)
    }
}

pub open spec fn render_runs(v: Seq<usize>) -> Seq<char> {
    join(runs(v).map_values(|r: (usize, usize)| render_run(r)), ", "@)
}

/// The distinct elements of `v`, ascending.
pub open spec fn is_sorted_set_of(w: Seq<usize>, v: Seq<usize>) -> bool {
    &&& forall|i: int, j: int| 0 <= i < j < w.len() ==> #[trigger] w[i] < #[trigger] w[j]
    &&& forall|x: usize| w.contains(x) <==> v.contains(x)
}

proof fn lemma_usize_views(v: Seq<usize>)
    ensures
        key_views(v) == v,
{
    assert(key_views(v) =~= v);
}

/// The Flur numbers as ranges, e.g. `1 - 3, 5`; `None` for no Flur.
pub fn join_fluren(v: &[usize]) -> (r: Option<String>)
    ensures
        v@.len() == 0 <==> r is None,
        r matches Some(s) ==> exists|w: Seq<usize>| is_sorted_set_of(w, v@) && s@ == render_runs(w),
{
    let mut vv: Vec<usize> = Vec::new();
    let mut i: usize = 0;
    while i < v.len()
        invariant
            i <= v@.len(),
            vv@ == v@.take(i as int),
        decreases v.len() - i,
    {
        vv.push(v[i]);
        i = i + 1;
        assert(vv@ =~= v@.take(i as int));
    }
    assert(v@.take(v@.len() as int) =~= v@);
    let w = sorted_distinct(&vv);
    proof {
        lemma_usize_views(w@);
        lemma_usize_views(vv@);
    }
    if w.len() == 0 {
        if v.len() > 0 {
            assert(v@.contains(v@[0]));
            assert(w@.contains(v@[0]));
        }
        return None;
    }
    let mut rs: Vec<(usize, usize)> = Vec::new();
    let mut k: usize = 0;
    while k < w.len()
        invariant
            k <= w@.len(),
            strictly_sorted::<usize>(key_views(w@)),
            key_views(w@) == w@,
            rs@ == runs(w@.take(k as int)),
            k > 0 ==> rs@.len() > 0 && rs@.last().1 == w@[k - 1],
        decreases w.len() - k,
    {
        let x = w[k];
        assert(w@.take(k + 1).drop_last() =~= w@.take(k as int));
        let n = rs.len();
        if n > 0 && rs[n - 1].1 < x && rs[n - 1].1 + 1 == x {
            let first = rs[n - 1].0;
            rs.set(n - 1, (first, x));
        } else {
            rs.push((x, x));
        }
        k = k + 1;
    }
    assert(w@.take(w@.len() as int) =~= w@);
    let mut parts: Vec<String> = Vec::new();
    let mut j: usize = 0;
    while j < rs.len()
        invariant
            j <= rs@.len(),
            string_views(parts@) == rs@.take(j as int).map_values(|r: (usize, usize)| render_run(r)),
        decreases rs.len() - j,
    {
        let (a, b) = rs[j];
        let s = if a == b {
            usize_to_string(a)
        } else {
            let mut c = usize_to_chars(a);
            push_str(&mut c, " - ");
            push_all(&mut c, &usize_to_chars(b));
            string_from_chars(c.as_slice())
        };
        let ghost before = parts@;
        parts.push(s);
        assert(string_views(parts@) =~= string_views(before).push(render_run(rs@[j as int])));
        assert(rs@.take(j + 1).map_values(|r: (usize, usize)| render_run(r)) =~= rs@.take(
            j as int,
        ).map_values(|r: (usize, usize)| render_run(r)).push(render_run(rs@[j as int])));
        j = j + 1;
    }
    assert(rs@.take(rs@.len() as int) =~= rs@);
    let r = join_strings(&parts, ", ");
    assert(is_sorted_set_of(w@, v@));
    assert(r@ == render_runs(w@));
    assert(w@.contains(w@[0]));
    assert(v@.contains(w@[0]));
    Some(r)
}

/// The runs of a list: positions `(first, last)` of maximal stretches in
/// which each key is one more than the one before.
pub open spec fn index_runs(keys: Seq<usize>) -> Seq<(int, int)>
    decreases keys.len(),
{
    if keys.len() == 0 {
        Seq::empty()
    } else {
        let r = index_runs(keys.drop_last());
        let n = keys.len() - 1;
        if r.len() > 0 && keys[n - 1] + 1 == keys[n] {
            r.update(r.len() - 1, (r.last().0, n))
        } else {
            r.push((n, n))
        }
    }
}

/// A run by the labels of its ends: the label where both ends read alike,
/// else `first - last`.
pub open spec fn render_label_run(labels: Seq<Seq<char>>, r: (int, int)) -> Seq<char> {
    if labels[r.0] == labels[r.1] {
        trim(labels[r.0])
    } else {
        labels[r.0] + " - "@ + labels[r.1]
    }
}

pub open spec fn flst_labels(v: Seq<FlstIdParsedNumber>) -> Seq<Seq<char>> {
    v.map_values(|f: FlstIdParsedNumber| spec_format_with(f, "/"@))
}

/// The parcels of a Flur as ranges, e.g. `1 - 3, 5/2`: `keys[i]` is the
/// whole-number part of parcel `i`, and parcels whose whole-number parts
/// follow one another form a range. One parcel is given as it is.
pub open spec fn spec_join_flst(v: Seq<FlstIdParsedNumber>, keys: Seq<usize>) -> Seq<char> {
    if v.len() == 1 {
        flst_labels(v)[0]
    } else {
        join(
            index_runs(keys).map_values(|r: (int, int)| render_label_run(flst_labels(v), r)),
            ", "@,
        )
    }
}

proof fn lemma_index_runs_shape(keys: Seq<usize>)
    ensures
        keys.len() > 0 ==> index_runs(keys).len() > 0 && index_runs(keys).last().1 == keys.len() - 1,
        forall|j: int|
            0 <= j < index_runs(keys).len() ==> 0 <= (#[trigger] index_runs(keys)[j]).0
                <= index_runs(keys)[j].1 < keys.len(),
    decreases keys.len(),
{
    if keys.len() > 0 {
        let d = keys.drop_last();
        lemma_index_runs_shape(d);
        let r = index_runs(d);
        let n = keys.len() - 1;
        let out = index_runs(keys);
        assert forall|j: int| 0 <= j < out.len() implies 0 <= (#[trigger] out[j]).0 <= out[j].1
            < keys.len() by {
            if j < r.len() && !(r.len() > 0 && keys[n - 1] + 1 == keys[n] && j == r.len() - 1) {
                assert(out[j] == r[j]);
            }
        }
    }
}

/// Joins the parcels of one Flur, given in their order and with the
/// whole-number part of each, as ranges; `None` for no parcel.
pub fn join_flst_sorted(v: &[FlstIdParsedNumber], keys: &[usize]) -> (r: Option<String>)
    requires
        v@.len() == keys@.len(),
    ensures
        v@.len() == 0 <==> r is None,
        r matches Some(s) ==> s@ == spec_join_flst(v@, keys@),
{
    if v.len() == 0 {
        return None;
    }
    if v.len() == 1 {
        return Some(v[0].format_str());
    }
    let mut labels: Vec<String> = Vec::new();
    let mut i: usize = 0;
    while i < v.len()
        invariant
            i <= v@.len(),
            string_views(labels@) == flst_labels(v@).take(i as int),
        decreases v.len() - i,
    {
        let s = v[i].format_str();
        let ghost before = labels@;
        labels.push(s);
        assert(string_views(labels@) =~= string_views(before).push(s@));
        assert(flst_labels(v@).take(i + 1) =~= flst_labels(v@).take(i as int).push(s@));
        i = i + 1;
    }
    assert(flst_labels(v@).take(v@.len() as int) =~= flst_labels(v@));
    let ghost lv = flst_labels(v@);
    let mut rs: Vec<(usize, usize)> = Vec::new();
    let mut k: usize = 0;
    while k < keys.len()
        invariant
            k <= keys@.len(),
            rs@.map_values(|r: (usize, usize)| (r.0 as int, r.1 as int)) == index_runs(keys@.take(k as int)),
        decreases keys.len() - k,
    {
        proof {
            lemma_index_runs_shape(keys@.take(k as int));
            assert(keys@.take(k + 1).drop_last() =~= keys@.take(k as int));
        }
        let ghost before = rs@;
        let n = rs.len();
        if k > 0 && n > 0 && keys[k - 1] < usize::MAX && keys[k - 1] + 1 == keys[k] {
            let first = rs[n - 1].0;
            rs.set(n - 1, (first, k));
            assert(rs@.map_values(|r: (usize, usize)| (r.0 as int, r.1 as int)) =~= index_runs(
                keys@.take(k + 1),
            ));
        } else {
            rs.push((k, k));
            assert(rs@.map_values(|r: (usize, usize)| (r.0 as int, r.1 as int)) =~= index_runs(
                keys@.take(k + 1),
            ));
        }
        k = k + 1;
    }
    assert(keys@.take(keys@.len() as int) =~= keys@);
    let ghost runs_v = index_runs(keys@);
    proof {
        lemma_index_runs_shape(keys@);
    }
    let mut parts: Vec<String> = Vec::new();
    let mut j: usize = 0;
    while j < rs.len()
        invariant
            j <= rs@.len(),
            rs@.map_values(|r: (usize, usize)| (r.0 as int, r.1 as int)) == runs_v,
            runs_v == index_runs(keys@),
            forall|q: int| 0 <= q < runs_v.len() ==> 0 <= (#[trigger] runs_v[q]).0 <= runs_v[q].1 < keys@.len(),
            string_views(labels@) == lv,
            lv.len() == v@.len(),
            keys@.len() == v@.len(),
            string_views(parts@) == runs_v.take(j as int).map_values(|r: (int, int)| render_label_run(lv, r)),
        decreases rs.len() - j,
    {
        let (a, b) = rs[j];
        assert(runs_v[j as int] == (a as int, b as int));
        assert(string_views(labels@)[a as int] == labels@[a as int]@);
        assert(string_views(labels@)[b as int] == labels@[b as int]@);
        let s = if str_eq(labels[a].as_str(), labels[b].as_str()) {
            trim_str(labels[a].as_str())
        } else {
            let mut c = chars_of(labels[a].as_str());
            push_str(&mut c, " - ");
            push_str(&mut c, labels[b].as_str());
            string_from_chars(c.as_slice())
        };
        let ghost before = parts@;
        parts.push(s);
        assert(string_views(parts@) =~= string_views(before).push(render_label_run(lv, runs_v[j as int])));
        assert(runs_v.take(j + 1).map_values(|r: (int, int)| render_label_run(lv, r)) =~= runs_v.take(
            j as int,
        ).map_values(|r: (int, int)| render_label_run(lv, r)).push(render_label_run(lv, runs_v[j as int])));
        j = j + 1;
    }
    assert(runs_v.take(runs_v.len() as int) =~= runs_v);
    Some(join_strings(&parts, ", "))
}

/// `Fl. 3: `, the label of a Flur in the lists of the forms.
pub fn flur_label(fl: usize) -> (r: String)
    ensures
        r@ == "Fl. "@ + dec(fl as nat) + ": "@,
{
    let mut c = chars_of("Fl. ");
    push_all(&mut c, &usize_to_chars(fl));
    push_str(&mut c, ": ");
    string_from_chars(c.as_slice())
}

/// The parcels of Gemarkung `main_gemarkung` whose use changes, in key order.
pub open spec fn modified_in(
    m: Seq<(FlstIdParsedNumber, FlstEigentuemer)>,
    main_gemarkung: usize,
) -> Seq<FlstIdParsedNumber> {
    m.filter_map(
        |e: (FlstIdParsedNumber, FlstEigentuemer)|
            if !(e.1.status is Bleibt) && e.0.gemarkung == main_gemarkung {
                Some(e.0)
            } else {
                None
            },
    )
}

/// The changed parcels of the main Gemarkung by Flur.
pub fn get_modified_fluren_flst(
    eigentuemer_map: &SortedMap<FlstIdParsedNumber, FlstEigentuemer>,
    main_gemarkung: usize,
) -> (r: SortedMap<usize, Vec<FlstIdParsedNumber>>)
    ensures
        forall|k: usize|
            match #[trigger] lookup(r.kv(), k) {
                Some(v) => v@ == of_flur(modified_in(eigentuemer_map.kv(), main_gemarkung), k)
                    && v@.len() > 0,
                None => of_flur(modified_in(eigentuemer_map.kv(), main_gemarkung), k).len() == 0,
            },
{
    let ghost kv = eigentuemer_map.kv();
    let ghost sel = modified_in(kv, main_gemarkung);
    let mut target: SortedMap<usize, Vec<FlstIdParsedNumber>> = SortedMap::new();
    let mut i: usize = 0;
    while i < eigentuemer_map.len()
        invariant
            i <= kv.len(),
            kv == eigentuemer_map.kv(),
            forall|k: usize|
                match #[trigger] lookup(target.kv(), k) {
                    Some(v) => v@ == of_flur(modified_in(kv.take(i as int), main_gemarkung), k)
                        && v@.len() > 0,
                    None => of_flur(modified_in(kv.take(i as int), main_gemarkung), k).len() == 0,
                },
        decreases kv.len() - i,
    {
        let e = *eigentuemer_map.key_at(i);
        let v = eigentuemer_map.value_at(i);
        let ghost f = |e: (FlstIdParsedNumber, FlstEigentuemer)|
            if !(e.1.status is Bleibt) && e.0.gemarkung == main_gemarkung {
                Some(e.0)
            } else {
                None
            };
        proof {
            kv.lemma_filter_map_take_succ(f, i as int);
        }
        let ghost sel_i = modified_in(kv.take(i as int), main_gemarkung);
        let ghost sel_i1 = modified_in(kv.take(i + 1), main_gemarkung);
        if v.status.was_modified() && e.gemarkung == main_gemarkung {
            let ghost old_kv = target.kv();
            target.push_to(e.flur, e);
            proof {
                assert(sel_i1 =~= sel_i.push(e));
                assert(sel_i1.drop_last() =~= sel_i);
                assert forall|k: usize|
                    match #[trigger] lookup(target.kv(), k) {
                        Some(w) => w@ == of_flur(sel_i1, k) && w@.len() > 0,
                        None => of_flur(sel_i1, k).len() == 0,
                    } by {
                    if k != e.flur {
                        assert(lookup(target.kv(), k) == lookup(old_kv, k));
                    }
                }
            }
        } else {
            assert(sel_i1 =~= sel_i);
        }
        i = i + 1;
    }
    assert(kv.take(kv.len() as int) =~= kv);
    target
}


/// A parcel paired with one of its owners.
pub type OwnerEntry = (FlstIdParsedNumber, EigentuemerView);

/// An owner with the parcels it holds, by Flur.
pub type OwnerGroup = (EigentuemerClean, SortedMap<usize, Vec<FlstIdParsedNumber>>);

/// Each parcel with each of its owners: parcels in key order, owners in
/// their order.
#[verifier::opaque]
pub open spec fn owner_entries(m: Seq<(FlstIdParsedNumber, FlstEigentuemer)>) -> Seq<OwnerEntry>
    decreases m.len(),
{
    if m.len() == 0 {
        Seq::empty()
    } else {
        owner_entries(m.drop_last()) + owners_of_parcel(m.last())
    }
}

pub open spec fn owners_of_parcel(e: (FlstIdParsedNumber, FlstEigentuemer)) -> Seq<OwnerEntry> {
    e.1.eigentuemer@.map_values(|o: EigentuemerClean| (e.0, o@))
}

/// `o` is the first owner among the entries that sorts alike with it.
pub open spec fn first_of_class(es: Seq<OwnerEntry>, o: EigentuemerView) -> bool {
    exists|j: int|
        0 <= j < es.len() && es[j].1 == o && forall|k: int|
            0 <= k < j ==> !eig_equiv(#[trigger] es[k].1, o)
}

/// The parcels of Flur `fl` held by an owner that sorts alike with `o`, in
/// the order of the entries (a parcel once per such owner).
pub open spec fn class_parcels(es: Seq<OwnerEntry>, o: EigentuemerView, fl: usize) -> Seq<
    FlstIdParsedNumber,
> {
    es.filter_map(
        |x: OwnerEntry|
            if eig_equiv(x.1, o) && x.0.flur == fl {
                Some(x.0)
            } else {
                None
            },
    )
}

/// `g` groups the entries by owner: one group per class of owners that
/// sort alike, in owner order, named by the class's first owner; each with
/// the class's parcels by Flur, Flur numbers ascending.
/// The owners of the groups sort strictly ascending.
pub open spec fn owners_sorted(g: Seq<OwnerGroup>) -> bool {
    forall|i: int, j: int|
        #![trigger g[i], g[j]]
        0 <= i < j < g.len() ==> eig_lt(g[i].0@, g[j].0@)
}

/// Each group is named by the first owner of its class.
pub open spec fn all_first(es: Seq<OwnerEntry>, g: Seq<OwnerGroup>) -> bool {
    forall|i: int| 0 <= i < g.len() ==> first_of_class(es, #[trigger] g[i].0@)
}

/// Each entry's owner belongs to the class of some group.
pub open spec fn covers(es: Seq<OwnerEntry>, g: Seq<OwnerGroup>) -> bool {
    forall|j: int|
        0 <= j < es.len() ==> exists|i: int|
            0 <= i < g.len() && eig_equiv(#[trigger] es[j].1, #[trigger] g[i].0@)
}

/// The Flur lists of a group hold its class's parcels.
pub open spec fn lists_match(es: Seq<OwnerEntry>, o: EigentuemerView, m: SortedMap<usize, Vec<FlstIdParsedNumber>>, fl: usize) -> bool {
    match lookup(m.kv(), fl) {
        Some(v) => v@ == class_parcels(es, o, fl) && v@.len() > 0,
        None => class_parcels(es, o, fl).len() == 0,
    }
}

pub open spec fn all_lists_match(es: Seq<OwnerEntry>, g: Seq<OwnerGroup>) -> bool {
    forall|i: int, fl: usize| 0 <= i < g.len() ==> #[trigger] lists_match(es, g[i].0@, g[i].1, fl)
}

/// `g` groups the entries by owner: one group per class of owners that
/// sort alike, in owner order, named by the class's first owner; each with
/// the class's parcels by Flur, Flur numbers ascending.
#[verifier::opaque]
pub open spec fn is_owner_grouping(es: Seq<OwnerEntry>, g: Seq<OwnerGroup>) -> bool {
    &&& owners_sorted(g)
    &&& all_first(es, g)
    &&& covers(es, g)
    &&& all_lists_match(es, g)
}

proof fn lemma_class_parcels_push(es: Seq<OwnerEntry>, x: OwnerEntry, o: EigentuemerView, fl: usize)
    ensures
        class_parcels(es.push(x), o, fl) == if eig_equiv(x.1, o) && x.0.flur == fl {
            class_parcels(es, o, fl).push(x.0)
        } else {
            class_parcels(es, o, fl)
        },
{
    assert(es.push(x).drop_last() =~= es);
    assert(es.push(x).last() == x);
}

proof fn lemma_equiv_trans(a: EigentuemerView, b: EigentuemerView, c: EigentuemerView)
    requires
        eig_equiv(a, b),
        eig_equiv(b, c),
    ensures
        eig_equiv(a, c),
{
}

impl EigentuemerClean {
    fn sorts_before(&self, other: &Self) -> (r: bool)
        ensures
            r == eig_lt(self@, other@),
    {
        proof {
            lemma_seq_lt_order(eig_key(self@), eig_key(other@), eig_key(self@));
        }
        let ra = self.rank();
        let rb = other.rank();
        if ra != rb {
            return ra < rb;
        }
        let ka = self.sort_key();
        let kb = other.sort_key();
        match compare_str(ka.as_str(), kb.as_str()) {
            Comparison::Less => true,
            _ => false,
        }
    }

    fn sorts_alike(&self, other: &Self) -> (r: bool)
        ensures
            r == eig_equiv(self@, other@),
    {
        proof {
            lemma_seq_lt_order(eig_key(self@), eig_key(other@), eig_key(self@));
        }
        let ra = self.rank();
        let rb = other.rank();
        if ra != rb {
            return false;
        }
        let ka = self.sort_key();
        let kb = other.sort_key();
        match compare_str(ka.as_str(), kb.as_str()) {
            Comparison::Equal => true,
            _ => false,
        }
    }

    fn duplicate(&self) -> (r: Self)
        ensures
            r@ == self@,
    {
        match self {
            EigentuemerClean::Herr { vorname, nachname } => EigentuemerClean::Herr {
                vorname: copy_string(vorname),
                nachname: copy_string(nachname),
            },
            EigentuemerClean::Frau { vorname, nachname } => EigentuemerClean::Frau {
                vorname: copy_string(vorname),
                nachname: copy_string(nachname),
            },
            EigentuemerClean::Firma { name } => EigentuemerClean::Firma { name: copy_string(name) },
            EigentuemerClean::Sonstige { name } => EigentuemerClean::Sonstige {
                name: copy_string(name),
            },
        }
    }
}

/// The Flur lists of `nm` are those of `om` with `k` appended to its Flur.
pub open spec fn flur_lists_pushed(
    om: SortedMap<usize, Vec<FlstIdParsedNumber>>,
    nm: SortedMap<usize, Vec<FlstIdParsedNumber>>,
    k: FlstIdParsedNumber,
) -> bool {
    &&& lookup(nm.kv(), k.flur) matches Some(w) && w@ == match lookup(om.kv(), k.flur) {
        Some(v) => v@.push(k),
        None => seq![k],
    }
    &&& forall|f: usize| f != k.flur ==> lookup(nm.kv(), f) == lookup(om.kv(), f)
}

proof fn lemma_only_one_class(g: Seq<OwnerGroup>, o: EigentuemerView, p: int)
    requires
        owners_sorted(g),
        0 <= p < g.len(),
        eig_equiv(o, g[p].0@),
    ensures
        forall|i: int| 0 <= i < g.len() && i != p ==> !eig_equiv(o, #[trigger] g[i].0@),
{
    assert forall|i: int| 0 <= i < g.len() && i != p implies !eig_equiv(o, #[trigger] g[i].0@) by {
        if eig_equiv(o, g[i].0@) {
            lemma_eigentuemer_order_total(o, g[i].0@);
            lemma_equiv_trans(g[i].0@, o, g[p].0@);
            if i < p {
                assert(eig_lt(g[i].0@, g[p].0@));
            } else {
                assert(eig_lt(g[p].0@, g[i].0@));
            }
            lemma_eigentuemer_order_total(g[i].0@, g[p].0@);
        }
    }
}

proof fn lemma_first_of_class_push(es: Seq<OwnerEntry>, x: OwnerEntry, o: EigentuemerView)
    requires
        first_of_class(es, o),
    ensures
        first_of_class(es.push(x), o),
{
    let es2 = es.push(x);
    let j = choose|j: int|
        0 <= j < es.len() && es[j].1 == o && forall|q: int|
            0 <= q < j ==> !eig_equiv(#[trigger] es[q].1, o);
    assert(es2[j] == es[j]);
    assert forall|q: int| 0 <= q < j implies !eig_equiv(#[trigger] es2[q].1, o) by {
        assert(es2[q] == es[q]);
    }
}

proof fn lemma_lists_keep(
    es: Seq<OwnerEntry>,
    x: OwnerEntry,
    o: EigentuemerView,
    m: SortedMap<usize, Vec<FlstIdParsedNumber>>,
    f: usize,
)
    requires
        !eig_equiv(x.1, o),
        lists_match(es, o, m, f),
    ensures
        lists_match(es.push(x), o, m, f),
{
    lemma_class_parcels_push(es, x, o, f);
}

/// The groups are the same but for the Flur lists of group `p`.
pub open spec fn same_owners_but_lists(g: Seq<OwnerGroup>, ng: Seq<OwnerGroup>, p: int) -> bool {
    &&& ng.len() == g.len()
    &&& forall|i: int| 0 <= i < g.len() && i != p ==> #[trigger] ng[i] == g[i]
    &&& ng[p].0@ == g[p].0@
}

proof fn lemma_same_owners(g: Seq<OwnerGroup>, ng: Seq<OwnerGroup>, p: int)
    requires
        0 <= p < g.len(),
        same_owners_but_lists(g, ng, p),
    ensures
        forall|i: int| 0 <= i < g.len() ==> (#[trigger] ng[i]).0@ == g[i].0@,
{
    assert forall|i: int| 0 <= i < g.len() implies (#[trigger] ng[i]).0@ == g[i].0@ by {
        if i != p {
            assert(ng[i] == g[i]);
        }
    }
}

proof fn lemma_grown_sorted(g: Seq<OwnerGroup>, ng: Seq<OwnerGroup>, p: int)
    requires
        owners_sorted(g),
        0 <= p < g.len(),
        same_owners_but_lists(g, ng, p),
    ensures
        owners_sorted(ng),
{
    lemma_same_owners(g, ng, p);
    assert forall|i: int, j: int|
        #![trigger ng[i], ng[j]]
        0 <= i < j < ng.len() implies eig_lt(ng[i].0@, ng[j].0@) by {
        assert(eig_lt(g[i].0@, g[j].0@));
    }
}

proof fn lemma_grown_firsts(es: Seq<OwnerEntry>, g: Seq<OwnerGroup>, x: OwnerEntry, ng: Seq<OwnerGroup>, p: int)
    requires
        all_first(es, g),
        0 <= p < g.len(),
        same_owners_but_lists(g, ng, p),
    ensures
        all_first(es.push(x), ng),
{
    lemma_same_owners(g, ng, p);
    assert forall|i: int| 0 <= i < ng.len() implies first_of_class(es.push(x), #[trigger] ng[i].0@) by {
        assert(first_of_class(es, g[i].0@));
        lemma_first_of_class_push(es, x, g[i].0@);
    }
}

proof fn lemma_grown_covers(es: Seq<OwnerEntry>, g: Seq<OwnerGroup>, x: OwnerEntry, ng: Seq<OwnerGroup>, p: int)
    requires
        covers(es, g),
        0 <= p < g.len(),
        same_owners_but_lists(g, ng, p),
        eig_equiv(x.1, g[p].0@),
    ensures
        covers(es.push(x), ng),
{
    let es2 = es.push(x);
    lemma_same_owners(g, ng, p);
    assert forall|j: int| 0 <= j < es2.len() implies exists|i: int|
        0 <= i < ng.len() && eig_equiv(#[trigger] es2[j].1, #[trigger] ng[i].0@) by {
        if j < es.len() {
            assert(es2[j] == es[j]);
            let i = choose|i: int| 0 <= i < g.len() && eig_equiv(#[trigger] es[j].1, #[trigger] g[i].0@);
            assert(ng[i].0@ == g[i].0@);
        } else {
            assert(es2[j] == x);
            assert(eig_equiv(es2[j].1, ng[p].0@));
        }
    }
}

proof fn lemma_grown_lists(es: Seq<OwnerEntry>, g: Seq<OwnerGroup>, x: OwnerEntry, ng: Seq<OwnerGroup>, p: int)
    requires
        all_lists_match(es, g),
        owners_sorted(g),
        0 <= p < g.len(),
        same_owners_but_lists(g, ng, p),
        eig_equiv(x.1, g[p].0@),
        flur_lists_pushed(g[p].1, ng[p].1, x.0),
    ensures
        all_lists_match(es.push(x), ng),
{
    let es2 = es.push(x);
    lemma_only_one_class(g, x.1, p);
    assert forall|i: int, f: usize| 0 <= i < ng.len() implies #[trigger] lists_match(es2, ng[i].0@, ng[i].1, f) by {
        assert(lists_match(es, g[i].0@, g[i].1, f));
        if i == p {
            assert(ng[p].0@ == g[p].0@);
            lemma_class_parcels_push(es, x, g[p].0@, f);
            if f != x.0.flur {
                assert(lookup(ng[p].1.kv(), f) == lookup(g[p].1.kv(), f));
            } else if lookup(g[p].1.kv(), f) is None {
                assert(class_parcels(es, g[p].0@, f) =~= Seq::<FlstIdParsedNumber>::empty());
                assert(class_parcels(es2, g[p].0@, f) =~= seq![x.0]);
            }
        } else {
            assert(ng[i] == g[i]);
            lemma_lists_keep(es, x, g[i].0@, g[i].1, f);
        }
    }
}

/// Adding an entry to the group of its owner's class.
proof fn lemma_add_to_group(es: Seq<OwnerEntry>, g: Seq<OwnerGroup>, x: OwnerEntry, p: int, ng: Seq<OwnerGroup>)
    requires
        is_owner_grouping(es, g),
        0 <= p < g.len(),
        eig_equiv(x.1, g[p].0@),
        same_owners_but_lists(g, ng, p),
        flur_lists_pushed(g[p].1, ng[p].1, x.0),
    ensures
        is_owner_grouping(es.push(x), ng),
{
    reveal(is_owner_grouping);
    lemma_grown_sorted(g, ng, p);
    lemma_grown_firsts(es, g, x, ng, p);
    lemma_grown_covers(es, g, x, ng, p);
    lemma_grown_lists(es, g, x, ng, p);
}

/// An owner of a new class that sorts after the first `p` groups and
/// before the others.
pub open spec fn fits_at(g: Seq<OwnerGroup>, o: EigentuemerView, p: int) -> bool {
    &&& 0 <= p <= g.len()
    &&& forall|q: int| 0 <= q < p ==> eig_lt(#[trigger] g[q].0@, o)
    &&& forall|q: int| p <= q < g.len() ==> eig_lt(o, #[trigger] g[q].0@)
}

proof fn lemma_fits_no_class(es: Seq<OwnerEntry>, g: Seq<OwnerGroup>, o: EigentuemerView, p: int)
    requires
        covers(es, g),
        fits_at(g, o, p),
    ensures
        forall|i: int| 0 <= i < g.len() ==> !eig_equiv(o, #[trigger] g[i].0@),
        forall|j: int| 0 <= j < es.len() ==> !eig_equiv(#[trigger] es[j].1, o),
{
    assert forall|i: int| 0 <= i < g.len() implies !eig_equiv(o, #[trigger] g[i].0@) by {
        lemma_eigentuemer_order_total(g[i].0@, o);
        lemma_eigentuemer_order_total(o, g[i].0@);
    }
    assert forall|j: int| 0 <= j < es.len() implies !eig_equiv(#[trigger] es[j].1, o) by {
        let i = choose|i: int| 0 <= i < g.len() && eig_equiv(#[trigger] es[j].1, #[trigger] g[i].0@);
        if eig_equiv(es[j].1, o) {
            lemma_equiv_trans(o, es[j].1, g[i].0@);
        }
    }
}

proof fn lemma_insert_index(g: Seq<OwnerGroup>, p: int, grp: OwnerGroup)
    requires
        0 <= p <= g.len(),
    ensures
        forall|i: int| 0 <= i < p ==> #[trigger] g.insert(p, grp)[i] == g[i],
        forall|i: int| p < i <= g.len() ==> #[trigger] g.insert(p, grp)[i] == g[i - 1],
        g.insert(p, grp)[p] == grp,
        g.insert(p, grp).len() == g.len() + 1,
{
}

proof fn lemma_new_group_sorted(g: Seq<OwnerGroup>, o: EigentuemerView, p: int, grp: OwnerGroup)
    requires
        owners_sorted(g),
        fits_at(g, o, p),
        grp.0@ == o,
    ensures
        owners_sorted(g.insert(p, grp)),
{
    let ng = g.insert(p, grp);
    lemma_insert_index(g, p, grp);
    assert forall|i: int, j: int|
        #![trigger ng[i], ng[j]]
        0 <= i < j < ng.len() implies eig_lt(ng[i].0@, ng[j].0@) by {
        if i < p && j < p {
            assert(eig_lt(g[i].0@, g[j].0@));
        } else if i < p && j == p {
            assert(eig_lt(g[i].0@, o));
        } else if i < p && j > p {
            assert(eig_lt(g[i].0@, o));
            assert(eig_lt(o, g[j - 1].0@));
            lemma_eigentuemer_order_transitive(g[i].0@, o, g[j - 1].0@);
        } else if i == p {
            assert(eig_lt(o, g[j - 1].0@));
        } else {
            assert(eig_lt(g[i - 1].0@, g[j - 1].0@));
        }
    }
}

proof fn lemma_new_group_firsts(es: Seq<OwnerEntry>, g: Seq<OwnerGroup>, x: OwnerEntry, p: int, grp: OwnerGroup)
    requires
        all_first(es, g),
        forall|j: int| 0 <= j < es.len() ==> !eig_equiv(#[trigger] es[j].1, x.1),
        0 <= p <= g.len(),
        grp.0@ == x.1,
    ensures
        all_first(es.push(x), g.insert(p, grp)),
{
    let es2 = es.push(x);
    let ng = g.insert(p, grp);
    lemma_insert_index(g, p, grp);
    assert forall|i: int| 0 <= i < ng.len() implies first_of_class(es2, #[trigger] ng[i].0@) by {
        if i == p {
            assert(es2[es.len() as int] == x);
            assert forall|q: int| 0 <= q < es.len() implies !eig_equiv(#[trigger] es2[q].1, ng[i].0@) by {
                assert(es2[q] == es[q]);
            }
        } else if i < p {
            assert(first_of_class(es, g[i].0@));
            lemma_first_of_class_push(es, x, g[i].0@);
        } else {
            assert(first_of_class(es, g[i - 1].0@));
            lemma_first_of_class_push(es, x, g[i - 1].0@);
        }
    }
}

proof fn lemma_new_group_covers(es: Seq<OwnerEntry>, g: Seq<OwnerGroup>, x: OwnerEntry, p: int, grp: OwnerGroup)
    requires
        covers(es, g),
        0 <= p <= g.len(),
        grp.0@ == x.1,
    ensures
        covers(es.push(x), g.insert(p, grp)),
{
    let es2 = es.push(x);
    let ng = g.insert(p, grp);
    lemma_insert_index(g, p, grp);
    assert forall|j: int| 0 <= j < es2.len() implies exists|i: int|
        0 <= i < ng.len() && eig_equiv(#[trigger] es2[j].1, #[trigger] ng[i].0@) by {
        if j < es.len() {
            assert(es2[j] == es[j]);
            let i = choose|i: int| 0 <= i < g.len() && eig_equiv(#[trigger] es[j].1, #[trigger] g[i].0@);
            if i < p {
                assert(ng[i] == g[i]);
            } else {
                assert(ng[i + 1] == g[i]);
            }
        } else {
            assert(es2[j] == x);
            assert(eig_equiv(es2[j].1, ng[p].0@));
        }
    }
}

proof fn lemma_new_group_lists(
    es: Seq<OwnerEntry>,
    g: Seq<OwnerGroup>,
    x: OwnerEntry,
    p: int,
    grp: OwnerGroup,
    om: SortedMap<usize, Vec<FlstIdParsedNumber>>,
)
    requires
        all_lists_match(es, g),
        forall|i: int| 0 <= i < g.len() ==> !eig_equiv(x.1, #[trigger] g[i].0@),
        forall|j: int| 0 <= j < es.len() ==> !eig_equiv(#[trigger] es[j].1, x.1),
        0 <= p <= g.len(),
        grp.0@ == x.1,
        om.kv().len() == 0,
        flur_lists_pushed(om, grp.1, x.0),
    ensures
        all_lists_match(es.push(x), g.insert(p, grp)),
{
    let es2 = es.push(x);
    let ng = g.insert(p, grp);
    lemma_insert_index(g, p, grp);
    assert forall|i: int, f: usize| 0 <= i < ng.len() implies #[trigger] lists_match(es2, ng[i].0@, ng[i].1, f) by {
        if i == p {
            assert(ng[i] == grp);
            lemma_class_parcels_push(es, x, x.1, f);
            lemma_no_class_parcels(es, x.1, f);
            assert(class_parcels(es, x.1, f) =~= Seq::<FlstIdParsedNumber>::empty());
            assert(lookup(om.kv(), f) is None);
            assert(eig_equiv(x.1, x.1));
            if f == x.0.flur {
                assert(class_parcels(es2, x.1, f) =~= seq![x.0]);
            } else {
                assert(lookup(grp.1.kv(), f) is None);
            }
        } else {
            let gi = if i < p { i } else { i - 1 };
            assert(ng[i] == g[gi]);
            assert(lists_match(es, g[gi].0@, g[gi].1, f));
            lemma_lists_keep(es, x, g[gi].0@, g[gi].1, f);
        }
    }
}

/// Adding an entry whose owner starts a new class.
proof fn lemma_add_new_group(
    es: Seq<OwnerEntry>,
    g: Seq<OwnerGroup>,
    x: OwnerEntry,
    p: int,
    grp: OwnerGroup,
    om: SortedMap<usize, Vec<FlstIdParsedNumber>>,
)
    requires
        is_owner_grouping(es, g),
        0 <= p <= g.len(),
        forall|q: int| 0 <= q < p ==> eig_lt(#[trigger] g[q].0@, x.1),
        p < g.len() ==> eig_lt(x.1, g[p].0@),
        grp.0@ == x.1,
        om.kv().len() == 0,
        flur_lists_pushed(om, grp.1, x.0),
    ensures
        is_owner_grouping(es.push(x), g.insert(p, grp)),
{
    reveal(is_owner_grouping);
    assert forall|q: int| p <= q < g.len() implies eig_lt(x.1, #[trigger] g[q].0@) by {
        if q > p {
            assert(eig_lt(g[p].0@, g[q].0@));
            lemma_eigentuemer_order_transitive(x.1, g[p].0@, g[q].0@);
        }
    }
    assert(fits_at(g, x.1, p));
    lemma_fits_no_class(es, g, x.1, p);
    lemma_new_group_sorted(g, x.1, p, grp);
    lemma_new_group_firsts(es, g, x, p, grp);
    lemma_new_group_covers(es, g, x, p, grp);
    lemma_new_group_lists(es, g, x, p, grp, om);
}

/// Two owners named by the first owner of their class, of the same class,
/// are the same owner.
proof fn lemma_first_of_class_unique(es: Seq<OwnerEntry>, a: EigentuemerView, b: EigentuemerView)
    requires
        first_of_class(es, a),
        first_of_class(es, b),
        eig_equiv(a, b),
    ensures
        a == b,
{
    let ja = choose|j: int|
        0 <= j < es.len() && es[j].1 == a && forall|k: int| 0 <= k < j ==> !eig_equiv(#[trigger] es[k].1, a);
    let jb = choose|j: int|
        0 <= j < es.len() && es[j].1 == b && forall|k: int| 0 <= k < j ==> !eig_equiv(#[trigger] es[k].1, b);
    lemma_eigentuemer_order_total(a, b);
    if ja < jb {
        assert(eig_equiv(es[ja].1, b));
    } else if jb < ja {
        assert(eig_equiv(es[jb].1, a));
    }
}

/// Two lists of owners, each strictly ascending, with the same owners, are
/// the same list.
proof fn lemma_sorted_owner_lists_equal(x: Seq<EigentuemerView>, y: Seq<EigentuemerView>)
    requires
        forall|i: int, j: int| #![trigger x[i], x[j]] 0 <= i < j < x.len() ==> eig_lt(x[i], x[j]),
        forall|i: int, j: int| #![trigger y[i], y[j]] 0 <= i < j < y.len() ==> eig_lt(y[i], y[j]),
        forall|o: EigentuemerView| x.contains(o) <==> y.contains(o),
    ensures
        x == y,
    decreases x.len() + y.len(),
{
    if x.len() == 0 {
        if y.len() > 0 {
            assert(y.contains(y[0]));
        }
        assert(x =~= y);
    } else if y.len() == 0 {
        assert(x.contains(x[0]));
    } else {
        assert(x.contains(x[0]));
        let p = choose|p: int| 0 <= p < y.len() && y[p] == x[0];
        assert(y.contains(y[0]));
        let q = choose|q: int| 0 <= q < x.len() && x[q] == y[0];
        lemma_eigentuemer_order_total(x[0], x[0]);
        if p > 0 {
            assert(eig_lt(y[0], y[p]));
            if q > 0 {
                assert(eig_lt(x[0], x[q]));
                lemma_eigentuemer_order_transitive(x[0], y[0], x[0]);
            }
        }
        assert(x[0] == y[0]);
        let x1 = x.drop_first();
        let y1 = y.drop_first();
        assert forall|o: EigentuemerView| x1.contains(o) <==> y1.contains(o) by {
            if x1.contains(o) {
                let i = choose|i: int| 0 <= i < x1.len() && x1[i] == o;
                assert(x[i + 1] == o);
                assert(eig_lt(x[0], x[i + 1]));
                assert(x.contains(o));
                let j = choose|j: int| 0 <= j < y.len() && y[j] == o;
                if j == 0 {
                    lemma_eigentuemer_order_total(o, o);
                }
                assert(y1[j - 1] == o);
            }
            if y1.contains(o) {
                let i = choose|i: int| 0 <= i < y1.len() && y1[i] == o;
                assert(y[i + 1] == o);
                assert(eig_lt(y[0], y[i + 1]));
                assert(y.contains(o));
                let j = choose|j: int| 0 <= j < x.len() && x[j] == o;
                if j == 0 {
                    lemma_eigentuemer_order_total(o, o);
                }
                assert(x1[j - 1] == o);
            }
        }
        assert forall|i: int, j: int| #![trigger x1[i], x1[j]] 0 <= i < j < x1.len() implies eig_lt(x1[i], x1[j]) by {
            assert(eig_lt(x[i + 1], x[j + 1]));
        }
        assert forall|i: int, j: int| #![trigger y1[i], y1[j]] 0 <= i < j < y1.len() implies eig_lt(y1[i], y1[j]) by {
            assert(eig_lt(y[i + 1], y[j + 1]));
        }
        lemma_sorted_owner_lists_equal(x1, y1);
        assert(x =~= seq![x[0]] + x1);
        assert(y =~= seq![y[0]] + y1);
    }
}

pub open spec fn group_owners(g: Seq<OwnerGroup>) -> Seq<EigentuemerView> {
    g.map_values(|x: OwnerGroup| x.0@)
}

proof fn lemma_grouping_parts(es: Seq<OwnerEntry>, g: Seq<OwnerGroup>)
    requires
        is_owner_grouping(es, g),
    ensures
        owners_sorted(g),
        all_first(es, g),
        covers(es, g),
        all_lists_match(es, g),
{
    reveal(is_owner_grouping);
}

proof fn lemma_owners_included(es: Seq<OwnerEntry>, g1: Seq<OwnerGroup>, g2: Seq<OwnerGroup>)
    requires
        all_first(es, g1),
        all_first(es, g2),
        covers(es, g2),
    ensures
        forall|o: EigentuemerView| group_owners(g1).contains(o) ==> group_owners(g2).contains(o),
{
    let x = group_owners(g1);
    let y = group_owners(g2);
    assert forall|o: EigentuemerView| x.contains(o) implies y.contains(o) by {
        let i = choose|i: int| 0 <= i < x.len() && x[i] == o;
        assert(first_of_class(es, g1[i].0@));
        let j = choose|j: int|
            0 <= j < es.len() && es[j].1 == o && forall|k: int| 0 <= k < j ==> !eig_equiv(#[trigger] es[k].1, o);
        let i2 = choose|i2: int| 0 <= i2 < g2.len() && eig_equiv(#[trigger] es[j].1, #[trigger] g2[i2].0@);
        assert(first_of_class(es, g2[i2].0@));
        lemma_first_of_class_unique(es, o, g2[i2].0@);
        assert(y[i2] == o);
    }
}

proof fn lemma_owners_sorted_seq(g: Seq<OwnerGroup>)
    requires
        owners_sorted(g),
    ensures
        forall|i: int, j: int|
            #![trigger group_owners(g)[i], group_owners(g)[j]]
            0 <= i < j < group_owners(g).len() ==> eig_lt(group_owners(g)[i], group_owners(g)[j]),
{
    let x = group_owners(g);
    assert forall|i: int, j: int| #![trigger x[i], x[j]] 0 <= i < j < x.len() implies eig_lt(x[i], x[j]) by {
        assert(eig_lt(g[i].0@, g[j].0@));
    }
}

proof fn lemma_same_lists(es: Seq<OwnerEntry>, g1: Seq<OwnerGroup>, g2: Seq<OwnerGroup>)
    requires
        all_lists_match(es, g1),
        all_lists_match(es, g2),
        group_owners(g1) == group_owners(g2),
    ensures
        forall|i: int, fl: usize|
            0 <= i < g1.len() ==> match (#[trigger] lookup(g1[i].1.kv(), fl), lookup(g2[i].1.kv(), fl)) {
                (Some(v1), Some(v2)) => v1@ == v2@,
                (None, None) => true,
                _ => false,
            },
{
    assert forall|i: int, fl: usize|
        0 <= i < g1.len() implies match (#[trigger] lookup(g1[i].1.kv(), fl), lookup(g2[i].1.kv(), fl)) {
            (Some(v1), Some(v2)) => v1@ == v2@,
            (None, None) => true,
            _ => false,
        } by {
        assert(group_owners(g1).len() == g1.len());
        assert(group_owners(g2).len() == g2.len());
        assert(group_owners(g1)[i] == group_owners(g2)[i]);
        assert(group_owners(g1)[i] == g1[i].0@);
        assert(group_owners(g2)[i] == g2[i].0@);
        assert(lists_match(es, g1[i].0@, g1[i].1, fl));
        assert(lists_match(es, g2[i].0@, g2[i].1, fl));
    }
}

/// The grouping of the owners is determined by the entries: two groupings
/// of the same entries name the same owners in the same order, with the
/// same parcels under each Flur.
pub proof fn lemma_owner_grouping_unique(es: Seq<OwnerEntry>, g1: Seq<OwnerGroup>, g2: Seq<OwnerGroup>)
    requires
        is_owner_grouping(es, g1),
        is_owner_grouping(es, g2),
    ensures
        group_owners(g1) == group_owners(g2),
        forall|i: int, fl: usize|
            0 <= i < g1.len() ==> match (#[trigger] lookup(g1[i].1.kv(), fl), lookup(g2[i].1.kv(), fl)) {
                (Some(v1), Some(v2)) => v1@ == v2@,
                (None, None) => true,
                _ => false,
            },
{
    lemma_grouping_parts(es, g1);
    lemma_grouping_parts(es, g2);
    lemma_owners_included(es, g1, g2);
    lemma_owners_included(es, g2, g1);
    lemma_owners_sorted_seq(g1);
    lemma_owners_sorted_seq(g2);
    lemma_sorted_owner_lists_equal(group_owners(g1), group_owners(g2));
    lemma_same_lists(es, g1, g2);
}

/// Adds one entry to a grouping.
fn add_owner_entry(
    groups: &mut Vec<OwnerGroup>,
    k: FlstIdParsedNumber,
    e: &EigentuemerClean,
    Ghost(es): Ghost<Seq<OwnerEntry>>,
)
    requires
        is_owner_grouping(es, old(groups)@),
    ensures
        is_owner_grouping(es.push((k, e@)), final(groups)@),
{
    let ghost x: OwnerEntry = (k, e@);
    let ghost g = groups@;
    let mut p: usize = 0;
    while p < groups.len()
        invariant
            p <= groups@.len(),
            groups@ == g,
            forall|q: int| 0 <= q < p ==> eig_lt(#[trigger] g[q].0@, e@),
        ensures
            p <= groups@.len(),
            groups@ == g,
            forall|q: int| 0 <= q < p ==> eig_lt(#[trigger] g[q].0@, e@),
            p < groups@.len() ==> !eig_lt(g[p as int].0@, e@),
        decreases groups.len() - p,
    {
        if !groups[p].0.sorts_before(e) {
            break;
        }
        p = p + 1;
    }
    let equal = p < groups.len() && groups[p].0.sorts_alike(e);
    if equal {
        let (owner, mut fl) = groups.remove(p);
        let ghost old_fl = fl;
        fl.push_to(k.flur, k);
        groups.insert(p, (owner, fl));
        proof {
            lemma_eigentuemer_order_total(g[p as int].0@, e@);
            assert(groups@ == g.update(p as int, (owner, fl)));
            lemma_add_to_group(es, g, x, p as int, groups@);
        }
    } else {
        proof {
            if p < g.len() {
                lemma_eigentuemer_order_total(g[p as int].0@, e@);
            }
        }
        let mut fl: SortedMap<usize, Vec<FlstIdParsedNumber>> = SortedMap::new();
        let ghost om = fl;
        fl.push_to(k.flur, k);
        let owner = e.duplicate();
        groups.insert(p, (owner, fl));
        proof {
            lemma_add_new_group(es, g, x, p as int, (owner, fl), om);
        }
    }
}

proof fn lemma_no_class_parcels(es: Seq<OwnerEntry>, o: EigentuemerView, fl: usize)
    requires
        forall|j: int| 0 <= j < es.len() ==> !eig_equiv(#[trigger] es[j].1, o),
    ensures
        class_parcels(es, o, fl).len() == 0,
    decreases es.len(),
{
    if es.len() > 0 {
        let rest = es.drop_last();
        assert forall|j: int| 0 <= j < rest.len() implies !eig_equiv(#[trigger] rest[j].1, o) by {
            assert(rest[j] == es[j]);
        }
        lemma_no_class_parcels(rest, o, fl);
        assert(!eig_equiv(es[es.len() - 1].1, o));
    }
}

proof fn lemma_owner_entries_step(kv: Seq<(FlstIdParsedNumber, FlstEigentuemer)>, i: int)
    requires
        0 <= i < kv.len(),
    ensures
        owner_entries(kv.take(i + 1)) == owner_entries(kv.take(i)) + owners_of_parcel(kv[i]),
{
    reveal(owner_entries);
    assert(kv.take(i + 1).drop_last() =~= kv.take(i));
    assert(kv.take(i + 1).last() == kv[i]);
}

proof fn lemma_owners_take_step(own: Seq<OwnerEntry>, base: Seq<OwnerEntry>, j: int)
    requires
        0 <= j < own.len(),
    ensures
        base + own.take(j + 1) == (base + own.take(j)).push(own[j]),
{
    assert(base + own.take(j + 1) =~= (base + own.take(j)).push(own[j]));
}

/// The owners of the parcels, each class of owners that sort alike once
/// (named by its first owner in parcel order), in owner order; each with
/// the parcels it holds by Flur.
pub fn group_by_eigentuemer(eigentuemer_map: &SortedMap<FlstIdParsedNumber, FlstEigentuemer>) -> (r:
    Vec<OwnerGroup>)
    ensures
        is_owner_grouping(owner_entries(eigentuemer_map.kv()), r@),
{
    let ghost kv = eigentuemer_map.kv();
    let mut groups: Vec<OwnerGroup> = Vec::new();
    proof {
        reveal(is_owner_grouping);
        reveal(owner_entries);
        assert(owner_entries(kv.take(0)) =~= Seq::<OwnerEntry>::empty());
    }
    let mut i: usize = 0;
    while i < eigentuemer_map.len()
        invariant
            i <= kv.len(),
            kv == eigentuemer_map.kv(),
            is_owner_grouping(owner_entries(kv.take(i as int)), groups@),
        decreases kv.len() - i,
    {
        let k = *eigentuemer_map.key_at(i);
        let v = eigentuemer_map.value_at(i);
        let ghost base = owner_entries(kv.take(i as int));
        let ghost own = owners_of_parcel(kv[i as int]);
        assert(own == owners_of_parcel((k, *v)));
        assert(base + own.take(0) =~= base);
        let mut j: usize = 0;
        while j < v.eigentuemer.len()
            invariant
                j <= v.eigentuemer@.len(),
                own == owners_of_parcel((k, *v)),
                is_owner_grouping(base + own.take(j as int), groups@),
            decreases v.eigentuemer.len() - j,
        {
            proof {
                lemma_owners_take_step(own, base, j as int);
                assert(own[j as int] == (k, v.eigentuemer@[j as int]@));
            }
            add_owner_entry(&mut groups, k, &v.eigentuemer[j], Ghost(base + own.take(j as int)));
            j = j + 1;
        }
        proof {
            assert(own.take(own.len() as int) =~= own);
            lemma_owner_entries_step(kv, i as int);
        }
        i = i + 1;
    }
    assert(kv.take(kv.len() as int) =~= kv);
    groups
}

/// The parcels of the survey sheet by Gemarkung and Flur.
pub struct HeaderCalcConfig {
    pub gemarkungs_nr: usize,
    pub gemarkungen: SortedMap<usize, SortedMap<usize, Vec<FlstIdParsedNumber>>>,
}

/// The Flur numbers of the main Gemarkung, ascending.
pub open spec fn header_fluren(c: HeaderCalcConfig) -> Seq<usize> {
    match lookup(c.gemarkungen.kv(), c.gemarkungs_nr) {
        Some(f) => f.kv().map_values(|e: (usize, Vec<FlstIdParsedNumber>)| e.0),
        None => Seq::empty(),
    }
}

pub open spec fn dec_all(v: Seq<usize>) -> Seq<Seq<char>> {
    v.map_values(|x: usize| dec(x as nat))
}

/// The distinct parcels of `v`, ascending.
pub open spec fn is_sorted_flst_set_of(w: Seq<FlstIdParsedNumber>, v: Seq<FlstIdParsedNumber>) -> bool {
    &&& strictly_sorted::<FlstIdParsedNumber>(w)
    &&& forall|x: FlstIdParsedNumber| w.contains(x) <==> v.contains(x)
}

/// "diverse" unless the main Gemarkung has one Flur with at most three
/// parcels; then those parcels.
pub open spec fn flst_string_of(c: HeaderCalcConfig, r: Seq<char>) -> bool {
    match lookup(c.gemarkungen.kv(), c.gemarkungs_nr) {
        Some(f) => if f.kv().len() != 1 {
            r == "diverse"@
        } else {
            exists|cl: Seq<FlstIdParsedNumber>|
                is_sorted_flst_set_of(cl, f.kv()[0].1@) && r == (if cl.len() > 3 {
                    "diverse"@
                } else {
                    trim(
                        join(
                            cl.map_values(|x: FlstIdParsedNumber| spec_format_with(x, "/"@)),
                            ", "@,
                        ),
                    )
                })
        },
        None => r == "diverse"@,
    }
}

/// The parcels of parcel `g`'s Gemarkung and Flur `fl`.
pub open spec fn in_group(g: usize, fl: usize) -> spec_fn(FlstIdParsedNumber) -> bool {
    |f: FlstIdParsedNumber| f.gemarkung == g && f.flur == fl
}

/// `gem` holds the parcels `w` by Gemarkung and Flur, each list in the
/// order of `w`; no Gemarkung or Flur without parcels.
pub open spec fn groups_parcels(gem: SortedMap<usize, SortedMap<usize, Vec<FlstIdParsedNumber>>>, w: Seq<FlstIdParsedNumber>) -> bool {
    forall|g: usize|
        match #[trigger] lookup(gem.kv(), g) {
            Some(m) => (exists|i: int| 0 <= i < w.len() && w[i].gemarkung == g) && forall|fl: usize|
                match #[trigger] lookup(m.kv(), fl) {
                    Some(v) => v@ == w.filter(in_group(g, fl)) && v@.len() > 0,
                    None => w.filter(in_group(g, fl)).len() == 0,
                },
            None => forall|i: int| 0 <= i < w.len() ==> w[i].gemarkung != g,
        }
}

/// The parcels that pieces name (`AX_Flurstueck`), where the identifier
/// gives a number.
pub open spec fn piece_flst(pieces: Seq<TaggedPolygon>) -> Seq<FlstIdParsedNumber> {
    pieces.filter_map(
        |tp: TaggedPolygon|
            match lookup(tp.attributes.kv(), "AX_Flurstueck"@) {
                Some(s) => spec_parse_num(spec_flst_from_str(s@)),
                None => None,
            },
    )
}

/// All pieces of the split data, parcel by parcel.
pub open spec fn all_pieces(split: SplitNasXml) -> Seq<TaggedPolygon> {
    split.flurstuecke_nutzungen.kv().map_values(|e: (Seq<char>, Vec<TaggedPolygon>)| e.1@).flatten()
}

proof fn lemma_piece_flst_append(a: Seq<TaggedPolygon>, b: Seq<TaggedPolygon>)
    ensures
        piece_flst(a + b) == piece_flst(a) + piece_flst(b),
    decreases b.len(),
{
    let f = |tp: TaggedPolygon|
        match lookup(tp.attributes.kv(), "AX_Flurstueck"@) {
            Some(s) => spec_parse_num(spec_flst_from_str(s@)),
            None => None,
        };
    if b.len() == 0 {
        assert(a + b =~= a);
        assert(piece_flst(b) =~= Seq::<FlstIdParsedNumber>::empty());
    } else {
        lemma_piece_flst_append(a, b.drop_last());
        assert((a + b).drop_last() =~= a + b.drop_last());
        assert((a + b).last() == b.last());
    }
}

fn parcels_of_pieces(pieces: &Vec<TaggedPolygon>, out: &mut Vec<FlstIdParsedNumber>)
    ensures
        final(out)@ == old(out)@ + piece_flst(pieces@),
{
    let ghost o0 = out@;
    let ghost f = |tp: TaggedPolygon|
        match lookup(tp.attributes.kv(), "AX_Flurstueck"@) {
            Some(s) => spec_parse_num(spec_flst_from_str(s@)),
            None => None,
        };
    let mut i: usize = 0;
    assert(pieces@.take(0).filter_map(f) =~= Seq::<FlstIdParsedNumber>::empty());
    assert(out@ =~= o0 + pieces@.take(0).filter_map(f));
    while i < pieces.len()
        invariant
            i <= pieces@.len(),
            f == (|tp: TaggedPolygon|
                match lookup(tp.attributes.kv(), "AX_Flurstueck"@) {
                    Some(s) => spec_parse_num(spec_flst_from_str(s@)),
                    None => None,
                }),
            out@ == o0 + pieces@.take(i as int).filter_map(f),
        decreases pieces.len() - i,
    {
        proof {
            pieces@.lemma_filter_map_take_succ(f, i as int);
        }
        let parsed = match pieces[i].attributes.get(&to_string("AX_Flurstueck")) {
            Some(s) => FlstIdParsed::from_str(s.as_str()).parse_num(),
            None => None,
        };
        match parsed {
            Some(n) => {
                out.push(n);
            },
            None => {},
        }
        assert(out@ =~= o0 + pieces@.take(i + 1).filter_map(f));
        i = i + 1;
    }
    assert(pieces@.take(pieces@.len() as int) =~= pieces@);
}

/// The Fluren of Gemarkung `g` with their parcels of `w`, in the order of `w`.
fn group_fluren(w: &Vec<FlstIdParsedNumber>, g: usize) -> (m: SortedMap<usize, Vec<FlstIdParsedNumber>>)
    ensures
        forall|fl: usize|
            match #[trigger] lookup(m.kv(), fl) {
                Some(v) => v@ == w@.filter(in_group(g, fl)) && v@.len() > 0,
                None => w@.filter(in_group(g, fl)).len() == 0,
            },
{
    let mut m: SortedMap<usize, Vec<FlstIdParsedNumber>> = SortedMap::new();
    let mut i: usize = 0;
    while i < w.len()
        invariant
            i <= w@.len(),
            forall|fl: usize|
                match #[trigger] lookup(m.kv(), fl) {
                    Some(v) => v@ == w@.take(i as int).filter(in_group(g, fl)) && v@.len() > 0,
                    None => w@.take(i as int).filter(in_group(g, fl)).len() == 0,
                },
        decreases w.len() - i,
    {
        let f = w[i];
        let ghost before = m.kv();
        assert(w@.take(i + 1) =~= w@.take(i as int).push(f));
        if f.gemarkung == g {
            m.push_to(f.flur, f);
        }
        assert forall|fl: usize|
            match #[trigger] lookup(m.kv(), fl) {
                Some(v) => v@ == w@.take(i + 1).filter(in_group(g, fl)) && v@.len() > 0,
                None => w@.take(i + 1).filter(in_group(g, fl)).len() == 0,
            } by {
            w@.take(i as int).lemma_filter_push(f, in_group(g, fl));
            if f.gemarkung == g && f.flur == fl {
                assert(lookup(m.kv(), fl) matches Some(v) && v@ == match lookup(before, fl) {
                    Some(v0) => v0@.push(f),
                    None => seq![f],
                });
                if lookup(before, fl) is None {
                    assert(w@.take(i as int).filter(in_group(g, fl)) =~= Seq::<FlstIdParsedNumber>::empty());
                }
            } else {
                if f.gemarkung == g {
                    assert(lookup(m.kv(), fl) == lookup(before, fl));
                }
            }
        }
        i = i + 1;
    }
    assert(w@.take(w@.len() as int) =~= w@);
    m
}

impl HeaderCalcConfig {
    /// The parcels of the survey sheet by Gemarkung and Flur: those that the
    /// pieces inside the sheet's area name (`pieces_in_extent`, chosen by
    /// the caller from their polygons), or those of all pieces where the
    /// sheet has no area; each parcel once, ascending. The main Gemarkung
    /// is that of the data set.
    pub fn from_csv(
        split_nas: &SplitNasXml,
        csv: &CsvDataType,
        pieces_in_extent: Option<&Vec<TaggedPolygon>>,
    ) -> (r: HeaderCalcConfig)
        ensures
            r.gemarkungs_nr == match first_parsed(data_keys(csv@)) {
                Some(i) => parse_key(data_keys(csv@)[i])->0.gemarkung,
                None => 0,
            },
            exists|w: Seq<FlstIdParsedNumber>|
                is_sorted_flst_set_of(
                    w,
                    piece_flst(
                        match pieces_in_extent {
                            Some(v) => v@,
                            None => all_pieces(*split_nas),
                        },
                    ),
                ) && groups_parcels(r.gemarkungen, w),
    {
        let target = crate::get_main_gemarkung(csv);
        let mut ids: Vec<FlstIdParsedNumber> = Vec::new();
        let ghost pieces = match pieces_in_extent {
            Some(v) => v@,
            None => all_pieces(*split_nas),
        };
        match pieces_in_extent {
            Some(v) => {
                parcels_of_pieces(v, &mut ids);
                assert(ids@ =~= piece_flst(pieces));
            },
            None => {
                let m = &split_nas.flurstuecke_nutzungen;
                let ghost kv = m.kv();
                let ghost lists = kv.map_values(|e: (Seq<char>, Vec<TaggedPolygon>)| e.1@);
                let mut i: usize = 0;
                assert(lists.take(0).flatten() =~= Seq::<TaggedPolygon>::empty());
                assert(ids@ =~= piece_flst(lists.take(0).flatten()));
                while i < m.len()
                    invariant
                        i <= kv.len(),
                        kv == m.kv(),
                        lists == kv.map_values(|e: (Seq<char>, Vec<TaggedPolygon>)| e.1@),
                        ids@ == piece_flst(lists.take(i as int).flatten()),
                    decreases kv.len() - i,
                {
                    let v = m.value_at(i);
                    parcels_of_pieces(v, &mut ids);
                    proof {
                        assert(lists.take(i + 1) =~= lists.take(i as int).push(v@));
                        lists.take(i as int).lemma_flatten_push(v@);
                        lemma_piece_flst_append(lists.take(i as int).flatten(), v@);
                    }
                    i = i + 1;
                }
                assert(lists.take(kv.len() as int) =~= lists);
            },
        }
        let w = sorted_distinct(&ids);
        assert(key_views(w@) =~= w@);
        assert(key_views(ids@) =~= ids@);
        let mut gs: Vec<usize> = Vec::new();
        let mut i: usize = 0;
        while i < w.len()
            invariant
                i <= w@.len(),
                forall|g: usize| gs@.contains(g) <==> exists|j: int| 0 <= j < i && w@[j].gemarkung == g,
            decreases w.len() - i,
        {
            let ghost before = gs@;
            let gm = w[i].gemarkung;
            gs.push(gm);
            assert(gs@ == before.push(gm));
            assert forall|g: usize| gs@.contains(g) <==> exists|j: int| 0 <= j < i + 1 && w@[j].gemarkung == g by {
                if gs@.contains(g) {
                    let p = choose|p: int| 0 <= p < gs@.len() && gs@[p] == g;
                    if p == before.len() {
                        assert(w@[i as int].gemarkung == g);
                    } else {
                        assert(before[p] == g);
                        assert(before.contains(g));
                        let j = choose|j: int| 0 <= j < i && w@[j].gemarkung == g;
                        assert(0 <= j < i + 1 && w@[j].gemarkung == g);
                    }
                }
                if exists|j: int| 0 <= j < i + 1 && w@[j].gemarkung == g {
                    let j = choose|j: int| 0 <= j < i + 1 && w@[j].gemarkung == g;
                    if j == i {
                        assert(gs@[before.len() as int] == g);
                    } else {
                        assert(exists|j2: int| 0 <= j2 < i && w@[j2].gemarkung == g);
                        assert(before.contains(g));
                        let p = choose|p: int| 0 <= p < before.len() && before[p] == g;
                        assert(gs@[p] == g);
                    }
                }
            }
            i = i + 1;
        }
        let mut gemarkungen: SortedMap<usize, SortedMap<usize, Vec<FlstIdParsedNumber>>> = SortedMap::new();
        let mut k: usize = 0;
        while k < gs.len()
            invariant
                k <= gs@.len(),
                forall|g: usize| gs@.contains(g) <==> exists|j: int| 0 <= j < w@.len() && w@[j].gemarkung == g,
                forall|g: usize|
                    match #[trigger] lookup(gemarkungen.kv(), g) {
                        Some(m) => gs@.contains(g) && forall|fl: usize|
                            match #[trigger] lookup(m.kv(), fl) {
                                Some(v) => v@ == w@.filter(in_group(g, fl)) && v@.len() > 0,
                                None => w@.filter(in_group(g, fl)).len() == 0,
                            },
                        None => !gs@.take(k as int).contains(g),
                    },
            decreases gs.len() - k,
        {
            let g = gs[k];
            let inner = group_fluren(&w, g);
            let ghost before = gemarkungen.kv();
            gemarkungen.insert(g, inner);
            assert forall|g2: usize|
                match #[trigger] lookup(gemarkungen.kv(), g2) {
                    Some(m) => gs@.contains(g2) && forall|fl: usize|
                        match #[trigger] lookup(m.kv(), fl) {
                            Some(v) => v@ == w@.filter(in_group(g2, fl)) && v@.len() > 0,
                            None => w@.filter(in_group(g2, fl)).len() == 0,
                        },
                    None => !gs@.take(k + 1).contains(g2),
                } by {
                assert(gs@.take(k + 1) =~= gs@.take(k as int).push(g));
                assert(gs@.contains(g));
                if g2 != g {
                    assert(lookup(gemarkungen.kv(), g2) == lookup(before, g2));
                    if gs@.take(k + 1).contains(g2) {
                        let p = choose|p: int| 0 <= p < k + 1 && #[trigger] gs@.take(k + 1)[p] == g2;
                        assert(gs@.take(k as int)[p] == g2);
                    }
                }
            }
            k = k + 1;
        }
        proof {
            assert(gs@.take(gs@.len() as int) =~= gs@);
            assert forall|g: usize|
                match #[trigger] lookup(gemarkungen.kv(), g) {
                    Some(m) => (exists|i: int| 0 <= i < w@.len() && w@[i].gemarkung == g) && forall|fl: usize|
                        match #[trigger] lookup(m.kv(), fl) {
                            Some(v) => v@ == w@.filter(in_group(g, fl)) && v@.len() > 0,
                            None => w@.filter(in_group(g, fl)).len() == 0,
                        },
                    None => forall|i: int| 0 <= i < w@.len() ==> w@[i].gemarkung != g,
                } by {
                if lookup(gemarkungen.kv(), g) is None {
                    assert forall|i: int| 0 <= i < w@.len() implies w@[i].gemarkung != g by {
                        if w@[i].gemarkung == g {
                            assert(gs@.contains(g));
                        }
                    }
                }
            }
            assert(is_sorted_flst_set_of(w@, piece_flst(pieces)));
            assert(groups_parcels(gemarkungen, w@));
        }
        let r = HeaderCalcConfig { gemarkungs_nr: target, gemarkungen };
        assert(is_sorted_flst_set_of(w@, piece_flst(pieces)) && groups_parcels(r.gemarkungen, w@));
        r
    }

    /// The parcels of the header, or "diverse".
    pub fn get_flst_string(&self) -> (r: String)
        ensures
            flst_string_of(*self, r@),
    {
        let f = match self.gemarkungen.get(&self.gemarkungs_nr) {
            Some(f) => f,
            None => {
                return to_string("diverse");
            },
        };
        if f.len() != 1 {
            return to_string("diverse");
        }
        let flst = f.value_at(0);
        let cl = sorted_distinct(flst);
        proof {
            assert(key_views(cl@) =~= cl@);
            assert(key_views(flst@) =~= flst@);
        }
        if cl.len() > 3 {
            assert(is_sorted_flst_set_of(cl@, f.kv()[0].1@));
            return to_string("diverse");
        }
        let mut parts: Vec<String> = Vec::new();
        let mut i: usize = 0;
        while i < cl.len()
            invariant
                i <= cl@.len(),
                string_views(parts@) == cl@.take(i as int).map_values(
                    |x: FlstIdParsedNumber| spec_format_with(x, "/"@),
                ),
            decreases cl.len() - i,
        {
            let s = cl[i].format_str();
            let ghost before = parts@;
            parts.push(s);
            assert(string_views(parts@) =~= string_views(before).push(s@));
            assert(cl@.take(i + 1).map_values(|x: FlstIdParsedNumber| spec_format_with(x, "/"@))
                =~= cl@.take(i as int).map_values(
                |x: FlstIdParsedNumber| spec_format_with(x, "/"@),
            ).push(spec_format_with(cl@[i as int], "/"@)));
            i = i + 1;
        }
        assert(cl@.take(cl@.len() as int) =~= cl@);
        let j = join_strings(&parts, ", ");
        let r = trim_str(j.as_str());
        assert(is_sorted_flst_set_of(cl@, f.kv()[0].1@));
        r
    }

    fn get_fluren_string_internal(&self) -> (r: Vec<String>)
        ensures
            string_views(r@) == dec_all(header_fluren(*self)),
    {
        let mut r: Vec<String> = Vec::new();
        match self.gemarkungen.get(&self.gemarkungs_nr) {
            Some(f) => {
                let ghost ks = f.kv().map_values(|e: (usize, Vec<FlstIdParsedNumber>)| e.0);
                let mut i: usize = 0;
                while i < f.len()
                    invariant
                        i <= f.kv().len(),
                        ks == f.kv().map_values(|e: (usize, Vec<FlstIdParsedNumber>)| e.0),
                        string_views(r@) == dec_all(ks.take(i as int)),
                    decreases f.kv().len() - i,
                {
                    let s = usize_to_string(*f.key_at(i));
                    let ghost before = r@;
                    r.push(s);
                    assert(string_views(r@) =~= string_views(before).push(s@));
                    assert(dec_all(ks.take(i + 1)) =~= dec_all(ks.take(i as int)).push(
                        dec(ks[i as int] as nat),
                    ));
                    i = i + 1;
                }
                assert(ks.take(ks.len() as int) =~= ks);
            },
            None => {
                assert(string_views(r@) =~= Seq::<Seq<char>>::empty());
            },
        }
        r
    }

    /// The Flur numbers, or "diverse" for more than four.
    pub fn get_fluren_string(&self) -> (r: String)
        ensures
            r@ == (if header_fluren(*self).len() > 4 {
                "diverse"@
            } else {
                trim(join(dec_all(header_fluren(*self)), ", "@))
            }),
    {
        let internal = self.get_fluren_string_internal();
        if internal.len() > 4 {
            to_string("diverse")
        } else {
            let j = join_strings(&internal, ", ");
            trim_str(j.as_str())
        }
    }

    /// The number of Fluren of the main Gemarkung.
    pub fn get_fluren_len(&self) -> (r: usize)
        ensures
            r == header_fluren(*self).len(),
    {
        let v = self.get_fluren_string_internal();
        assert(string_views(v@).len() == v@.len());
        v.len()
    }
}

/// The parts of a shapefile.
pub struct ShpReturn {
    pub shp: Vec<u8>,
    pub shx: Vec<u8>,
    pub dbf: Vec<u8>,
    pub prj: Vec<u8>,
    pub cpg: Vec<u8>,
}

/// A file of an export archive: folder, file name, contents.
pub type ExportFile = (Option<String>, String, Vec<u8>);

pub open spec fn opt_str_view(d: Option<String>) -> Option<Seq<char>> {
    match d {
        Some(s) => Some(s@),
        None => None,
    }
}

pub open spec fn export_file_view(f: ExportFile) -> (Option<Seq<char>>, Seq<char>, Seq<u8>) {
    (opt_str_view(f.0), f.1@, f.2@)
}

pub open spec fn export_views(v: Seq<ExportFile>) -> Seq<(Option<Seq<char>>, Seq<char>, Seq<u8>)> {
    v.map_values(|f: ExportFile| export_file_view(f))
}

fn copy_opt(d: &Option<String>) -> (r: Option<String>)
    ensures
        opt_str_view(r) == opt_str_view(*d),
{
    match d {
        Some(s) => Some(copy_string(s)),
        None => None,
    }
}

fn with_ext(name: &str, ext: &str) -> (r: String)
    ensures
        r@ == name@ + ext@,
{
    let mut v = chars_of(name);
    push_str(&mut v, ext);
    string_from_chars(v.as_slice())
}

/// Adds the five files of a shapefile, `name.shp`, `.shx`, `.dbf`, `.prj`
/// and `.cpg`, in that order, to the files of an archive.
pub fn append_shp(
    files: &mut Vec<ExportFile>,
    name: &str,
    parent_dir: Option<String>,
    shp_file: ShpReturn,
)
    ensures
        ({
            let d = match parent_dir {
                Some(s) => Some(s@),
                None => None::<Seq<char>>,
            };
            export_views(final(files)@) == export_views(old(files)@) + seq![
                (d, name@ + ".shp"@, shp_file.shp@),
                (d, name@ + ".shx"@, shp_file.shx@),
                (d, name@ + ".dbf"@, shp_file.dbf@),
                (d, name@ + ".prj"@, shp_file.prj@),
                (d, name@ + ".cpg"@, shp_file.cpg@),
            ]
        }),
{
    let ghost old_v = export_views(files@);
    let ShpReturn { shp, shx, dbf, prj, cpg } = shp_file;
    files.push((copy_opt(&parent_dir), with_ext(name, ".shp"), shp));
    files.push((copy_opt(&parent_dir), with_ext(name, ".shx"), shx));
    files.push((copy_opt(&parent_dir), with_ext(name, ".dbf"), dbf));
    files.push((copy_opt(&parent_dir), with_ext(name, ".prj"), prj));
    files.push((copy_opt(&parent_dir), with_ext(name, ".cpg"), cpg));
    assert(export_views(files@) =~= old_v + seq![
        export_file_view(files@[old_v.len() as int]),
        export_file_view(files@[old_v.len() as int + 1]),
        export_file_view(files@[old_v.len() as int + 2]),
        export_file_view(files@[old_v.len() as int + 3]),
        export_file_view(files@[old_v.len() as int + 4]),
    ]);
}

/// Some piece has `k` as its use before or after.
pub open spec fn kuerzel_used(s: Seq<AenderungenIntersection>, k: Seq<char>) -> bool {
    exists|i: int| 0 <= i < s.len() && (s[i].alt@ == k || s[i].neu@ == k)
}

/// The legend line of an abbreviation: `Name (Kürzel)`, for one in the catalogue.
pub open spec fn legend_line(cat: NutzungsArtMap, k: Seq<char>) -> Option<Seq<char>> {
    match lookup(cat.kv(), k) {
        Some(na) => Some(na.bez@ + " ("@ + k + ")"@),
        None => None,
    }
}

/// The lines of the legend: one for each abbreviation used by a piece of
/// the survey sheet that the catalogue knows, sorted; `kuerzel` lists the
/// abbreviations used, ascending.
pub open spec fn is_legend(
    r: Seq<Seq<char>>,
    s: Seq<AenderungenIntersection>,
    cat: NutzungsArtMap,
    kuerzel: Seq<Seq<char>>,
) -> bool {
    &&& lists_sorted(kuerzel, |k: Seq<char>| kuerzel_used(s, k))
    &&& ascending(r)
    &&& r.to_multiset() == kuerzel.filter_map(|k: Seq<char>| legend_line(cat, k)).to_multiset()
}

/// The lines of the legend of a survey sheet: only abbreviations that its
/// pieces use, each once, with their names, sorted.
pub fn legende_zeilen(splitflaechen: &[AenderungenIntersection], catalogue: &NutzungsArtMap) -> (r: Vec<String>)
    ensures
        exists|kuerzel: Seq<Seq<char>>| is_legend(string_views(r@), splitflaechen@, *catalogue, kuerzel),
{
    let ghost s = splitflaechen@;
    let mut all: Vec<String> = Vec::new();
    let mut i: usize = 0;
    while i < splitflaechen.len()
        invariant
            i <= s.len(),
            s == splitflaechen@,
            forall|k: Seq<char>| string_views(all@).contains(k) <==> exists|j: int| 0 <= j < i && (s[j].alt@ == k || s[j].neu@ == k),
        decreases s.len() - i,
    {
        let ghost a0 = string_views(all@);
        all.push(splitflaechen[i].alt.clone());
        let ghost a1 = string_views(all@);
        all.push(splitflaechen[i].neu.clone());
        proof {
            assert(a1 =~= a0.push(s[i as int].alt@));
            assert(string_views(all@) =~= a1.push(s[i as int].neu@));
            assert forall|k: Seq<char>| string_views(all@).contains(k) <==> exists|j: int| 0 <= j < i + 1 && (s[j].alt@ == k || s[j].neu@ == k) by {
                lemma_push_contains(a0, s[i as int].alt@, k);
                lemma_push_contains(a1, s[i as int].neu@, k);
                if exists|j: int| 0 <= j < i + 1 && (s[j].alt@ == k || s[j].neu@ == k) {
                    let j = choose|j: int| 0 <= j < i + 1 && (s[j].alt@ == k || s[j].neu@ == k);
                    if j < i {
                        assert(exists|j: int| 0 <= j < i && (s[j].alt@ == k || s[j].neu@ == k));
                    }
                }
            }
        }
        i = i + 1;
    }
    let ks = sorted_distinct(&all);
    let ghost kv = string_views(ks@);
    proof {
        assert(key_views(ks@) =~= kv);
        assert(key_views(all@) =~= string_views(all@));
        assert forall|k: Seq<char>| kv.contains(k) <==> kuerzel_used(s, k) by {}
    }
    let ghost f = |k: Seq<char>| legend_line(*catalogue, k);
    let mut lines: Vec<String> = Vec::new();
    let mut j: usize = 0;
    while j < ks.len()
        invariant
            j <= ks@.len(),
            kv == string_views(ks@),
            f == (|k: Seq<char>| legend_line(*catalogue, k)),
            string_views(lines@) == kv.take(j as int).filter_map(f),
        decreases ks.len() - j,
    {
        proof {
            kv.lemma_filter_map_take_succ(f, j as int);
        }
        assert(kv[j as int] == ks@[j as int]@);
        match catalogue.get(&ks[j]) {
            Some(na) => {
                let mut c = chars_of(na.bez.as_str());
                push_str(&mut c, " (");
                push_str(&mut c, ks[j].as_str());
                push_str(&mut c, ")");
                let line = string_from_chars(c.as_slice());
                let ghost before = string_views(lines@);
                lines.push(line);
                assert(string_views(lines@) =~= before.push(line@));
                assert(before.push(line@) =~= before + seq![line@]);
            },
            None => {
                assert(kv.take(j as int).filter_map(f) + Seq::<Seq<char>>::empty() =~= kv.take(j as int).filter_map(f));
            },
        }
        j = j + 1;
    }
    assert(kv.take(kv.len() as int) =~= kv);
    let r = sort_strings(lines);
    assert(is_legend(string_views(r@), s, *catalogue, kv));
    r
}


/// A parcel's number `zaehler.nenner` read as a decimal: `rank` orders
/// parcels by that number (equal numbers rank alike), `whole` is its
/// whole-number part.
#[derive(Debug, Clone, Copy, PartialEq, Eq)]
pub struct CommaKey {
    pub rank: i64,
    pub whole: usize,
}

/// Position `a` comes before position `b`: by rank, equal ranks by position.
pub open spec fn ranks_before(k: Seq<i64>, a: usize, b: usize) -> bool {
    k[a as int] < k[b as int] || (k[a as int] == k[b as int] && a < b)
}

/// `p` lists every position of `k` once, by rank, equal ranks in their
/// order (a stable sort by rank).
pub open spec fn is_rank_order(k: Seq<i64>, p: Seq<usize>) -> bool {
    &&& p.len() == k.len()
    &&& forall|i: int| 0 <= i < p.len() ==> #[trigger] p[i] < k.len()
    &&& forall|i: int, j: int| #![trigger p[i], p[j]] 0 <= i < j < p.len() ==> ranks_before(k, p[i], p[j])
    &&& forall|q: usize| q < k.len() ==> #[trigger] p.contains(q)
}

proof fn lemma_rank_prefix(k: Seq<i64>, p1: Seq<usize>, p2: Seq<usize>, m: int)
    requires
        is_rank_order(k, p1),
        is_rank_order(k, p2),
        0 <= m <= p1.len(),
    ensures
        forall|i: int| 0 <= i < m ==> p1[i] == p2[i],
    decreases m,
{
    if m > 0 {
        lemma_rank_prefix(k, p1, p2, m - 1);
        let i = m - 1;
        if p1[i] != p2[i] {
            let a = p1[i];
            let b = p2[i];
            assert(p2.contains(a));
            let j = choose|j: int| 0 <= j < p2.len() && p2[j] == a;
            assert(p1.contains(b));
            let j2 = choose|j: int| 0 <= j < p1.len() && p1[j] == b;
            if j < i {
                assert(p1[j] == p2[j]);
                assert(ranks_before(k, p1[j], p1[i]));
            } else if j2 < i {
                assert(p1[j2] == p2[j2]);
                assert(ranks_before(k, p2[j2], p2[i]));
            } else {
                assert(j != i);
                assert(j2 != i);
                assert(ranks_before(k, p2[i], p2[j]));
                assert(ranks_before(k, p1[i], p1[j2]));
            }
        }
    }
}

/// There is one stable order by rank.
pub proof fn lemma_rank_order_unique(k: Seq<i64>, p1: Seq<usize>, p2: Seq<usize>)
    requires
        is_rank_order(k, p1),
        is_rank_order(k, p2),
    ensures
        p1 == p2,
{
    lemma_rank_prefix(k, p1, p2, p1.len() as int);
    assert(p1 =~= p2);
}

/// The stable order by rank of the positions of `k`.
pub open spec fn rank_order(k: Seq<i64>) -> Seq<usize> {
    choose|p: Seq<usize>| is_rank_order(k, p)
}

/// The positions of `k` in stable order by rank.
fn rank_positions(k: &Vec<i64>) -> (p: Vec<usize>)
    ensures
        is_rank_order(k@, p@),
        p@ == rank_order(k@),
{
    let mut p: Vec<usize> = Vec::new();
    let mut j: usize = 0;
    while j < k.len()
        invariant
            j <= k@.len(),
            p@.len() == j,
            forall|i: int| 0 <= i < p@.len() ==> #[trigger] p@[i] < j,
            forall|i: int, i2: int|
                #![trigger p@[i], p@[i2]]
                0 <= i < i2 < p@.len() ==> ranks_before(k@, p@[i], p@[i2]),
            forall|q: usize| q < j ==> #[trigger] p@.contains(q),
        decreases k.len() - j,
    {
        let mut pos: usize = 0;
        while pos < p.len() && k[p[pos]] <= k[j]
            invariant
                j < k@.len(),
                pos <= p@.len(),
                p@.len() == j,
                forall|i: int| 0 <= i < p@.len() ==> #[trigger] p@[i] < j,
                forall|i: int| 0 <= i < pos ==> k@[#[trigger] p@[i] as int] <= k@[j as int],
            decreases p.len() - pos,
        {
            pos = pos + 1;
        }
        let ghost old_p = p@;
        p.insert(pos, j);
        proof {
            assert(p@ == old_p.insert(pos as int, j));
            assert forall|i: int| 0 <= i < p@.len() implies #[trigger] p@[i] < j + 1 by {
                if i < pos {
                    assert(p@[i] == old_p[i]);
                } else if i > pos {
                    assert(p@[i] == old_p[i - 1]);
                }
            }
            assert forall|i: int, i2: int|
                #![trigger p@[i], p@[i2]]
                0 <= i < i2 < p@.len() implies ranks_before(k@, p@[i], p@[i2]) by {
                if i2 < pos {
                    assert(p@[i] == old_p[i] && p@[i2] == old_p[i2]);
                } else if i2 == pos {
                    assert(p@[i] == old_p[i]);
                    assert(k@[old_p[i] as int] <= k@[j as int]);
                } else if i == pos {
                    assert(p@[i2] == old_p[i2 - 1]);
                    if i2 - 1 > pos {
                        assert(ranks_before(k@, old_p[pos as int], old_p[i2 - 1]));
                    }
                } else if i < pos {
                    assert(p@[i] == old_p[i] && p@[i2] == old_p[i2 - 1]);
                } else {
                    assert(p@[i] == old_p[i - 1] && p@[i2] == old_p[i2 - 1]);
                }
            }
            assert forall|q: usize| q < j + 1 implies #[trigger] p@.contains(q) by {
                if q == j {
                    assert(p@[pos as int] == j);
                } else {
                    assert(old_p.contains(q));
                    let t = choose|t: int| 0 <= t < old_p.len() && old_p[t] == q;
                    if t < pos {
                        assert(p@[t] == q);
                    } else {
                        assert(p@[t + 1] == q);
                    }
                }
            }
        }
        j = j + 1;
    }
    proof {
        assert(is_rank_order(k@, p@));
        lemma_rank_order_unique(k@, p@, rank_order(k@));
    }
    p
}

/// The key given for parcel `f`.
pub open spec fn comma_key(keys: Seq<(FlstIdParsedNumber, CommaKey)>, f: FlstIdParsedNumber) -> CommaKey {
    lookup(keys, f).unwrap()
}

/// Every parcel of `v` has a key.
pub open spec fn has_keys(v: Seq<FlstIdParsedNumber>, keys: Seq<(FlstIdParsedNumber, CommaKey)>) -> bool {
    forall|i: int| 0 <= i < v.len() ==> (#[trigger] lookup(keys, v[i])) is Some
}

/// The parcels in the order of their numbers, parcels of equal numbers in
/// their order.
pub open spec fn by_number(v: Seq<FlstIdParsedNumber>, keys: Seq<(FlstIdParsedNumber, CommaKey)>) -> Seq<
    FlstIdParsedNumber,
> {
    rank_order(v.map_values(|f: FlstIdParsedNumber| comma_key(keys, f).rank)).map_values(
        |i: usize| v[i as int],
    )
}

/// The parcels of a Flur as ranges, ordered by number (`join_flst_sorted`
/// on them).
pub open spec fn spec_join_flst_numbered(v: Seq<FlstIdParsedNumber>, keys: Seq<(FlstIdParsedNumber, CommaKey)>) -> Seq<char> {
    let s = by_number(v, keys);
    spec_join_flst(s, s.map_values(|f: FlstIdParsedNumber| comma_key(keys, f).whole))
}

/// Orders the parcels of one Flur by number and joins them as ranges;
/// `None` for no parcel.
pub fn join_flst(v: &[FlstIdParsedNumber], keys: &SortedMap<FlstIdParsedNumber, CommaKey>) -> (r: Option<String>)
    requires
        has_keys(v@, keys.kv()),
    ensures
        v@.len() == 0 <==> r is None,
        r matches Some(s) ==> s@ == spec_join_flst_numbered(v@, keys.kv()),
{
    let ghost kv = keys.kv();
    let ghost ranks_v = v@.map_values(|f: FlstIdParsedNumber| comma_key(kv, f).rank);
    let mut ranks: Vec<i64> = Vec::new();
    let mut i: usize = 0;
    while i < v.len()
        invariant
            i <= v@.len(),
            kv == keys.kv(),
            has_keys(v@, kv),
            ranks_v == v@.map_values(|f: FlstIdParsedNumber| comma_key(kv, f).rank),
            ranks@ == ranks_v.take(i as int),
        decreases v.len() - i,
    {
        assert(lookup(kv, v@[i as int]) is Some);
        let c = match keys.get(&v[i]) {
            Some(c) => *c,
            None => {
                assert(false);
                CommaKey { rank: 0, whole: 0 }
            },
        };
        assert(comma_key(kv, v@[i as int]) == c);
        assert(ranks_v[i as int] == c.rank);
        ranks.push(c.rank);
        assert(ranks_v.take(i + 1) =~= ranks_v.take(i as int).push(c.rank));
        i = i + 1;
    }
    assert(ranks_v.take(v@.len() as int) =~= ranks_v);
    let p = rank_positions(&ranks);
    let ghost sorted = by_number(v@, kv);
    assert(sorted == p@.map_values(|q: usize| v@[q as int]));
    let mut s: Vec<FlstIdParsedNumber> = Vec::new();
    let mut wholes: Vec<usize> = Vec::new();
    let mut t: usize = 0;
    while t < p.len()
        invariant
            t <= p@.len(),
            kv == keys.kv(),
            has_keys(v@, kv),
            is_rank_order(ranks@, p@),
            ranks@.len() == v@.len(),
            sorted == p@.map_values(|q: usize| v@[q as int]),
            s@ == sorted.take(t as int),
            wholes@ == sorted.take(t as int).map_values(|f: FlstIdParsedNumber| comma_key(kv, f).whole),
        decreases p.len() - t,
    {
        let q = p[t];
        assert(p@[t as int] < ranks@.len());
        let f = v[q];
        assert(f == sorted[t as int]);
        assert(lookup(kv, v@[q as int]) is Some);
        let c = match keys.get(&f) {
            Some(c) => *c,
            None => {
                assert(false);
                CommaKey { rank: 0, whole: 0 }
            },
        };
        s.push(f);
        wholes.push(c.whole);
        assert(sorted.take(t + 1) =~= sorted.take(t as int).push(f));
        assert(sorted.take(t + 1).map_values(|f: FlstIdParsedNumber| comma_key(kv, f).whole)
            =~= sorted.take(t as int).map_values(|f: FlstIdParsedNumber| comma_key(kv, f).whole).push(c.whole));
        t = t + 1;
    }
    assert(sorted.take(p@.len() as int) =~= sorted);
    join_flst_sorted(s.as_slice(), wholes.as_slice())
}


/// `Fl. 3: `, the label of a Flur.
pub open spec fn flur_label_text(fl: usize) -> Seq<char> {
    "Fl. "@ + dec(fl as nat) + ": "@
}

proof fn lemma_flur_label_injective(a: usize, b: usize)
    requires
        flur_label_text(a) == flur_label_text(b),
    ensures
        a == b,
{
    reveal_strlit("Fl. ");
    reveal_strlit(": ");
    crate::xlsx::lemma_dec_digits(a as nat);
    crate::xlsx::lemma_dec_digits(b as nat);
    let la = flur_label_text(a);
    assert(dec(a as nat) =~= la.subrange(4, la.len() - 2));
    assert(dec(b as nat) =~= la.subrange(4, la.len() - 2));
}

/// Each Flur of an owner as a line: its label, then its parcels as ranges.
pub open spec fn flur_lines(
    m: Seq<(usize, Vec<FlstIdParsedNumber>)>,
    keys: Seq<(FlstIdParsedNumber, CommaKey)>,
) -> Seq<Seq<char>> {
    m.map_values(
        |e: (usize, Vec<FlstIdParsedNumber>)| flur_label_text(e.0) + spec_join_flst_numbered(e.1@, keys),
    )
}

/// Every parcel of the map has a key.
pub open spec fn parcels_have_keys(
    m: Seq<(FlstIdParsedNumber, FlstEigentuemer)>,
    keys: Seq<(FlstIdParsedNumber, CommaKey)>,
) -> bool {
    forall|i: int| 0 <= i < m.len() ==> (#[trigger] lookup(keys, m[i].0)) is Some
}

/// `r` names the owners of the grouping `g` in its order, each with its
/// Flur lines.
pub open spec fn owner_lines_of(
    r: Seq<(EigentuemerClean, Vec<String>)>,
    g: Seq<OwnerGroup>,
    keys: Seq<(FlstIdParsedNumber, CommaKey)>,
) -> bool {
    &&& r.len() == g.len()
    &&& forall|i: int|
        0 <= i < g.len() ==> (#[trigger] r[i]).0@ == g[i].0@ && string_views(r[i].1@) == flur_lines(
            g[i].1.kv(),
            keys,
        )
}

proof fn lemma_entry_parcel(m: Seq<(FlstIdParsedNumber, FlstEigentuemer)>, j: int)
    requires
        0 <= j < owner_entries(m).len(),
    ensures
        exists|i: int| 0 <= i < m.len() && m[i].0 == owner_entries(m)[j].0,
    decreases m.len(),
{
    reveal(owner_entries);
    if m.len() > 0 {
        let d = m.drop_last();
        let a = owner_entries(d);
        assert(owner_entries(m) == a + owners_of_parcel(m.last()));
        if j < a.len() {
            lemma_entry_parcel(d, j);
            let i = choose|i: int| 0 <= i < d.len() && d[i].0 == a[j].0;
            assert(m[i] == d[i]);
        } else {
            assert(owner_entries(m)[j] == owners_of_parcel(m.last())[j - a.len()]);
            assert(m[m.len() - 1] == m.last());
        }
    }
}

proof fn lemma_class_parcel_keys(
    m: Seq<(FlstIdParsedNumber, FlstEigentuemer)>,
    keys: Seq<(FlstIdParsedNumber, CommaKey)>,
    o: EigentuemerView,
    fl: usize,
)
    requires
        parcels_have_keys(m, keys),
    ensures
        has_keys(class_parcels(owner_entries(m), o, fl), keys),
{
    let es = owner_entries(m);
    let v = class_parcels(es, o, fl);
    let f = |x: OwnerEntry|
        if eig_equiv(x.1, o) && x.0.flur == fl {
            Some(x.0)
        } else {
            None
        };
    assert forall|t: int| 0 <= t < v.len() implies (#[trigger] lookup(keys, v[t])) is Some by {
        assert(v.contains(v[t]));
        es.lemma_filter_map_contains(f, v[t]);
        let x = choose|x: OwnerEntry| es.contains(x) && f(x) == Some(v[t]);
        let j = choose|j: int| 0 <= j < es.len() && es[j] == x;
        lemma_entry_parcel(m, j);
        let i = choose|i: int| 0 <= i < m.len() && m[i].0 == es[j].0;
        assert(lookup(keys, m[i].0) is Some);
    }
}

/// Each owner with its parcels, one line per Flur (`Fl. 3: 1 - 4, 7/2`),
/// owners in their order, Fluren ascending.
#[verifier::spinoff_prover]
#[verifier::rlimit(30)]
pub fn get_eigentuemer(
    eigentuemer_map: &SortedMap<FlstIdParsedNumber, FlstEigentuemer>,
    keys: &SortedMap<FlstIdParsedNumber, CommaKey>,
) -> (r: Vec<(EigentuemerClean, Vec<String>)>)
    requires
        parcels_have_keys(eigentuemer_map.kv(), keys.kv()),
    ensures
        exists|g: Seq<OwnerGroup>|
            #[trigger] is_owner_grouping(owner_entries(eigentuemer_map.kv()), g) && owner_lines_of(
                r@,
                g,
                keys.kv(),
            ),
{
    let groups = group_by_eigentuemer(eigentuemer_map);
    let ghost m = eigentuemer_map.kv();
    let ghost es = owner_entries(m);
    let ghost kv = keys.kv();
    let mut out: Vec<(EigentuemerClean, Vec<String>)> = Vec::new();
    let mut i: usize = 0;
    while i < groups.len()
        invariant
            i <= groups@.len(),
            m == eigentuemer_map.kv(),
            es == owner_entries(m),
            kv == keys.kv(),
            is_owner_grouping(es, groups@),
            parcels_have_keys(m, kv),
            out@.len() == i,
            forall|a: int|
                0 <= a < i ==> (#[trigger] out@[a]).0@ == groups@[a].0@ && string_views(out@[a].1@)
                    == flur_lines(groups@[a].1.kv(), kv),
        decreases groups.len() - i,
    {
        let owner = &groups[i].0;
        let fluren = &groups[i].1;
        proof {
            reveal(is_owner_grouping);
        }
        fluren.lemma_sorted();
        let mut lines: Vec<String> = Vec::new();
        let mut j: usize = 0;
        while j < fluren.len()
            invariant
                j <= fluren.kv().len(),
                m == eigentuemer_map.kv(),
                es == owner_entries(m),
                kv == keys.kv(),
                parcels_have_keys(m, kv),
                keys_sorted::<usize, Vec<FlstIdParsedNumber>>(fluren.kv()),
                forall|fl: usize| #[trigger] lists_match(es, owner@, *fluren, fl),
                string_views(lines@) == flur_lines(fluren.kv().take(j as int), kv),
            decreases fluren.kv().len() - j,
        {
            let fl = *fluren.key_at(j);
            let list = fluren.value_at(j);
            proof {
                lemma_key_index_unique::<usize, Vec<FlstIdParsedNumber>>(fluren.kv(), j as int);
                assert(lists_match(es, owner@, *fluren, fl));
                lemma_class_parcel_keys(m, kv, owner@, fl);
            }
            match join_flst(list.as_slice(), keys) {
                Some(s) => {
                    let label = flur_label(fl);
                    let mut c = chars_of(label.as_str());
                    push_str(&mut c, s.as_str());
                    let line = string_from_chars(c.as_slice());
                    let ghost before = string_views(lines@);
                    lines.push(line);
                    assert(string_views(lines@) =~= before.push(line@));
                    assert(fluren.kv().take(j + 1) =~= fluren.kv().take(j as int).push(fluren.kv()[j as int]));
                    assert(flur_lines(fluren.kv().take(j + 1), kv) =~= flur_lines(fluren.kv().take(j as int), kv).push(line@));
                },
                None => {
                    assert(false);
                },
            }
            j = j + 1;
        }
        assert(fluren.kv().take(fluren.kv().len() as int) =~= fluren.kv());
        let ghost before = out@;
        out.push((owner.copy(), lines));
        assert forall|a: int|
            0 <= a < i + 1 implies (#[trigger] out@[a]).0@ == groups@[a].0@ && string_views(out@[a].1@)
                == flur_lines(groups@[a].1.kv(), kv) by {
            if a < i {
                assert(out@[a] == before[a]);
            }
        }
        i = i + 1;
    }
    assert(owner_lines_of(out@, groups@, kv));
    out
}

/// Every list of the map has keys for its parcels.
pub open spec fn lists_have_keys(
    m: Seq<(usize, Vec<FlstIdParsedNumber>)>,
    keys: Seq<(FlstIdParsedNumber, CommaKey)>,
) -> bool {
    forall|i: int| 0 <= i < m.len() ==> has_keys(#[trigger] m[i].1@, keys)
}

/// The changed parcels by the label of their Flur (`Fl. 3: `), as ranges;
/// Fluren without parcels are left out.
pub fn join_modified_fluren(
    modified: &SortedMap<usize, Vec<FlstIdParsedNumber>>,
    keys: &SortedMap<FlstIdParsedNumber, CommaKey>,
) -> (r: SortedMap<String, String>)
    requires
        lists_have_keys(modified.kv(), keys.kv()),
    ensures
        forall|fl: usize|
            match #[trigger] lookup(modified.kv(), fl) {
                Some(v) => v@.len() > 0 ==> match lookup(r.kv(), flur_label_text(fl)) {
                    Some(t) => t@ == spec_join_flst_numbered(v@, keys.kv()),
                    None => false,
                },
                None => true,
            },
        forall|s: Seq<char>|
            (#[trigger] lookup(r.kv(), s)) is Some ==> exists|fl: usize|
                s == #[trigger] flur_label_text(fl) && match lookup(modified.kv(), fl) {
                    Some(v) => v@.len() > 0,
                    None => false,
                },
{
    let ghost m = modified.kv();
    let ghost kv = keys.kv();
    modified.lemma_sorted();
    let mut out: SortedMap<String, String> = SortedMap::new();
    let mut i: usize = 0;
    while i < modified.len()
        invariant
            i <= m.len(),
            m == modified.kv(),
            kv == keys.kv(),
            keys_sorted::<usize, Vec<FlstIdParsedNumber>>(m),
            lists_have_keys(m, kv),
            forall|a: int|
                0 <= a < i && m[a].1@.len() > 0 ==> match #[trigger] lookup(
                    out.kv(),
                    flur_label_text(m[a].0),
                ) {
                    Some(t) => t@ == spec_join_flst_numbered(m[a].1@, kv),
                    None => false,
                },
            forall|s: Seq<char>|
                (#[trigger] lookup(out.kv(), s)) is Some ==> exists|a: int|
                    0 <= a < i && m[a].1@.len() > 0 && s == flur_label_text(m[a].0),
        decreases m.len() - i,
    {
        let fl = *modified.key_at(i);
        let list = modified.value_at(i);
        assert(has_keys(m[i as int].1@, kv));
        match join_flst(list.as_slice(), keys) {
            Some(s) => {
                let label = flur_label(fl);
                let ghost lt = label@;
                let ghost old_kv = out.kv();
                out.insert(label, s);
                proof {
                    assert forall|a: int|
                        0 <= a < i + 1 && m[a].1@.len() > 0 implies match #[trigger] lookup(
                            out.kv(),
                            flur_label_text(m[a].0),
                        ) {
                            Some(t) => t@ == spec_join_flst_numbered(m[a].1@, kv),
                            None => false,
                        } by {
                        if a < i {
                            if flur_label_text(m[a].0) == lt {
                                lemma_flur_label_injective(m[a].0, fl);
                            }
                            assert(lookup(out.kv(), flur_label_text(m[a].0)) == lookup(
                                old_kv,
                                flur_label_text(m[a].0),
                            ));
                        }
                    }
                    assert forall|q: Seq<char>|
                        (#[trigger] lookup(out.kv(), q)) is Some implies exists|a: int|
                            0 <= a < i + 1 && m[a].1@.len() > 0 && q == flur_label_text(m[a].0) by {
                        if q != lt {
                            assert(lookup(out.kv(), q) == lookup(old_kv, q));
                            let a = choose|a: int|
                                0 <= a < i && m[a].1@.len() > 0 && q == flur_label_text(m[a].0);
                            assert(0 <= a < i + 1 && m[a].1@.len() > 0 && q == flur_label_text(m[a].0));
                        } else {
                            assert(m[i as int].1@.len() > 0);
                        }
                    }
                }
            },
            None => {
                proof {
                    assert forall|a: int|
                        0 <= a < i + 1 && m[a].1@.len() > 0 implies match #[trigger] lookup(
                            out.kv(),
                            flur_label_text(m[a].0),
                        ) {
                            Some(t) => t@ == spec_join_flst_numbered(m[a].1@, kv),
                            None => false,
                        } by {
                        if a == i {
                            assert(false);
                        }
                    }
                    assert forall|q: Seq<char>|
                        (#[trigger] lookup(out.kv(), q)) is Some implies exists|a: int|
                            0 <= a < i + 1 && m[a].1@.len() > 0 && q == flur_label_text(m[a].0) by {
                        let a = choose|a: int|
                            0 <= a < i && m[a].1@.len() > 0 && q == flur_label_text(m[a].0);
                        assert(0 <= a < i + 1 && m[a].1@.len() > 0 && q == flur_label_text(m[a].0));
                    }
                }
            },
        }
        i = i + 1;
    }
    proof {
        assert forall|fl: usize|
            match #[trigger] lookup(m, fl) {
                Some(v) => v@.len() > 0 ==> match lookup(out.kv(), flur_label_text(fl)) {
                    Some(t) => t@ == spec_join_flst_numbered(v@, kv),
                    None => false,
                },
                None => true,
            } by {
            if let Some(v) = lookup(m, fl) {
                let a = key_index(m, fl).unwrap();
                assert(m[a].0 == fl && m[a].1 == v);
                if v@.len() > 0 {
                    assert(0 <= a < m.len() && m[a].1@.len() > 0);
                }
            }
        }
        assert forall|q: Seq<char>|
            (#[trigger] lookup(out.kv(), q)) is Some implies exists|fl: usize|
                q == #[trigger] flur_label_text(fl) && match lookup(m, fl) {
                    Some(v) => v@.len() > 0,
                    None => false,
                } by {
            let a = choose|a: int| 0 <= a < m.len() && m[a].1@.len() > 0 && q == flur_label_text(m[a].0);
            lemma_key_index_unique::<usize, Vec<FlstIdParsedNumber>>(m, a);
            assert(q == flur_label_text(m[a].0));
        }
    }
    out
}


/// The views of a list of owners.
pub open spec fn owner_views(v: Seq<EigentuemerClean>) -> Seq<EigentuemerView> {
    v.map_values(|o: EigentuemerClean| o@)
}

/// Position `a` comes before position `b`: by owner order, owners that sort
/// alike by position.
pub open spec fn owner_before(e: Seq<EigentuemerView>, a: usize, b: usize) -> bool {
    eig_lt(e[a as int], e[b as int]) || (eig_equiv(e[a as int], e[b as int]) && a < b)
}

/// `p` lists every position of `e` once, in owner order, owners that sort
/// alike in their order (a stable sort).
pub open spec fn is_owner_order(e: Seq<EigentuemerView>, p: Seq<usize>) -> bool {
    &&& p.len() == e.len()
    &&& forall|i: int| 0 <= i < p.len() ==> #[trigger] p[i] < e.len()
    &&& forall|i: int, j: int| #![trigger p[i], p[j]] 0 <= i < j < p.len() ==> owner_before(e, p[i], p[j])
    &&& forall|q: usize| q < e.len() ==> #[trigger] p.contains(q)
}

proof fn lemma_owner_before_asym(e: Seq<EigentuemerView>, a: usize, b: usize)
    requires
        a < e.len(),
        b < e.len(),
    ensures
        !(owner_before(e, a, b) && owner_before(e, b, a)),
        !owner_before(e, a, a),
{
    lemma_eigentuemer_order_total(e[a as int], e[b as int]);
    lemma_eigentuemer_order_total(e[a as int], e[a as int]);
}

proof fn lemma_owner_prefix(e: Seq<EigentuemerView>, p1: Seq<usize>, p2: Seq<usize>, m: int)
    requires
        is_owner_order(e, p1),
        is_owner_order(e, p2),
        0 <= m <= p1.len(),
    ensures
        forall|i: int| 0 <= i < m ==> p1[i] == p2[i],
    decreases m,
{
    if m > 0 {
        lemma_owner_prefix(e, p1, p2, m - 1);
        let i = m - 1;
        if p1[i] != p2[i] {
            let a = p1[i];
            let b = p2[i];
            assert(p2.contains(a));
            let j = choose|j: int| 0 <= j < p2.len() && p2[j] == a;
            assert(p1.contains(b));
            let j2 = choose|j: int| 0 <= j < p1.len() && p1[j] == b;
            lemma_owner_before_asym(e, a, b);
            lemma_owner_before_asym(e, b, a);
            if j < i {
                assert(p1[j] == p2[j]);
                assert(owner_before(e, p1[j], p1[i]));
            } else if j2 < i {
                assert(p1[j2] == p2[j2]);
                assert(owner_before(e, p2[j2], p2[i]));
            } else {
                assert(j != i);
                assert(j2 != i);
                assert(owner_before(e, p2[i], p2[j]));
                assert(owner_before(e, p1[i], p1[j2]));
            }
        }
    }
}

/// There is one stable order of owners.
pub proof fn lemma_owner_order_unique(e: Seq<EigentuemerView>, p1: Seq<usize>, p2: Seq<usize>)
    requires
        is_owner_order(e, p1),
        is_owner_order(e, p2),
    ensures
        p1 == p2,
{
    lemma_owner_prefix(e, p1, p2, p1.len() as int);
    assert(p1 =~= p2);
}

/// The stable owner order of the positions of `e`.
pub open spec fn owner_order(e: Seq<EigentuemerView>) -> Seq<usize> {
    choose|p: Seq<usize>| is_owner_order(e, p)
}

/// The positions of `e` in stable owner order.
fn owner_positions(e: &Vec<EigentuemerClean>) -> (p: Vec<usize>)
    ensures
        is_owner_order(owner_views(e@), p@),
        p@ == owner_order(owner_views(e@)),
{
    let ghost ev = owner_views(e@);
    let mut p: Vec<usize> = Vec::new();
    let mut j: usize = 0;
    while j < e.len()
        invariant
            ev == owner_views(e@),
            j <= e@.len(),
            p@.len() == j,
            forall|i: int| 0 <= i < p@.len() ==> #[trigger] p@[i] < j,
            forall|i: int, i2: int|
                #![trigger p@[i], p@[i2]]
                0 <= i < i2 < p@.len() ==> owner_before(ev, p@[i], p@[i2]),
            forall|q: usize| q < j ==> #[trigger] p@.contains(q),
        decreases e.len() - j,
    {
        let mut pos: usize = 0;
        while pos < p.len() && !e[j].sorts_before(&e[p[pos]])
            invariant
                ev == owner_views(e@),
                j < e@.len(),
                pos <= p@.len(),
                p@.len() == j,
                forall|i: int| 0 <= i < p@.len() ==> #[trigger] p@[i] < j,
                forall|i: int| 0 <= i < pos ==> !eig_lt(ev[j as int], ev[#[trigger] p@[i] as int]),
            decreases p.len() - pos,
        {
            pos = pos + 1;
        }
        let ghost old_p = p@;
        p.insert(pos, j);
        proof {
            assert(p@ == old_p.insert(pos as int, j));
            assert forall|i: int| 0 <= i < p@.len() implies #[trigger] p@[i] < j + 1 by {
                if i < pos {
                    assert(p@[i] == old_p[i]);
                } else if i > pos {
                    assert(p@[i] == old_p[i - 1]);
                }
            }
            assert forall|i: int, i2: int|
                #![trigger p@[i], p@[i2]]
                0 <= i < i2 < p@.len() implies owner_before(ev, p@[i], p@[i2]) by {
                if i2 < pos {
                    assert(p@[i] == old_p[i] && p@[i2] == old_p[i2]);
                } else if i2 == pos {
                    assert(p@[i] == old_p[i]);
                    assert(!eig_lt(ev[j as int], ev[old_p[i] as int]));
                    lemma_eigentuemer_order_total(ev[j as int], ev[old_p[i] as int]);
                } else if i == pos {
                    assert(p@[i2] == old_p[i2 - 1]);
                    let a = ev[j as int];
                    let b = ev[old_p[pos as int] as int];
                    let c = ev[old_p[i2 - 1] as int];
                    assert(eig_lt(a, b));
                    if i2 - 1 > pos {
                        assert(owner_before(ev, old_p[pos as int], old_p[i2 - 1]));
                        if eig_lt(b, c) {
                            lemma_eigentuemer_order_transitive(a, b, c);
                        }
                    }
                } else if i < pos {
                    assert(p@[i] == old_p[i] && p@[i2] == old_p[i2 - 1]);
                } else {
                    assert(p@[i] == old_p[i - 1] && p@[i2] == old_p[i2 - 1]);
                }
            }
            assert forall|q: usize| q < j + 1 implies #[trigger] p@.contains(q) by {
                if q == j {
                    assert(p@[pos as int] == j);
                } else {
                    assert(old_p.contains(q));
                    let t = choose|t: int| 0 <= t < old_p.len() && old_p[t] == q;
                    if t < pos {
                        assert(p@[t] == q);
                    } else {
                        assert(p@[t + 1] == q);
                    }
                }
            }
        }
        j = j + 1;
    }
    proof {
        assert(is_owner_order(ev, p@));
        lemma_owner_order_unique(ev, p@, owner_order(ev));
    }
    p
}

/// Runs of equal owners kept once, as `Vec::dedup` does.
pub open spec fn dedup_owners(s: Seq<EigentuemerView>) -> Seq<EigentuemerView>
    decreases s.len(),
{
    if s.len() == 0 {
        s
    } else if s.len() >= 2 && s[s.len() - 2] == s.last() {
        dedup_owners(s.drop_last())
    } else {
        dedup_owners(s.drop_last()).push(s.last())
    }
}

impl EigentuemerClean {
    /// The two owners are the same.
    pub fn same(&self, other: &Self) -> (r: bool)
        ensures
            r == (self@ == other@),
    {
        match (self, other) {
            (
                EigentuemerClean::Herr { vorname: a, nachname: b },
                EigentuemerClean::Herr { vorname: c, nachname: d },
            ) => str_eq(a.as_str(), c.as_str()) && str_eq(b.as_str(), d.as_str()),
            (
                EigentuemerClean::Frau { vorname: a, nachname: b },
                EigentuemerClean::Frau { vorname: c, nachname: d },
            ) => str_eq(a.as_str(), c.as_str()) && str_eq(b.as_str(), d.as_str()),
            (EigentuemerClean::Firma { name: a }, EigentuemerClean::Firma { name: c }) => str_eq(
                a.as_str(),
                c.as_str(),
            ),
            (EigentuemerClean::Sonstige { name: a }, EigentuemerClean::Sonstige { name: c }) => str_eq(
                a.as_str(),
                c.as_str(),
            ),
            _ => false,
        }
    }
}

/// The owners of a parcel's records: read, in owner order (owners that
/// sort alike in record order), each run of the same owner once.
pub open spec fn record_owners(ds: Seq<DatensatzView>) -> Seq<EigentuemerView> {
    let e = ds.map_values(|d: DatensatzView| spec_eig_from_str(d.eigentuemer));
    dedup_owners(owner_order(e).map_values(|i: usize| e[i as int]))
}

/// Reads, sorts and deduplicates the owners of a parcel's records.
pub fn owners_of_records(ds: &Vec<CsvDatensatz>) -> (r: Vec<EigentuemerClean>)
    ensures
        owner_views(r@) == record_owners(datensaetze_view(ds@)),
{
    let ghost dv = datensaetze_view(ds@);
    let ghost ev = dv.map_values(|d: DatensatzView| spec_eig_from_str(d.eigentuemer));
    let mut read: Vec<EigentuemerClean> = Vec::new();
    let mut i: usize = 0;
    while i < ds.len()
        invariant
            i <= ds@.len(),
            dv == datensaetze_view(ds@),
            ev == dv.map_values(|d: DatensatzView| spec_eig_from_str(d.eigentuemer)),
            owner_views(read@) == ev.take(i as int),
        decreases ds.len() - i,
    {
        let o = EigentuemerClean::from_str(ds[i].eigentuemer.as_str());
        let ghost before = read@;
        read.push(o);
        assert(owner_views(read@) =~= owner_views(before).push(o@));
        assert(ev.take(i + 1) =~= ev.take(i as int).push(ev[i as int]));
        i = i + 1;
    }
    assert(ev.take(ds@.len() as int) =~= ev);
    let p = owner_positions(&read);
    let ghost sorted = p@.map_values(|q: usize| ev[q as int]);
    proof {
        assert(is_owner_order(ev, p@));
    }
    let mut out: Vec<EigentuemerClean> = Vec::new();
    let mut t: usize = 0;
    while t < p.len()
        invariant
            t <= p@.len(),
            is_owner_order(ev, p@),
            owner_views(read@) == ev,
            sorted == p@.map_values(|q: usize| ev[q as int]),
            owner_views(out@) == dedup_owners(sorted.take(t as int)),
            t > 0 ==> out@.len() > 0 && out@.last()@ == sorted[t - 1],
        decreases p.len() - t,
    {
        let q = p[t];
        assert(q < read@.len());
        assert(read@[q as int]@ == ev[q as int]);
        let ghost st = sorted.take(t + 1);
        assert(st.drop_last() =~= sorted.take(t as int));
        assert(st.last() == sorted[t as int]);
        let n = out.len();
        let keep = if t == 0 {
            true
        } else {
            !out[n - 1].same(&read[q])
        };
        if keep {
            let ghost before = out@;
            out.push(read[q].copy());
            assert(owner_views(out@) =~= owner_views(before).push(sorted[t as int]));
        } else {
            assert(st[st.len() - 2] == sorted[t - 1]);
        }
        t = t + 1;
    }
    assert(sorted.take(p@.len() as int) =~= sorted);
    out
}

/// The parcel a list of records gives an entry for: one with records whose
/// identifier reads as a number (with `only_modified`, whose use changes).
pub open spec fn entry_parcel(
    id: Seq<char>,
    ds: Seq<DatensatzView>,
    s: Seq<AenderungenIntersection>,
    geb: Seq<FlstIdParsedNumber>,
    cat: NutzungsArtMap,
    only_modified: bool,
) -> Option<FlstIdParsedNumber> {
    if ds.len() > 0 && (!only_modified || !(spec_auto_status(s, geb, id, cat).0 is Bleibt)) {
        spec_parse_num(spec_flst_from_str(id))
    } else {
        None
    }
}

/// The entry of a parcel from its records: use and note of the first
/// record, the status and note its pieces give, and its owners.
pub open spec fn is_eigentuemer_entry(
    x: FlstEigentuemer,
    id: Seq<char>,
    ds: Seq<DatensatzView>,
    s: Seq<AenderungenIntersection>,
    geb: Seq<FlstIdParsedNumber>,
    cat: NutzungsArtMap,
) -> bool {
    &&& x.nutzung@ == ds[0].nutzung
    &&& x.notiz@ == ds[0].notiz
    &&& x.status == spec_auto_status(s, geb, id, cat).0
    &&& owner_views(x.eigentuemer@) == record_owners(ds)
    &&& is_auto_notiz(s, id, x.auto_notiz@)
}

/// Record list `i` is the last of `old` that gives an entry for `f`.
pub open spec fn last_for(
    old: OldView,
    s: Seq<AenderungenIntersection>,
    geb: Seq<FlstIdParsedNumber>,
    cat: NutzungsArtMap,
    only_modified: bool,
    f: FlstIdParsedNumber,
    i: int,
) -> bool {
    &&& 0 <= i < old.len()
    &&& entry_parcel(old[i].0, old[i].1, s, geb, cat, only_modified) == Some(f)
    &&& forall|j: int|
        i < j < old.len() ==> entry_parcel(#[trigger] old[j].0, old[j].1, s, geb, cat, only_modified)
            != Some(f)
}

/// `kv` holds, for each parcel some record list gives an entry for, the
/// entry of the last such list, and nothing else.
pub open spec fn holds_eigentuemer(
    kv: Seq<(FlstIdParsedNumber, FlstEigentuemer)>,
    old: OldView,
    s: Seq<AenderungenIntersection>,
    geb: Seq<FlstIdParsedNumber>,
    cat: NutzungsArtMap,
    only_modified: bool,
) -> bool {
    forall|f: FlstIdParsedNumber|
        match #[trigger] lookup(kv, f) {
            Some(x) => exists|i: int|
                last_for(old, s, geb, cat, only_modified, f, i) && is_eigentuemer_entry(
                    x,
                    old[i].0,
                    old[i].1,
                    s,
                    geb,
                    cat,
                ),
            None => forall|i: int|
                0 <= i < old.len() ==> entry_parcel(#[trigger] old[i].0, old[i].1, s, geb, cat, only_modified)
                    != Some(f),
        }
}

proof fn lemma_holds_eigentuemer_step(
    old_kv: Seq<(FlstIdParsedNumber, FlstEigentuemer)>,
    new_kv: Seq<(FlstIdParsedNumber, FlstEigentuemer)>,
    pre: OldView,
    e: (Seq<char>, Seq<DatensatzView>),
    s: Seq<AenderungenIntersection>,
    geb: Seq<FlstIdParsedNumber>,
    cat: NutzungsArtMap,
    om: bool,
    ins: Option<(FlstIdParsedNumber, FlstEigentuemer)>,
)
    requires
        holds_eigentuemer(old_kv, pre, s, geb, cat, om),
        match ins {
            Some(fx) => entry_parcel(e.0, e.1, s, geb, cat, om) == Some(fx.0) && is_eigentuemer_entry(
                fx.1,
                e.0,
                e.1,
                s,
                geb,
                cat,
            ) && lookup(new_kv, fx.0) == Some(fx.1) && forall|g: FlstIdParsedNumber|
                g != fx.0 ==> #[trigger] lookup(new_kv, g) == lookup(old_kv, g),
            None => entry_parcel(e.0, e.1, s, geb, cat, om) is None && new_kv == old_kv,
        },
    ensures
        holds_eigentuemer(new_kv, pre.push(e), s, geb, cat, om),
{
    let post = pre.push(e);
    let i = pre.len() as int;
    assert(post[i] == e);
    assert forall|g: FlstIdParsedNumber|
        match #[trigger] lookup(new_kv, g) {
            Some(y) => exists|k: int|
                last_for(post, s, geb, cat, om, g, k) && is_eigentuemer_entry(
                    y,
                    post[k].0,
                    post[k].1,
                    s,
                    geb,
                    cat,
                ),
            None => forall|k: int|
                0 <= k < post.len() ==> entry_parcel(#[trigger] post[k].0, post[k].1, s, geb, cat, om)
                    != Some(g),
        } by {
        if ins is Some && g == ins.unwrap().0 {
            assert(last_for(post, s, geb, cat, om, g, i));
        } else {
            assert(lookup(new_kv, g) == lookup(old_kv, g));
            assert(entry_parcel(post[i].0, post[i].1, s, geb, cat, om) != Some(g));
            match lookup(old_kv, g) {
                Some(y) => {
                    let k = choose|k: int|
                        last_for(pre, s, geb, cat, om, g, k) && is_eigentuemer_entry(
                            y,
                            pre[k].0,
                            pre[k].1,
                            s,
                            geb,
                            cat,
                        );
                    assert(post[k] == pre[k]);
                    assert forall|j: int| k < j < post.len() implies entry_parcel(
                        #[trigger] post[j].0,
                        post[j].1,
                        s,
                        geb,
                        cat,
                        om,
                    ) != Some(g) by {
                        if j < i {
                            assert(post[j] == pre[j]);
                        }
                    }
                    assert(last_for(post, s, geb, cat, om, g, k));
                },
                None => {
                    assert forall|k: int| 0 <= k < post.len() implies entry_parcel(
                        #[trigger] post[k].0,
                        post[k].1,
                        s,
                        geb,
                        cat,
                        om,
                    ) != Some(g) by {
                        if k < i {
                            assert(post[k] == pre[k]);
                        }
                    }
                },
            }
        }
    }
}

/// The entry a list of records gives, if any.
fn eigentuemer_entry(
    id: &String,
    ds: &Vec<CsvDatensatz>,
    splitflaechen: &AenderungenIntersections,
    gebaeude_flst: &[FlstIdParsedNumber],
    catalogue: &NutzungsArtMap,
    filter_only_modified: bool,
) -> (r: Option<(FlstIdParsedNumber, FlstEigentuemer)>)
    ensures
        match r {
            Some(fx) => entry_parcel(
                id@,
                datensaetze_view(ds@),
                splitflaechen.0@,
                gebaeude_flst@,
                *catalogue,
                filter_only_modified,
            ) == Some(fx.0) && is_eigentuemer_entry(
                fx.1,
                id@,
                datensaetze_view(ds@),
                splitflaechen.0@,
                gebaeude_flst@,
                *catalogue,
            ),
            None => entry_parcel(
                id@,
                datensaetze_view(ds@),
                splitflaechen.0@,
                gebaeude_flst@,
                *catalogue,
                filter_only_modified,
            ) is None,
        },
{
    if ds.len() == 0 {
        return None;
    }
    let f = match FlstIdParsed::from_str(id.as_str()).parse_num() {
        Some(f) => f,
        None => {
            return None;
        },
    };
    let (status, _) = AenderungenIntersection::get_auto_status(
        splitflaechen.0.as_slice(),
        gebaeude_flst,
        id.as_str(),
        catalogue,
    );
    if filter_only_modified && !status.was_modified() {
        return None;
    }
    let notiz = AenderungenIntersection::get_auto_notiz(splitflaechen.0.as_slice(), id.as_str());
    let owners = owners_of_records(ds);
    assert(datensaetze_view(ds@)[0] == ds@[0]@);
    Some(
        (
            f,
            FlstEigentuemer {
                nutzung: copy_string(&ds[0].nutzung),
                status,
                eigentuemer: owners,
                notiz: copy_string(&ds[0].notiz),
                auto_notiz: notiz,
            },
        ),
    )
}

fn splitflaechen_eigentuemer_map_internal(
    datensaetze: &CsvDataType,
    splitflaechen: &AenderungenIntersections,
    gebaeude_flst: &[FlstIdParsedNumber],
    catalogue: &NutzungsArtMap,
    filter_only_modified: bool,
) -> (r: SortedMap<FlstIdParsedNumber, FlstEigentuemer>)
    ensures
        holds_eigentuemer(
            r.kv(),
            spec_old_fallback(datensaetze@),
            splitflaechen.0@,
            gebaeude_flst@,
            *catalogue,
            filter_only_modified,
        ),
{
    let fb = datensaetze.get_old_fallback();
    let ghost old = old_view(fb);
    let ghost s = splitflaechen.0@;
    let ghost geb = gebaeude_flst@;
    let ghost cat = *catalogue;
    let ghost om = filter_only_modified;
    let mut out: SortedMap<FlstIdParsedNumber, FlstEigentuemer> = SortedMap::new();
    assert(old.take(0) =~= Seq::<(Seq<char>, Seq<DatensatzView>)>::empty());
    let mut i: usize = 0;
    while i < fb.len()
        invariant
            i <= old.len(),
            old == old_view(fb),
            s == splitflaechen.0@,
            geb == gebaeude_flst@,
            cat == *catalogue,
            om == filter_only_modified,
            holds_eigentuemer(out.kv(), old.take(i as int), s, geb, cat, om),
        decreases old.len() - i,
    {
        let id = fb.key_at(i);
        let ds = fb.value_at(i);
        let ghost pre = old.take(i as int);
        assert(old.take(i + 1) =~= pre.push(old[i as int]));
        assert(old[i as int] == (id@, datensaetze_view(ds@)));
        let ghost old_kv = out.kv();
        let entry = eigentuemer_entry(id, ds, splitflaechen, gebaeude_flst, catalogue, filter_only_modified);
        let ghost ins = entry;
        match entry {
            Some((f, x)) => {
                out.insert(f, x);
            },
            None => {},
        }
        proof {
            lemma_holds_eigentuemer_step(old_kv, out.kv(), pre, old[i as int], s, geb, cat, om, ins);
        }
        i = i + 1;
    }
    assert(old.take(old.len() as int) =~= old);
    out
}

/// Each parcel of the records with its use, status, owners and notes.
pub fn splitflaechen_eigentuemer_map(
    datensaetze: &CsvDataType,
    splitflaechen: &AenderungenIntersections,
    gebaeude_flst: &[FlstIdParsedNumber],
    catalogue: &NutzungsArtMap,
) -> (r: SortedMap<FlstIdParsedNumber, FlstEigentuemer>)
    ensures
        holds_eigentuemer(
            r.kv(),
            spec_old_fallback(datensaetze@),
            splitflaechen.0@,
            gebaeude_flst@,
            *catalogue,
            false,
        ),
{
    splitflaechen_eigentuemer_map_internal(datensaetze, splitflaechen, gebaeude_flst, catalogue, false)
}

/// As `splitflaechen_eigentuemer_map`, for the parcels whose use changes.
pub fn splitflaechen_eigentuemer_map_modified(
    datensaetze: &CsvDataType,
    splitflaechen: &AenderungenIntersections,
    gebaeude_flst: &[FlstIdParsedNumber],
    catalogue: &NutzungsArtMap,
) -> (r: SortedMap<FlstIdParsedNumber, FlstEigentuemer>)
    ensures
        holds_eigentuemer(
            r.kv(),
            spec_old_fallback(datensaetze@),
            splitflaechen.0@,
            gebaeude_flst@,
            *catalogue,
            true,
        ),
{
    splitflaechen_eigentuemer_map_internal(datensaetze, splitflaechen, gebaeude_flst, catalogue, true)
}

} // verus!
