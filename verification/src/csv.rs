//! The parcel data set (Flurstück → owners, use, note) read from the
//! cadastre's CSV export, in its two storage forms.

use vstd::prelude::*;
use crate::text::{
    chars_of, dec, lines, lines_chars, push_all, push_str, split, split_chars, string_from_chars,
    string_views, usize_to_chars, views, replace, replace_str, starts_with, starts_with_chars,
};
use crate::xlsx::{FlstIdParsed, spec_flst_from_str, spec_parse_num, spec_format_start_str};
use crate::collation::{str_eq, MapKey};
use crate::sorted_map::{SortedMap, keys_sorted, lookup, lemma_key_index_unique};

verus! {

/// One CSV row: owner, use, note.
#[derive(Debug, Clone, PartialEq)]
pub struct CsvDatensatz {
    pub eigentuemer: String,
    pub nutzung: String,
    pub notiz: String,
}

pub struct DatensatzView {
    pub eigentuemer: Seq<char>,
    pub nutzung: Seq<char>,
    pub notiz: Seq<char>,
}

impl View for CsvDatensatz {
    type V = DatensatzView;

    open spec fn view(&self) -> DatensatzView {
        DatensatzView { eigentuemer: self.eigentuemer@, nutzung: self.nutzung@, notiz: self.notiz@ }
    }
}

/// All owners of a parcel, with its use and note.
#[derive(Debug, Clone, PartialEq)]
pub struct CsvDataFlstInternal {
    pub eigentuemer: Vec<String>,
    pub nutzung: String,
    pub notiz: String,
}

pub struct FlstInternalView {
    pub eigentuemer: Seq<Seq<char>>,
    pub nutzung: Seq<char>,
    pub notiz: Seq<char>,
}

impl View for CsvDataFlstInternal {
    type V = FlstInternalView;

    open spec fn view(&self) -> FlstInternalView {
        FlstInternalView {
            eigentuemer: string_views(self.eigentuemer@),
            nutzung: self.nutzung@,
            notiz: self.notiz@,
        }
    }
}

/// Whether and how a parcel changes.
#[derive(Debug, Copy, Clone, PartialEq, Eq, Structural)]
pub enum Status {
    Bleibt,
    AenderungKeineBenachrichtigung,
    AenderungMitBenachrichtigung,
}

impl Status {
    /// The parcel's use changes.
    pub fn was_modified(&self) -> (r: bool)
        ensures
            r == !(*self is Bleibt),
    {
        match self {
            Status::Bleibt => false,
            _ => true,
        }
    }
}

/// The data set: the old form keeps one record per CSV row, the new one
/// record per parcel.
#[derive(Debug)]
pub enum CsvDataType {
    Old(SortedMap<String, Vec<CsvDatensatz>>),
    New(SortedMap<String, CsvDataFlstInternal>),
}

pub type OldView = Seq<(Seq<char>, Seq<DatensatzView>)>;

pub type NewView = Seq<(Seq<char>, FlstInternalView)>;

pub enum CsvDataView {
    Old(OldView),
    New(NewView),
}

pub open spec fn datensaetze_view(v: Seq<CsvDatensatz>) -> Seq<DatensatzView> {
    v.map_values(|d: CsvDatensatz| d@)
}

pub open spec fn old_view(m: SortedMap<String, Vec<CsvDatensatz>>) -> OldView {
    m.kv().map_values(|e: (Seq<char>, Vec<CsvDatensatz>)| (e.0, datensaetze_view(e.1@)))
}

pub open spec fn new_view(m: SortedMap<String, CsvDataFlstInternal>) -> NewView {
    m.kv().map_values(|e: (Seq<char>, CsvDataFlstInternal)| (e.0, e.1@))
}

impl View for CsvDataType {
    type V = CsvDataView;

    open spec fn view(&self) -> CsvDataView {
        match self {
            CsvDataType::Old(m) => CsvDataView::Old(old_view(*m)),
            CsvDataType::New(m) => CsvDataView::New(new_view(*m)),
        }
    }
}

pub open spec fn data_keys(d: CsvDataView) -> Seq<Seq<char>> {
    match d {
        CsvDataView::Old(kv) => kv.map_values(|e: (Seq<char>, Seq<DatensatzView>)| e.0),
        CsvDataView::New(kv) => kv.map_values(|e: (Seq<char>, FlstInternalView)| e.0),
    }
}

/// The index of the first record whose note is empty.
pub open spec fn first_empty_notiz(v: Seq<DatensatzView>) -> Option<int>
    decreases v.len(),
{
    if v.len() == 0 {
        None
    } else if v[0].notiz.len() == 0 {
        Some(0)
    } else {
        match first_empty_notiz(v.drop_first()) {
            Some(i) => Some(i + 1),
            None => None,
        }
    }
}

/// The new form of a parcel's records: all owners in order; the use of the
/// first record without a note; and an empty note (the note taken is that of
/// a record whose note is empty).
pub open spec fn migrate_entry(v: Seq<DatensatzView>) -> FlstInternalView {
    FlstInternalView {
        eigentuemer: v.map_values(|d: DatensatzView| d.eigentuemer),
        nutzung: match first_empty_notiz(v) {
            Some(i) => v[i].nutzung,
            None => Seq::empty(),
        },
        notiz: Seq::empty(),
    }
}

pub open spec fn spec_migrate_new(d: CsvDataView) -> NewView {
    match d {
        CsvDataView::Old(kv) => kv.map_values(
            |e: (Seq<char>, Seq<DatensatzView>)| (e.0, migrate_entry(e.1)),
        ),
        CsvDataView::New(kv) => kv,
    }
}

/// One record per owner, each with the parcel's use and note.
pub open spec fn fallback_entry(v: FlstInternalView) -> Seq<DatensatzView> {
    v.eigentuemer.map_values(
        |e: Seq<char>| DatensatzView { eigentuemer: e, nutzung: v.nutzung, notiz: v.notiz },
    )
}

pub open spec fn spec_old_fallback(d: CsvDataView) -> OldView {
    match d {
        CsvDataView::Old(kv) => kv,
        CsvDataView::New(kv) => kv.map_values(
            |e: (Seq<char>, FlstInternalView)| (e.0, fallback_entry(e.1)),
        ),
    }
}

fn copy_datensatz(d: &CsvDatensatz) -> (r: CsvDatensatz)
    ensures
        r@ == d@,
{
    CsvDatensatz {
        eigentuemer: d.eigentuemer.clone(),
        nutzung: d.nutzung.clone(),
        notiz: d.notiz.clone(),
    }
}

fn copy_strings(v: &Vec<String>) -> (r: Vec<String>)
    ensures
        string_views(r@) == string_views(v@),
{
    let mut r: Vec<String> = Vec::new();
    let mut i: usize = 0;
    while i < v.len()
        invariant
            i <= v@.len(),
            string_views(r@) == string_views(v@).take(i as int),
        decreases v.len() - i,
    {
        let ghost old_r = r@;
        r.push(v[i].clone());
        assert(string_views(r@) =~= string_views(old_r).push(v@[i as int]@));
        assert(string_views(v@).take(i + 1) =~= string_views(v@).take(i as int).push(v@[i as int]@));
        i = i + 1;
    }
    assert(string_views(v@).take(v@.len() as int) =~= string_views(v@));
    r
}

fn copy_flst_internal(d: &CsvDataFlstInternal) -> (r: CsvDataFlstInternal)
    ensures
        r@ == d@,
{
    CsvDataFlstInternal {
        eigentuemer: copy_strings(&d.eigentuemer),
        nutzung: d.nutzung.clone(),
        notiz: d.notiz.clone(),
    }
}

fn migrate_records(v: &Vec<CsvDatensatz>) -> (r: CsvDataFlstInternal)
    ensures
        r@ == migrate_entry(datensaetze_view(v@)),
{
    let ghost dv = datensaetze_view(v@);
    let mut eig: Vec<String> = Vec::new();
    let mut nutzung: Option<String> = None;
    let mut i: usize = 0;
    while i < v.len()
        invariant
            i <= v@.len(),
            dv == datensaetze_view(v@),
            string_views(eig@) == dv.take(i as int).map_values(|d: DatensatzView| d.eigentuemer),
            match nutzung {
                Some(n) => first_empty_notiz(dv.take(i as int)) matches Some(j) && n@
                    == dv[j].nutzung,
                None => first_empty_notiz(dv.take(i as int)) is None,
            },
        decreases v.len() - i,
    {
        let ghost old_eig = eig@;
        eig.push(v[i].eigentuemer.clone());
        assert(string_views(eig@) =~= string_views(old_eig).push(dv[i as int].eigentuemer));
        assert(dv.take(i + 1).map_values(|d: DatensatzView| d.eigentuemer) =~= dv.take(
            i as int,
        ).map_values(|d: DatensatzView| d.eigentuemer).push(dv[i as int].eigentuemer));
        proof {
            lemma_first_empty_notiz_push(dv, i as int);
        }
        if nutzung.is_none() && v[i].notiz.as_str().is_empty() {
            nutzung = Some(v[i].nutzung.clone());
        }
        i = i + 1;
    }
    assert(dv.take(v@.len() as int) =~= dv);
    let nutzung = match nutzung {
        Some(n) => n,
        None => String::new(),
    };
    CsvDataFlstInternal { eigentuemer: eig, nutzung, notiz: String::new() }
}

proof fn lemma_first_empty_notiz_push(dv: Seq<DatensatzView>, i: int)
    requires
        0 <= i < dv.len(),
    ensures
        first_empty_notiz(dv.take(i + 1)) == match first_empty_notiz(dv.take(i)) {
            Some(j) => Some(j),
            None => if dv[i].notiz.len() == 0 {
                Some(i)
            } else {
                None
            },
        },
        first_empty_notiz(dv.take(i)) matches Some(j) ==> 0 <= j < i,
    decreases i,
{
    assert(dv.take(0) =~= Seq::<DatensatzView>::empty());
    if i == 0 {
        assert(dv.take(1).drop_first() =~= Seq::<DatensatzView>::empty());
        assert(dv.take(1)[0] == dv[0]);
    } else {
        assert(dv.take(i + 1)[0] == dv[0]);
        assert(dv.take(i)[0] == dv[0]);
        lemma_first_empty_notiz_push(dv.drop_first(), i - 1);
        assert(dv.take(i + 1).drop_first() =~= dv.drop_first().take(i));
        assert(dv.take(i).drop_first() =~= dv.drop_first().take(i - 1));
    }
}

/// Migrating a data set that is already in the new form changes nothing.
pub proof fn lemma_migrate_new_idempotent(d: CsvDataView)
    ensures
        spec_migrate_new(CsvDataView::New(spec_migrate_new(d))) == spec_migrate_new(d),
{
}

/// Both forms list the same parcels, in the same order.
pub proof fn lemma_forms_keep_keys(d: CsvDataView)
    ensures
        data_keys(CsvDataView::New(spec_migrate_new(d))) == data_keys(d),
        data_keys(CsvDataView::Old(spec_old_fallback(d))) == data_keys(d),
{
    match d {
        CsvDataView::Old(kv) => {
            assert(data_keys(CsvDataView::New(spec_migrate_new(d))) =~= data_keys(d));
        },
        CsvDataView::New(kv) => {
            assert(data_keys(CsvDataView::Old(spec_old_fallback(d))) =~= data_keys(d));
        },
    }
}

/// A parcel of the new form survives the trip to the old form and back
/// where its note is empty and, if it has no owner, its use is empty too
/// (the old form keeps the use and the note only in records of owners).
pub open spec fn survives_round_trip(v: FlstInternalView) -> bool {
    v.notiz.len() == 0 && (v.eigentuemer.len() > 0 || v.nutzung.len() == 0)
}

/// Turning a data set of the new form into the old one and migrating it
/// back gives the data set again, for parcels whose notes are empty and
/// whose use is held by an owner.
pub proof fn lemma_round_trip_new_old_new(kv: NewView)
    requires
        forall|i: int| 0 <= i < kv.len() ==> survives_round_trip(#[trigger] kv[i].1),
    ensures
        spec_migrate_new(CsvDataView::Old(spec_old_fallback(CsvDataView::New(kv)))) == kv,
{
    let back = spec_migrate_new(CsvDataView::Old(spec_old_fallback(CsvDataView::New(kv))));
    assert forall|i: int| 0 <= i < kv.len() implies #[trigger] back[i] == kv[i] by {
        let v = kv[i].1;
        let recs = fallback_entry(v);
        assert(survives_round_trip(kv[i].1));
        assert(recs.map_values(|d: DatensatzView| d.eigentuemer) =~= v.eigentuemer);
        if v.eigentuemer.len() > 0 {
            assert(recs[0].notiz.len() == 0);
            assert(first_empty_notiz(recs) == Some(0int));
            assert(migrate_entry(recs).nutzung == v.nutzung);
        } else {
            assert(recs.len() == 0);
            assert(v.nutzung =~= Seq::<char>::empty());
        }
        assert(v.notiz =~= Seq::<char>::empty());
        assert(migrate_entry(recs) == v);
        assert(back[i] == (kv[i].0, migrate_entry(recs)));
    }
    assert(back =~= kv);
}

impl CsvDataType {
    /// The parcel identifiers, in order.
    pub fn keys(&self) -> (r: Vec<&String>)
        ensures
            r@.map_values(|k: &String| k@) == data_keys(self@),
    {
        let mut r: Vec<&String> = Vec::new();
        match self {
            CsvDataType::Old(o) => {
                let mut i: usize = 0;
                while i < o.len()
                    invariant
                        i <= o.kv().len(),
                        r@.map_values(|k: &String| k@) == data_keys(self@).take(i as int),
                        *self == CsvDataType::Old(*o),
                    decreases o.kv().len() - i,
                {
                    let ghost old_r = r@;
                    r.push(o.key_at(i));
                    assert(r@.map_values(|k: &String| k@) =~= old_r.map_values(|k: &String| k@).push(
                        o.kv()[i as int].0,
                    ));
                    i = i + 1;
                    assert(r@.map_values(|k: &String| k@) =~= data_keys(self@).take(i as int));
                }
                assert(data_keys(self@).take(o.kv().len() as int) =~= data_keys(self@));
            },
            CsvDataType::New(o) => {
                let mut i: usize = 0;
                while i < o.len()
                    invariant
                        i <= o.kv().len(),
                        r@.map_values(|k: &String| k@) == data_keys(self@).take(i as int),
                        *self == CsvDataType::New(*o),
                    decreases o.kv().len() - i,
                {
                    let ghost old_r = r@;
                    r.push(o.key_at(i));
                    assert(r@.map_values(|k: &String| k@) =~= old_r.map_values(|k: &String| k@).push(
                        o.kv()[i as int].0,
                    ));
                    i = i + 1;
                    assert(r@.map_values(|k: &String| k@) =~= data_keys(self@).take(i as int));
                }
                assert(data_keys(self@).take(o.kv().len() as int) =~= data_keys(self@));
            },
        }
        r
    }

    /// The data set in the new form.
    pub fn migrate_new(&self) -> (r: CsvDataType)
        ensures
            r@ == CsvDataView::New(spec_migrate_new(self@)),
    {
        let mut m: SortedMap<String, CsvDataFlstInternal> = SortedMap::new();
        match self {
            CsvDataType::Old(o) => {
                o.lemma_sorted();
                let mut i: usize = 0;
                while i < o.len()
                    invariant
                        i <= o.kv().len(),
                        keys_sorted::<String, Vec<CsvDatensatz>>(o.kv()),
                        new_view(m) == spec_migrate_new(self@).take(i as int),
                        m.kv().len() == i,
                        *self == CsvDataType::Old(*o),
                    decreases o.kv().len() - i,
                {
                    let k = o.key_at(i).clone();
                    let v = migrate_records(o.value_at(i));
                    let ghost old_m = new_view(m);
                    proof {
                        if i > 0 {
                            assert(m.kv()[i - 1].0 == old_m[i - 1].0);
                            assert(old_m[i - 1].0 == o.kv()[i - 1].0);
                        }
                    }
                    m.push_last(k, v);
                    assert(new_view(m) =~= old_m.push((o.kv()[i as int].0, v@)));
                    i = i + 1;
                    assert(new_view(m) =~= spec_migrate_new(self@).take(i as int));
                }
                assert(spec_migrate_new(self@).take(o.kv().len() as int) =~= spec_migrate_new(
                    self@,
                ));
            },
            CsvDataType::New(o) => {
                o.lemma_sorted();
                let mut i: usize = 0;
                while i < o.len()
                    invariant
                        i <= o.kv().len(),
                        keys_sorted::<String, CsvDataFlstInternal>(o.kv()),
                        new_view(m) == spec_migrate_new(self@).take(i as int),
                        m.kv().len() == i,
                        *self == CsvDataType::New(*o),
                    decreases o.kv().len() - i,
                {
                    let k = o.key_at(i).clone();
                    let v = copy_flst_internal(o.value_at(i));
                    let ghost old_m = new_view(m);
                    proof {
                        if i > 0 {
                            assert(m.kv()[i - 1].0 == old_m[i - 1].0);
                            assert(old_m[i - 1].0 == o.kv()[i - 1].0);
                        }
                    }
                    m.push_last(k, v);
                    assert(new_view(m) =~= old_m.push((o.kv()[i as int].0, v@)));
                    i = i + 1;
                    assert(new_view(m) =~= spec_migrate_new(self@).take(i as int));
                }
                assert(spec_migrate_new(self@).take(o.kv().len() as int) =~= spec_migrate_new(
                    self@,
                ));
            },
        }
        CsvDataType::New(m)
    }

    /// The data set in the old form.
    pub fn get_old_fallback(&self) -> (r: SortedMap<String, Vec<CsvDatensatz>>)
        ensures
            old_view(r) == spec_old_fallback(self@),
    {
        let mut m: SortedMap<String, Vec<CsvDatensatz>> = SortedMap::new();
        match self {
            CsvDataType::Old(o) => {
                o.lemma_sorted();
                let mut i: usize = 0;
                while i < o.len()
                    invariant
                        i <= o.kv().len(),
                        keys_sorted::<String, Vec<CsvDatensatz>>(o.kv()),
                        old_view(m) == spec_old_fallback(self@).take(i as int),
                        m.kv().len() == i,
                        *self == CsvDataType::Old(*o),
                    decreases o.kv().len() - i,
                {
                    let k = o.key_at(i).clone();
                    let src = o.value_at(i);
                    let mut v: Vec<CsvDatensatz> = Vec::new();
                    let mut j: usize = 0;
                    while j < src.len()
                        invariant
                            j <= src@.len(),
                            datensaetze_view(v@) == datensaetze_view(src@).take(j as int),
                        decreases src.len() - j,
                    {
                        let ghost old_v = v@;
                        v.push(copy_datensatz(&src[j]));
                        assert(datensaetze_view(v@) =~= datensaetze_view(old_v).push(
                            src@[j as int]@,
                        ));
                        j = j + 1;
                        assert(datensaetze_view(v@) =~= datensaetze_view(src@).take(j as int));
                    }
                    assert(datensaetze_view(src@).take(src@.len() as int) =~= datensaetze_view(
                        src@,
                    ));
                    let ghost old_m = old_view(m);
                    proof {
                        if i > 0 {
                            assert(m.kv()[i - 1].0 == old_m[i - 1].0);
                            assert(old_m[i - 1].0 == o.kv()[i - 1].0);
                        }
                    }
                    m.push_last(k, v);
                    assert(old_view(m) =~= old_m.push((o.kv()[i as int].0, datensaetze_view(v@))));
                    i = i + 1;
                    assert(old_view(m) =~= spec_old_fallback(self@).take(i as int));
                }
                assert(spec_old_fallback(self@).take(o.kv().len() as int) =~= spec_old_fallback(
                    self@,
                ));
            },
            CsvDataType::New(o) => {
                o.lemma_sorted();
                let mut i: usize = 0;
                while i < o.len()
                    invariant
                        i <= o.kv().len(),
                        keys_sorted::<String, CsvDataFlstInternal>(o.kv()),
                        old_view(m) == spec_old_fallback(self@).take(i as int),
                        m.kv().len() == i,
                        *self == CsvDataType::New(*o),
                    decreases o.kv().len() - i,
                {
                    let k = o.key_at(i).clone();
                    let src = o.value_at(i);
                    let ghost fv = src@;
                    let mut v: Vec<CsvDatensatz> = Vec::new();
                    let mut j: usize = 0;
                    while j < src.eigentuemer.len()
                        invariant
                            j <= src.eigentuemer@.len(),
                            fv == src@,
                            datensaetze_view(v@) == fallback_entry(fv).take(j as int),
                        decreases src.eigentuemer.len() - j,
                    {
                        let d = CsvDatensatz {
                            nutzung: src.nutzung.clone(),
                            eigentuemer: src.eigentuemer[j].clone(),
                            notiz: src.notiz.clone(),
                        };
                        let ghost old_v = v@;
                        v.push(d);
                        assert(datensaetze_view(v@) =~= datensaetze_view(old_v).push(d@));
                        j = j + 1;
                        assert(datensaetze_view(v@) =~= fallback_entry(fv).take(j as int));
                    }
                    assert(fallback_entry(fv).take(src.eigentuemer@.len() as int)
                        =~= fallback_entry(fv));
                    let ghost old_m = old_view(m);
                    proof {
                        if i > 0 {
                            assert(m.kv()[i - 1].0 == old_m[i - 1].0);
                            assert(old_m[i - 1].0 == o.kv()[i - 1].0);
                        }
                    }
                    m.push_last(k, v);
                    assert(old_view(m) =~= old_m.push((o.kv()[i as int].0, datensaetze_view(v@))));
                    i = i + 1;
                    assert(old_view(m) =~= spec_old_fallback(self@).take(i as int));
                }
                assert(spec_old_fallback(self@).take(o.kv().len() as int) =~= spec_old_fallback(
                    self@,
                ));
            },
        }
        m
    }

    pub fn is_empty(&self) -> (r: bool)
        ensures
            r == (data_keys(self@).len() == 0),
    {
        match self {
            CsvDataType::Old(s) => s.is_empty(),
            CsvDataType::New(s) => s.is_empty(),
        }
    }
}

impl Default for CsvDataType {
    fn default() -> (r: Self)
        ensures
            r@ == CsvDataView::New(Seq::empty()),
    {
        let m = SortedMap::new();
        assert(new_view(m) =~= Seq::<(Seq<char>, FlstInternalView)>::empty());
        CsvDataType::New(m)
    }
}


// ---------------------------------------------------------------------------
// Reading the CSV export
// ---------------------------------------------------------------------------

/// The lines of the text, each split at the delimiter.
pub open spec fn csv_cells(csv: Seq<char>, delim: Seq<char>) -> Seq<Seq<Seq<char>>> {
    lines(csv).map_values(|l: Seq<char>| split(l, delim))
}

/// The last of the first `n` columns that is named `key`.
pub open spec fn last_col(cols: Seq<Seq<char>>, n: int, key: Seq<char>) -> Option<int>
    decreases n,
{
    if n <= 0 {
        None
    } else if cols[n - 1] == key {
        Some(n - 1)
    } else {
        last_col(cols, n - 1, key)
    }
}

/// The cell of a row under column `key`; columns beyond the shorter of row
/// and header do not count, and a later column of the same name wins.
pub open spec fn row_cell(line: Seq<Seq<char>>, cols: Seq<Seq<char>>, key: Seq<char>) -> Option<
    Seq<char>,
> {
    let n = if line.len() < cols.len() {
        line.len() as int
    } else {
        cols.len() as int
    };
    match last_col(cols, n, key) {
        Some(j) => Some(line[j]),
        None => None,
    }
}

/// Why a row cannot be read.
#[derive(Debug, Clone, Copy, PartialEq, Eq, Structural)]
pub enum RowFault {
    IdMissing,
    EigentuemerMissing,
    NutzungMissing,
}

/// A row as (id, owner, use). Each column is taken out of the row once, so a
/// column named like one taken before counts as missing.
pub open spec fn row_record(
    line: Seq<Seq<char>>,
    cols: Seq<Seq<char>>,
    idc: Seq<char>,
    nc: Seq<char>,
    ec: Seq<char>,
) -> Result<(Seq<char>, Seq<char>, Seq<char>), RowFault> {
    match row_cell(line, cols, idc) {
        None => Err(RowFault::IdMissing),
        Some(id) => if ec == idc || row_cell(line, cols, ec) is None {
            Err(RowFault::EigentuemerMissing)
        } else if nc == idc || nc == ec || row_cell(line, cols, nc) is None {
            Err(RowFault::NutzungMissing)
        } else {
            Ok((id, row_cell(line, cols, ec)->0, row_cell(line, cols, nc)->0))
        },
    }
}

/// The first row from `i` on that cannot be read.
pub open spec fn first_fault(
    rows: Seq<Seq<Seq<char>>>,
    cols: Seq<Seq<char>>,
    idc: Seq<char>,
    nc: Seq<char>,
    ec: Seq<char>,
    i: int,
) -> Option<(int, RowFault)>
    decreases rows.len() - i,
{
    if i < 0 || i >= rows.len() {
        None
    } else {
        match row_record(rows[i], cols, idc, nc, ec) {
            Err(f) => Some((i, f)),
            Ok(_) => first_fault(rows, cols, idc, nc, ec, i + 1),
        }
    }
}

pub open spec fn fault_message(
    row: nat,
    f: RowFault,
    idc: Seq<char>,
    nc: Seq<char>,
    ec: Seq<char>,
) -> Seq<char> {
    "Fehler in Zeile "@ + dec(row) + match f {
        RowFault::IdMissing => ": ID fehlt (Spalte "@ + idc + ")"@,
        RowFault::EigentuemerMissing => ": Eigentümer fehlt (Spalte "@ + ec + ")"@,
        RowFault::NutzungMissing => ": Nutzung fehlt (Spalte "@ + nc + ")"@,
    }
}

pub open spec fn csv_header(
    cells: Seq<Seq<Seq<char>>>,
    ignore_firstline: bool,
    idc: Seq<char>,
    nc: Seq<char>,
    ec: Seq<char>,
) -> Seq<Seq<char>> {
    if ignore_firstline {
        cells[0]
    } else {
        seq![idc, nc, ec]
    }
}

pub open spec fn csv_rows(cells: Seq<Seq<Seq<char>>>, ignore_firstline: bool) -> Seq<
    Seq<Seq<char>>,
> {
    if ignore_firstline {
        cells.drop_first()
    } else {
        cells
    }
}

pub type Record = (Seq<char>, Seq<char>, Seq<char>);

pub open spec fn csv_records(
    rows: Seq<Seq<Seq<char>>>,
    cols: Seq<Seq<char>>,
    idc: Seq<char>,
    nc: Seq<char>,
    ec: Seq<char>,
) -> Seq<Record> {
    rows.map_values(|l: Seq<Seq<char>>| row_record(l, cols, idc, nc, ec)->Ok_0)
}

/// The owners of the rows with id `k`, in row order.
pub open spec fn owners_of(recs: Seq<Record>, k: Seq<char>) -> Seq<Seq<char>> {
    recs.filter_map(|r: Record| if r.0 == k { Some(r.1) } else { None })
}

/// The uses of the rows with id `k`, in row order.
pub open spec fn uses_of(recs: Seq<Record>, k: Seq<char>) -> Seq<Seq<char>> {
    recs.filter_map(|r: Record| if r.0 == k { Some(r.2) } else { None })
}

/// The records of the rows with id `k`, each with an empty note.
pub open spec fn records_of(recs: Seq<Record>, k: Seq<char>) -> Seq<DatensatzView> {
    recs.filter_map(
        |r: Record|
            if r.0 == k {
                Some(DatensatzView { eigentuemer: r.1, nutzung: r.2, notiz: Seq::empty() })
            } else {
                None
            },
    )
}

/// A parcel of the parsed set: all its owners, the use of its first row, no note.
pub open spec fn parcel_entry(recs: Seq<Record>, k: Seq<char>) -> FlstInternalView {
    FlstInternalView { eigentuemer: owners_of(recs, k), nutzung: uses_of(recs, k)[0], notiz: Seq::empty() }
}

proof fn lemma_records_of(recs: Seq<Record>, k: Seq<char>)
    ensures
        records_of(recs, k).len() == owners_of(recs, k).len(),
        records_of(recs, k).len() == uses_of(recs, k).len(),
        forall|j: int|
            0 <= j < records_of(recs, k).len() ==> #[trigger] records_of(recs, k)[j] == (
            DatensatzView {
                eigentuemer: owners_of(recs, k)[j],
                nutzung: uses_of(recs, k)[j],
                notiz: Seq::empty(),
            }),
    decreases recs.len(),
{
    if recs.len() > 0 {
        lemma_records_of(recs.drop_last(), k);
    }
}

proof fn lemma_migrate_records_of(recs: Seq<Record>, k: Seq<char>)
    requires
        records_of(recs, k).len() > 0,
    ensures
        migrate_entry(records_of(recs, k)) == parcel_entry(recs, k),
{
    lemma_records_of(recs, k);
    let r = records_of(recs, k);
    assert(r.map_values(|d: DatensatzView| d.eigentuemer) =~= owners_of(recs, k));
    assert(r[0].notiz.len() == 0);
    assert(first_empty_notiz(r) == Some(0int));
}

/// The last of the first `n` header columns named `key`.
fn find_col(cols: &Vec<Vec<char>>, n: usize, key: &Vec<char>) -> (r: Option<usize>)
    requires
        n <= cols@.len(),
    ensures
        match r {
            Some(j) => j < n && last_col(views(cols@), n as int, key@) == Some(j as int),
            None => last_col(views(cols@), n as int, key@) is None,
        },
{
    let mut j = n;
    while j > 0
        invariant
            j <= n <= cols@.len(),
            last_col(views(cols@), n as int, key@) == last_col(views(cols@), j as int, key@),
        decreases j,
    {
        if crate::collation::compare_chars(&cols[j - 1], key) == crate::collation::Comparison::Equal {
            return Some(j - 1);
        }
        proof {
            crate::collation::lemma_seq_lt_order(cols@[j - 1]@, key@, key@);
        }
        j = j - 1;
    }
    None
}

fn row_cell_exec(line: &Vec<Vec<char>>, cols: &Vec<Vec<char>>, key: &Vec<char>) -> (r: Option<
    Vec<char>,
>)
    ensures
        match r {
            Some(c) => row_cell(views(line@), views(cols@), key@) == Some(c@),
            None => row_cell(views(line@), views(cols@), key@) is None,
        },
{
    let n = if line.len() < cols.len() {
        line.len()
    } else {
        cols.len()
    };
    match find_col(cols, n, key) {
        Some(j) => Some(crate::text::sub_chars(&line[j], 0, line[j].len())),
        None => None,
    }
}

fn read_row(
    line: &Vec<Vec<char>>,
    header: &Vec<Vec<char>>,
    idc: &Vec<char>,
    nc: &Vec<char>,
    ec: &Vec<char>,
) -> (r: Result<(Vec<char>, Vec<char>, Vec<char>), RowFault>)
    ensures
        match r {
            Ok((a, b, c)) => row_record(views(line@), views(header@), idc@, nc@, ec@) == Ok::<
                Record,
                RowFault,
            >((a@, b@, c@)),
            Err(f) => row_record(views(line@), views(header@), idc@, nc@, ec@) == Err::<
                Record,
                RowFault,
            >(f),
        },
{
    let id = match row_cell_exec(line, header, idc) {
        Some(x) => x,
        None => {
            return Err(RowFault::IdMissing);
        },
    };
    let eig = if chars_eq(ec, idc) {
        None
    } else {
        row_cell_exec(line, header, ec)
    };
    let eig = match eig {
        Some(x) => x,
        None => {
            return Err(RowFault::EigentuemerMissing);
        },
    };
    let nu = if chars_eq(nc, idc) || chars_eq(nc, ec) {
        None
    } else {
        row_cell_exec(line, header, nc)
    };
    match nu {
        Some(x) => Ok((id, eig, x)),
        None => Err(RowFault::NutzungMissing),
    }
}

fn chars_eq(a: &Vec<char>, b: &Vec<char>) -> (r: bool)
    ensures
        r == (a@ == b@),
{
    let c = crate::collation::compare_chars(a, b);
    proof {
        crate::collation::lemma_seq_lt_order(a@, b@, b@);
    }
    c == crate::collation::Comparison::Equal
}

fn fault_message_exec(row: usize, f: RowFault, idc: &str, nc: &str, ec: &str) -> (r: String)
    ensures
        r@ == fault_message(row as nat, f, idc@, nc@, ec@),
{
    let mut v: Vec<char> = Vec::new();
    push_str(&mut v, "Fehler in Zeile ");
    push_all(&mut v, &usize_to_chars(row));
    match f {
        RowFault::IdMissing => {
            push_str(&mut v, ": ID fehlt (Spalte ");
            push_str(&mut v, idc);
        },
        RowFault::EigentuemerMissing => {
            push_str(&mut v, ": Eigentümer fehlt (Spalte ");
            push_str(&mut v, ec);
        },
        RowFault::NutzungMissing => {
            push_str(&mut v, ": Nutzung fehlt (Spalte ");
            push_str(&mut v, nc);
        },
    }
    push_str(&mut v, ")");
    string_from_chars(v.as_slice())
}

fn copy_cells(v: &Vec<Vec<char>>) -> (r: Vec<Vec<char>>)
    ensures
        views(r@) == views(v@),
{
    let mut r: Vec<Vec<char>> = Vec::new();
    let mut i: usize = 0;
    while i < v.len()
        invariant
            i <= v@.len(),
            views(r@) == views(v@).take(i as int),
        decreases v.len() - i,
    {
        let c = crate::text::sub_chars(&v[i], 0, v[i].len());
        assert(v@[i as int]@.subrange(0, v@[i as int]@.len() as int) =~= v@[i as int]@);
        let ghost old_r = r@;
        r.push(c);
        assert(views(r@) =~= views(old_r).push(c@));
        assert(views(v@).take(i + 1) =~= views(v@).take(i as int).push(v@[i as int]@));
        i = i + 1;
    }
    assert(views(v@).take(v@.len() as int) =~= views(v@));
    r
}

/// Reads the CSV export: one line per row, cells split at `delimiter`; the
/// header names the columns when `ignore_firstline`, else the columns are
/// id, use, owner. Rows with the same id are one parcel.
pub fn parse_csv(
    csv: &str,
    id_col: &str,
    nutzung_col: &str,
    eigentuemer_col: &str,
    delimiter: &str,
    ignore_firstline: bool,
) -> (res: Result<CsvDataType, String>)
    ensures
        ({
            let cells = csv_cells(csv@, delimiter@);
            let cols = csv_header(cells, ignore_firstline, id_col@, nutzung_col@, eigentuemer_col@);
            let rows = csv_rows(cells, ignore_firstline);
            let recs = csv_records(rows, cols, id_col@, nutzung_col@, eigentuemer_col@);
            let offset: nat = if ignore_firstline { 2 } else { 1 };
            if cells.len() == 0 {
                res matches Ok(d) && d@ == CsvDataView::New(Seq::empty())
            } else {
                match first_fault(rows, cols, id_col@, nutzung_col@, eigentuemer_col@, 0) {
                    Some((i, f)) => res matches Err(e) && e@ == fault_message(
                        (i + offset) as nat,
                        f,
                        id_col@,
                        nutzung_col@,
                        eigentuemer_col@,
                    ),
                    None => res matches Ok(d) && d@ matches CsvDataView::New(kv) && keys_sorted::<
                        String,
                        FlstInternalView,
                    >(kv) && (forall|k: Seq<char>|
                        (exists|j: int| 0 <= j < kv.len() && kv[j].0 == k) <==> owners_of(
                            recs,
                            k,
                        ).len() > 0) && (forall|j: int|
                        0 <= j < kv.len() ==> #[trigger] kv[j].1 == parcel_entry(recs, kv[j].0)),
                }
            }
        }),
{
    let text = chars_of(csv);
    let delim = chars_of(delimiter);
    let idc = chars_of(id_col);
    let nc = chars_of(nutzung_col);
    let ec = chars_of(eigentuemer_col);
    let ls = lines_chars(&text);
    let mut cells: Vec<Vec<Vec<char>>> = Vec::new();
    let mut li: usize = 0;
    while li < ls.len()
        invariant
            li <= ls@.len(),
            views(ls@) == lines(text@),
            cells@.map_values(|c: Vec<Vec<char>>| views(c@)) == csv_cells(csv@, delimiter@).take(
                li as int,
            ),
            text@ == csv@,
            delim@ == delimiter@,
        decreases ls.len() - li,
    {
        let parts = split_chars(&ls[li], &delim);
        let ghost old_cells = cells@;
        cells.push(parts);
        assert(cells@.map_values(|c: Vec<Vec<char>>| views(c@)) =~= old_cells.map_values(
            |c: Vec<Vec<char>>| views(c@),
        ).push(views(parts@)));
        assert(csv_cells(csv@, delimiter@).take(li + 1) =~= csv_cells(csv@, delimiter@).take(
            li as int,
        ).push(split(lines(text@)[li as int], delim@)));
        li = li + 1;
    }
    let ghost gcells = csv_cells(csv@, delimiter@);
    assert(gcells.take(ls@.len() as int) =~= gcells);
    assert(cells@.map_values(|c: Vec<Vec<char>>| views(c@)) == gcells);
    if cells.len() == 0 {
        let m: SortedMap<String, Vec<CsvDatensatz>> = SortedMap::new();
        assert(old_view(m) =~= Seq::<(Seq<char>, Seq<DatensatzView>)>::empty());
        let d = CsvDataType::Old(m).migrate_new();
        assert(spec_migrate_new(CsvDataView::Old(old_view(m))) =~= Seq::<
            (Seq<char>, FlstInternalView),
        >::empty());
        return Ok(d);
    }
    let header: Vec<Vec<char>> = if ignore_firstline {
        assert(views(cells@[0]@) == gcells[0]);
        copy_cells(&cells[0])
    } else {
        let mut h: Vec<Vec<char>> = Vec::new();
        h.push(chars_of(id_col));
        h.push(chars_of(nutzung_col));
        h.push(chars_of(eigentuemer_col));
        assert(views(h@) =~= seq![id_col@, nutzung_col@, eigentuemer_col@]);
        h
    };
    let ghost cols = csv_header(gcells, ignore_firstline, id_col@, nutzung_col@, eigentuemer_col@);
    let ghost rows = csv_rows(gcells, ignore_firstline);
    let ghost recs = csv_records(rows, cols, id_col@, nutzung_col@, eigentuemer_col@);
    assert(views(header@) == cols);
    let start: usize = if ignore_firstline {
        1
    } else {
        0
    };
    let mut map: SortedMap<String, Vec<CsvDatensatz>> = SortedMap::new();
    let mut ri: usize = start;
    while ri < cells.len()
        invariant
            start <= ri <= cells@.len(),
            start == (if ignore_firstline { 1usize } else { 0usize }),
            cells@.len() == gcells.len(),
            gcells == csv_cells(csv@, delimiter@),
            cells@.map_values(|c: Vec<Vec<char>>| views(c@)) == gcells,
            views(header@) == cols,
            idc@ == id_col@,
            nc@ == nutzung_col@,
            ec@ == eigentuemer_col@,
            rows == csv_rows(gcells, ignore_firstline),
            cols == csv_header(gcells, ignore_firstline, id_col@, nutzung_col@, eigentuemer_col@),
            recs == csv_records(rows, cols, id_col@, nutzung_col@, eigentuemer_col@),
            rows.len() == cells@.len() - start,
            first_fault(rows, cols, id_col@, nutzung_col@, eigentuemer_col@, 0) == first_fault(
                rows,
                cols,
                id_col@,
                nutzung_col@,
                eigentuemer_col@,
                ri - start,
            ),
            forall|j: int|
                0 <= j < ri - start ==> #[trigger] row_record(
                    rows[j],
                    cols,
                    id_col@,
                    nutzung_col@,
                    eigentuemer_col@,
                ) is Ok,
            forall|k: Seq<char>|
                match #[trigger] lookup(map.kv(), k) {
                    Some(v) => datensaetze_view(v@) == records_of(recs.take(ri - start), k) && v@.len()
                        > 0,
                    None => records_of(recs.take(ri - start), k).len() == 0,
                },
        decreases cells.len() - ri,
    {
        let ghost r = (ri - start) as int;
        assert(rows[r] == views(cells@[ri as int]@));
        let line = &cells[ri];
        // the row's number in the text: header and counting from 1
        let row_no: usize = ri + 1;
        assert(row_no as nat == (r + (if ignore_firstline { 2nat } else { 1nat })) as nat);
        let (id, eig, nu) = match read_row(line, &header, &idc, &nc, &ec) {
            Ok(t) => t,
            Err(f) => {
                assert(first_fault(rows, cols, id_col@, nutzung_col@, eigentuemer_col@, r) == Some(
                    (r, f),
                ));
                let e = fault_message_exec(row_no, f, id_col, nutzung_col, eigentuemer_col);
                let ghost offset: nat = if ignore_firstline { 2 } else { 1 };
                assert(e@ == fault_message((r + offset) as nat, f, id_col@, nutzung_col@, eigentuemer_col@));
                assert(first_fault(rows, cols, id_col@, nutzung_col@, eigentuemer_col@, 0) == Some(
                    (r, f),
                ));
                return Err(e);
            },
        };
        let ghost rec = (id@, eig@, nu@);
        assert(row_record(rows[r], cols, id_col@, nutzung_col@, eigentuemer_col@) == Ok::<
            Record,
            RowFault,
        >(rec));
        assert(recs[r] == rec);
        let key = string_from_chars(id.as_slice());
        let ds = CsvDatensatz {
            eigentuemer: string_from_chars(eig.as_slice()),
            nutzung: string_from_chars(nu.as_slice()),
            notiz: String::new(),
        };
        let ghost old_kv = map.kv();
        map.push_to(key, ds);
        proof {
            assert(recs.take(r + 1).drop_last() =~= recs.take(r));
            assert forall|k: Seq<char>|
                match #[trigger] lookup(map.kv(), k) {
                    Some(v) => datensaetze_view(v@) == records_of(recs.take(r + 1), k) && v@.len() > 0,
                    None => records_of(recs.take(r + 1), k).len() == 0,
                } by {
                if k == id@ {
                    let w = lookup(map.kv(), k)->0;
                    match lookup(old_kv, k) {
                        Some(v) => {
                            assert(datensaetze_view(w@) =~= datensaetze_view(v@).push(ds@));
                        },
                        None => {
                            assert(datensaetze_view(w@) =~= seq![ds@]);
                        },
                    }
                } else {
                    assert(lookup(map.kv(), k) == lookup(old_kv, k));
                }
            }
        }
        ri = ri + 1;
    }
    let ghost n = rows.len() as int;
    assert(recs.take(n) =~= recs);
    assert(first_fault(rows, cols, id_col@, nutzung_col@, eigentuemer_col@, n) is None);
    map.lemma_sorted();
    let ghost mkv = map.kv();
    let d = CsvDataType::Old(map).migrate_new();
    proof {
        let kv = spec_migrate_new(CsvDataView::Old(old_view(map)));
        assert(kv.len() == mkv.len());
        assert forall|j: int| 0 <= j < kv.len() implies #[trigger] kv[j].1 == parcel_entry(
            recs,
            kv[j].0,
        ) by {
            lemma_key_index_unique::<String, Vec<CsvDatensatz>>(mkv, j);
            let k = mkv[j].0;
            assert(kv[j].0 == k);
            assert(lookup(mkv, k) == Some(mkv[j].1));
            assert(datensaetze_view(mkv[j].1@) == records_of(recs, k));
            assert(datensaetze_view(mkv[j].1@).len() == mkv[j].1@.len());
            assert(kv[j].1 == migrate_entry(datensaetze_view(mkv[j].1@)));
            lemma_migrate_records_of(recs, k);
        }
        assert forall|k: Seq<char>|
            (exists|j: int| 0 <= j < kv.len() && kv[j].0 == k) <==> owners_of(recs, k).len() > 0 by {
            lemma_records_of(recs, k);
            if owners_of(recs, k).len() > 0 {
                assert(lookup(mkv, k) is Some);
                let j = crate::sorted_map::key_index(mkv, k)->0;
                assert(0 <= j < mkv.len() && mkv[j].0 == k);
                assert(kv[j].0 == k);
            }
            if exists|j: int| 0 <= j < kv.len() && kv[j].0 == k {
                let j = choose|j: int| 0 <= j < kv.len() && kv[j].0 == k;
                assert(mkv[j].0 == k);
                lemma_key_index_unique::<String, Vec<CsvDatensatz>>(mkv, j);
                assert(lookup(mkv, k) == Some(mkv[j].1));
                assert(datensaetze_view(mkv[j].1@).len() == mkv[j].1@.len());
            }
        }
    }
    Ok(d)
}


/// The first entry (in key order) whose key starts with `prefix`.
pub open spec fn first_with_prefix(kv: OldView, prefix: Seq<char>) -> Option<int>
    decreases kv.len(),
{
    if kv.len() == 0 {
        None
    } else if starts_with(kv[0].0, prefix) {
        Some(0)
    } else {
        match first_with_prefix(kv.drop_first(), prefix) {
            Some(i) => Some(i + 1),
            None => None,
        }
    }
}

proof fn lemma_first_with_prefix(kv: OldView, prefix: Seq<char>, i: int)
    requires
        0 <= i <= kv.len(),
        forall|j: int| 0 <= j < i ==> !starts_with(#[trigger] kv[j].0, prefix),
    ensures
        first_with_prefix(kv, prefix) == match first_with_prefix(kv.skip(i), prefix) {
            Some(j) => Some(j + i),
            None => None,
        },
    decreases i,
{
    if i > 0 {
        assert(kv.skip(1).skip(i - 1) =~= kv.skip(i));
        assert forall|j: int| 0 <= j < i - 1 implies !starts_with(#[trigger] kv.skip(1)[j].0, prefix) by {
            assert(kv.skip(1)[j] == kv[j + 1]);
        }
        lemma_first_with_prefix(kv.skip(1), prefix, i - 1);
        assert(kv.skip(1) =~= kv.drop_first());
    } else {
        assert(kv.skip(0) =~= kv);
    }
}

/// The data of the parcel that an identifier (possibly with `_`) names: the
/// first entry whose key starts with the identifier's search prefix.
pub fn search_for_flst_id(csv: &CsvDataType, flst_id: &str) -> (r: Option<(String, Vec<CsvDatensatz>)>)
    ensures
        ({
            let fb = spec_old_fallback(csv@);
            match spec_parse_num(spec_flst_from_str(replace(flst_id@, "_"@, ""@))) {
                None => r is None,
                Some(p) => match first_with_prefix(fb, spec_format_start_str(p)) {
                    None => r is None,
                    Some(i) => r matches Some((k, v)) && k@ == fb[i].0 && datensaetze_view(v@) == fb[i].1,
                },
            }
        }),
{
    let id = replace_str(flst_id, "_", "");
    let pn = match FlstIdParsed::from_str(id.as_str()).parse_num() {
        Some(p) => p,
        None => {
            return None;
        },
    };
    let parsed = pn.format_start_str();
    let prefix = chars_of(parsed.as_str());
    let fb = csv.get_old_fallback();
    let ghost kv = old_view(fb);
    let mut i: usize = 0;
    while i < fb.len()
        invariant
            i <= fb.kv().len(),
            kv == old_view(fb),
            kv == spec_old_fallback(csv@),
            spec_parse_num(spec_flst_from_str(replace(flst_id@, "_"@, ""@))) == Some(pn),
            prefix@ == spec_format_start_str(pn),
            forall|j: int| 0 <= j < i ==> !starts_with(#[trigger] kv[j].0, prefix@),
        decreases fb.kv().len() - i,
    {
        let k = chars_of(fb.key_at(i).as_str());
        if starts_with_chars(&k, &prefix) {
            proof {
                assert(kv[i as int].0 == fb.kv()[i as int].0);
                assert(k@ == kv[i as int].0);
                lemma_first_with_prefix(kv, prefix@, i as int);
                assert(kv.skip(i as int)[0] == kv[i as int]);
                assert(first_with_prefix(kv.skip(i as int), prefix@) == Some(0int));
                assert(first_with_prefix(kv, prefix@) == Some(i as int));
            }
            let src = fb.value_at(i);
            let mut v: Vec<CsvDatensatz> = Vec::new();
            let mut j: usize = 0;
            while j < src.len()
                invariant
                    j <= src@.len(),
                    datensaetze_view(v@) == datensaetze_view(src@).take(j as int),
                decreases src.len() - j,
            {
                let ghost old_v = v@;
                v.push(copy_datensatz(&src[j]));
                assert(datensaetze_view(v@) =~= datensaetze_view(old_v).push(src@[j as int]@));
                j = j + 1;
                assert(datensaetze_view(v@) =~= datensaetze_view(src@).take(j as int));
            }
            assert(datensaetze_view(src@).take(src@.len() as int) =~= datensaetze_view(src@));
            let key = fb.key_at(i).clone();
            assert(key@ == kv[i as int].0);
            assert(kv[i as int].1 == datensaetze_view(src@));
            return Some((key, v));
        }
        assert(kv[i as int].0 == fb.kv()[i as int].0);
        i = i + 1;
    }
    proof {
        lemma_first_with_prefix(kv, prefix@, kv.len() as int);
        assert(kv.skip(kv.len() as int).len() == 0);
    }
    None
}

} // verus!
