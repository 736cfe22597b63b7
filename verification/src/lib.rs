//! TNViewer's logic: the parcel identifiers and the CSV data set of the
//! cadastre, the owner lists and header texts of the survey sheets, reading
//! NAS-XML into a tree, the objects of the NAS data by their attributes, the
//! change requests and their XML, the catalogue of land uses, the settings,
//! and the text and HTML that the viewer shows of them.

use vstd::prelude::*;

pub mod text;
pub mod seq_lemmas;
pub mod collation;
pub mod sorted_map;
pub mod xlsx;
pub mod csv;
pub mod xml;
pub mod david;
pub mod geograf;
pub mod nas;
pub mod search;
pub mod ui;
pub mod ribbon;
pub mod popover;
pub mod screen;
pub mod zip;
pub mod xml_templates;
pub mod konfiguration;
pub mod pdf;
pub mod optimize;
pub mod grafbat;

use crate::csv::{CsvDataType, data_keys};
use crate::xlsx::{FlstIdParsed, parse_key, spec_format_nice, spec_flst_from_str, spec_parse_num};
use crate::search::{NutzungsArt, NutzungsArtMap};
use crate::sorted_map::{SortedMap, keys_sorted};
use crate::text::{split, split_str, string_views, copy_string, to_string, trim, trim_str};
use crate::ui::PolyNeuInfo;
use crate::nas::{attr_value, spec_flst_part_id, NasXMLFile, SplitNasXml, TaggedPolygon};
use crate::sorted_map::{lookup, key_index, lemma_key_index_unique};
use crate::collation::str_eq;

verus! {

/// The index of the first identifier that parses.
pub open spec fn first_parsed(keys: Seq<Seq<char>>) -> Option<int>
    decreases keys.len(),
{
    if keys.len() == 0 {
        None
    } else if parse_key(keys[0]) is Some {
        Some(0)
    } else {
        match first_parsed(keys.drop_first()) {
            Some(i) => Some(i + 1),
            None => None,
        }
    }
}

proof fn lemma_first_parsed(keys: Seq<Seq<char>>, i: int)
    requires
        0 <= i <= keys.len(),
        forall|j: int| 0 <= j < i ==> parse_key(#[trigger] keys[j]) is None,
    ensures
        first_parsed(keys) == match first_parsed(keys.skip(i)) {
            Some(j) => Some(j + i),
            None => None,
        },
    decreases i,
{
    if i > 0 {
        assert(keys.skip(1).skip(i - 1) =~= keys.skip(i));
        assert forall|j: int| 0 <= j < i - 1 implies parse_key(#[trigger] keys.skip(1)[j]) is None by {
            assert(keys.skip(1)[j] == keys[j + 1]);
        }
        lemma_first_parsed(keys.skip(1), i - 1);
        assert(keys.skip(1) =~= keys.drop_first());
    } else {
        assert(keys.skip(0) =~= keys);
    }
}

/// The Gemarkung of the first parcel (in key order) whose identifier parses; 0 if none does.
pub fn get_main_gemarkung(csv: &CsvDataType) -> (r: usize)
    ensures
        r == match first_parsed(data_keys(csv@)) {
            Some(i) => parse_key(data_keys(csv@)[i])->0.gemarkung,
            None => 0,
        },
{
    let keys = csv.keys();
    let ghost ks = data_keys(csv@);
    let mut i: usize = 0;
    while i < keys.len()
        invariant
            i <= keys@.len(),
            keys@.map_values(|k: &String| k@) == ks,
            ks == data_keys(csv@),
            forall|j: int| 0 <= j < i ==> parse_key(#[trigger] ks[j]) is None,
        decreases keys.len() - i,
    {
        assert(ks[i as int] == keys@[i as int]@);
        let parsed = FlstIdParsed::from_str(keys[i].as_str()).parse_num();
        assert(parsed == parse_key(ks[i as int]));
        match parsed {
            Some(f) => {
                proof {
                    lemma_first_parsed(ks, i as int);
                    assert(ks.skip(i as int)[0] == ks[i as int]);
                    assert(first_parsed(ks.skip(i as int)) == Some(0int));
                }
                return f.gemarkung;
            },
            None => {},
        }
        i = i + 1;
    }
    proof {
        lemma_first_parsed(ks, ks.len() as int);
        assert(ks.skip(ks.len() as int).len() == 0);
    }
    0
}

/// The identifier in its long form, or nothing where it does not parse.
pub fn validate_format_flst_id(id: String) -> (r: String)
    ensures
        r@ == match parse_key(id@) {
            Some(f) => spec_format_nice(f),
            None => Seq::empty(),
        },
{
    match FlstIdParsed::from_str(id.as_str()).parse_num() {
        Some(s) => s.format_nice(),
        None => String::new(),
    }
}

/// The value of the first `AX_Ebene=value` among the comma-separated
/// attributes; a part is split at `=` into name and value.
pub open spec fn ebene_of(parts: Seq<Seq<char>>) -> Option<Seq<char>>
    decreases parts.len(),
{
    if parts.len() == 0 {
        None
    } else {
        let q = split(parts[0], "="@);
        if q.len() >= 2 && q[0] == "AX_Ebene"@ {
            Some(q[1])
        } else {
            ebene_of(parts.drop_first())
        }
    }
}

pub(crate) fn ebene_exec(atr: &String) -> (r: Option<String>)
    ensures
        match spec_ebene_of_atr(atr@) {
            Some(e) => r matches Some(x) && x@ == e,
            None => r is None,
        },
{
    let parts = split_str(atr.as_str(), ",");
    let ghost ps = string_views(parts@);
    let mut i: usize = 0;
    assert(ps.skip(0) =~= ps);
    while i < parts.len()
        invariant
            i <= parts@.len(),
            ps == string_views(parts@),
            ps == split(atr@, ","@),
            ebene_of(ps) == ebene_of(ps.skip(i as int)),
        decreases parts.len() - i,
    {
        let q = split_str(parts[i].as_str(), "=");
        assert(ps.skip(i as int)[0] == parts@[i as int]@);
        assert(ps.skip(i as int).drop_first() =~= ps.skip(i + 1));
        if q.len() >= 2 && str_eq(q[0].as_str(), "AX_Ebene") {
            assert(string_views(q@)[0] == q@[0]@);
            assert(string_views(q@)[1] == q@[1]@);
            return Some(copy_string(&q[1]));
        }
        assert(q.len() >= 2 ==> string_views(q@)[0] == q@[0]@);
        i = i + 1;
    }
    None
}

pub open spec fn spec_ebene_of_atr(atr: Seq<char>) -> Option<Seq<char>> {
    ebene_of(split(atr, ","@))
}

/// The layer (AX_Ebene) of each land use that names one, by abbreviation.
pub fn get_nutzungsartenkatalog_ebenen(map: &NutzungsArtMap) -> (r: SortedMap<String, String>)
    ensures
        r.kv().map_values(|e: (Seq<char>, String)| (e.0, e.1@)) == map.kv().filter_map(
            |e: (Seq<char>, NutzungsArt)|
                match spec_ebene_of_atr(e.1.atr@) {
                    Some(x) => Some((e.0, x)),
                    None => None,
                },
        ),
{
    let ghost kv = map.kv();
    let ghost f = |e: (Seq<char>, NutzungsArt)|
        match spec_ebene_of_atr(e.1.atr@) {
            Some(x) => Some((e.0, x)),
            None => None,
        };
    map.lemma_sorted();
    let mut r: SortedMap<String, String> = SortedMap::new();
    let mut i: usize = 0;
    while i < map.len()
        invariant
            i <= kv.len(),
            kv == map.kv(),
            keys_sorted::<String, NutzungsArt>(kv),
            f == (|e: (Seq<char>, NutzungsArt)|
                match spec_ebene_of_atr(e.1.atr@) {
                    Some(x) => Some((e.0, x)),
                    None => None,
                }),
            r.kv().map_values(|e: (Seq<char>, String)| (e.0, e.1@)) == kv.take(i as int).filter_map(f),
            r.kv().len() > 0 ==> exists|j: int| 0 <= j < i && r.kv().last().0 == #[trigger] kv[j].0,
        decreases kv.len() - i,
    {
        proof {
            kv.lemma_filter_map_take_succ(f, i as int);
        }
        let k = map.key_at(i);
        let v = map.value_at(i);
        match ebene_exec(&v.atr) {
            Some(e) => {
                let ghost before = r.kv().map_values(|e: (Seq<char>, String)| (e.0, e.1@));
                proof {
                    if r.kv().len() > 0 {
                        let j = choose|j: int| 0 <= j < i && r.kv().last().0 == #[trigger] kv[j].0;
                        assert(crate::collation::seq_lt(kv[j].0, kv[i as int].0));
                    }
                }
                r.push_last(copy_string(k), e);
                assert(r.kv().map_values(|e: (Seq<char>, String)| (e.0, e.1@)) =~= before.push(
                    (kv[i as int].0, e@),
                ));
                assert(r.kv().last().0 == kv[i as int].0);
            },
            None => {},
        }
        i = i + 1;
    }
    assert(kv.take(kv.len() as int) =~= kv);
    r
}


// ---------------------------------------------------------------------------
// Searching parcels and buildings
// ---------------------------------------------------------------------------

/// Where a search found an object: the key of its list (the layer or the
/// parcel) and its place in that list.
#[derive(Debug, PartialEq)]
pub struct SearchFlstInternalReturn {
    pub id_input: String,
    pub id_nice: String,
    pub ebene: String,
    pub flst: (String, usize),
}

/// The long form of a parcel identifier, where it gives a number.
pub open spec fn nice_id(s: Seq<char>) -> Option<Seq<char>> {
    match spec_parse_num(spec_flst_from_str(s)) {
        Some(n) => Some(spec_format_nice(n)),
        None => None,
    }
}

/// The parcel identifier of a parcel object: its `AX_Flurstueck`
/// attribute, or else its `flurstueckskennzeichen`.
pub open spec fn flst_key_of(t: TaggedPolygon) -> Option<Seq<char>> {
    match attr_value(t, "AX_Flurstueck"@) {
        Some(v) => Some(v),
        None => attr_value(t, "flurstueckskennzeichen"@),
    }
}

/// The parcel object has the identifier whose long form is `target`.
pub open spec fn flst_found(t: TaggedPolygon, target: Seq<char>) -> bool {
    match flst_key_of(t) {
        Some(k) => nice_id(k) == Some(target),
        None => false,
    }
}

fn nice_id_exec(s: &str) -> (r: Option<String>)
    ensures
        match r {
            Some(x) => nice_id(s@) == Some(x@),
            None => nice_id(s@) is None,
        },
{
    match FlstIdParsed::from_str(s).parse_num() {
        Some(n) => Some(n.format_nice()),
        None => None,
    }
}

fn flst_found_exec(t: &TaggedPolygon, target: &str) -> (r: bool)
    ensures
        r == flst_found(*t, target@),
{
    let k = match t.attributes.get(&to_string("AX_Flurstueck")) {
        Some(v) => copy_string(v),
        None => match t.attributes.get(&to_string("flurstueckskennzeichen")) {
            Some(v) => copy_string(v),
            None => return false,
        },
    };
    match nice_id_exec(k.as_str()) {
        Some(n) => str_eq(n.as_str(), target),
        None => false,
    }
}

/// The first parcel object (layer `AX_Flurstueck`) whose identifier has the
/// same long form as `id`; `None` where `id` gives no number, the layer is
/// missing or no object matches.
pub fn search_flst_internal(id: &str, nas: &NasXMLFile) -> (r: Option<SearchFlstInternalReturn>)
    ensures
        match nice_id(id@) {
            None => r is None,
            Some(target) => match lookup(nas.ebenen.kv(), "AX_Flurstueck"@) {
                None => r is None,
                Some(list) => {
                    &&& r matches Some(x) ==> {
                        &&& x.id_input@ == id@
                        &&& x.id_nice@ == target
                        &&& x.ebene@ == "AX_Flurstueck"@
                        &&& x.flst.0@ == "AX_Flurstueck"@
                        &&& x.flst.1 < list@.len()
                        &&& flst_found(list@[x.flst.1 as int], target)
                        &&& forall|k: int| 0 <= k < x.flst.1 ==> !flst_found(#[trigger] list@[k], target)
                    }
                    &&& r is None ==> forall|k: int| 0 <= k < list@.len() ==> !flst_found(#[trigger] list@[k], target)
                },
            },
        },
{
    let target = match nice_id_exec(id) {
        Some(t) => t,
        None => return None,
    };
    let list = match nas.ebenen.get(&to_string("AX_Flurstueck")) {
        Some(l) => l,
        None => return None,
    };
    let mut i: usize = 0;
    while i < list.len()
        invariant
            i <= list@.len(),
            lookup(nas.ebenen.kv(), "AX_Flurstueck"@) == Some(*list),
            nice_id(id@) == Some(target@),
            forall|k: int| 0 <= k < i ==> !flst_found(#[trigger] list@[k], target@),
        decreases list.len() - i,
    {
        if flst_found_exec(&list[i], target.as_str()) {
            return Some(
                SearchFlstInternalReturn {
                    id_input: to_string(id),
                    id_nice: target,
                    ebene: to_string("AX_Flurstueck"),
                    flst: (to_string("AX_Flurstueck"), i),
                },
            );
        }
        i = i + 1;
    }
    None
}

/// The first building (layer `AX_Gebaeude`) with the id `gebaeude_id`, by
/// its place in the layer; an error where the file has no such layer.
pub fn search_for_gebauede(nas: &NasXMLFile, gebaeude_id: &str) -> (r: Result<Option<usize>, String>)
    ensures
        match lookup(nas.ebenen.kv(), "AX_Gebaeude"@) {
            None => r matches Err(e) && e@ == "keine Ebene AX_Gebaeude"@,
            Some(list) => match r {
                Ok(Some(j)) => j < list@.len() && attr_value(list@[j as int], "id"@) == Some(gebaeude_id@)
                    && forall|k: int| 0 <= k < j ==> attr_value(#[trigger] list@[k], "id"@) != Some(gebaeude_id@),
                Ok(None) => forall|k: int| 0 <= k < list@.len() ==> attr_value(#[trigger] list@[k], "id"@) != Some(gebaeude_id@),
                Err(_) => false,
            },
        },
{
    let list = match nas.ebenen.get(&to_string("AX_Gebaeude")) {
        Some(l) => l,
        None => return Err(to_string("keine Ebene AX_Gebaeude")),
    };
    let mut i: usize = 0;
    while i < list.len()
        invariant
            i <= list@.len(),
            lookup(nas.ebenen.kv(), "AX_Gebaeude"@) == Some(*list),
            forall|k: int| 0 <= k < i ==> attr_value(#[trigger] list@[k], "id"@) != Some(gebaeude_id@),
        decreases list.len() - i,
    {
        let hit = match list[i].get_de_id() {
            Some(v) => str_eq(v.as_str(), gebaeude_id),
            None => false,
        };
        if hit {
            return Ok(Some(i));
        }
        i = i + 1;
    }
    Ok(None)
}

/// Piece `j` of parcel `i` has the identifier `id`, and the parcel's
/// identifier gives a number.
pub open spec fn part_hit(kv: Seq<(Seq<char>, Vec<TaggedPolygon>)>, i: int, j: int, id: Seq<char>) -> bool {
    &&& 0 <= i < kv.len()
    &&& 0 <= j < kv[i].1@.len()
    &&& nice_id(kv[i].0) is Some
    &&& spec_flst_part_id(kv[i].1@[j].attributes.kv()) == Some(id)
}

/// The first piece, parcel by parcel, whose identifier
/// (`Flurstueck:Ebene:id:IntersectionId`) is `id`, with the long form of
/// its parcel's identifier and its layer (empty where it has none).
pub fn search_flst_part_internal(id: &str, nas: &SplitNasXml) -> (r: Option<SearchFlstInternalReturn>)
    ensures
        ({
            let kv = nas.flurstuecke_nutzungen.kv();
            &&& r matches Some(x) ==> ({
                let i = key_index(kv, x.flst.0@)->0;
                let j = x.flst.1 as int;
                &&& key_index(kv, x.flst.0@) is Some
                &&& part_hit(kv, i, j, id@)
                &&& x.id_input@ == id@
                &&& Some(x.id_nice@) == nice_id(kv[i].0)
                &&& x.ebene@ == match attr_value(kv[i].1@[j], "AX_Ebene"@) {
                    Some(e) => e,
                    None => Seq::<char>::empty(),
                }
                &&& forall|a: int, b: int| (a < i || (a == i && b < j)) ==> !#[trigger] part_hit(kv, a, b, id@)
            })
            &&& r is None ==> forall|a: int, b: int| !#[trigger] part_hit(kv, a, b, id@)
        }),
{
    let m = &nas.flurstuecke_nutzungen;
    m.lemma_sorted();
    let ghost kv = m.kv();
    let mut i: usize = 0;
    while i < m.len()
        invariant
            i <= kv.len(),
            kv == m.kv(),
            kv == nas.flurstuecke_nutzungen.kv(),
            keys_sorted::<String, Vec<TaggedPolygon>>(kv),
            forall|a: int, b: int| a < i ==> !#[trigger] part_hit(kv, a, b, id@),
        decreases kv.len() - i,
    {
        let k = m.key_at(i);
        match nice_id_exec(k.as_str()) {
            None => {},
            Some(nice) => {
                let parts = m.value_at(i);
                let mut j: usize = 0;
                while j < parts.len()
                    invariant
                        j <= parts@.len(),
                        i < kv.len(),
                        kv == m.kv(),
                        kv == nas.flurstuecke_nutzungen.kv(),
                        keys_sorted::<String, Vec<TaggedPolygon>>(kv),
                        *parts == kv[i as int].1,
                        nice_id(kv[i as int].0) == Some(nice@),
                        k@ == kv[i as int].0,
                        forall|a: int, b: int| a < i ==> !#[trigger] part_hit(kv, a, b, id@),
                        forall|b: int| b < j ==> !#[trigger] part_hit(kv, i as int, b, id@),
                    decreases parts.len() - j,
                {
                    let hit = match parts[j].get_flst_part_id() {
                        Some(p) => str_eq(p.as_str(), id),
                        None => false,
                    };
                    if hit {
                        let ebene = match parts[j].get_ebene() {
                            Some(e) => e,
                            None => String::new(),
                        };
                        let r = SearchFlstInternalReturn {
                            id_input: to_string(id),
                            id_nice: nice,
                            ebene,
                            flst: (copy_string(k), j),
                        };
                        assert(kv[i as int].1@[j as int] == parts@[j as int]);
                        assert(part_hit(kv, i as int, j as int, id@));
                        assert(forall|a: int, b: int| (a < i || (a == i && b < j)) ==> !#[trigger] part_hit(kv, a, b, id@));
                        proof {
                            lemma_key_index_unique::<String, Vec<TaggedPolygon>>(kv, i as int);
                        }
                        return Some(r);
                    }
                    j = j + 1;
                }
            },
        }
        i = i + 1;
    }
    None
}


// ---------------------------------------------------------------------------
// Locking new use areas
// ---------------------------------------------------------------------------

/// The area that a lock request names: the id, trimmed, unless it is empty;
/// `None` asks for all areas.
pub open spec fn lock_id(id: Option<Seq<char>>) -> Option<Seq<char>> {
    match id {
        Some(s) => if s.len() == 0 {
            None
        } else {
            Some(trim(s))
        },
        None => None,
    }
}

/// The area with key `k` is one that the request names.
pub open spec fn lock_selected(id: Option<Seq<char>>, k: Seq<char>) -> bool {
    match lock_id(id) {
        Some(t) => k == t,
        None => true,
    }
}

pub open spec fn lock_line(k: Seq<char>) -> Seq<char> {
    "ok locking aenderung "@ + k
}

/// The log of a lock request: a line for each area locked or unlocked.
pub open spec fn lock_log(id: Option<Seq<char>>, kv: Seq<(Seq<char>, PolyNeuInfo)>) -> Seq<Seq<char>> {
    match lock_id(id) {
        Some(t) => if lookup(kv, t) is Some {
            seq![lock_line(t)]
        } else {
            Seq::empty()
        },
        None => kv.map_values(|e: (Seq<char>, PolyNeuInfo)| lock_line(e.0)),
    }
}

pub open spec fn opt_text(o: Option<String>) -> Option<Seq<char>> {
    match o {
        Some(s) => Some(s@),
        None => None,
    }
}

/// The areas `b` are the areas `a` after the lock request `id`: the same
/// keys and uses, the lock flipped where the request names the area.
pub open spec fn lock_step(id: Option<Seq<char>>, a: Seq<(Seq<char>, PolyNeuInfo)>, b: Seq<(Seq<char>, PolyNeuInfo)>) -> bool {
    &&& b.len() == a.len()
    &&& forall|j: int|
        0 <= j < a.len() ==> {
            let o = #[trigger] a[j];
            let n = b[j];
            &&& n.0 == o.0
            &&& opt_text(n.1.nutzung) == opt_text(o.1.nutzung)
            &&& n.1.locked == (lock_selected(id, o.0) != o.1.locked)
        }
}

/// The same lock request twice leaves every area as it was.
pub proof fn lemma_lock_twice(
    id: Option<Seq<char>>,
    a: Seq<(Seq<char>, PolyNeuInfo)>,
    b: Seq<(Seq<char>, PolyNeuInfo)>,
    c: Seq<(Seq<char>, PolyNeuInfo)>,
)
    requires
        lock_step(id, a, b),
        lock_step(id, b, c),
    ensures
        c.len() == a.len(),
        forall|j: int|
            0 <= j < a.len() ==> {
                &&& (#[trigger] c[j]).0 == a[j].0
                &&& opt_text(c[j].1.nutzung) == opt_text(a[j].1.nutzung)
                &&& c[j].1.locked == a[j].1.locked
            },
{
    assert forall|j: int| 0 <= j < a.len() implies {
        &&& (#[trigger] c[j]).0 == a[j].0
        &&& opt_text(c[j].1.nutzung) == opt_text(a[j].1.nutzung)
        &&& c[j].1.locked == a[j].1.locked
    } by {
        assert(b[j].0 == a[j].0);
    }
}

fn toggled(p: &PolyNeuInfo) -> (r: PolyNeuInfo)
    ensures
        opt_text(r.nutzung) == opt_text(p.nutzung),
        r.locked == !p.locked,
{
    PolyNeuInfo {
        nutzung: match &p.nutzung {
            Some(s) => Some(copy_string(s)),
            None => None,
        },
        locked: !p.locked,
    }
}

fn lock_line_exec(k: &str) -> (r: String)
    ensures
        r@ == lock_line(k@),
{
    let mut v = crate::text::chars_of("ok locking aenderung ");
    crate::text::push_str(&mut v, k);
    crate::text::string_from_chars(v.as_slice())
}

/// Locks or unlocks the new use area `id` (trimmed), or every area where
/// no id is given: each such area present flips its lock; the uses and keys
/// stay. Returns a log line for each area flipped.
pub fn lock_unlock_poly(id: Option<String>, polys: &mut SortedMap<String, PolyNeuInfo>) -> (r: Vec<String>)
    ensures
        lock_step(opt_text(id), old(polys).kv(), final(polys).kv()),
        string_views(r@) == lock_log(opt_text(id), old(polys).kv()),
{
    let ghost okv = polys.kv();
    polys.lemma_sorted();
    let target: Option<String> = match &id {
        Some(s) => if crate::text::chars_of(s.as_str()).len() == 0 {
            None
        } else {
            Some(trim_str(s.as_str()))
        },
        None => None,
    };
    proof {
        match id {
            Some(s) => {
                if s@.len() == 0 {
                    assert(s@ =~= Seq::<char>::empty());
                }
            },
            None => {},
        }
    }
    assert(opt_text(target) == lock_id(opt_text(id)));
    let mut log: Vec<String> = Vec::new();
    match target {
        Some(t) => {
            let found = match polys.get(&t) {
                Some(p) => Some(toggled(p)),
                None => None,
            };
            match found {
                Some(p) => {
                    let line = lock_line_exec(t.as_str());
                    let ghost tv = t@;
                    let ghost i = key_index(okv, tv)->0;
                    proof {
                        lemma_key_index_unique::<String, PolyNeuInfo>(okv, i);
                    }
                    polys.insert(t, p);
                    proof {
                        assert forall|j: int| 0 <= j < okv.len() implies okv[j].0 == tv <==> j == i by {
                            lemma_key_index_unique::<String, PolyNeuInfo>(okv, j);
                        }
                        assert forall|j: int| 0 <= j < okv.len() implies {
                            let o = #[trigger] okv[j];
                            let n = polys.kv()[j];
                            &&& n.0 == o.0
                            &&& opt_text(n.1.nutzung) == opt_text(o.1.nutzung)
                            &&& n.1.locked == (lock_selected(opt_text(id), o.0) != o.1.locked)
                        } by {
                            lemma_key_index_unique::<String, PolyNeuInfo>(okv, j);
                        }
                    }
                    log.push(line);
                    assert(string_views(log@) =~= seq![lock_line(tv)]);
                },
                None => {
                    proof {
                        assert forall|j: int| 0 <= j < okv.len() implies okv[j].0 != t@ by {
                            lemma_key_index_unique::<String, PolyNeuInfo>(okv, j);
                        }
                    }
                    assert(string_views(log@) =~= Seq::<Seq<char>>::empty());
                },
            }
        },
        None => {
            let n = polys.len();
            let mut i: usize = 0;
            while i < n
                invariant
                    i <= n,
                    n == okv.len(),
                    polys.kv().len() == n,
                    lock_id(opt_text(id)) is None,
                    forall|j: int|
                        0 <= j < n ==> {
                            let o = #[trigger] okv[j];
                            let c = polys.kv()[j];
                            &&& c.0 == o.0
                            &&& opt_text(c.1.nutzung) == opt_text(o.1.nutzung)
                            &&& c.1.locked == (if j < i {
                                !o.1.locked
                            } else {
                                o.1.locked
                            })
                        },
                    keys_sorted::<String, PolyNeuInfo>(polys.kv()),
                    string_views(log@) == okv.take(i as int).map_values(
                        |e: (Seq<char>, PolyNeuInfo)| lock_line(e.0),
                    ),
                decreases n - i,
            {
                let k = copy_string(polys.key_at(i));
                let p = toggled(polys.value_at(i));
                let line = lock_line_exec(k.as_str());
                proof {
                    lemma_key_index_unique::<String, PolyNeuInfo>(polys.kv(), i as int);
                }
                polys.insert(k, p);
                polys.lemma_sorted();
                let ghost before = log@;
                log.push(line);
                assert(string_views(log@) =~= string_views(before).push(line@));
                assert(okv.take(i + 1) =~= okv.take(i as int).push(okv[i as int]));
                assert(string_views(log@) =~= okv.take(i + 1).map_values(
                    |e: (Seq<char>, PolyNeuInfo)| lock_line(e.0),
                ));
                i = i + 1;
            }
            assert(okv.take(n as int) =~= okv);
        },
    }
    log
}

} // verus!
