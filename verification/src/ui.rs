//! HTML pieces of the user interface that are plain text work.

use vstd::prelude::*;
use crate::text::{
    chars_of, join, lines, lines_chars, push_all, push_str, replace, replace_chars, string_from_chars,
    trim, trim_chars, views,
};
use crate::collation::str_eq;
use crate::search::{Hit, NutzungsArtMap, hit_views, search_map, spec_search_map, catalogue_view};
use crate::sorted_map::{SortedMap, key_views, lookup, sorted_distinct, strictly_sorted};
use crate::collation::seq_lt;
use crate::text::{dec, join_strings, lemma_split_ne_nonempty, replace_str, split, split_str, string_views, sub_chars, to_string, trim_str};
use crate::csv::{CsvDataType, CsvDatensatz, DatensatzView, OldView, Status, datensaetze_view, old_view, spec_old_fallback};
use crate::nas::{TaggedPolygon, spec_auto_kuerzel};
use crate::xlsx::{
    FlstIdParsed, FlstIdParsedNumber, parse_key, spec_flst_from_str, spec_format_with, spec_format_nice, spec_format_start_str, spec_parse_num,
    spec_to_nice_string,
};

verus! {

/// The drawing tool in use.
#[derive(Debug, Copy, Clone)]
pub enum Tool {
    RissgebietZeichnen,
    GebaeudeLoeschen,
    NutzungEinzeichnen,
}

/// The page of the settings dialog.
#[derive(Debug, Copy, Clone, PartialEq, Eq, Structural, PartialOrd)]
pub enum ConfigurationView {
    Allgemein,
    DarstellungBearbeitung,
    DarstellungPdf,
    DarstellungPdfAllgemein,
    PdfBeschriftungen,
    PdfSymbole,
}

/// A building to delete, with the parcels it stands on.
#[derive(Debug, Default, Clone, PartialEq, PartialOrd)]
pub struct GebaeudeLoeschen {
    pub gebaeude_id: String,
    pub flst_id: Vec<String>,
}

/// Whether a label is old, new, or stays.
#[derive(Debug, Copy, Clone, PartialEq, PartialOrd)]
pub enum TextStatus {
    Old,
    New,
    StaysAsIs,
}

/// `true` for `false`: a flag that is left out when not set.
pub fn is_false(b: &bool) -> (r: bool)
    ensures
        r == !*b,
{
    !*b
}

/// The concatenation of the pieces.
pub open spec fn concat(parts: Seq<Seq<char>>) -> Seq<char>
    decreases parts.len(),
{
    if parts.len() == 0 {
        Seq::empty()
    } else {
        concat(parts.drop_last()) + parts.last()
    }
}

/// Each line trimmed and its backticks made quotes, all on one line.
pub open spec fn spec_normalize_for_js(s: Seq<char>) -> Seq<char> {
    join(lines(s).map_values(|l: Seq<char>| replace(trim(l), "`"@, "'"@)), ""@)
}

pub fn normalize_for_js(s: String) -> (r: String)
    ensures
        r@ == spec_normalize_for_js(s@),
{
    let c = chars_of(s.as_str());
    let ls = lines_chars(&c);
    let from = chars_of("`");
    let to = chars_of("'");
    let mut parts: Vec<Vec<char>> = Vec::new();
    let mut i: usize = 0;
    while i < ls.len()
        invariant
            i <= ls@.len(),
            views(ls@) == lines(s@),
            from@ == "`"@,
            to@ == "'"@,
            views(parts@) == lines(s@).take(i as int).map_values(
                |l: Seq<char>| replace(trim(l), "`"@, "'"@),
            ),
        decreases ls.len() - i,
    {
        let t = trim_chars(&ls[i]);
        let r = replace_chars(&t, &from, &to);
        let ghost before = parts@;
        parts.push(r);
        assert(views(parts@) =~= views(before).push(r@));
        assert(lines(s@).take(i + 1).map_values(|l: Seq<char>| replace(trim(l), "`"@, "'"@))
            =~= lines(s@).take(i as int).map_values(
            |l: Seq<char>| replace(trim(l), "`"@, "'"@),
        ).push(replace(trim(lines(s@)[i as int]), "`"@, "'"@)));
        i = i + 1;
    }
    assert(lines(s@).take(lines(s@).len() as int) =~= lines(s@));
    let empty = chars_of("");
    let j = crate::text::join_chars(&parts, &empty);
    string_from_chars(j.as_slice())
}

/// `" selected='selected' "` where the option is the selected one.
pub open spec fn selected_attr(is_selected: bool) -> Seq<char> {
    if is_selected {
        " selected='selected' "@
    } else {
        ""@
    }
}

pub open spec fn option_html(k: Seq<char>, selected: Option<Seq<char>>) -> Seq<char> {
    "<option "@ + selected_attr(selected == Some(k)) + ">"@ + k + "</option>"@
}

/// A `<select>` of "nicht defin." and the catalogue's abbreviations, with the
/// given one (or "nicht defin.") selected.
pub open spec fn spec_render_select(
    keys: Seq<Seq<char>>,
    selected: Option<Seq<char>>,
    function: Seq<char>,
    id: Seq<char>,
    html_id: Seq<char>,
) -> Seq<char> {
    "<select id='"@ + html_id + "-"@ + id + "' onchange='"@ + function + "(event);' data-id='"@ + id
        + "'>"@ + "<option "@ + selected_attr(selected is None)
        + " value='NOTDEFINED'>nicht defin.</option>"@ + concat(
        keys.map_values(|k: Seq<char>| option_html(k, selected)),
    ) + "</select>"@
}

pub open spec fn catalogue_keys(m: NutzungsArtMap) -> Seq<Seq<char>> {
    m.kv().map_values(|e: (Seq<char>, crate::search::NutzungsArt)| e.0)
}

pub open spec fn opt_view(o: Option<String>) -> Option<Seq<char>> {
    match o {
        Some(s) => Some(s@),
        None => None,
    }
}

fn push_selected(v: &mut Vec<char>, is_selected: bool)
    ensures
        final(v)@ == old(v)@ + selected_attr(is_selected),
{
    if is_selected {
        push_str(v, " selected='selected' ");
    } else {
        push_str(v, "");
    }
}

#[verifier::spinoff_prover]
#[verifier::rlimit(40)]
pub fn render_select(
    map: &NutzungsArtMap,
    selected: &Option<String>,
    function: &str,
    id: &str,
    html_id: &str,
) -> (r: String)
    ensures
        r@ == spec_render_select(catalogue_keys(*map), opt_view(*selected), function@, id@, html_id@),
{
    let ghost sel = opt_view(*selected);
    let mut s: Vec<char> = Vec::new();
    push_str(&mut s, "<select id='");
    push_str(&mut s, html_id);
    push_str(&mut s, "-");
    push_str(&mut s, id);
    push_str(&mut s, "' onchange='");
    push_str(&mut s, function);
    push_str(&mut s, "(event);' data-id='");
    push_str(&mut s, id);
    push_str(&mut s, "'>");
    push_str(&mut s, "<option ");
    push_selected(&mut s, selected.is_none());
    push_str(&mut s, " value='NOTDEFINED'>nicht defin.</option>");
    let ghost head = s@;
    let ghost ks = catalogue_keys(*map);
    let mut i: usize = 0;
    while i < map.len()
        invariant
            i <= ks.len(),
            ks == catalogue_keys(*map),
            sel == opt_view(*selected),
            s@ == head + concat(ks.take(i as int).map_values(|k: Seq<char>| option_html(k, sel))),
        decreases ks.len() - i,
    {
        let k = map.key_at(i);
        let is_sel = match selected {
            Some(x) => str_eq(x.as_str(), k.as_str()),
            None => false,
        };
        let ghost before = s@;
        push_str(&mut s, "<option ");
        push_selected(&mut s, is_sel);
        push_str(&mut s, ">");
        push_str(&mut s, k.as_str());
        push_str(&mut s, "</option>");
        assert(ks[i as int] == k@);
        assert(ks.take(i + 1).map_values(|k: Seq<char>| option_html(k, sel)).drop_last()
            =~= ks.take(i as int).map_values(|k: Seq<char>| option_html(k, sel)));
        i = i + 1;
    }
    assert(ks.take(ks.len() as int) =~= ks);
    push_str(&mut s, "</select>");
    string_from_chars(s.as_slice())
}

/// One search result.
pub open spec fn search_item_html(h: Hit) -> Seq<char> {
    "\n        <p style='padding: 0px 10px;font-size: 14px;color: #444;margin-top: 5px;'>"@ + h.0 + " ("@ + h.1.bez + ")</p>\n        <div style='line-height:1.5;cursor:pointer;'>\n            <div class='kontextmenü-eintrag' data-seite-neu='bv-horz'>\n                "@ + h.1.def + " "@ + h.1.ehb + "\n            </div>\n        </div>"@
}

/// The first four results of the search, or "Keine Suchergebnisse", in the
/// popover's frame, normalised for the page.
pub open spec fn spec_search_popover(cat: Seq<Hit>, term: Seq<char>) -> Seq<char> {
    let hits = spec_search_map(cat, term);
    let shown = if hits.len() > 4 {
        hits.take(4)
    } else {
        hits
    };
    let items = concat(shown.map_values(|h: Hit| search_item_html(h)));
    let pc = if items.len() == 0 {
        "<p style='padding: 0px 10px;font-size: 14px;color: #444;margin-top: 5px;'>Keine Suchergebnisse</p>"@
    } else {
        items
    };
    spec_normalize_for_js("\n        <div style='background:transparent;width: 100%;height: 100%;min-height: 100%;z-index:1001;pointer-events:all;' onmouseup='closePopOver()'>\n            <div style='pointer-events: unset;padding: 1px;position: absolute;right: 5px;top: 30px;max-width: 302px;background: white;border-radius: 0px;'>\n                <div style='border:1px solid #efefef;border-radius:5px;'>\n                    "@ + pc + "\n                </div>\n            </div>\n        </div>"@)
}

pub fn ui_render_search_popover_content(map: &NutzungsArtMap, term: &str) -> (r: String)
    ensures
        r@ == spec_search_popover(catalogue_view(*map), term@),
{
    let hits = search_map(map, term);
    let ghost hv = hit_views(hits@);
    let n = if hits.len() > 4 {
        4
    } else {
        hits.len()
    };
    let ghost shown = if hv.len() > 4 {
        hv.take(4)
    } else {
        hv
    };
    assert(shown =~= hv.take(n as int));
    let mut pc: Vec<char> = Vec::new();
    let mut i: usize = 0;
    while i < n
        invariant
            i <= n <= hits@.len(),
            hv == hit_views(hits@),
            pc@ == concat(hv.take(i as int).map_values(|h: Hit| search_item_html(h))),
        decreases n - i,
    {
        let (k, v) = (&hits[i].0, &hits[i].1);
        assert(hv[i as int] == (k@, v@));
        push_str(&mut pc, "\n        <p style='padding: 0px 10px;font-size: 14px;color: #444;margin-top: 5px;'>");
        push_str(&mut pc, k.as_str());
        push_str(&mut pc, " (");
        push_str(&mut pc, v.bez.as_str());
        push_str(&mut pc, ")</p>\n        <div style='line-height:1.5;cursor:pointer;'>\n            <div class='kontextmenü-eintrag' data-seite-neu='bv-horz'>\n                ");
        push_str(&mut pc, v.def.as_str());
        push_str(&mut pc, " ");
        push_str(&mut pc, v.ehb.as_str());
        push_str(&mut pc, "\n            </div>\n        </div>");
        assert(hv.take(i + 1).map_values(|h: Hit| search_item_html(h)).drop_last() =~= hv.take(
            i as int,
        ).map_values(|h: Hit| search_item_html(h)));
        i = i + 1;
    }
    let mut out: Vec<char> = Vec::new();
    push_str(&mut out, "\n        <div style='background:transparent;width: 100%;height: 100%;min-height: 100%;z-index:1001;pointer-events:all;' onmouseup='closePopOver()'>\n            <div style='pointer-events: unset;padding: 1px;position: absolute;right: 5px;top: 30px;max-width: 302px;background: white;border-radius: 0px;'>\n                <div style='border:1px solid #efefef;border-radius:5px;'>\n                    ");
    if pc.len() == 0 {
        push_str(&mut out, "<p style='padding: 0px 10px;font-size: 14px;color: #444;margin-top: 5px;'>Keine Suchergebnisse</p>");
    } else {
        push_all(&mut out, &pc);
    }
    push_str(&mut out, "\n                </div>\n            </div>\n        </div>");
    normalize_for_js(string_from_chars(out.as_slice()))
}

/// A piece of a parcel with its use before and after. (Its polygon, in
/// floating point, is kept by the caller.)
pub struct AenderungenIntersection {
    pub alt: String,
    pub neu: String,
    pub flst_id: String,
    pub flst_id_part: String,
}

/// The split faces of a change set. (Their polygons, in floating point,
/// are kept by the caller.)
pub struct AenderungenIntersections(pub Vec<AenderungenIntersection>);

/// The Flur of a parcel identifier of Gemarkung `g`.
pub open spec fn flur_in_gemarkung(id: Seq<char>, g: usize) -> Option<usize> {
    match spec_parse_num(spec_flst_from_str(id)) {
        Some(n) => if n.gemarkung == g {
            Some(n.flur)
        } else {
            None
        },
        None => None,
    }
}

impl AenderungenIntersections {
    /// The Fluren of the faces on parcels of Gemarkung `main_gemarkung`,
    /// ascending, each once.
    pub fn get_fluren(&self, main_gemarkung: usize) -> (r: Vec<usize>)
        ensures
            strictly_sorted::<usize>(key_views(r@)),
            forall|x: usize|
                key_views(r@).contains(x) <==> exists|i: int|
                    0 <= i < self.0@.len() && flur_in_gemarkung(#[trigger] self.0@[i].flst_id@, main_gemarkung)
                        == Some(x),
    {
        let mut fluren: Vec<usize> = Vec::new();
        let mut i: usize = 0;
        while i < self.0.len()
            invariant
                i <= self.0@.len(),
                forall|x: usize|
                    fluren@.contains(x) <==> exists|k: int|
                        0 <= k < i && flur_in_gemarkung(#[trigger] self.0@[k].flst_id@, main_gemarkung) == Some(x),
            decreases self.0.len() - i,
        {
            let parsed = FlstIdParsed::from_str(self.0[i].flst_id.as_str()).parse_num();
            let ghost before = fluren@;
            match parsed {
                Some(n) => {
                    if n.gemarkung == main_gemarkung {
                        fluren.push(n.flur);
                        assert forall|x: usize|
                            fluren@.contains(x) <==> exists|k: int|
                                0 <= k < i + 1 && flur_in_gemarkung(#[trigger] self.0@[k].flst_id@, main_gemarkung) == Some(x) by {
                            if fluren@.contains(x) && x != n.flur {
                                let j = choose|j: int| 0 <= j < fluren@.len() && fluren@[j] == x;
                                assert(before[j] == x);
                                assert(before.contains(x));
                            }
                            if x == n.flur {
                                assert(fluren@[before.len() as int] == x);
                            }
                            if exists|k: int| 0 <= k < i + 1 && flur_in_gemarkung(#[trigger] self.0@[k].flst_id@, main_gemarkung) == Some(x) {
                                let k = choose|k: int| 0 <= k < i + 1 && flur_in_gemarkung(#[trigger] self.0@[k].flst_id@, main_gemarkung) == Some(x);
                                if k < i {
                                    assert(before.contains(x));
                                    let j = choose|j: int| 0 <= j < before.len() && before[j] == x;
                                    assert(fluren@[j] == x);
                                }
                            }
                        }
                    }
                },
                None => {},
            }
            i = i + 1;
        }
        assert(key_views(fluren@) =~= fluren@);
        let r = sorted_distinct(&fluren);
        assert(key_views(r@) =~= r@);
        r
    }
}

/// The Wirtschaftsart that the catalogue gives a use.
pub open spec fn wia_of(cat: NutzungsArtMap, k: Seq<char>) -> Option<Seq<char>> {
    match lookup(cat.kv(), trim(k)) {
        Some(na) => Some(na.wia@),
        None => None,
    }
}

/// The split face lies on the parcel `id`.
pub open spec fn on_flst(sf: AenderungenIntersection, id: FlstIdParsedNumber) -> bool {
    spec_parse_num(spec_flst_from_str(sf.flst_id@)) == Some(id)
}

/// The Wirtschaftsarten of the faces on parcel `id`, before (`neu` false)
/// or after (`neu` true) the change.
pub open spec fn wias_on(
    s: Seq<AenderungenIntersection>,
    id: FlstIdParsedNumber,
    cat: NutzungsArtMap,
    neu: bool,
) -> Set<Seq<char>> {
    Set::new(
        |w: Seq<char>|
            exists|i: int|
                0 <= i < s.len() && on_flst(#[trigger] s[i], id) && wia_of(
                    cat,
                    if neu {
                        s[i].neu@
                    } else {
                        s[i].alt@
                    },
                ) == Some(w),
    )
}

/// Some face on parcel `id` changes its use.
pub open spec fn changed_on(s: Seq<AenderungenIntersection>, id: FlstIdParsedNumber) -> bool {
    exists|i: int| 0 <= i < s.len() && on_flst(#[trigger] s[i], id) && s[i].alt@ != s[i].neu@
}

/// The status of a parcel with the flag whether a building on it is
/// deleted: it stays unless a face on it changes its use; a change that
/// keeps the set of Wirtschaftsarten needs no notice.
pub open spec fn spec_auto_status(
    s: Seq<AenderungenIntersection>,
    geb: Seq<FlstIdParsedNumber>,
    flst_id: Seq<char>,
    cat: NutzungsArtMap,
) -> (Status, bool) {
    match spec_parse_num(spec_flst_from_str(flst_id)) {
        None => (Status::Bleibt, false),
        Some(id) => {
            let g = geb.contains(id);
            if !changed_on(s, id) {
                (Status::Bleibt, g)
            } else if wias_on(s, id, cat, false) == wias_on(s, id, cat, true) {
                (Status::AenderungKeineBenachrichtigung, g)
            } else {
                (Status::AenderungMitBenachrichtigung, g)
            }
        },
    }
}

/// A Wirtschaftsart is given before the change to some face of the parcel
/// (`neu` false), or after it (`neu` true): the catalogue entry of that
/// face's use (trimmed) has Wirtschaftsart `w`.
pub open spec fn has_wia(
    s: Seq<AenderungenIntersection>,
    id: Option<FlstIdParsedNumber>,
    cat: NutzungsArtMap,
    neu: bool,
    w: Seq<char>,
) -> bool {
    exists|i: int|
        0 <= i < s.len() && spec_parse_num(spec_flst_from_str(#[trigger] s[i].flst_id@)) == id && (lookup(
            cat.kv(),
            trim(if neu { s[i].neu@ } else { s[i].alt@ }),
        ) matches Some(na) && na.wia@ == w)
}

/// A parcel some of whose faces change their use does not stay; its change
/// needs no notice exactly when every Wirtschaftsart of its faces before the
/// change is one after it and every one after it is one before it. So a
/// Wirtschaftsart that is lost, or one that is new, calls for a notice.
#[verifier::spinoff_prover]
proof fn lemma_wias_on_has_wia(s: Seq<AenderungenIntersection>, id: FlstIdParsedNumber, cat: NutzungsArtMap, neu: bool)
    ensures
        forall|w: Seq<char>| wias_on(s, id, cat, neu).contains(w) <==> has_wia(s, Some(id), cat, neu, w),
{
    assert forall|w: Seq<char>| wias_on(s, id, cat, neu).contains(w) <==> has_wia(s, Some(id), cat, neu, w) by {
        if wias_on(s, id, cat, neu).contains(w) {
            let i = choose|i: int|
                0 <= i < s.len() && on_flst(#[trigger] s[i], id) && wia_of(
                    cat,
                    if neu { s[i].neu@ } else { s[i].alt@ },
                ) == Some(w);
            assert(0 <= i < s.len() && spec_parse_num(spec_flst_from_str(s[i].flst_id@)) == Some(id) && (lookup(
                cat.kv(),
                trim(if neu { s[i].neu@ } else { s[i].alt@ }),
            ) matches Some(na) && na.wia@ == w));
        }
        if has_wia(s, Some(id), cat, neu, w) {
            let i = choose|i: int|
                0 <= i < s.len() && spec_parse_num(spec_flst_from_str(#[trigger] s[i].flst_id@)) == Some(id)
                    && (lookup(cat.kv(), trim(if neu { s[i].neu@ } else { s[i].alt@ })) matches Some(na)
                    && na.wia@ == w);
            assert(on_flst(s[i], id));
        }
    }
}

/// A parcel some of whose faces change their use does not stay; its change
/// needs no notice exactly when every Wirtschaftsart of its faces before the
/// change is one after it and every one after it is one before it. So a
/// Wirtschaftsart that is lost, or one that is new, calls for a notice.
#[verifier::spinoff_prover]
pub proof fn lemma_notice_iff_wirtschaftsarten_differ(
    s: Seq<AenderungenIntersection>,
    geb: Seq<FlstIdParsedNumber>,
    flst_id: Seq<char>,
    cat: NutzungsArtMap,
)
    requires
        spec_parse_num(spec_flst_from_str(flst_id)) is Some,
        exists|i: int|
            0 <= i < s.len() && spec_parse_num(spec_flst_from_str(#[trigger] s[i].flst_id@))
                == spec_parse_num(spec_flst_from_str(flst_id)) && s[i].alt@ != s[i].neu@,
    ensures
        !(spec_auto_status(s, geb, flst_id, cat).0 is Bleibt),
        (spec_auto_status(s, geb, flst_id, cat).0 is AenderungKeineBenachrichtigung) <==> forall|w: Seq<char>|
            has_wia(s, spec_parse_num(spec_flst_from_str(flst_id)), cat, false, w) <==> has_wia(
                s,
                spec_parse_num(spec_flst_from_str(flst_id)),
                cat,
                true,
                w,
            ),
{
    let id = spec_parse_num(spec_flst_from_str(flst_id)).unwrap();
    let i0 = choose|i: int|
        0 <= i < s.len() && spec_parse_num(spec_flst_from_str(#[trigger] s[i].flst_id@))
            == spec_parse_num(spec_flst_from_str(flst_id)) && s[i].alt@ != s[i].neu@;
    assert(on_flst(s[i0], id));
    assert(changed_on(s, id));
    let a = wias_on(s, id, cat, false);
    let b = wias_on(s, id, cat, true);
    lemma_wias_on_has_wia(s, id, cat, false);
    lemma_wias_on_has_wia(s, id, cat, true);
    if forall|w: Seq<char>| has_wia(s, Some(id), cat, false, w) <==> has_wia(s, Some(id), cat, true, w) {
        assert(a =~= b);
    }
}

/// A parcel none of whose faces changes its use stays; and the flag says
/// whether the parcel is among those with a deleted building.
pub proof fn lemma_status_without_change(
    s: Seq<AenderungenIntersection>,
    geb: Seq<FlstIdParsedNumber>,
    flst_id: Seq<char>,
    cat: NutzungsArtMap,
)
    ensures
        (forall|i: int|
            0 <= i < s.len() && spec_parse_num(spec_flst_from_str(#[trigger] s[i].flst_id@))
                == spec_parse_num(spec_flst_from_str(flst_id)) ==> s[i].alt@ == s[i].neu@) ==> spec_auto_status(
            s,
            geb,
            flst_id,
            cat,
        ).0 is Bleibt,
        spec_auto_status(s, geb, flst_id, cat).1 == match spec_parse_num(spec_flst_from_str(flst_id)) {
            Some(id) => geb.contains(id),
            None => false,
        },
{
    match spec_parse_num(spec_flst_from_str(flst_id)) {
        Some(id) => {
            if forall|i: int|
                0 <= i < s.len() && spec_parse_num(spec_flst_from_str(#[trigger] s[i].flst_id@))
                    == spec_parse_num(spec_flst_from_str(flst_id)) ==> s[i].alt@ == s[i].neu@ {
                if changed_on(s, id) {
                    let i = choose|i: int| 0 <= i < s.len() && on_flst(#[trigger] s[i], id) && s[i].alt@ != s[i].neu@;
                    assert(spec_parse_num(spec_flst_from_str(s[i].flst_id@)) == Some(id));
                }
            }
        },
        None => {},
    }
}

fn same_number(a: &FlstIdParsedNumber, b: &FlstIdParsedNumber) -> (r: bool)
    ensures
        r == (*a == *b),
{
    let n = match (a.flst_nenner, b.flst_nenner) {
        (Some(x), Some(y)) => x == y,
        (None, None) => true,
        _ => false,
    };
    a.land == b.land && a.gemarkung == b.gemarkung && a.flur == b.flur && a.flst_zaehler == b.flst_zaehler && n
}

fn contains_text(v: &Vec<String>, w: &String) -> (r: bool)
    ensures
        r == string_views(v@).contains(w@),
{
    let mut i: usize = 0;
    while i < v.len()
        invariant
            i <= v@.len(),
            forall|j: int| 0 <= j < i ==> v@[j]@ != w@,
        decreases v.len() - i,
    {
        if str_eq(v[i].as_str(), w.as_str()) {
            assert(string_views(v@)[i as int] == w@);
            return true;
        }
        i = i + 1;
    }
    assert forall|j: int| 0 <= j < string_views(v@).len() implies string_views(v@)[j] != w@ by {
        assert(string_views(v@)[j] == v@[j]@);
    }
    false
}

fn all_in(a: &Vec<String>, b: &Vec<String>) -> (r: bool)
    ensures
        r == (forall|w: Seq<char>| string_views(a@).contains(w) ==> string_views(b@).contains(w)),
{
    let mut i: usize = 0;
    while i < a.len()
        invariant
            i <= a@.len(),
            forall|j: int| 0 <= j < i ==> string_views(b@).contains(#[trigger] a@[j]@),
        decreases a.len() - i,
    {
        if !contains_text(b, &a[i]) {
            assert(string_views(a@)[i as int] == a@[i as int]@);
            return false;
        }
        i = i + 1;
    }
    assert forall|w: Seq<char>| string_views(a@).contains(w) implies string_views(b@).contains(w) by {
        let j = choose|j: int| 0 <= j < string_views(a@).len() && string_views(a@)[j] == w;
        assert(string_views(a@)[j] == a@[j]@);
    }
    true
}

impl AenderungenIntersection {
    /// The status of the parcel `flst_id` from its split faces, with the
    /// flag whether a building on it (one of `gebaeude_flst`) is deleted.
    pub fn get_auto_status(
        splitflaechen: &[AenderungenIntersection],
        gebaeude_flst: &[FlstIdParsedNumber],
        flst_id: &str,
        catalogue: &NutzungsArtMap,
    ) -> (r: (Status, bool))
        ensures
            r == spec_auto_status(splitflaechen@, gebaeude_flst@, flst_id@, *catalogue),
    {
        let such = match FlstIdParsed::from_str(flst_id).parse_num() {
            Some(s) => s,
            None => return (Status::Bleibt, false),
        };
        let mut gebaeude = false;
        let mut i: usize = 0;
        while i < gebaeude_flst.len()
            invariant
                i <= gebaeude_flst@.len(),
                gebaeude == exists|j: int| 0 <= j < i && gebaeude_flst@[j] == such,
            decreases gebaeude_flst.len() - i,
        {
            if same_number(&gebaeude_flst[i], &such) {
                gebaeude = true;
            }
            i = i + 1;
        }
        assert(gebaeude == gebaeude_flst@.contains(such));
        let ghost s = splitflaechen@;
        let ghost cat = *catalogue;
        let mut changed = false;
        let mut alte: Vec<String> = Vec::new();
        let mut neue: Vec<String> = Vec::new();
        let mut k: usize = 0;
        while k < splitflaechen.len()
            invariant
                k <= s.len(),
                s == splitflaechen@,
                cat == *catalogue,
                changed == exists|j: int| 0 <= j < k && on_flst(#[trigger] s[j], such) && s[j].alt@ != s[j].neu@,
                forall|w: Seq<char>|
                    string_views(alte@).contains(w) <==> exists|j: int|
                        0 <= j < k && on_flst(#[trigger] s[j], such) && wia_of(cat, s[j].alt@) == Some(w),
                forall|w: Seq<char>|
                    string_views(neue@).contains(w) <==> exists|j: int|
                        0 <= j < k && on_flst(#[trigger] s[j], such) && wia_of(cat, s[j].neu@) == Some(w),
            decreases s.len() - k,
        {
            let sf = &splitflaechen[k];
            let here = match FlstIdParsed::from_str(sf.flst_id.as_str()).parse_num() {
                Some(n) => same_number(&n, &such),
                None => false,
            };
            let ghost alte0 = string_views(alte@);
            let ghost neue0 = string_views(neue@);
            if here {
                if !str_eq(sf.alt.as_str(), sf.neu.as_str()) {
                    changed = true;
                }
                match TaggedPolygon::get_wirtschaftsart(catalogue, sf.alt.as_str()) {
                    Some(w) => {
                        alte.push(w);
                        assert(string_views(alte@) =~= alte0.push(alte@[alte@.len() - 1]@));
                    },
                    None => {},
                }
                match TaggedPolygon::get_wirtschaftsart(catalogue, sf.neu.as_str()) {
                    Some(w) => {
                        neue.push(w);
                        assert(string_views(neue@) =~= neue0.push(neue@[neue@.len() - 1]@));
                    },
                    None => {},
                }
            }
            proof {
                assert forall|w: Seq<char>|
                    string_views(alte@).contains(w) <==> exists|j: int|
                        0 <= j < k + 1 && on_flst(#[trigger] s[j], such) && wia_of(cat, s[j].alt@) == Some(w) by {
                    if string_views(alte@).contains(w) && !alte0.contains(w) {
                        assert(on_flst(s[k as int], such));
                    }
                    if exists|j: int| 0 <= j < k + 1 && on_flst(#[trigger] s[j], such) && wia_of(cat, s[j].alt@) == Some(w) {
                        let j = choose|j: int| 0 <= j < k + 1 && on_flst(#[trigger] s[j], such) && wia_of(cat, s[j].alt@) == Some(w);
                        if j == k {
                            assert(string_views(alte@).last() == w);
                            assert(string_views(alte@)[string_views(alte@).len() - 1] == w);
                        } else {
                            assert(alte0.contains(w));
                            let p = choose|p: int| 0 <= p < alte0.len() && alte0[p] == w;
                            assert(string_views(alte@)[p] == w);
                        }
                    }
                }
                assert forall|w: Seq<char>|
                    string_views(neue@).contains(w) <==> exists|j: int|
                        0 <= j < k + 1 && on_flst(#[trigger] s[j], such) && wia_of(cat, s[j].neu@) == Some(w) by {
                    if string_views(neue@).contains(w) && !neue0.contains(w) {
                        assert(on_flst(s[k as int], such));
                    }
                    if exists|j: int| 0 <= j < k + 1 && on_flst(#[trigger] s[j], such) && wia_of(cat, s[j].neu@) == Some(w) {
                        let j = choose|j: int| 0 <= j < k + 1 && on_flst(#[trigger] s[j], such) && wia_of(cat, s[j].neu@) == Some(w);
                        if j == k {
                            assert(string_views(neue@)[string_views(neue@).len() - 1] == w);
                        } else {
                            assert(neue0.contains(w));
                            let p = choose|p: int| 0 <= p < neue0.len() && neue0[p] == w;
                            assert(string_views(neue@)[p] == w);
                        }
                    }
                }
            }
            k = k + 1;
        }
        if !changed {
            return (Status::Bleibt, gebaeude);
        }
        let same = all_in(&alte, &neue) && all_in(&neue, &alte);
        proof {
            let a = wias_on(s, such, cat, false);
            let b = wias_on(s, such, cat, true);
            assert forall|w: Seq<char>| a.contains(w) <==> string_views(alte@).contains(w) by {}
            assert forall|w: Seq<char>| b.contains(w) <==> string_views(neue@).contains(w) by {}
            if same {
                assert(a =~= b);
            } else {
                if a == b {
                    assert forall|w: Seq<char>| string_views(alte@).contains(w) ==> string_views(neue@).contains(w) by {
                        assert(a.contains(w) ==> b.contains(w));
                    }
                    assert forall|w: Seq<char>| string_views(neue@).contains(w) ==> string_views(alte@).contains(w) by {
                        assert(b.contains(w) ==> a.contains(w));
                    }
                }
            }
        }
        if same {
            (Status::AenderungKeineBenachrichtigung, gebaeude)
        } else {
            (Status::AenderungMitBenachrichtigung, gebaeude)
        }
    }
}

/// A parcel identifier in its long form, or as read where it gives no number.
pub open spec fn spec_format_flst_id(s: Seq<char>) -> Seq<char> {
    match spec_parse_num(spec_flst_from_str(s)) {
        Some(n) => spec_format_nice(n),
        None => spec_to_nice_string(spec_flst_from_str(s)),
    }
}

/// Piece `i` lies on the parcel `target` (in long form).
pub open spec fn on_parcel(s: Seq<AenderungenIntersection>, target: Seq<char>, i: int) -> bool {
    0 <= i < s.len() && spec_format_flst_id(s[i].flst_id@) == target
}

/// Among the first `n` pieces, one of the parcel changes from use `k`.
pub open spec fn seen_from(s: Seq<AenderungenIntersection>, t: Seq<char>, n: int, k: Seq<char>) -> bool {
    exists|j: int| 0 <= j < n && on_parcel(s, t, j) && s[j].alt@ != s[j].neu@ && s[j].alt@ == k
}

/// Among the first `n` pieces, one of the parcel changes to use `k`.
pub open spec fn seen_to(s: Seq<AenderungenIntersection>, t: Seq<char>, n: int, k: Seq<char>) -> bool {
    exists|j: int| 0 <= j < n && on_parcel(s, t, j) && s[j].alt@ != s[j].neu@ && s[j].neu@ == k
}

/// Among the first `n` pieces, one of the parcel keeps use `k`.
pub open spec fn seen_stay(s: Seq<AenderungenIntersection>, t: Seq<char>, n: int, k: Seq<char>) -> bool {
    exists|j: int| 0 <= j < n && on_parcel(s, t, j) && s[j].alt@ == s[j].neu@ && s[j].alt@ == k
}

/// Among the first `n` pieces, one of the parcel changes its use.
pub open spec fn seen_change(s: Seq<AenderungenIntersection>, t: Seq<char>, n: int) -> bool {
    exists|j: int| 0 <= j < n && on_parcel(s, t, j) && s[j].alt@ != s[j].neu@
}

/// Some piece of the parcel changes its use.
pub open spec fn any_changed(s: Seq<AenderungenIntersection>, t: Seq<char>) -> bool {
    seen_change(s, t, s.len() as int)
}

/// `k` is the old use of a piece of the parcel that changes.
pub open spec fn changed_from(s: Seq<AenderungenIntersection>, t: Seq<char>, k: Seq<char>) -> bool {
    seen_from(s, t, s.len() as int, k)
}

/// `k` is the new use of a piece of the parcel that changes.
pub open spec fn changed_to(s: Seq<AenderungenIntersection>, t: Seq<char>, k: Seq<char>) -> bool {
    seen_to(s, t, s.len() as int, k)
}

/// `k` is the use of a piece of the parcel that stays.
pub open spec fn stays(s: Seq<AenderungenIntersection>, t: Seq<char>, k: Seq<char>) -> bool {
    seen_stay(s, t, s.len() as int, k)
}

#[verifier::spinoff_prover]
#[verifier::rlimit(40)]
proof fn lemma_seen_step(s: Seq<AenderungenIntersection>, t: Seq<char>, n: int)
    requires
        0 <= n < s.len(),
    ensures
        forall|k: Seq<char>| seen_from(s, t, n + 1, k) == (seen_from(s, t, n, k) || (on_parcel(s, t, n)
            && s[n].alt@ != s[n].neu@ && s[n].alt@ == k)),
        forall|k: Seq<char>| seen_to(s, t, n + 1, k) == (seen_to(s, t, n, k) || (on_parcel(s, t, n)
            && s[n].alt@ != s[n].neu@ && s[n].neu@ == k)),
        forall|k: Seq<char>| seen_stay(s, t, n + 1, k) == (seen_stay(s, t, n, k) || (on_parcel(s, t, n)
            && s[n].alt@ == s[n].neu@ && s[n].alt@ == k)),
        seen_change(s, t, n + 1) == (seen_change(s, t, n) || (on_parcel(s, t, n) && s[n].alt@ != s[n].neu@)),
{
}

/// A use to remove: it goes and neither comes nor stays elsewhere.
pub open spec fn to_remove(s: Seq<AenderungenIntersection>, t: Seq<char>, k: Seq<char>) -> bool {
    any_changed(s, t) && changed_from(s, t, k) && !changed_to(s, t, k) && !stays(s, t, k)
}

/// A use to draw in: it comes and neither goes nor stays elsewhere.
pub open spec fn to_draw(s: Seq<AenderungenIntersection>, t: Seq<char>, k: Seq<char>) -> bool {
    any_changed(s, t) && changed_to(s, t, k) && !changed_from(s, t, k) && !stays(s, t, k)
}

/// A use to adjust: it both goes and comes, or it goes or comes and stays
/// elsewhere on the parcel.
pub open spec fn to_adjust(s: Seq<AenderungenIntersection>, t: Seq<char>, k: Seq<char>) -> bool {
    any_changed(s, t) && ((changed_from(s, t, k) && changed_to(s, t, k)) || (stays(s, t, k)
        && changed_from(s, t, k) != changed_to(s, t, k)))
}

/// `v` lists, ascending and once each, the texts for which `p` holds.
pub open spec fn lists_sorted(v: Seq<Seq<char>>, p: spec_fn(Seq<char>) -> bool) -> bool {
    &&& strictly_sorted::<String>(v)
    &&& forall|k: Seq<char>| v.contains(k) <==> p(k)
}

/// The uses joined by ` / ` with a verb after them; nothing where they are blank.
pub open spec fn notiz_part(v: Seq<Seq<char>>, verb: Seq<char>) -> Seq<char> {
    if trim(join(v, " / "@)).len() == 0 {
        Seq::empty()
    } else {
        join(v, " / "@) + verb
    }
}

/// The note: what to remove, to draw in and to adjust, the non-blank parts
/// joined by `, `.
pub open spec fn notiz_text(aw: Seq<Seq<char>>, nd: Seq<Seq<char>>, ve: Seq<Seq<char>>) -> Seq<char> {
    let a = notiz_part(aw, " entfernen"@);
    let b = notiz_part(nd, " einzeichnen"@);
    let c = notiz_part(ve, " anpassen"@);
    trim(join(nonblank(a) + nonblank(b) + nonblank(c), ", "@))
}

/// The text as a list of one, or none where it is blank.
pub open spec fn nonblank(p: Seq<char>) -> Seq<Seq<char>> {
    if trim(p).len() > 0 {
        seq![p]
    } else {
        Seq::empty()
    }
}

/// Pushing `x` adds exactly `x` to what a sequence contains.
pub proof fn lemma_push_contains(t0: Seq<Seq<char>>, x: Seq<char>, k: Seq<char>)
    ensures
        t0.push(x).contains(k) <==> (t0.contains(k) || k == x),
{
    let t1 = t0.push(x);
    if t1.contains(k) && k != x {
        let q = choose|q: int| 0 <= q < t1.len() && t1[q] == k;
        assert(t0[q] == k);
    }
    if t0.contains(k) {
        let q = choose|q: int| 0 <= q < t0.len() && t0[q] == k;
        assert(t1[q] == k);
    }
    if k == x {
        assert(t1[t0.len() as int] == k);
    }
}

fn contains_str(v: &Vec<String>, k: &str) -> (r: bool)
    ensures
        r == string_views(v@).contains(k@),
{
    let mut i: usize = 0;
    while i < v.len()
        invariant
            i <= v@.len(),
            forall|j: int| 0 <= j < i ==> string_views(v@)[j] != k@,
        decreases v.len() - i,
    {
        assert(string_views(v@)[i as int] == v@[i as int]@);
        if str_eq(v[i].as_str(), k) {
            return true;
        }
        i = i + 1;
    }
    false
}

/// Which kind of use `keep_where` keeps.
pub open spec fn keep_pred(mode: u8, ia: bool, inn: bool, ib: bool) -> bool {
    if mode == 0 {
        ia && !inn && !ib
    } else if mode == 1 {
        inn && !ia && !ib
    } else {
        (ia && inn) || (ib && ia != inn)
    }
}

/// The entries of the sorted `v` that pass `keep_pred` by their membership
/// in `a`, `n` and `b`.
#[verifier::spinoff_prover]
#[verifier::rlimit(30)]
fn keep_where(v: &Vec<String>, a: &Vec<String>, n: &Vec<String>, b: &Vec<String>, mode: u8) -> (r: Vec<String>)
    requires
        strictly_sorted::<String>(string_views(v@)),
    ensures
        strictly_sorted::<String>(string_views(r@)),
        forall|k: Seq<char>|
            string_views(r@).contains(k) <==> (string_views(v@).contains(k) && keep_pred(
                mode,
                string_views(a@).contains(k),
                string_views(n@).contains(k),
                string_views(b@).contains(k),
            )),
{
    let ghost sv = string_views(v@);
    let ghost p = |k: Seq<char>|
        keep_pred(
            mode,
            string_views(a@).contains(k),
            string_views(n@).contains(k),
            string_views(b@).contains(k),
        );
    let mut r: Vec<String> = Vec::new();
    let mut i: usize = 0;
    while i < v.len()
        invariant
            i <= v@.len(),
            sv == string_views(v@),
            strictly_sorted::<String>(sv),
            p == (|k: Seq<char>|
                keep_pred(
                    mode,
                    string_views(a@).contains(k),
                    string_views(n@).contains(k),
                    string_views(b@).contains(k),
                )),
            strictly_sorted::<String>(string_views(r@)),
            forall|k: Seq<char>| string_views(r@).contains(k) <==> (sv.take(i as int).contains(k) && p(k)),
            forall|j: int|
                #![trigger string_views(r@)[j]]
                0 <= j < string_views(r@).len() ==> exists|q: int| 0 <= q < i && #[trigger] sv[q] == string_views(r@)[j],
        decreases v.len() - i,
    {
        let x = v[i].as_str();
        assert(sv[i as int] == x@);
        let keep = if mode == 0 {
            contains_str(a, x) && !contains_str(n, x) && !contains_str(b, x)
        } else if mode == 1 {
            contains_str(n, x) && !contains_str(a, x) && !contains_str(b, x)
        } else {
            let ia = contains_str(a, x);
            let inn = contains_str(n, x);
            (ia && inn) || (contains_str(b, x) && ia != inn)
        };
        assert(keep == p(x@));
        let ghost before = string_views(r@);
        let ghost t0 = sv.take(i as int);
        let ghost t1 = sv.take(i + 1);
        assert(t1 =~= t0.push(x@));
        if keep {
            r.push(v[i].clone());
            assert(string_views(r@) =~= before.push(x@));
            proof {
                assert forall|j: int, l: int|
                    0 <= j < l < string_views(r@).len() implies seq_lt(
                    #[trigger] string_views(r@)[j],
                    #[trigger] string_views(r@)[l],
                ) by {
                    if l == before.len() {
                        let q = choose|q: int| 0 <= q < i && #[trigger] sv[q] == before[j];
                        assert(seq_lt(sv[q], sv[i as int]));
                    } else {
                        assert(seq_lt(before[j], before[l]));
                    }
                }
                assert forall|j: int|
                    #![trigger string_views(r@)[j]]
                    0 <= j < string_views(r@).len() implies exists|q: int|
                    0 <= q < i + 1 && #[trigger] sv[q] == string_views(r@)[j] by {
                    if j == before.len() {
                        assert(sv[i as int] == string_views(r@)[j]);
                    } else {
                        let q = choose|q: int| 0 <= q < i && #[trigger] sv[q] == before[j];
                        assert(sv[q] == string_views(r@)[j]);
                    }
                }
                assert forall|k: Seq<char>| string_views(r@).contains(k) <==> (t1.contains(k) && p(k)) by {
                    lemma_push_contains(before, x@, k);
                    lemma_push_contains(t0, x@, k);
                }
            }
        } else {
            proof {
                assert forall|k: Seq<char>| string_views(r@).contains(k) <==> (t1.contains(k) && p(k)) by {
                    lemma_push_contains(t0, x@, k);
                }
            }
        }
        i = i + 1;
    }
    assert(sv.take(v@.len() as int) =~= sv);
    r
}

/// `n` is the note for parcel `flst_id`: the uses to remove, to draw in
/// and to adjust, each sorted and once.
pub open spec fn is_auto_notiz(s: Seq<AenderungenIntersection>, flst_id: Seq<char>, n: Seq<char>) -> bool {
    let t = spec_format_flst_id(flst_id);
    exists|aw: Seq<Seq<char>>, nd: Seq<Seq<char>>, ve: Seq<Seq<char>>|
        lists_sorted(aw, |k: Seq<char>| to_remove(s, t, k)) && lists_sorted(
            nd,
            |k: Seq<char>| to_draw(s, t, k),
        ) && lists_sorted(ve, |k: Seq<char>| to_adjust(s, t, k)) && n == notiz_text(aw, nd, ve)
}

impl AenderungenIntersection {
    /// A parcel identifier in its long form.
    pub fn format_flst_id_func(s: &str) -> (r: String)
        ensures
            r@ == spec_format_flst_id(s@),
    {
        let p = FlstIdParsed::from_str(s);
        match p.parse_num() {
            Some(q) => q.format_nice(),
            None => p.to_nice_string(),
        }
    }

    /// The piece's parcel in long form.
    pub fn format_flst_id(&self) -> (r: String)
        ensures
            r@ == spec_format_flst_id(self.flst_id@),
    {
        Self::format_flst_id_func(self.flst_id.as_str())
    }

    /// The piece's parcel as the start of a search key.
    pub fn format_flst_id_search(&self) -> (r: String)
        ensures
            r@ == match spec_parse_num(spec_flst_from_str(self.flst_id@)) {
                Some(n) => spec_format_start_str(n),
                None => spec_to_nice_string(spec_flst_from_str(self.flst_id@)),
            },
    {
        let p = FlstIdParsed::from_str(self.flst_id.as_str());
        match p.parse_num() {
            Some(q) => q.format_start_str(),
            None => p.to_nice_string(),
        }
    }

    /// The uses of the parcel `flst_id` to remove, to draw in and to adjust.
    fn get_auto_kuerzel(splitflaechen: &[Self], flst_id: &str) -> (r: (Vec<String>, Vec<String>, Vec<String>))
        ensures
            ({
                let t = spec_format_flst_id(flst_id@);
                let s = splitflaechen@;
                &&& lists_sorted(string_views(r.0@), |k: Seq<char>| to_remove(s, t, k))
                &&& lists_sorted(string_views(r.1@), |k: Seq<char>| to_draw(s, t, k))
                &&& lists_sorted(string_views(r.2@), |k: Seq<char>| to_adjust(s, t, k))
            }),
    {
        let ghost s = splitflaechen@;
        let target = Self::format_flst_id_func(flst_id);
        let ghost t = target@;
        let mut alts: Vec<String> = Vec::new();
        let mut neus: Vec<String> = Vec::new();
        let mut bleib: Vec<String> = Vec::new();
        let mut i: usize = 0;
        while i < splitflaechen.len()
            invariant
                i <= s.len(),
                s == splitflaechen@,
                t == target@,
                t == spec_format_flst_id(flst_id@),
                forall|k: Seq<char>| string_views(alts@).contains(k) == seen_from(s, t, i as int, k),
                forall|k: Seq<char>| string_views(neus@).contains(k) == seen_to(s, t, i as int, k),
                forall|k: Seq<char>| string_views(bleib@).contains(k) == seen_stay(s, t, i as int, k),
                alts@.len() == 0 <==> !seen_change(s, t, i as int),
            decreases s.len() - i,
        {
            proof {
                lemma_seen_step(s, t, i as int);
            }
            let sf = &splitflaechen[i];
            let fid = sf.format_flst_id();
            if str_eq(fid.as_str(), target.as_str()) {
                assert(on_parcel(s, t, i as int));
                if !str_eq(sf.alt.as_str(), sf.neu.as_str()) {
                    let ghost a0 = string_views(alts@);
                    let ghost n0 = string_views(neus@);
                    alts.push(sf.alt.clone());
                    neus.push(sf.neu.clone());
                    assert(string_views(alts@) =~= a0.push(sf.alt@));
                    assert(string_views(neus@) =~= n0.push(sf.neu@));
                    proof {
                        assert forall|k: Seq<char>| string_views(alts@).contains(k) == seen_from(s, t, i + 1, k) by {
                            lemma_push_contains(a0, sf.alt@, k);
                        }
                        assert forall|k: Seq<char>| string_views(neus@).contains(k) == seen_to(s, t, i + 1, k) by {
                            lemma_push_contains(n0, sf.neu@, k);
                        }
                    }
                } else {
                    let ghost b0 = string_views(bleib@);
                    bleib.push(sf.alt.clone());
                    assert(string_views(bleib@) =~= b0.push(sf.alt@));
                    proof {
                        assert forall|k: Seq<char>| string_views(bleib@).contains(k) == seen_stay(s, t, i + 1, k) by {
                            lemma_push_contains(b0, sf.alt@, k);
                        }
                    }
                }
            } else {
                assert(!on_parcel(s, t, i as int));
            }
            i = i + 1;
        }
        if alts.len() == 0 {
            let e0: Vec<String> = Vec::new();
            let e1: Vec<String> = Vec::new();
            let e2: Vec<String> = Vec::new();
            proof {
                assert(!any_changed(s, t));
                assert(string_views(e0@) =~= Seq::<Seq<char>>::empty());
                assert(string_views(e1@) =~= Seq::<Seq<char>>::empty());
                assert(string_views(e2@) =~= Seq::<Seq<char>>::empty());
            }
            return (e0, e1, e2);
        }
        assert(any_changed(s, t));
        let a = sorted_distinct(&alts);
        let n = sorted_distinct(&neus);
        let mut both = alts.clone();
        let mut j: usize = 0;
        let ghost a0 = string_views(alts@);
        while j < neus.len()
            invariant
                j <= neus@.len(),
                string_views(both@) == a0 + string_views(neus@).take(j as int),
            decreases neus.len() - j,
        {
            let ghost before = string_views(both@);
            both.push(neus[j].clone());
            assert(string_views(both@) =~= before.push(neus@[j as int]@));
            assert(string_views(neus@).take(j + 1) =~= string_views(neus@).take(j as int).push(neus@[j as int]@));
            j = j + 1;
        }
        assert(string_views(neus@).take(neus@.len() as int) =~= string_views(neus@));
        let u = sorted_distinct(&both);
        proof {
            assert(key_views(a@) == string_views(a@));
            assert(key_views(n@) == string_views(n@));
            assert(key_views(u@) == string_views(u@));
            assert(key_views(alts@) == string_views(alts@));
            assert(key_views(neus@) == string_views(neus@));
            assert(key_views(both@) == string_views(both@));
        }
        let aw = keep_where(&a, &a, &n, &bleib, 0);
        let nd = keep_where(&n, &a, &n, &bleib, 1);
        let ve = keep_where(&u, &a, &n, &bleib, 2);
        proof {
            assert forall|k: Seq<char>| string_views(aw@).contains(k) <==> to_remove(s, t, k) by {}
            assert forall|k: Seq<char>| string_views(nd@).contains(k) <==> to_draw(s, t, k) by {}
            assert forall|k: Seq<char>| string_views(ve@).contains(k) <==> to_adjust(s, t, k) by {
                let bv = string_views(both@);
                if bv.contains(k) {
                    let q = choose|q: int| 0 <= q < bv.len() && bv[q] == k;
                    if q >= a0.len() {
                        assert(string_views(neus@)[q - a0.len()] == k);
                    } else {
                        assert(a0[q] == k);
                    }
                }
                if string_views(alts@).contains(k) {
                    let q = choose|q: int| 0 <= q < a0.len() && a0[q] == k;
                    assert(bv[q] == k);
                }
                if string_views(neus@).contains(k) {
                    let q = choose|q: int| 0 <= q < string_views(neus@).len() && string_views(neus@)[q] == k;
                    assert(bv[a0.len() + q] == k);
                }
            }
        }
        (aw, nd, ve)
    }

    /// The note for a parcel from how the uses of its pieces change: the
    /// uses to remove, to draw in and to adjust.
    pub fn get_auto_notiz(splitflaechen: &[Self], flst_id: &str) -> (r: String)
        ensures
            is_auto_notiz(splitflaechen@, flst_id@, r@),
    {
        let (alt_weg, neu_dazu, veraendert) = Self::get_auto_kuerzel(splitflaechen, flst_id);
        let aw = notiz_part_exec(&alt_weg, " entfernen");
        let nd = notiz_part_exec(&neu_dazu, " einzeichnen");
        let ve = notiz_part_exec(&veraendert, " anpassen");
        let mut v: Vec<String> = Vec::new();
        let ta = trim_str(aw.as_str());
        if chars_of(ta.as_str()).len() > 0 {
            v.push(aw);
        }
        let ghost v1 = string_views(v@);
        assert(v1 =~= nonblank(aw@));
        let tn = trim_str(nd.as_str());
        if chars_of(tn.as_str()).len() > 0 {
            v.push(nd);
        }
        let ghost v2 = string_views(v@);
        assert(v2 =~= v1 + nonblank(nd@));
        let tv = trim_str(ve.as_str());
        if chars_of(tv.as_str()).len() > 0 {
            v.push(ve);
        }
        assert(string_views(v@) =~= v2 + nonblank(ve@));
        let j = join_strings(&v, ", ");
        let r = trim_str(j.as_str());
        proof {
            assert(r@ == notiz_text(string_views(alt_weg@), string_views(neu_dazu@), string_views(veraendert@)));
        }
        r
    }
}

fn notiz_part_exec(v: &Vec<String>, verb: &str) -> (r: String)
    ensures
        r@ == notiz_part(string_views(v@), verb@),
{
    let j = join_strings(v, " / ");
    let t = trim_str(j.as_str());
    if chars_of(t.as_str()).len() == 0 {
        String::new()
    } else {
        let mut c = chars_of(j.as_str());
        push_str(&mut c, verb);
        string_from_chars(c.as_slice())
    }
}

/// The parcels named by the buildings to delete, each identifier read as a
/// parcel number, in the order of the buildings.
pub open spec fn building_parcels(kv: Seq<(Seq<char>, GebaeudeLoeschen)>) -> Seq<FlstIdParsedNumber>
    decreases kv.len(),
{
    if kv.len() == 0 {
        Seq::empty()
    } else {
        building_parcels(kv.drop_last()) + kv.last().1.flst_id@.filter_map(
            |s: String| parse_key(s@),
        )
    }
}

/// The parcels on which buildings are deleted, ascending and each once.
pub fn get_gebaeude_modified_flst(gebaeude_loeschen: &SortedMap<String, GebaeudeLoeschen>) -> (r: Vec<
    FlstIdParsedNumber,
>)
    ensures
        strictly_sorted::<FlstIdParsedNumber>(r@),
        forall|x: FlstIdParsedNumber| r@.contains(x) <==> building_parcels(gebaeude_loeschen.kv()).contains(x),
{
    let ghost kv = gebaeude_loeschen.kv();
    let mut all: Vec<FlstIdParsedNumber> = Vec::new();
    let mut i: usize = 0;
    assert(kv.take(0).len() == 0);
    while i < gebaeude_loeschen.len()
        invariant
            i <= kv.len(),
            kv == gebaeude_loeschen.kv(),
            all@ == building_parcels(kv.take(i as int)),
        decreases kv.len() - i,
    {
        let g = gebaeude_loeschen.value_at(i);
        let ghost base = all@;
        let ghost f = |s: String| parse_key(s@);
        let mut j: usize = 0;
        while j < g.flst_id.len()
            invariant
                j <= g.flst_id@.len(),
                f == (|s: String| parse_key(s@)),
                all@ == base + g.flst_id@.take(j as int).filter_map(f),
            decreases g.flst_id.len() - j,
        {
            proof {
                g.flst_id@.lemma_filter_map_take_succ(f, j as int);
            }
            match FlstIdParsed::from_str(g.flst_id[j].as_str()).parse_num() {
                Some(n) => {
                    let ghost before = all@;
                    all.push(n);
                    assert(all@ =~= before.push(n));
                },
                None => {},
            }
            j = j + 1;
        }
        assert(g.flst_id@.take(g.flst_id@.len() as int) =~= g.flst_id@);
        assert(kv.take(i + 1).drop_last() =~= kv.take(i as int));
        assert(kv.take(i + 1).last() == kv[i as int]);
        assert(kv[i as int].1 == *g);
        i = i + 1;
    }
    assert(kv.take(kv.len() as int) =~= kv);
    let r = sorted_distinct(&all);
    proof {
        assert(key_views(r@) =~= r@);
        assert(key_views(all@) =~= all@);
    }
    r
}

/// The value of attribute `k`.
pub open spec fn attr(tp: TaggedPolygon, k: Seq<char>) -> Option<Seq<char>> {
    match lookup(tp.attributes.kv(), k) {
        Some(v) => Some(v@),
        None => None,
    }
}

/// The identifier of a piece of parcel `start` (its search key):
/// `start:Ebene:id`, then `:IntersectionId` where there is one.
pub open spec fn part_obj_id(tp: TaggedPolygon, start: Seq<char>) -> Seq<char> {
    start + ":"@ + attr(tp, "AX_Ebene"@)->0 + ":"@ + attr(tp, "id"@)->0 + match attr(
        tp,
        "AX_IntersectionId"@,
    ) {
        Some(w) => ":"@ + w,
        None => Seq::empty(),
    }
}

/// The area text of a piece, `0` where it has none.
pub open spec fn part_area(tp: TaggedPolygon) -> Seq<char> {
    match attr(tp, "BerechneteGroesseM2"@) {
        Some(q) => q,
        None => "0"@,
    }
}

/// A piece of the selected parcel with a nonzero area: its area, its use
/// (the catalogue's best fit, else its layer) and a select of the use
/// chosen for it (else that best fit).
pub open spec fn part_html(
    tp: TaggedPolygon,
    start: Seq<char>,
    na: SortedMap<String, String>,
    cat: NutzungsArtMap,
) -> Option<Seq<char>> {
    if attr(tp, "AX_Ebene"@) is None || attr(tp, "id"@) is None || part_area(tp) == "0"@ {
        None
    } else {
        let objid = part_obj_id(tp, start);
        let auto = spec_auto_kuerzel(cat, tp.attributes);
        let auto_str = match auto {
            Some(a) => a,
            None => attr(tp, "AX_Ebene"@)->0,
        };
        let chosen = match lookup(na.kv(), objid) {
            Some(v) => Some(v@),
            None => auto,
        };
        Some(
            "<div><p style='cursor:pointer;text-decoration:underline;' onmouseup='zoomToFlstPart(event);' data-part-id='"@
                + objid + "'>"@ + part_area(tp) + "m² "@ + auto_str + "</p>"@ + spec_render_select(
                catalogue_keys(cat),
                chosen,
                "nutzungsArtAendern"@,
                objid,
                "nutzungsart-aendern"@,
            ) + "</div>"@,
        )
    }
}

pub open spec fn parts_html(
    tps: Seq<TaggedPolygon>,
    start: Seq<char>,
    na: SortedMap<String, String>,
    cat: NutzungsArtMap,
) -> Seq<char> {
    concat(tps.filter_map(|tp: TaggedPolygon| part_html(tp, start, na, cat)))
}

/// The parcel in the card's id: its long form with `_` for `-` and `/`.
pub open spec fn card_id(f: FlstIdParsedNumber) -> Seq<char> {
    replace(replace(spec_format_nice(f), "/"@, "-"@), "-"@, "_"@)
}

/// The card of a parcel of the data set: its Flur and number, the note of
/// its first record, and for the selected parcel its pieces.
pub open spec fn csv_card(
    f: FlstIdParsedNumber,
    recs: Seq<DatensatzView>,
    selected: bool,
    split: Option<Seq<TaggedPolygon>>,
    na: SortedMap<String, String>,
    cat: NutzungsArtMap,
) -> Seq<char> {
    let fid = card_id(f);
    let border = if selected {
        "border:1px solid red;"@
    } else {
        "border:1px solid transparent;"@
    };
    let notiz = if recs.len() > 0 {
        recs[0].notiz
    } else {
        Seq::empty()
    };
    let split_nas = if selected {
        match split {
            Some(tps) => "<div class='nutzung-veraendern'>"@ + parts_html(
                tps,
                spec_format_start_str(f),
                na,
                cat,
            ) + "</div>"@,
            None => Seq::empty(),
        }
    } else {
        Seq::empty()
    };
    "\n        <div class='csv-datensatz' id='csv_flst_"@ + fid
        + "' style='background:#3e3e58;padding: 10px;margin-bottom: 10px;border-radius: 5px;display: flex;flex-direction: column;"@
        + border + "' ondblclick='focusFlst(event);' data-id='"@ + fid
        + "'>\n            <h5 style='font-size: 18px;font-weight: bold;color: white;'  data-id='"@ + fid
        + "'>Fl. "@ + dec(f.flur as nat) + " Flst. "@ + spec_format_with(f, "/"@)
        + "</h5>\n            <input type='text' placeholder='Notiz...' value='"@ + notiz
        + "' oninput='changeNotiz(event);' onchange='changeNotiz(event);' data-id='"@ + fid
        + "' style='font-family: sans-serif;margin-bottom: 10px;width: 100%;padding: 3px;font-size:16px;'></input>\n            "@
        + split_nas + "\n        </div>"@
}

/// The pieces of parcel `k` in the split data, if any.
pub open spec fn split_parts(split_fs: Option<SortedMap<String, Vec<TaggedPolygon>>>, k: Seq<char>) -> Option<Seq<TaggedPolygon>> {
    match split_fs {
        Some(m) => match lookup(m.kv(), k) {
            Some(v) => Some(v@),
            None => None,
        },
        None => None,
    }
}

/// The cards of all parcels of the data set whose identifiers read as
/// numbers, in key order; the parcel `sel` (in long form) is selected.
pub open spec fn spec_csv_cards(
    entries: OldView,
    sel: Option<Seq<char>>,
    split_fs: Option<SortedMap<String, Vec<TaggedPolygon>>>,
    na: SortedMap<String, String>,
    cat: NutzungsArtMap,
) -> Seq<char> {
    concat(
        entries.filter_map(
            |e: (Seq<char>, Seq<DatensatzView>)|
                match parse_key(e.0) {
                    Some(f) => Some(
                        csv_card(
                            f,
                            e.1,
                            sel == Some(spec_format_nice(f)),
                            split_parts(split_fs, spec_format_start_str(f)),
                            na,
                            cat,
                        ),
                    ),
                    None => None,
                },
        ),
    )
}

/// Empty split data shows the same cards as none.
pub proof fn lemma_csv_cards_empty_split(
    entries: OldView,
    sel: Option<Seq<char>>,
    m: SortedMap<String, Vec<TaggedPolygon>>,
    na: SortedMap<String, String>,
    cat: NutzungsArtMap,
)
    requires
        m.kv().len() == 0,
    ensures
        spec_csv_cards(entries, sel, Some(m), na, cat) == spec_csv_cards(entries, sel, None, na, cat),
{
    let f1 = |e: (Seq<char>, Seq<DatensatzView>)|
        match parse_key(e.0) {
            Some(f) => Some(
                csv_card(
                    f,
                    e.1,
                    sel == Some(spec_format_nice(f)),
                    split_parts(Some(m), spec_format_start_str(f)),
                    na,
                    cat,
                ),
            ),
            None => None,
        };
    let f2 = |e: (Seq<char>, Seq<DatensatzView>)|
        match parse_key(e.0) {
            Some(f) => Some(
                csv_card(
                    f,
                    e.1,
                    sel == Some(spec_format_nice(f)),
                    split_parts(None, spec_format_start_str(f)),
                    na,
                    cat,
                ),
            ),
            None => None,
        };
    assert forall|k: Seq<char>| split_parts(Some(m), k) == split_parts(None, k) by {
        assert(!(exists|i: int| 0 <= i < m.kv().len() && m.kv()[i].0 == k));
    }
    assert(f1 =~= f2);
}

proof fn lemma_concat_push(parts: Seq<Seq<char>>, x: Seq<char>)
    ensures
        concat(parts.push(x)) == concat(parts) + x,
{
    assert(parts.push(x).drop_last() =~= parts);
}

fn opt_attr(tp: &TaggedPolygon, k: &str) -> (r: Option<String>)
    ensures
        opt_view(r) == attr(*tp, k@),
{
    let key = to_string(k);
    match tp.attributes.get(&key) {
        Some(v) => Some(v.clone()),
        None => None,
    }
}

fn part_html_exec(
    tp: &TaggedPolygon,
    start: &str,
    na: &SortedMap<String, String>,
    cat: &NutzungsArtMap,
) -> (r: Option<String>)
    ensures
        opt_view(r) == part_html(*tp, start@, *na, *cat),
{
    let ebene = match opt_attr(tp, "AX_Ebene") {
        Some(e) => e,
        None => return None,
    };
    let id = match opt_attr(tp, "id") {
        Some(e) => e,
        None => return None,
    };
    let mut objid = chars_of(start);
    push_str(&mut objid, ":");
    push_str(&mut objid, ebene.as_str());
    push_str(&mut objid, ":");
    push_str(&mut objid, id.as_str());
    match opt_attr(tp, "AX_IntersectionId") {
        Some(w) => {
            push_str(&mut objid, ":");
            push_str(&mut objid, w.as_str());
        },
        None => {},
    }
    let objid = string_from_chars(objid.as_slice());
    assert(objid@ == part_obj_id(*tp, start@));
    let qm = match opt_attr(tp, "BerechneteGroesseM2") {
        Some(q) => q,
        None => to_string("0"),
    };
    assert(qm@ == part_area(*tp));
    if str_eq(qm.as_str(), "0") {
        return None;
    }
    let auto = tp.get_auto_kuerzel(cat);
    let auto_str = match &auto {
        Some(a) => a.clone(),
        None => ebene.clone(),
    };
    let chosen = match na.get(&objid) {
        Some(v) => Some(v.clone()),
        None => auto,
    };
    let sel = render_select(cat, &chosen, "nutzungsArtAendern", objid.as_str(), "nutzungsart-aendern");
    let mut c = chars_of("<div><p style='cursor:pointer;text-decoration:underline;' onmouseup='zoomToFlstPart(event);' data-part-id='");
    push_str(&mut c, objid.as_str());
    push_str(&mut c, "'>");
    push_str(&mut c, qm.as_str());
    push_str(&mut c, "m² ");
    push_str(&mut c, auto_str.as_str());
    push_str(&mut c, "</p>");
    push_str(&mut c, sel.as_str());
    push_str(&mut c, "</div>");
    Some(string_from_chars(c.as_slice()))
}

fn parts_html_exec(
    tps: &Vec<TaggedPolygon>,
    start: &str,
    na: &SortedMap<String, String>,
    cat: &NutzungsArtMap,
) -> (r: Vec<char>)
    ensures
        r@ == parts_html(tps@, start@, *na, *cat),
{
    let ghost f = |tp: TaggedPolygon| part_html(tp, start@, *na, *cat);
    let mut out: Vec<char> = Vec::new();
    let mut i: usize = 0;
    while i < tps.len()
        invariant
            i <= tps@.len(),
            f == (|tp: TaggedPolygon| part_html(tp, start@, *na, *cat)),
            out@ == concat(tps@.take(i as int).filter_map(f)),
        decreases tps.len() - i,
    {
        proof {
            tps@.lemma_filter_map_take_succ(f, i as int);
        }
        let ghost prev = tps@.take(i as int).filter_map(f);
        match part_html_exec(&tps[i], start, na, cat) {
            Some(h) => {
                proof {
                    lemma_concat_push(prev, h@);
                    assert(prev + seq![h@] =~= prev.push(h@));
                }
                push_str(&mut out, h.as_str());
            },
            None => {
                assert(prev + Seq::<Seq<char>>::empty() =~= prev);
            },
        }
        i = i + 1;
    }
    assert(tps@.take(tps@.len() as int) =~= tps@);
    out
}

fn card_exec(
    f: FlstIdParsedNumber,
    recs: &Vec<CsvDatensatz>,
    selected: bool,
    split_fs: Option<&SortedMap<String, Vec<TaggedPolygon>>>,
    na: &SortedMap<String, String>,
    cat: &NutzungsArtMap,
) -> (r: String)
    ensures
        r@ == csv_card(
            f,
            datensaetze_view(recs@),
            selected,
            split_parts(
                match split_fs {
                    Some(m) => Some(*m),
                    None => None,
                },
                spec_format_start_str(f),
            ),
            *na,
            *cat,
        ),
{
    let nice = f.format_nice();
    let a = replace_str(nice.as_str(), "/", "-");
    let fid = replace_str(a.as_str(), "-", "_");
    let start = f.format_start_str();
    let mut c = chars_of("\n        <div class='csv-datensatz' id='csv_flst_");
    push_str(&mut c, fid.as_str());
    push_str(&mut c, "' style='background:#3e3e58;padding: 10px;margin-bottom: 10px;border-radius: 5px;display: flex;flex-direction: column;");
    if selected {
        push_str(&mut c, "border:1px solid red;");
    } else {
        push_str(&mut c, "border:1px solid transparent;");
    }
    push_str(&mut c, "' ondblclick='focusFlst(event);' data-id='");
    push_str(&mut c, fid.as_str());
    push_str(&mut c, "'>\n            <h5 style='font-size: 18px;font-weight: bold;color: white;'  data-id='");
    push_str(&mut c, fid.as_str());
    push_str(&mut c, "'>Fl. ");
    push_str(&mut c, f.get_flur().as_str());
    push_str(&mut c, " Flst. ");
    push_str(&mut c, f.format_str().as_str());
    push_str(&mut c, "</h5>\n            <input type='text' placeholder='Notiz...' value='");
    if recs.len() > 0 {
        push_str(&mut c, recs[0].notiz.as_str());
    }
    push_str(&mut c, "' oninput='changeNotiz(event);' onchange='changeNotiz(event);' data-id='");
    push_str(&mut c, fid.as_str());
    push_str(&mut c, "' style='font-family: sans-serif;margin-bottom: 10px;width: 100%;padding: 3px;font-size:16px;'></input>\n            ");
    if selected {
        match split_fs {
            Some(m) => match m.get(&start) {
                Some(tps) => {
                    push_str(&mut c, "<div class='nutzung-veraendern'>");
                    let p = parts_html_exec(tps, start.as_str(), na, cat);
                    push_all(&mut c, &p);
                    push_str(&mut c, "</div>");
                },
                None => {},
            },
            None => {},
        }
    }
    push_str(&mut c, "\n        </div>");
    string_from_chars(c.as_slice())
}

/// The cards of the parcels of the data set, the parcel
/// `selected_edit_flst` selected with its pieces from `split_fs` (the
/// pieces of each parcel by search key) and the uses chosen for them in
/// `na_definiert`.
pub fn render_csv_editable(
    csv: &CsvDataType,
    na_definiert: &SortedMap<String, String>,
    selected_edit_flst: &str,
    split_fs: Option<&SortedMap<String, Vec<TaggedPolygon>>>,
    catalogue: &NutzungsArtMap,
) -> (r: String)
    ensures
        r@ == spec_csv_cards(
            spec_old_fallback(csv@),
            match parse_key(selected_edit_flst@) {
                Some(n) => Some(spec_format_nice(n)),
                None => None,
            },
            match split_fs {
                Some(m) => Some(*m),
                None => None,
            },
            *na_definiert,
            *catalogue,
        ),
{
    let sel = match FlstIdParsed::from_str(selected_edit_flst).parse_num() {
        Some(s) => Some(s.format_nice()),
        None => None,
    };
    let ghost selv: Option<Seq<char>> = match parse_key(selected_edit_flst@) {
        Some(n) => Some(spec_format_nice(n)),
        None => None,
    };
    assert(opt_view(sel) == selv);
    let ghost sfv = match split_fs {
        Some(m) => Some(*m),
        None => None,
    };
    let old = csv.get_old_fallback();
    let ghost entries = old_view(old);
    let ghost g = |e: (Seq<char>, Seq<DatensatzView>)|
        match parse_key(e.0) {
            Some(f) => Some(
                csv_card(
                    f,
                    e.1,
                    selv == Some(spec_format_nice(f)),
                    split_parts(sfv, spec_format_start_str(f)),
                    *na_definiert,
                    *catalogue,
                ),
            ),
            None => None,
        };
    let mut out: Vec<char> = Vec::new();
    let mut i: usize = 0;
    while i < old.len()
        invariant
            i <= entries.len(),
            entries == old_view(old),
            entries == spec_old_fallback(csv@),
            opt_view(sel) == selv,
            g == (|e: (Seq<char>, Seq<DatensatzView>)|
                match parse_key(e.0) {
                    Some(f) => Some(
                        csv_card(
                            f,
                            e.1,
                            selv == Some(spec_format_nice(f)),
                            split_parts(sfv, spec_format_start_str(f)),
                            *na_definiert,
                            *catalogue,
                        ),
                    ),
                    None => None,
                }),
            sfv == (match split_fs {
                Some(m) => Some(*m),
                None => None,
            }),
            out@ == concat(entries.take(i as int).filter_map(g)),
        decreases entries.len() - i,
    {
        proof {
            entries.lemma_filter_map_take_succ(g, i as int);
        }
        let k = old.key_at(i);
        let v = old.value_at(i);
        assert(entries[i as int] == (k@, datensaetze_view(v@)));
        let ghost prev = entries.take(i as int).filter_map(g);
        match FlstIdParsed::from_str(k.as_str()).parse_num() {
            Some(f) => {
                let nice = f.format_nice();
                let selected = match &sel {
                    Some(s) => str_eq(s.as_str(), nice.as_str()),
                    None => false,
                };
                let card = card_exec(f, v, selected, split_fs, na_definiert, catalogue);
                proof {
                    lemma_concat_push(prev, card@);
                    assert(prev + seq![card@] =~= prev.push(card@));
                }
                push_str(&mut out, card.as_str());
            },
            None => {
                assert(prev + Seq::<Seq<char>>::empty() =~= prev);
            },
        }
        i = i + 1;
    }
    assert(entries.take(entries.len() as int) =~= entries);
    string_from_chars(out.as_slice())
}

/// The switch between the parcels and the changes, shown on the first tab:
/// the active side marked.
pub open spec fn spec_switch_content(tab: Option<usize>, secondary_content: Option<bool>) -> Seq<char> {
    let tab_nr: usize = match tab {
        Some(t) => t,
        None => 0,
    };
    let secondary = secondary_content == Some(true);
    if tab_nr != 0 {
        Seq::empty()
    } else {
        "\n        <div class='project-content-switch "@ + (if secondary { ""@ } else { "active"@ })
            + "' onclick='selectContent(0);'>Flurstücke</div>\n        <div class='project-content-switch "@
            + (if secondary { "active"@ } else { ""@ })
            + "' onclick='selectContent(1);'>Änderungen</div>\n    "@
    }
}

/// The switch above the project's content (the UI state's tab and whether
/// the changes are shown).
pub fn render_switch_content(tab: Option<usize>, secondary_content: Option<bool>) -> (r: String)
    ensures
        r@ == spec_switch_content(tab, secondary_content),
{
    let tab_nr: usize = match tab {
        Some(t) => t,
        None => 0,
    };
    if tab_nr != 0 {
        return String::new();
    }
    let secondary = match secondary_content {
        Some(b) => b,
        None => false,
    };
    let mut c = chars_of("\n        <div class='project-content-switch ");
    if secondary {
        push_str(&mut c, "");
    } else {
        push_str(&mut c, "active");
    }
    push_str(&mut c, "' onclick='selectContent(0);'>Flurstücke</div>\n        <div class='project-content-switch ");
    if secondary {
        push_str(&mut c, "active");
    } else {
        push_str(&mut c, "");
    }
    push_str(&mut c, "' onclick='selectContent(1);'>Änderungen</div>\n    ");
    string_from_chars(c.as_slice())
}

/// What the list of changes shows of a new use area: the use chosen for it
/// and whether it is locked. (Its polygon, in floating point, is kept by
/// the caller.)
#[derive(Debug)]
pub struct PolyNeuInfo {
    pub nutzung: Option<String>,
    pub locked: bool,
}

/// A building to delete, as listed.
pub open spec fn gebaeude_html(k: Seq<char>, g: GebaeudeLoeschen) -> Seq<char> {
    "<div class='__application-aenderung-container' id='gebaeude-loeschen-"@ + g.gebaeude_id@ + "' data-gebaeude-id='"@ + g.gebaeude_id@ + "'>
                <div style='display:flex;'>
                    <p class='__application-zoom-to' style='color: white;font-weight: bold;' data-gebaeude-id='"@ + g.gebaeude_id@ + "' onclick='zoomToGebaeudeLoeschen(event);'>"@ + g.gebaeude_id@ + "</p>
                </div>
                <p class='__application-secondary-undo' onclick='gebaeudeLoeschenUndo(event);' data-gebaeude-id='"@ + k + "'>X</p>
            </div>"@
}

/// The start of a new area's id: up to the first `-`, at most ten characters.
pub open spec fn poly_id_head(id: Seq<char>) -> Seq<char> {
    let first = split(id, "-"@)[0];
    if first.len() <= 10 {
        first
    } else {
        first.take(10)
    }
}

/// A new use area, as listed: its lock icon, its id and a select of its use.
pub open spec fn poly_neu_html(id: Seq<char>, p: PolyNeuInfo, lock: Seq<char>, unlock: Seq<char>, cat: NutzungsArtMap) -> Seq<char> {
    let lo_ul = if p.locked {
        lock
    } else {
        unlock
    };
    let sel = spec_render_select(catalogue_keys(cat), opt_view(p.nutzung), "changeSelectPolyNeu"@, id, "aendern-poly-neu"@);
    "<div class='na-neu' id='na-neu-"@ + id + "' data-new-poly-id='"@ + id + "'>
                <div style='display:flex;'>
                    <img src='data:image/png;base64,"@ + lo_ul + "' width='16px' height='16px' class='__application-zoom-to' onclick='lockUnlockPoly(event);' data-nutzung-id='"@ + id + "' data-poly-neu-id='"@ + id + "'></img>
                    <p class='__application-zoom-to' onclick='nutzungenSaeubern(event);' data-nutzung-id='"@ + id + "' data-poly-neu-id='"@ + id + "'>[ber.]</p>
                    <p class='__application-zoom-to' onclick='zoomToPolyNeu(event);' style='color: white;font-weight: bold;' data-poly-neu-id='"@ + id + "'>"@ + poly_id_head(id) + "</p>
                </div>
                <div style='display:flex;'>
                    "@ + sel + "
                    <p class='__application-secondary-undo' onclick='polyNeuUndo(event);' data-poly-neu-id='"@ + id + "' style='margin-left: 10px;display: flex;align-items: center;'>X</p>
                </div>
            </div>"@
}

/// The list of changes: the buildings to delete and the new use areas,
/// each the last first.
pub open spec fn spec_secondary_content(
    geb: Seq<(Seq<char>, GebaeudeLoeschen)>,
    neu: Seq<(Seq<char>, PolyNeuInfo)>,
    lock: Seq<char>,
    unlock: Seq<char>,
    cat: NutzungsArtMap,
) -> Seq<char> {
    "<div id='aenderungen-container'>"@ + "<h2>Gebäude löschen</h2>"@ + "<div id='zu-loeschende-gebaeude'>"@
        + concat(geb.reverse().map_values(|e: (Seq<char>, GebaeudeLoeschen)| gebaeude_html(e.0, e.1)))
        + "</div>"@
        + "<h2><span style='display: flex;flex-direction: row;justify-content: space-between;flex-grow: 1;'>Neue Nutzungen <p style='text-decoration:underline;cursor:pointer;' onclick='nutzungenSaeubern(event);' data-nutzung-id=''>[alle bereinigen]</p></span></h2>"@
        + "<div id='neue-na'>"@
        + concat(neu.reverse().map_values(|e: (Seq<char>, PolyNeuInfo)| poly_neu_html(e.0, e.1, lock, unlock, cat)))
        + "</div>"@ + "</div>"@
}

fn gebaeude_html_exec(k: &String, g: &GebaeudeLoeschen) -> (r: String)
    ensures
        r@ == gebaeude_html(k@, *g),
{
    let mut c: Vec<char> = Vec::new();
    push_str(&mut c, "<div class='__application-aenderung-container' id='gebaeude-loeschen-");
    push_str(&mut c, g.gebaeude_id.as_str());
    push_str(&mut c, "' data-gebaeude-id='");
    push_str(&mut c, g.gebaeude_id.as_str());
    push_str(&mut c, "'>
                <div style='display:flex;'>
                    <p class='__application-zoom-to' style='color: white;font-weight: bold;' data-gebaeude-id='");
    push_str(&mut c, g.gebaeude_id.as_str());
    push_str(&mut c, "' onclick='zoomToGebaeudeLoeschen(event);'>");
    push_str(&mut c, g.gebaeude_id.as_str());
    push_str(&mut c, "</p>
                </div>
                <p class='__application-secondary-undo' onclick='gebaeudeLoeschenUndo(event);' data-gebaeude-id='");
    push_str(&mut c, k.as_str());
    push_str(&mut c, "'>X</p>
            </div>");
    string_from_chars(c.as_slice())
}

fn poly_id_head_exec(id: &String) -> (r: String)
    ensures
        r@ == poly_id_head(id@),
{
    let parts = split_str(id.as_str(), "-");
    proof {
        reveal_strlit("-");
        lemma_split_ne_nonempty(id@, "-"@);
    }
    assert(string_views(parts@)[0] == parts@[0]@);
    let first = chars_of(parts[0].as_str());
    if first.len() <= 10 {
        string_from_chars(first.as_slice())
    } else {
        let t = sub_chars(&first, 0, 10);
        assert(t@ =~= first@.take(10));
        string_from_chars(t.as_slice())
    }
}

fn poly_neu_html_exec(id: &String, p: &PolyNeuInfo, lock: &str, unlock: &str, cat: &NutzungsArtMap) -> (r: String)
    ensures
        r@ == poly_neu_html(id@, *p, lock@, unlock@, *cat),
{
    let sel = render_select(cat, &p.nutzung, "changeSelectPolyNeu", id.as_str(), "aendern-poly-neu");
    let head = poly_id_head_exec(id);
    let lo_ul = if p.locked {
        to_string(lock)
    } else {
        to_string(unlock)
    };
    let mut c: Vec<char> = Vec::new();
    push_str(&mut c, "<div class='na-neu' id='na-neu-");
    push_str(&mut c, id.as_str());
    push_str(&mut c, "' data-new-poly-id='");
    push_str(&mut c, id.as_str());
    push_str(&mut c, "'>
                <div style='display:flex;'>
                    <img src='data:image/png;base64,");
    push_str(&mut c, lo_ul.as_str());
    push_str(&mut c, "' width='16px' height='16px' class='__application-zoom-to' onclick='lockUnlockPoly(event);' data-nutzung-id='");
    push_str(&mut c, id.as_str());
    push_str(&mut c, "' data-poly-neu-id='");
    push_str(&mut c, id.as_str());
    push_str(&mut c, "'></img>
                    <p class='__application-zoom-to' onclick='nutzungenSaeubern(event);' data-nutzung-id='");
    push_str(&mut c, id.as_str());
    push_str(&mut c, "' data-poly-neu-id='");
    push_str(&mut c, id.as_str());
    push_str(&mut c, "'>[ber.]</p>
                    <p class='__application-zoom-to' onclick='zoomToPolyNeu(event);' style='color: white;font-weight: bold;' data-poly-neu-id='");
    push_str(&mut c, id.as_str());
    push_str(&mut c, "'>");
    push_str(&mut c, head.as_str());
    push_str(&mut c, "</p>
                </div>
                <div style='display:flex;'>
                    ");
    push_str(&mut c, sel.as_str());
    push_str(&mut c, "
                    <p class='__application-secondary-undo' onclick='polyNeuUndo(event);' data-poly-neu-id='");
    push_str(&mut c, id.as_str());
    push_str(&mut c, "' style='margin-left: 10px;display: flex;align-items: center;'>X</p>
                </div>
            </div>");
    string_from_chars(c.as_slice())
}

/// The list of changes: the buildings to delete and the new use areas
/// (each map the last entry first), with the lock icons given as base64
/// PNG data.
pub fn render_secondary_content(
    gebaeude_loeschen: &SortedMap<String, GebaeudeLoeschen>,
    na_polygone_neu: &SortedMap<String, PolyNeuInfo>,
    icon_lock: &str,
    icon_unlock: &str,
    catalogue: &NutzungsArtMap,
) -> (r: String)
    ensures
        r@ == spec_secondary_content(
            gebaeude_loeschen.kv(),
            na_polygone_neu.kv(),
            icon_lock@,
            icon_unlock@,
            *catalogue,
        ),
{
    let ghost geb = gebaeude_loeschen.kv();
    let ghost neu = na_polygone_neu.kv();
    let ghost gf = |e: (Seq<char>, GebaeudeLoeschen)| gebaeude_html(e.0, e.1);
    let ghost nf = |e: (Seq<char>, PolyNeuInfo)| poly_neu_html(e.0, e.1, icon_lock@, icon_unlock@, *catalogue);
    let mut c: Vec<char> = Vec::new();
    push_str(&mut c, "<div id='aenderungen-container'>");
    push_str(&mut c, "<h2>Gebäude löschen</h2>");
    push_str(&mut c, "<div id='zu-loeschende-gebaeude'>");
    let ghost c0 = c@;
    let mut i: usize = gebaeude_loeschen.len();
    while i > 0
        invariant
            i <= geb.len(),
            geb == gebaeude_loeschen.kv(),
            gf == (|e: (Seq<char>, GebaeudeLoeschen)| gebaeude_html(e.0, e.1)),
            c@ == c0 + concat(geb.reverse().take(geb.len() - i).map_values(gf)),
        decreases i,
    {
        let ghost before = geb.reverse().take(geb.len() - i).map_values(gf);
        i = i - 1;
        let h = gebaeude_html_exec(gebaeude_loeschen.key_at(i), gebaeude_loeschen.value_at(i));
        push_str(&mut c, h.as_str());
        proof {
            assert(geb.reverse()[geb.len() - 1 - i] == geb[i as int]);
            assert(geb.reverse().take(geb.len() - i).map_values(gf) =~= before.push(gf(geb[i as int])));
            lemma_concat_push(before, gf(geb[i as int]));
        }
    }
    assert(geb.reverse().take(geb.len() as int) =~= geb.reverse());
    push_str(&mut c, "</div>");
    push_str(&mut c, "<h2><span style='display: flex;flex-direction: row;justify-content: space-between;flex-grow: 1;'>Neue Nutzungen <p style='text-decoration:underline;cursor:pointer;' onclick='nutzungenSaeubern(event);' data-nutzung-id=''>[alle bereinigen]</p></span></h2>");
    push_str(&mut c, "<div id='neue-na'>");
    let ghost c1 = c@;
    let mut j: usize = na_polygone_neu.len();
    while j > 0
        invariant
            j <= neu.len(),
            neu == na_polygone_neu.kv(),
            nf == (|e: (Seq<char>, PolyNeuInfo)| poly_neu_html(e.0, e.1, icon_lock@, icon_unlock@, *catalogue)),
            c@ == c1 + concat(neu.reverse().take(neu.len() - j).map_values(nf)),
        decreases j,
    {
        let ghost before = neu.reverse().take(neu.len() - j).map_values(nf);
        j = j - 1;
        let h = poly_neu_html_exec(na_polygone_neu.key_at(j), na_polygone_neu.value_at(j), icon_lock, icon_unlock, catalogue);
        push_str(&mut c, h.as_str());
        proof {
            assert(neu.reverse()[neu.len() - 1 - j] == neu[j as int]);
            assert(neu.reverse().take(neu.len() - j).map_values(nf) =~= before.push(nf(neu[j as int])));
            lemma_concat_push(before, nf(neu[j as int]));
        }
    }
    assert(neu.reverse().take(neu.len() as int) =~= neu.reverse());
    push_str(&mut c, "</div>");
    push_str(&mut c, "</div>");
    string_from_chars(c.as_slice())
}

} // verus!
