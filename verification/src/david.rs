//! The change requests sent to the cadastre system (DAVID): which written
//! operations stay in the request.

use vstd::prelude::*;
use crate::text::{
    chars_of, copy_string, dec, push_all, replace, replace_str, string_from_chars, to_string,
    usize_to_chars_padded, zero_pad, push_str, join, join_strings, string_views, u64_to_chars,
};
use crate::nas::{
    pair_views, MemberObject, NasXmlObjects, TaggedPolygon, auto_attribute_entries, entry_views,
    lemma_entry_views,
};
use crate::search::NutzungsArtMap;
use crate::screen::Aenderungen;
use crate::ui::GebaeudeLoeschen;
use crate::sorted_map::{key_index, lookup, lemma_key_index_unique};
use crate::collation::str_eq;
use crate::seq_lemmas::lemma_filter_map_keeps_all;

verus! {

/// The object an operation of the request creates, replaces or deletes.
#[derive(Debug, Clone, PartialEq, Eq, Hash)]
pub enum OpPrereq {
    Insert { id: String },
    Replace { id: String },
    Delete { id: String },
}

pub enum OpPrereqView {
    Insert(Seq<char>),
    Replace(Seq<char>),
    Delete(Seq<char>),
}

impl View for OpPrereq {
    type V = OpPrereqView;

    open spec fn view(&self) -> OpPrereqView {
        match self {
            OpPrereq::Insert { id } => OpPrereqView::Insert(id@),
            OpPrereq::Replace { id } => OpPrereqView::Replace(id@),
            OpPrereq::Delete { id } => OpPrereqView::Delete(id@),
        }
    }
}

pub open spec fn op_id(o: OpPrereqView) -> Seq<char> {
    match o {
        OpPrereqView::Insert(id) => id,
        OpPrereqView::Replace(id) => id,
        OpPrereqView::Delete(id) => id,
    }
}

impl OpPrereq {
    /// The object's id.
    pub fn get_id(&self) -> (r: String)
        ensures
            r@ == op_id(self@),
    {
        match self {
            OpPrereq::Insert { id } => copy_string(id),
            OpPrereq::Replace { id } => copy_string(id),
            OpPrereq::Delete { id } => copy_string(id),
        }
    }

    fn copy(&self) -> (r: OpPrereq)
        ensures
            r@ == self@,
    {
        match self {
            OpPrereq::Insert { id } => OpPrereq::Insert { id: copy_string(id) },
            OpPrereq::Replace { id } => OpPrereq::Replace { id: copy_string(id) },
            OpPrereq::Delete { id } => OpPrereq::Delete { id: copy_string(id) },
        }
    }
}

pub type FinalString = (Seq<char>, OpPrereqView);

pub open spec fn final_views(v: Seq<(String, OpPrereq)>) -> Seq<FinalString> {
    v.map_values(|e: (String, OpPrereq)| (e.0@, e.1@))
}

/// Some entry deletes the object `id`.
pub open spec fn deletes(input: Seq<FinalString>, id: Seq<char>) -> bool {
    exists|i: int| 0 <= i < input.len() && input[i].1 == OpPrereqView::Delete(id)
}

/// Some entry inserts the object `id`.
pub open spec fn inserts(input: Seq<FinalString>, id: Seq<char>) -> bool {
    exists|i: int| 0 <= i < input.len() && input[i].1 == OpPrereqView::Insert(id)
}

/// The entries, in order, except those about an object that the request
/// both inserts and deletes.
pub open spec fn spec_process_final_strings(input: Seq<FinalString>) -> Seq<FinalString> {
    input.filter_map(
        |e: FinalString|
            if deletes(input, op_id(e.1)) && inserts(input, op_id(e.1)) {
                None
            } else {
                Some(e)
            },
    )
}

/// Processing the operations a second time changes nothing: no object that
/// stays in the request is both inserted and deleted by what stays.
pub proof fn lemma_process_final_strings_idempotent(input: Seq<FinalString>)
    ensures
        spec_process_final_strings(spec_process_final_strings(input)) == spec_process_final_strings(
            input,
        ),
{
    let f = |e: FinalString|
        if deletes(input, op_id(e.1)) && inserts(input, op_id(e.1)) {
            None
        } else {
            Some(e)
        };
    let out = input.filter_map(f);
    let g = |e: FinalString|
        if deletes(out, op_id(e.1)) && inserts(out, op_id(e.1)) {
            None
        } else {
            Some(e)
        };
    assert forall|i: int| 0 <= i < out.len() implies g(#[trigger] out[i]) == Some(out[i]) by {
        let e = out[i];
        assert(out.contains(e));
        input.lemma_filter_map_contains(f, e);
        let t = choose|t: FinalString| #[trigger] input.contains(t) && f(t) == Some(e);
        assert(t == e);
        let id = op_id(e.1);
        assert(!(deletes(input, id) && inserts(input, id)));
        if deletes(out, id) {
            let j = choose|j: int| 0 <= j < out.len() && out[j].1 == OpPrereqView::Delete(id);
            assert(out.contains(out[j]));
            input.lemma_filter_map_contains(f, out[j]);
            let u = choose|u: FinalString| #[trigger] input.contains(u) && f(u) == Some(out[j]);
            let k = choose|k: int| 0 <= k < input.len() && input[k] == u;
            assert(input[k].1 == OpPrereqView::Delete(id));
            assert(deletes(input, id));
        }
        if inserts(out, id) {
            let j = choose|j: int| 0 <= j < out.len() && out[j].1 == OpPrereqView::Insert(id);
            assert(out.contains(out[j]));
            input.lemma_filter_map_contains(f, out[j]);
            let u = choose|u: FinalString| #[trigger] input.contains(u) && f(u) == Some(out[j]);
            let k = choose|k: int| 0 <= k < input.len() && input[k] == u;
            assert(input[k].1 == OpPrereqView::Insert(id));
            assert(inserts(input, id));
        }
    }
    lemma_filter_map_keeps_all::<FinalString>(out, g);
}

fn has_op(input: &[(String, OpPrereq)], want_delete: bool, id: &str) -> (r: bool)
    ensures
        r == if want_delete {
            deletes(final_views(input@), id@)
        } else {
            inserts(final_views(input@), id@)
        },
{
    let ghost iv = final_views(input@);
    let mut i: usize = 0;
    while i < input.len()
        invariant
            i <= input@.len(),
            iv == final_views(input@),
            forall|j: int|
                0 <= j < i ==> #[trigger] iv[j].1 != (if want_delete {
                    OpPrereqView::Delete(id@)
                } else {
                    OpPrereqView::Insert(id@)
                }),
        decreases input.len() - i,
    {
        assert(iv[i as int] == (input@[i as int].0@, input@[i as int].1@));
        let hit = match &input[i].1 {
            OpPrereq::Delete { id: d } => want_delete && str_eq(d.as_str(), id),
            OpPrereq::Insert { id: d } => !want_delete && str_eq(d.as_str(), id),
            OpPrereq::Replace { .. } => false,
        };
        if hit {
            return true;
        }
        i = i + 1;
    }
    false
}

/// Drops the operations on objects that the request both inserts and
/// deletes; the others stay, in order.
pub fn process_final_strings(input: &[(String, OpPrereq)]) -> (r: Vec<(String, OpPrereq)>)
    ensures
        final_views(r@) == spec_process_final_strings(final_views(input@)),
{
    let ghost iv = final_views(input@);
    let ghost f = |e: FinalString|
        if deletes(iv, op_id(e.1)) && inserts(iv, op_id(e.1)) {
            None
        } else {
            Some(e)
        };
    let mut r: Vec<(String, OpPrereq)> = Vec::new();
    let mut i: usize = 0;
    while i < input.len()
        invariant
            i <= input@.len(),
            iv == final_views(input@),
            f == (|e: FinalString|
                if deletes(iv, op_id(e.1)) && inserts(iv, op_id(e.1)) {
                    None
                } else {
                    Some(e)
                }),
            final_views(r@) == iv.take(i as int).filter_map(f),
        decreases input.len() - i,
    {
        proof {
            iv.lemma_filter_map_take_succ(f, i as int);
        }
        assert(iv[i as int] == (input@[i as int].0@, input@[i as int].1@));
        let id = input[i].1.get_id();
        if !(has_op(input, true, id.as_str()) && has_op(input, false, id.as_str())) {
            let e = (copy_string(&input[i].0), input[i].1.copy());
            let ghost before = r@;
            r.push(e);
            assert(final_views(r@) =~= final_views(before).push(iv[i as int]));
        }
        i = i + 1;
    }
    assert(iv.take(input@.len() as int) =~= iv);
    r
}


// ---------------------------------------------------------------------------
// Map symbols for new objects
// ---------------------------------------------------------------------------

/// The XML of a point symbol; the `$$...$$` marks are the places to fill.
pub const PUNKTSIGNATUR: &'static str = r#"
        	<wfs:Insert>
				<AP_PPO gml:id="$$OBJ_ID$$">
					<gml:identifier codeSpace="http://www.adv-online.de/">urn:adv:oid:$$OBJ_ID$$</gml:identifier>
					<lebenszeitintervall>
						<AA_Lebenszeitintervall>
							<beginnt>9999-01-01T00:00:00Z</beginnt>
						</AA_Lebenszeitintervall>
					</lebenszeitintervall>
					<modellart>
						<AA_Modellart>
							<advStandardModell>DKKM1000</advStandardModell>
						</AA_Modellart>
					</modellart>
					<position>
						<gml:MultiPoint>
							<gml:pointMember>
								<gml:Point>
									<gml:pos>$$POS$$</gml:pos>
								</gml:Point>
							</gml:pointMember>
						</gml:MultiPoint>
					</position>
					<signaturnummer>$$SIGNATURNUMMER$$</signaturnummer>
					<art>$$ART$$</art>
					<dientZurDarstellungVon xlink:href="urn:adv:oid:$$FUER$$"/>
				</AP_PPO>
			</wfs:Insert>
        "#;

/// The XML of an area symbol; the `$$...$$` marks are the places to fill.
pub const FLAECHENSIGNATUR: &'static str = r#"
			<wfs:Insert>
				<AP_Darstellung gml:id="$$OBJ_ID$$">
					<gml:identifier codeSpace="http://www.adv-online.de/">urn:adv:oid:$$OBJ_ID$$</gml:identifier>
					<lebenszeitintervall>
						<AA_Lebenszeitintervall>
							<beginnt>9999-01-01T00:00:00Z</beginnt>
						</AA_Lebenszeitintervall>
					</lebenszeitintervall>
					<modellart>
						<AA_Modellart>
							<advStandardModell>DKKM1000</advStandardModell>
						</AA_Modellart>
					</modellart>
					<signaturnummer>$$SIGNATURNUMMER$$</signaturnummer>
					<art>$$ART$$</art>
					<dientZurDarstellungVon xlink:href="urn:adv:oid:$$FUER$$"/>
					<positionierungsregel>$$POSITIONIERUNGSREGEL$$</positionierungsregel>
				</AP_Darstellung>
			</wfs:Insert>
        "#;

/// A map symbol that the request adds for a new object of some kinds of use.
#[derive(Debug, PartialEq)]
pub enum Signatur {
    /// A point symbol; `pos` is the label position of the object's area,
    /// written as the two coordinates with a space between them.
    Punkt { id: String, fuer: String, pos: String, signaturnummer: String, art: String },
    /// A symbol that fills the object's area.
    Flaeche {
        id: String,
        fuer: String,
        signaturnummer: String,
        art: String,
        positionierungsregel: String,
    },
}

pub enum SignaturView {
    Punkt {
        id: Seq<char>,
        fuer: Seq<char>,
        pos: Seq<char>,
        signaturnummer: Seq<char>,
        art: Seq<char>,
    },
    Flaeche {
        id: Seq<char>,
        fuer: Seq<char>,
        signaturnummer: Seq<char>,
        art: Seq<char>,
        positionierungsregel: Seq<char>,
    },
}

impl View for Signatur {
    type V = SignaturView;

    open spec fn view(&self) -> SignaturView {
        match self {
            Signatur::Punkt { id, fuer, pos, signaturnummer, art } => SignaturView::Punkt {
                id: id@,
                fuer: fuer@,
                pos: pos@,
                signaturnummer: signaturnummer@,
                art: art@,
            },
            Signatur::Flaeche { id, fuer, signaturnummer, art, positionierungsregel } =>
                SignaturView::Flaeche {
                id: id@,
                fuer: fuer@,
                signaturnummer: signaturnummer@,
                art: art@,
                positionierungsregel: positionierungsregel@,
            },
        }
    }
}

pub open spec fn opt_signatur_view(s: Option<Signatur>) -> Option<SignaturView> {
    match s {
        Some(x) => Some(x@),
        None => None,
    }
}

/// The symbol table: for a use abbreviation with a symbol, whether it is a
/// point symbol, the symbol's number, its `art`, and (for an area symbol)
/// its placement rule.
pub open spec fn signatur_table(k: Seq<char>) -> Option<(bool, Seq<char>, Seq<char>, Seq<char>)> {
    if k == "SUM"@ {
        Some((true, "3478"@, "Sumpf"@, ""@))
    } else if k == "WAS"@ {
        Some((true, "3490"@, "FKT"@, ""@))
    } else if k == "WALD"@ {
        Some((false, "3456"@, "VEG"@, "1104"@))
    } else if k == "LH"@ {
        Some((false, "3458"@, "VEG"@, "1104"@))
    } else if k == "NH"@ {
        Some((false, "3460"@, "VEG"@, "1104"@))
    } else if k == "LNH"@ {
        Some((false, "3462"@, "VEG"@, "1104"@))
    } else if k == "GR"@ {
        Some((false, "3413"@, "VEG"@, "1100"@))
    } else if k == "GRÜ"@ {
        Some((false, "3413"@, "FKT"@, "1100"@))
    } else if k == "G"@ {
        Some((false, "3421"@, "VEG"@, "1100"@))
    } else {
        None
    }
}

/// The id of a new object: `DE_001` and the number with ten digits.
pub open spec fn new_object_id(n: nat) -> Seq<char> {
    "DE_001"@ + zero_pad(dec(n), 10)
}

/// The symbol for a new object with use `k`, for the object `fuer`, as the
/// `n`-th new symbol; a point symbol needs the label position `pos`.
pub open spec fn spec_from_kuerzel(k: Seq<char>, fuer: Seq<char>, pos: Option<Seq<char>>, n: nat) -> Option<SignaturView> {
    match signatur_table(k) {
        None => None,
        Some((punkt, nr, art, regel)) => if punkt {
            match pos {
                Some(p) => Some(
                    SignaturView::Punkt {
                        id: new_object_id(n),
                        fuer,
                        pos: p,
                        signaturnummer: nr,
                        art,
                    },
                ),
                None => None,
            }
        } else {
            Some(
                SignaturView::Flaeche {
                    id: new_object_id(n),
                    fuer,
                    signaturnummer: nr,
                    art,
                    positionierungsregel: regel,
                },
            )
        },
    }
}

/// The XML of a symbol: its template with the places filled.
pub open spec fn spec_signatur_xml(s: SignaturView) -> Seq<char> {
    match s {
        SignaturView::Punkt { id, fuer, pos, signaturnummer, art } => replace(
            replace(
                replace(
                    replace(replace(PUNKTSIGNATUR@, "$$OBJ_ID$$"@, id), "$$FUER$$"@, fuer),
                    "$$POS$$"@,
                    pos,
                ),
                "$$ART$$"@,
                art,
            ),
            "$$SIGNATURNUMMER$$"@,
            signaturnummer,
        ),
        SignaturView::Flaeche { id, fuer, signaturnummer, art, positionierungsregel } => replace(
            replace(
                replace(
                    replace(replace(FLAECHENSIGNATUR@, "$$OBJ_ID$$"@, id), "$$FUER$$"@, fuer),
                    "$$POSITIONIERUNGSREGEL$$"@,
                    positionierungsregel,
                ),
                "$$ART$$"@,
                art,
            ),
            "$$SIGNATURNUMMER$$"@,
            signaturnummer,
        ),
    }
}

/// `DE_001` and `n` with ten digits.
pub fn new_object_id_string(n: usize) -> (r: String)
    ensures
        r@ == new_object_id(n as nat),
{
    let mut v = chars_of("DE_001");
    let d = usize_to_chars_padded(n, 10);
    push_all(&mut v, &d);
    string_from_chars(v.as_slice())
}

impl Signatur {
    /// The symbol for a new object with use `kuerzel`, for the object
    /// `obj_id`, with number `id`; `label_pos` is the label position of the
    /// object's area, if it has one. `None` for a use without a symbol, and
    /// for a point symbol without a label position.
    pub fn from_kuerzel(kuerzel: &str, obj_id: &str, label_pos: Option<String>, id: usize) -> (r: Option<Signatur>)
        ensures
            opt_signatur_view(r) == spec_from_kuerzel(
                kuerzel@,
                obj_id@,
                match label_pos {
                    Some(p) => Some(p@),
                    None => None,
                },
                id as nat,
            ),
    {
        let (punkt, nr, art, regel): (bool, &str, &str, &str) = if str_eq(kuerzel, "SUM") {
            (true, "3478", "Sumpf", "")
        } else if str_eq(kuerzel, "WAS") {
            (true, "3490", "FKT", "")
        } else if str_eq(kuerzel, "WALD") {
            (false, "3456", "VEG", "1104")
        } else if str_eq(kuerzel, "LH") {
            (false, "3458", "VEG", "1104")
        } else if str_eq(kuerzel, "NH") {
            (false, "3460", "VEG", "1104")
        } else if str_eq(kuerzel, "LNH") {
            (false, "3462", "VEG", "1104")
        } else if str_eq(kuerzel, "GR") {
            (false, "3413", "VEG", "1100")
        } else if str_eq(kuerzel, "GRÜ") {
            (false, "3413", "FKT", "1100")
        } else if str_eq(kuerzel, "G") {
            (false, "3421", "VEG", "1100")
        } else {
            return None;
        };
        if punkt {
            match label_pos {
                Some(p) => Some(
                    Signatur::Punkt {
                        id: new_object_id_string(id),
                        fuer: to_string(obj_id),
                        pos: p,
                        signaturnummer: to_string(nr),
                        art: to_string(art),
                    },
                ),
                None => None,
            }
        } else {
            Some(
                Signatur::Flaeche {
                    id: new_object_id_string(id),
                    fuer: to_string(obj_id),
                    signaturnummer: to_string(nr),
                    art: to_string(art),
                    positionierungsregel: to_string(regel),
                },
            )
        }
    }

    /// The symbol's XML for the request.
    pub fn get_xml(&self) -> (r: String)
        ensures
            r@ == spec_signatur_xml(self@),
    {
        match self {
            Signatur::Punkt { id, fuer, pos, signaturnummer, art } => {
                let s = replace_str(PUNKTSIGNATUR, "$$OBJ_ID$$", id.as_str());
                let s = replace_str(s.as_str(), "$$FUER$$", fuer.as_str());
                let s = replace_str(s.as_str(), "$$POS$$", pos.as_str());
                let s = replace_str(s.as_str(), "$$ART$$", art.as_str());
                replace_str(s.as_str(), "$$SIGNATURNUMMER$$", signaturnummer.as_str())
            },
            Signatur::Flaeche { id, fuer, signaturnummer, art, positionierungsregel } => {
                let s = replace_str(FLAECHENSIGNATUR, "$$OBJ_ID$$", id.as_str());
                let s = replace_str(s.as_str(), "$$FUER$$", fuer.as_str());
                let s = replace_str(s.as_str(), "$$POSITIONIERUNGSREGEL$$", positionierungsregel.as_str());
                let s = replace_str(s.as_str(), "$$ART$$", art.as_str());
                replace_str(s.as_str(), "$$SIGNATURNUMMER$$", signaturnummer.as_str())
            },
        }
    }
}


// ---------------------------------------------------------------------------
// The XML nodes of the request
// ---------------------------------------------------------------------------

/// A polygon as the change request reads it: each ring already written as
/// GML (its coordinates), the label position of the area written as the
/// two coordinates with a space between them, if the area has one, and the
/// hash of the polygon's points, by which two polygons are told apart.
#[derive(Debug, PartialEq)]
pub struct PolygonText {
    pub hash: u64,
    pub outer_ring: String,
    pub inner_rings: Vec<String>,
    pub label_pos: Option<String>,
}

/// The `position` node of a polygon; the `$$...$$` marks are the places to fill.
pub const POLY_XML: &'static str = r#"
                    <position>
                        <gml:Surface>
                            <gml:patches>
                                <gml:PolygonPatch>
                                    $$EXTERIOR_RINGS$$
                                    $$INTERIOR_RINGS$$
                                </gml:PolygonPatch>
                            </gml:patches>
                        </gml:Surface>
                    </position>
    "#;

/// The node that inserts a new object.
pub const INSERT_XML: &'static str = r#"
            <wfs:Insert>
                <$$AX_EBENE$$ gml:id="$$OBJ_ID$$">
                    <gml:identifier codeSpace="http://www.adv-online.de/">urn:adv:oid:$$OBJ_ID$$</gml:identifier>
                    <lebenszeitintervall>
                        <AA_Lebenszeitintervall>
                            <beginnt>9999-01-01T00:00:00Z</beginnt>
                        </AA_Lebenszeitintervall>
                    </lebenszeitintervall>
                    <modellart>
                        <AA_Modellart>
                            <advStandardModell>DLKM</advStandardModell>
                        </AA_Modellart>
                    </modellart>
                    $$POSITION_NODE$$
                    <datumDerLetztenUeberpruefung>$$DATUM_JETZT$$</datumDerLetztenUeberpruefung>
                    <ergebnisDerUeberpruefung>3000</ergebnisDerUeberpruefung>
                    $$EXTRA_ATTRIBUTE$$
                </$$AX_EBENE$$>
            </wfs:Insert>
    "#;

/// The node that replaces the geometry of an object.
pub const REPLACE_XML: &'static str = r#"
            <wfs:Replace>
                <$$EBENE$$ gml:id="$$RESOURCE_ID$$">
                    <gml:identifier codeSpace="http://www.adv-online.de/">urn:adv:oid:$$OBJECT_ID$$</gml:identifier>
                    <lebenszeitintervall>
                        <AA_Lebenszeitintervall>
                            <beginnt>$$ORIGINAL_DATE$$</beginnt>
                        </AA_Lebenszeitintervall>
                    </lebenszeitintervall>
                    <modellart>
                        <AA_Modellart>
                            <advStandardModell>DLKM</advStandardModell>
                        </AA_Modellart>
                    </modellart>
                    $$POSITION_NODE$$
$$EXTRA_ATTRIBUTE$$
                </$$EBENE$$>
                <fes:Filter>
                    <fes:ResourceId rid="$$RESOURCE_ID$$"/>
                </fes:Filter>
            </wfs:Replace>
    "#;

pub open spec fn exterior_text(ring: Seq<char>) -> Seq<char> {
    "\n                                    <gml:exterior>\n            "@ + ring
        + "\n                                    </gml:exterior>\n            "@
}

pub open spec fn interior_text(ring: Seq<char>) -> Seq<char> {
    "\n                                    <gml:interior>\n            "@ + ring
        + "\n                                    </gml:interior>\n            "@
}

/// The `position` node of a polygon: the outer ring, then the inner rings
/// joined by line breaks.
pub open spec fn spec_position_node(outer: Seq<char>, inner: Seq<Seq<char>>) -> Seq<char> {
    replace(
        replace(POLY_XML@, "$$EXTERIOR_RINGS$$"@, exterior_text(outer)),
        "$$INTERIOR_RINGS$$"@,
        join(inner.map_values(|r: Seq<char>| interior_text(r)), "\r\n"@),
    )
}

fn ring_text(outer: bool, ring: &str) -> (r: String)
    ensures
        r@ == if outer {
            exterior_text(ring@)
        } else {
            interior_text(ring@)
        },
{
    let mut v: Vec<char> = Vec::new();
    if outer {
        push_str(&mut v, "\n                                    <gml:exterior>\n            ");
        push_str(&mut v, ring);
        push_str(&mut v, "\n                                    </gml:exterior>\n            ");
    } else {
        push_str(&mut v, "\n                                    <gml:interior>\n            ");
        push_str(&mut v, ring);
        push_str(&mut v, "\n                                    </gml:interior>\n            ");
    }
    string_from_chars(v.as_slice())
}

/// The GML `position` node of a polygon.
pub fn polygon_to_position_node(p: &PolygonText) -> (r: String)
    ensures
        r@ == spec_position_node(p.outer_ring@, string_views(p.inner_rings@)),
{
    let outer = ring_text(true, p.outer_ring.as_str());
    let mut inner: Vec<String> = Vec::new();
    let mut i: usize = 0;
    while i < p.inner_rings.len()
        invariant
            i <= p.inner_rings@.len(),
            string_views(inner@) == string_views(p.inner_rings@).take(i as int).map_values(
                |r: Seq<char>| interior_text(r),
            ),
        decreases p.inner_rings.len() - i,
    {
        let t = ring_text(false, p.inner_rings[i].as_str());
        let ghost before = inner@;
        inner.push(t);
        assert(string_views(inner@) =~= string_views(before).push(t@));
        assert(string_views(p.inner_rings@).take(i + 1) =~= string_views(p.inner_rings@).take(
            i as int,
        ).push(p.inner_rings@[i as int]@));
        assert(string_views(inner@) =~= string_views(p.inner_rings@).take(i + 1).map_values(
            |r: Seq<char>| interior_text(r),
        ));
        i = i + 1;
    }
    assert(string_views(p.inner_rings@).take(p.inner_rings@.len() as int) =~= string_views(p.inner_rings@));
    let inner_text = join_strings(&inner, "\r\n");
    let s = replace_str(POLY_XML, "$$EXTERIOR_RINGS$$", outer.as_str());
    replace_str(s.as_str(), "$$INTERIOR_RINGS$$", inner_text.as_str())
}

pub open spec fn attribute_element(k: Seq<char>, v: Seq<char>) -> Seq<char> {
    "<"@ + k + ">"@ + v + "</"@ + k + ">"@
}

/// The node that inserts the object `obj_id` on the layer `ax_ebene` with
/// the given attributes, checked at `datum_jetzt` (RFC 3339 text).
pub open spec fn spec_insert_xml_node(
    ax_ebene: Seq<char>,
    obj_id: Seq<char>,
    attribute: Seq<(Seq<char>, Seq<char>)>,
    datum_jetzt: Seq<char>,
    position_node: Seq<char>,
) -> Seq<char> {
    replace(
        replace(
            replace(
                replace(
                    replace(INSERT_XML@, "$$AX_EBENE$$"@, ax_ebene),
                    "$$OBJ_ID$$"@,
                    obj_id,
                ),
                "$$POSITION_NODE$$"@,
                position_node,
            ),
            "$$DATUM_JETZT$$"@,
            datum_jetzt,
        ),
        "$$EXTRA_ATTRIBUTE$$"@,
        join(
            attribute.map_values(|p: (Seq<char>, Seq<char>)| attribute_element(p.0, p.1)),
            "\r\n"@,
        ),
    )
}

/// The node that inserts the object `obj_id` on the layer `ax_ebene`, with
/// the polygon `poly`, the given attributes and the time of the check
/// `datum_jetzt` (RFC 3339 text, to the second).
pub fn get_insert_xml_node(
    ax_ebene: &str,
    obj_id: &str,
    attribute: &[(&str, &str)],
    datum_jetzt: &str,
    poly: &PolygonText,
) -> (r: String)
    ensures
        r@ == spec_insert_xml_node(
            ax_ebene@,
            obj_id@,
            pair_views(attribute@),
            datum_jetzt@,
            spec_position_node(poly.outer_ring@, string_views(poly.inner_rings@)),
        ),
{
    let ghost av = pair_views(attribute@);
    let mut lines: Vec<String> = Vec::new();
    let mut i: usize = 0;
    while i < attribute.len()
        invariant
            i <= attribute@.len(),
            av == pair_views(attribute@),
            string_views(lines@) == av.take(i as int).map_values(
                |p: (Seq<char>, Seq<char>)| attribute_element(p.0, p.1),
            ),
        decreases attribute.len() - i,
    {
        let (k, v) = attribute[i];
        let mut c: Vec<char> = Vec::new();
        push_str(&mut c, "<");
        push_str(&mut c, k);
        push_str(&mut c, ">");
        push_str(&mut c, v);
        push_str(&mut c, "</");
        push_str(&mut c, k);
        push_str(&mut c, ">");
        let ghost before = lines@;
        let line = string_from_chars(c.as_slice());
        lines.push(line);
        assert(av[i as int] == (k@, v@));
        assert(string_views(lines@) =~= string_views(before).push(line@));
        assert(av.take(i + 1) =~= av.take(i as int).push(av[i as int]));
        assert(string_views(lines@) =~= av.take(i + 1).map_values(
            |p: (Seq<char>, Seq<char>)| attribute_element(p.0, p.1),
        ));
        i = i + 1;
    }
    assert(av.take(attribute@.len() as int) =~= av);
    let extra = join_strings(&lines, "\r\n");
    let pos = polygon_to_position_node(poly);
    let s = replace_str(INSERT_XML, "$$AX_EBENE$$", ax_ebene);
    let s = replace_str(s.as_str(), "$$OBJ_ID$$", obj_id);
    let s = replace_str(s.as_str(), "$$POSITION_NODE$$", pos.as_str());
    let s = replace_str(s.as_str(), "$$DATUM_JETZT$$", datum_jetzt);
    replace_str(s.as_str(), "$$EXTRA_ATTRIBUTE$$", extra.as_str())
}


/// The attributes that a replacing node does not repeat.
pub open spec fn kept_attribute(k: Seq<char>) -> bool {
    k != "datumDerLetztenUeberpruefung"@ && k != "ergebnisDerUeberpruefung"@ && k != "identifier"@
}

pub open spec fn indented_element(k: Seq<char>, v: Seq<char>) -> Seq<char> {
    "                    "@ + attribute_element(k, v)
}

pub open spec fn href_line(k: Seq<char>, v: Option<String>) -> Seq<Seq<char>> {
    match v {
        Some(s) => seq!["                    <"@ + k + " href=\""@ + s@ + "\"/>"@],
        None => Seq::empty(),
    }
}

/// The attribute lines of a replacing node: the object's attributes but
/// those it does not repeat, by name, then its references.
pub open spec fn replace_attribute_lines(m: MemberObject) -> Seq<Seq<char>> {
    m.extra_attribute.kv().filter_map(
        |p: (Seq<char>, String)|
            if kept_attribute(p.0) {
                Some(indented_element(p.0, p.1@))
            } else {
                None
            },
    ) + href_line("dientZurDarstellungVon"@, m.dient_zur_darstellung_von) + href_line(
        "istBestandteilVon"@,
        m.ist_bestandteil_von,
    ) + href_line("hat"@, m.hat) + href_line("istTeilVon"@, m.ist_teil_von)
}

/// The resource id of an object: its id and its start time without `-`
/// and `:`.
pub open spec fn resource_id(obj_id: Seq<char>, beginnt: Seq<char>) -> Seq<char> {
    obj_id + replace(replace(beginnt, "-"@, ""@), ":"@, ""@)
}

pub open spec fn spec_replace_xml_node(obj_id: Seq<char>, m: MemberObject, position_node: Seq<char>) -> Seq<char> {
    replace(
        replace(
            replace(
                replace(
                    replace(
                        replace(REPLACE_XML@, "$$EBENE$$"@, m.member_type@),
                        "$$RESOURCE_ID$$"@,
                        resource_id(obj_id, m.beginnt@),
                    ),
                    "$$OBJECT_ID$$"@,
                    obj_id,
                ),
                "$$ORIGINAL_DATE$$"@,
                m.beginnt@,
            ),
            "$$POSITION_NODE$$"@,
            position_node,
        ),
        "$$EXTRA_ATTRIBUTE$$"@,
        join(replace_attribute_lines(m), "\r\n"@),
    )
}

fn push_href(lines: &mut Vec<String>, k: &str, v: &Option<String>)
    ensures
        string_views(final(lines)@) == string_views(old(lines)@) + href_line(k@, *v),
{
    match v {
        Some(s) => {
            let mut c: Vec<char> = Vec::new();
            push_str(&mut c, "                    <");
            push_str(&mut c, k);
            push_str(&mut c, " href=\"");
            push_str(&mut c, s.as_str());
            push_str(&mut c, "\"/>");
            let line = string_from_chars(c.as_slice());
            let ghost before = lines@;
            lines.push(line);
            assert(string_views(lines@) =~= string_views(before) + href_line(k@, *v));
        },
        None => {
            assert(string_views(lines@) =~= string_views(lines@) + href_line(k@, *v));
        },
    }
}

/// The node that replaces the geometry of the object `obj_id` with `poly`,
/// keeping its type, start time, attributes and references.
pub fn get_replace_xml_node(obj_id: &str, member_object: &MemberObject, poly: &PolygonText) -> (r: String)
    ensures
        r@ == spec_replace_xml_node(
            obj_id@,
            *member_object,
            spec_position_node(poly.outer_ring@, string_views(poly.inner_rings@)),
        ),
{
    let m = member_object;
    let ghost kv = m.extra_attribute.kv();
    let ghost f = |p: (Seq<char>, String)|
        if kept_attribute(p.0) {
            Some(indented_element(p.0, p.1@))
        } else {
            None
        };
    let n = m.extra_attribute.len();
    let mut lines: Vec<String> = Vec::new();
    let mut i: usize = 0;
    while i < n
        invariant
            i <= n,
            n == kv.len(),
            kv == m.extra_attribute.kv(),
            f == (|p: (Seq<char>, String)|
                if kept_attribute(p.0) {
                    Some(indented_element(p.0, p.1@))
                } else {
                    None
                }),
            string_views(lines@) == kv.take(i as int).filter_map(f),
        decreases n - i,
    {
        proof {
            kv.lemma_filter_map_take_succ(f, i as int);
        }
        let k = m.extra_attribute.key_at(i);
        let v = m.extra_attribute.value_at(i);
        if !(str_eq(k.as_str(), "datumDerLetztenUeberpruefung") || str_eq(
            k.as_str(),
            "ergebnisDerUeberpruefung",
        ) || str_eq(k.as_str(), "identifier")) {
            let mut c: Vec<char> = Vec::new();
            push_str(&mut c, "                    ");
            push_str(&mut c, "<");
            push_str(&mut c, k.as_str());
            push_str(&mut c, ">");
            push_str(&mut c, v.as_str());
            push_str(&mut c, "</");
            push_str(&mut c, k.as_str());
            push_str(&mut c, ">");
            let line = string_from_chars(c.as_slice());
            let ghost before = lines@;
            lines.push(line);
            assert(line@ == indented_element(k@, v@));
            assert(f(kv[i as int]) == Some(line@));
            assert(string_views(lines@) =~= string_views(before).push(line@));
        } else {
            assert(f(kv[i as int]) == None::<Seq<char>>);
        }
        i = i + 1;
    }
    assert(kv.take(n as int) =~= kv);
    push_href(&mut lines, "dientZurDarstellungVon", &m.dient_zur_darstellung_von);
    push_href(&mut lines, "istBestandteilVon", &m.ist_bestandteil_von);
    push_href(&mut lines, "hat", &m.hat);
    push_href(&mut lines, "istTeilVon", &m.ist_teil_von);
    let extra = join_strings(&lines, "\r\n");
    let b1 = replace_str(m.beginnt.as_str(), "-", "");
    let b2 = replace_str(b1.as_str(), ":", "");
    let mut rid = chars_of(obj_id);
    push_str(&mut rid, b2.as_str());
    let rid = string_from_chars(rid.as_slice());
    let pos = polygon_to_position_node(poly);
    let s = replace_str(REPLACE_XML, "$$EBENE$$", m.member_type.as_str());
    let s = replace_str(s.as_str(), "$$RESOURCE_ID$$", rid.as_str());
    let s = replace_str(s.as_str(), "$$OBJECT_ID$$", obj_id);
    let s = replace_str(s.as_str(), "$$ORIGINAL_DATE$$", m.beginnt.as_str());
    let s = replace_str(s.as_str(), "$$POSITION_NODE$$", pos.as_str());
    replace_str(s.as_str(), "$$EXTRA_ATTRIBUTE$$", extra.as_str())
}


// ---------------------------------------------------------------------------
// Operations of the request
// ---------------------------------------------------------------------------

pub struct PolygonTextView {
    pub hash: u64,
    pub outer_ring: Seq<char>,
    pub inner_rings: Seq<Seq<char>>,
    pub label_pos: Option<Seq<char>>,
}

impl View for PolygonText {
    type V = PolygonTextView;

    open spec fn view(&self) -> PolygonTextView {
        PolygonTextView {
            hash: self.hash,
            outer_ring: self.outer_ring@,
            inner_rings: string_views(self.inner_rings@),
            label_pos: match self.label_pos {
                Some(p) => Some(p@),
                None => None,
            },
        }
    }
}

fn copy_strings(v: &Vec<String>) -> (r: Vec<String>)
    ensures
        string_views(r@) == string_views(v@),
{
    let mut r: Vec<String> = Vec::new();
    let mut i: usize = 0;
    while i < v.len()
        invariant
            i <= v@.len(),
            string_views(r@) == string_views(v@).take(i as int),
        decreases v.len() - i,
    {
        let s = copy_string(&v[i]);
        let ghost before = r@;
        r.push(s);
        assert(string_views(r@) =~= string_views(before).push(s@));
        assert(string_views(v@).take(i + 1) =~= string_views(v@).take(i as int).push(v@[i as int]@));
        assert(string_views(r@) =~= string_views(v@).take(i + 1));
        i = i + 1;
    }
    assert(string_views(v@).take(v@.len() as int) =~= string_views(v@));
    r
}

impl PolygonText {
    pub fn copy(&self) -> (r: PolygonText)
        ensures
            r@ == self@,
    {
        PolygonText {
            hash: self.hash,
            outer_ring: copy_string(&self.outer_ring),
            inner_rings: copy_strings(&self.inner_rings),
            label_pos: match &self.label_pos {
                Some(p) => Some(copy_string(p)),
                None => None,
            },
        }
    }
}

/// A change of one object of the NAS file.
#[derive(Debug, PartialEq)]
pub enum Operation {
    /// Delete the object `obj_id`, whose polygon is `poly_alt`.
    Delete { obj_id: String, ebene: String, kuerzel: String, poly_alt: PolygonText },
    /// Give the object `obj_id` the polygon `poly_neu` in place of `poly_alt`.
    Replace {
        obj_id: String,
        ebene: String,
        kuerzel: String,
        poly_alt: PolygonText,
        poly_neu: PolygonText,
    },
    /// Insert a new object with the polygon `poly_neu`.
    Insert { ebene: String, kuerzel: String, poly_neu: PolygonText },
}

pub enum OperationView {
    Delete { obj_id: Seq<char>, ebene: Seq<char>, kuerzel: Seq<char>, poly_alt: PolygonTextView },
    Replace {
        obj_id: Seq<char>,
        ebene: Seq<char>,
        kuerzel: Seq<char>,
        poly_alt: PolygonTextView,
        poly_neu: PolygonTextView,
    },
    Insert { ebene: Seq<char>, kuerzel: Seq<char>, poly_neu: PolygonTextView },
}

impl View for Operation {
    type V = OperationView;

    open spec fn view(&self) -> OperationView {
        match self {
            Operation::Delete { obj_id, ebene, kuerzel, poly_alt } => OperationView::Delete {
                obj_id: obj_id@,
                ebene: ebene@,
                kuerzel: kuerzel@,
                poly_alt: poly_alt@,
            },
            Operation::Replace { obj_id, ebene, kuerzel, poly_alt, poly_neu } =>
                OperationView::Replace {
                obj_id: obj_id@,
                ebene: ebene@,
                kuerzel: kuerzel@,
                poly_alt: poly_alt@,
                poly_neu: poly_neu@,
            },
            Operation::Insert { ebene, kuerzel, poly_neu } => OperationView::Insert {
                ebene: ebene@,
                kuerzel: kuerzel@,
                poly_neu: poly_neu@,
            },
        }
    }
}

pub open spec fn operation_views(v: Seq<Operation>) -> Seq<OperationView> {
    v.map_values(|o: Operation| o@)
}

/// The text that identifies an operation: its kind, object, layer, use and
/// the hashes of its polygons.
pub open spec fn spec_str_id(o: OperationView) -> Seq<char> {
    match o {
        OperationView::Delete { obj_id, ebene, kuerzel, poly_alt } => "Delete:"@ + obj_id + "::"@
            + ebene + "::"@ + kuerzel + "::"@ + dec(poly_alt.hash as nat),
        OperationView::Replace { obj_id, ebene, kuerzel, poly_alt, poly_neu } => "Replace:"@
            + obj_id + "::"@ + ebene + "::"@ + kuerzel + "::"@ + dec(poly_alt.hash as nat) + "::"@
            + dec(poly_neu.hash as nat),
        OperationView::Insert { ebene, kuerzel, poly_neu } => "Insert:"@ + ebene + "::"@ + kuerzel
            + "::"@ + dec(poly_neu.hash as nat),
    }
}

/// The polygon an operation leaves (the deleted one for a deletion) with
/// the use it has.
pub open spec fn geom_kuerzel_pair(o: OperationView) -> (u64, Seq<char>) {
    match o {
        OperationView::Delete { kuerzel, poly_alt, .. } => (poly_alt.hash, kuerzel),
        OperationView::Replace { kuerzel, poly_neu, .. } => (poly_neu.hash, kuerzel),
        OperationView::Insert { kuerzel, poly_neu, .. } => (poly_neu.hash, kuerzel),
    }
}

impl Operation {
    pub fn copy(&self) -> (r: Operation)
        ensures
            r@ == self@,
    {
        match self {
            Operation::Delete { obj_id, ebene, kuerzel, poly_alt } => Operation::Delete {
                obj_id: copy_string(obj_id),
                ebene: copy_string(ebene),
                kuerzel: copy_string(kuerzel),
                poly_alt: poly_alt.copy(),
            },
            Operation::Replace { obj_id, ebene, kuerzel, poly_alt, poly_neu } => Operation::Replace {
                obj_id: copy_string(obj_id),
                ebene: copy_string(ebene),
                kuerzel: copy_string(kuerzel),
                poly_alt: poly_alt.copy(),
                poly_neu: poly_neu.copy(),
            },
            Operation::Insert { ebene, kuerzel, poly_neu } => Operation::Insert {
                ebene: copy_string(ebene),
                kuerzel: copy_string(kuerzel),
                poly_neu: poly_neu.copy(),
            },
        }
    }

    /// The text that identifies the operation.
    pub fn get_str_id(&self) -> (r: String)
        ensures
            r@ == spec_str_id(self@),
    {
        let mut v: Vec<char> = Vec::new();
        match self {
            Operation::Delete { obj_id, ebene, kuerzel, poly_alt } => {
                push_str(&mut v, "Delete:");
                push_str(&mut v, obj_id.as_str());
                push_str(&mut v, "::");
                push_str(&mut v, ebene.as_str());
                push_str(&mut v, "::");
                push_str(&mut v, kuerzel.as_str());
                push_str(&mut v, "::");
                let h = u64_to_chars(poly_alt.hash);
                push_all(&mut v, &h);
            },
            Operation::Replace { obj_id, ebene, kuerzel, poly_alt, poly_neu } => {
                push_str(&mut v, "Replace:");
                push_str(&mut v, obj_id.as_str());
                push_str(&mut v, "::");
                push_str(&mut v, ebene.as_str());
                push_str(&mut v, "::");
                push_str(&mut v, kuerzel.as_str());
                push_str(&mut v, "::");
                let h = u64_to_chars(poly_alt.hash);
                push_all(&mut v, &h);
                push_str(&mut v, "::");
                let h = u64_to_chars(poly_neu.hash);
                push_all(&mut v, &h);
            },
            Operation::Insert { ebene, kuerzel, poly_neu } => {
                push_str(&mut v, "Insert:");
                push_str(&mut v, ebene.as_str());
                push_str(&mut v, "::");
                push_str(&mut v, kuerzel.as_str());
                push_str(&mut v, "::");
                let h = u64_to_chars(poly_neu.hash);
                push_all(&mut v, &h);
            },
        }
        string_from_chars(v.as_slice())
    }

    /// The hash of the polygon the operation leaves, with its use.
    pub fn get_geom_kuerzel_pair(&self) -> (r: (u64, String))
        ensures
            (r.0, r.1@) == geom_kuerzel_pair(self@),
    {
        match self {
            Operation::Delete { kuerzel, poly_alt, .. } => (poly_alt.hash, copy_string(kuerzel)),
            Operation::Replace { kuerzel, poly_neu, .. } => (poly_neu.hash, copy_string(kuerzel)),
            Operation::Insert { kuerzel, poly_neu, .. } => (poly_neu.hash, copy_string(kuerzel)),
        }
    }
}

/// Some deletion removes a polygon with hash and use `p`.
pub open spec fn deletes_pair(input: Seq<OperationView>, p: (u64, Seq<char>)) -> bool {
    exists|i: int| 0 <= i < input.len() && input[i] is Delete && #[trigger] geom_kuerzel_pair(input[i]) == p
}

/// Some insertion adds a polygon with hash and use `p`.
pub open spec fn inserts_pair(input: Seq<OperationView>, p: (u64, Seq<char>)) -> bool {
    exists|i: int| 0 <= i < input.len() && input[i] is Insert && #[trigger] geom_kuerzel_pair(input[i]) == p
}

/// The operations, in order, but those whose polygon and use is both
/// deleted and inserted by the list.
pub open spec fn spec_filter_identic_operations(input: Seq<OperationView>) -> Seq<OperationView> {
    input.filter_map(
        |o: OperationView|
            if deletes_pair(input, geom_kuerzel_pair(o)) && inserts_pair(input, geom_kuerzel_pair(o)) {
                None
            } else {
                Some(o)
            },
    )
}

/// Filtering a second time changes nothing: no polygon and use that stays
/// is both deleted and inserted by what stays.
pub proof fn lemma_filter_identic_operations_idempotent(input: Seq<OperationView>)
    ensures
        spec_filter_identic_operations(spec_filter_identic_operations(input))
            == spec_filter_identic_operations(input),
{
    let f = |o: OperationView|
        if deletes_pair(input, geom_kuerzel_pair(o)) && inserts_pair(input, geom_kuerzel_pair(o)) {
            None
        } else {
            Some(o)
        };
    let out = input.filter_map(f);
    let g = |o: OperationView|
        if deletes_pair(out, geom_kuerzel_pair(o)) && inserts_pair(out, geom_kuerzel_pair(o)) {
            None
        } else {
            Some(o)
        };
    assert forall|i: int| 0 <= i < out.len() implies g(#[trigger] out[i]) == Some(out[i]) by {
        let o = out[i];
        assert(out.contains(o));
        input.lemma_filter_map_contains(f, o);
        let t = choose|t: OperationView| #[trigger] input.contains(t) && f(t) == Some(o);
        assert(t == o);
        let p = geom_kuerzel_pair(o);
        assert(!(deletes_pair(input, p) && inserts_pair(input, p)));
        if deletes_pair(out, p) {
            let j = choose|j: int| 0 <= j < out.len() && out[j] is Delete && #[trigger] geom_kuerzel_pair(out[j]) == p;
            assert(out.contains(out[j]));
            input.lemma_filter_map_contains(f, out[j]);
            let u = choose|u: OperationView| #[trigger] input.contains(u) && f(u) == Some(out[j]);
            let k = choose|k: int| 0 <= k < input.len() && input[k] == u;
            assert(input[k] is Delete && geom_kuerzel_pair(input[k]) == p);
            assert(deletes_pair(input, p));
        }
        if inserts_pair(out, p) {
            let j = choose|j: int| 0 <= j < out.len() && out[j] is Insert && #[trigger] geom_kuerzel_pair(out[j]) == p;
            assert(out.contains(out[j]));
            input.lemma_filter_map_contains(f, out[j]);
            let u = choose|u: OperationView| #[trigger] input.contains(u) && f(u) == Some(out[j]);
            let k = choose|k: int| 0 <= k < input.len() && input[k] == u;
            assert(input[k] is Insert && geom_kuerzel_pair(input[k]) == p);
            assert(inserts_pair(input, p));
        }
    }
    lemma_filter_map_keeps_all::<OperationView>(out, g);
}

fn has_pair(input: &[Operation], want_delete: bool, hash: u64, kuerzel: &str) -> (r: bool)
    ensures
        r == if want_delete {
            deletes_pair(operation_views(input@), (hash, kuerzel@))
        } else {
            inserts_pair(operation_views(input@), (hash, kuerzel@))
        },
{
    let ghost iv = operation_views(input@);
    let mut i: usize = 0;
    while i < input.len()
        invariant
            i <= input@.len(),
            iv == operation_views(input@),
            forall|j: int|
                0 <= j < i ==> !((if want_delete {
                    iv[j] is Delete
                } else {
                    iv[j] is Insert
                }) && #[trigger] geom_kuerzel_pair(iv[j]) == (hash, kuerzel@)),
        decreases input.len() - i,
    {
        assert(iv[i as int] == input@[i as int]@);
        let hit = match &input[i] {
            Operation::Delete { kuerzel: k, poly_alt, .. } => want_delete && poly_alt.hash == hash
                && str_eq(k.as_str(), kuerzel),
            Operation::Insert { kuerzel: k, poly_neu, .. } => !want_delete && poly_neu.hash == hash
                && str_eq(k.as_str(), kuerzel),
            Operation::Replace { .. } => false,
        };
        if hit {
            assert(geom_kuerzel_pair(iv[i as int]) == (hash, kuerzel@));
            return true;
        }
        i = i + 1;
    }
    false
}

/// Drops the operations whose polygon and use the list both deletes and
/// inserts: such a pair changes nothing. The others stay, in order.
pub fn filter_identic_operations(input: &[Operation]) -> (r: Vec<Operation>)
    ensures
        operation_views(r@) == spec_filter_identic_operations(operation_views(input@)),
{
    let ghost iv = operation_views(input@);
    let ghost f = |o: OperationView|
        if deletes_pair(iv, geom_kuerzel_pair(o)) && inserts_pair(iv, geom_kuerzel_pair(o)) {
            None
        } else {
            Some(o)
        };
    let mut r: Vec<Operation> = Vec::new();
    let mut i: usize = 0;
    while i < input.len()
        invariant
            i <= input@.len(),
            iv == operation_views(input@),
            f == (|o: OperationView|
                if deletes_pair(iv, geom_kuerzel_pair(o)) && inserts_pair(iv, geom_kuerzel_pair(o)) {
                    None
                } else {
                    Some(o)
                }),
            operation_views(r@) == iv.take(i as int).filter_map(f),
        decreases input.len() - i,
    {
        proof {
            iv.lemma_filter_map_take_succ(f, i as int);
        }
        assert(iv[i as int] == input@[i as int]@);
        let (h, k) = input[i].get_geom_kuerzel_pair();
        if !(has_pair(input, true, h, k.as_str()) && has_pair(input, false, h, k.as_str())) {
            let e = input[i].copy();
            let ghost before = r@;
            r.push(e);
            assert(operation_views(r@) =~= operation_views(before).push(iv[i as int]));
        }
        i = i + 1;
    }
    assert(iv.take(input@.len() as int) =~= iv);
    r
}


// ---------------------------------------------------------------------------
// From operations to the request's entries
// ---------------------------------------------------------------------------

/// `kv` without the entry for `k`.
pub open spec fn without_key(kv: Seq<(Seq<char>, Seq<char>)>, k: Seq<char>) -> Seq<(Seq<char>, Seq<char>)> {
    match key_index(kv, k) {
        Some(i) => kv.remove(i),
        None => kv,
    }
}

/// The node that deletes the object `obj_id`.
pub open spec fn delete_node(obj_id: Seq<char>, m: MemberObject) -> Seq<char> {
    "            <wfs:Delete typeName=\""@ + m.member_type@ + "\"><fes:Filter><fes:ResourceId rid=\""@
        + resource_id(obj_id, m.beginnt@) + "\" /></fes:Filter></wfs:Delete>"@
}

pub open spec fn position_of(p: PolygonTextView) -> Seq<char> {
    spec_position_node(p.outer_ring, p.inner_rings)
}

/// The request's entry for the `n`-th operation: a deletion or replacement
/// of an object the file has with a polygon, or the insertion of a new
/// object `DE_001...` with the attributes of its use but its layer.
pub open spec fn op_entry(
    n: nat,
    o: OperationView,
    objects: NasXmlObjects,
    datum: Seq<char>,
    catalogue: NutzungsArtMap,
) -> Option<FinalString> {
    match o {
        OperationView::Delete { obj_id, .. } => match lookup(objects.objects.kv(), obj_id) {
            Some(m) => if m.poly.len() == 0 {
                None
            } else {
                Some((delete_node(obj_id, m), OpPrereqView::Delete(obj_id)))
            },
            None => None,
        },
        OperationView::Insert { ebene, kuerzel, poly_neu } => Some(
            (
                spec_insert_xml_node(
                    ebene,
                    new_object_id(n),
                    without_key(auto_attribute_entries(catalogue, kuerzel, Seq::empty()), "AX_Ebene"@),
                    datum,
                    position_of(poly_neu),
                ),
                OpPrereqView::Insert(new_object_id(n)),
            ),
        ),
        OperationView::Replace { obj_id, poly_neu, .. } => match lookup(objects.objects.kv(), obj_id) {
            Some(m) => if m.poly.len() == 0 {
                None
            } else {
                Some((spec_replace_xml_node(obj_id, m, position_of(poly_neu)), OpPrereqView::Replace(obj_id)))
            },
            None => None,
        },
    }
}

/// The symbol entry for the `n`-th operation: an insertion whose use has a
/// symbol gets it, numbered `2 n`, for the new object.
pub open spec fn symbol_entry(n: nat, o: OperationView) -> Option<FinalString> {
    match o {
        OperationView::Insert { kuerzel, poly_neu, .. } => match spec_from_kuerzel(
            kuerzel,
            new_object_id(n),
            poly_neu.label_pos,
            2 * n,
        ) {
            Some(s) => Some((spec_signatur_xml(s), OpPrereqView::Insert(new_object_id(n)))),
            None => None,
        },
        _ => None,
    }
}

pub open spec fn somes<T>(s: Seq<Option<T>>) -> Seq<T> {
    s.filter_map(|x: Option<T>| x)
}

/// The request's entries: one per operation that gives one, in order, then
/// the symbols of the insertions, in order.
pub open spec fn spec_operations_xml(
    ops: Seq<OperationView>,
    objects: NasXmlObjects,
    datum: Seq<char>,
    catalogue: NutzungsArtMap,
) -> Seq<FinalString> {
    somes(Seq::new(ops.len(), |i: int| op_entry(i as nat, ops[i], objects, datum, catalogue)))
        + somes(Seq::new(ops.len(), |i: int| symbol_entry(i as nat, ops[i])))
}

pub open spec fn opt_final_view(e: Option<(String, OpPrereq)>) -> Option<FinalString> {
    match e {
        Some(x) => Some((x.0@, x.1@)),
        None => None,
    }
}

fn delete_node_text(obj_id: &str, m: &MemberObject) -> (r: String)
    ensures
        r@ == delete_node(obj_id@, *m),
{
    let b1 = replace_str(m.beginnt.as_str(), "-", "");
    let b2 = replace_str(b1.as_str(), ":", "");
    let mut v: Vec<char> = Vec::new();
    push_str(&mut v, "            <wfs:Delete typeName=\"");
    push_str(&mut v, m.member_type.as_str());
    push_str(&mut v, "\"><fes:Filter><fes:ResourceId rid=\"");
    push_str(&mut v, obj_id);
    push_str(&mut v, b2.as_str());
    push_str(&mut v, "\" /></fes:Filter></wfs:Delete>");
    string_from_chars(v.as_slice())
}

fn insert_entry(n: usize, ebene: &str, kuerzel: &str, poly_neu: &PolygonText, datum_jetzt: &str, catalogue: &NutzungsArtMap) -> (r: (String, OpPrereq))
    ensures
        (r.0@, r.1@) == (
            spec_insert_xml_node(
                ebene@,
                new_object_id(n as nat),
                without_key(auto_attribute_entries(*catalogue, kuerzel@, Seq::empty()), "AX_Ebene"@),
                datum_jetzt@,
                position_of(poly_neu@),
            ),
            OpPrereqView::Insert(new_object_id(n as nat)),
        ),
{
    let none: Vec<(&str, &str)> = Vec::new();
    let mut attrs = TaggedPolygon::get_auto_attributes_for_kuerzel(catalogue, kuerzel, none.as_slice());
    assert(pair_views(none@) =~= Seq::<(Seq<char>, Seq<char>)>::empty());
    let ghost before = attrs.kv();
    attrs.lemma_sorted();
    let ax = to_string("AX_Ebene");
    let _ = attrs.remove(&ax);
    proof {
        lemma_entry_views(before);
        let w = entry_views(before);
        match key_index(before, "AX_Ebene"@) {
            Some(i) => {
                lemma_key_index_unique::<String, String>(before, i);
                lemma_key_index_unique::<String, Seq<char>>(w, i);
                assert(entry_views(attrs.kv()) =~= w.remove(i));
            },
            None => {
                if key_index(w, "AX_Ebene"@) is Some {
                    let j = key_index(w, "AX_Ebene"@)->0;
                    lemma_key_index_unique::<String, Seq<char>>(w, j);
                    assert(before[j].0 == "AX_Ebene"@);
                }
            },
        }
    }
    let ghost ev = entry_views(attrs.kv());
    let mut pairs: Vec<(&str, &str)> = Vec::new();
    let mut i: usize = 0;
    while i < attrs.len()
        invariant
            i <= ev.len(),
            ev == entry_views(attrs.kv()),
            pair_views(pairs@) == ev.take(i as int),
        decreases ev.len() - i,
    {
        let k = attrs.key_at(i);
        let v = attrs.value_at(i);
        let ghost before_pairs = pairs@;
        pairs.push((k.as_str(), v.as_str()));
        assert(pair_views(pairs@) =~= pair_views(before_pairs).push((k@, v@)));
        assert(ev.take(i + 1) =~= ev.take(i as int).push(ev[i as int]));
        i = i + 1;
    }
    assert(ev.take(ev.len() as int) =~= ev);
    let id = new_object_id_string(n);
    let node = get_insert_xml_node(ebene, id.as_str(), pairs.as_slice(), datum_jetzt, poly_neu);
    (node, OpPrereq::Insert { id })
}

fn op_xml_entry(
    n: usize,
    o: &Operation,
    objects: &NasXmlObjects,
    datum_jetzt: &str,
    catalogue: &NutzungsArtMap,
) -> (r: Option<(String, OpPrereq)>)
    ensures
        opt_final_view(r) == op_entry(n as nat, o@, *objects, datum_jetzt@, *catalogue),
{
    match o {
        Operation::Delete { obj_id, .. } => match objects.objects.get(obj_id) {
            Some(m) => {
                if m.poly.len() == 0 {
                    None
                } else {
                    Some((delete_node_text(obj_id.as_str(), m), OpPrereq::Delete { id: copy_string(obj_id) }))
                }
            },
            None => None,
        },
        Operation::Insert { ebene, kuerzel, poly_neu } => Some(
            insert_entry(n, ebene.as_str(), kuerzel.as_str(), poly_neu, datum_jetzt, catalogue),
        ),
        Operation::Replace { obj_id, poly_neu, .. } => match objects.objects.get(obj_id) {
            Some(m) => {
                if m.poly.len() == 0 {
                    None
                } else {
                    Some(
                        (
                            get_replace_xml_node(obj_id.as_str(), m, poly_neu),
                            OpPrereq::Replace { id: copy_string(obj_id) },
                        ),
                    )
                }
            },
            None => None,
        },
    }
}

fn symbol_xml_entry(n: usize, o: &Operation) -> (r: Option<(String, OpPrereq)>)
    requires
        n <= usize::MAX / 2,
    ensures
        opt_final_view(r) == symbol_entry(n as nat, o@),
{
    match o {
        Operation::Insert { kuerzel, poly_neu, .. } => {
            let id = new_object_id_string(n);
            let pos = match &poly_neu.label_pos {
                Some(p) => Some(copy_string(p)),
                None => None,
            };
            match Signatur::from_kuerzel(kuerzel.as_str(), id.as_str(), pos, n * 2) {
                Some(s) => Some((s.get_xml(), OpPrereq::Insert { id })),
                None => None,
            }
        },
        _ => None,
    }
}

/// The request's entries for a list of operations, each with the object it
/// is about: deletions and replacements of objects of `objects` that have
/// a polygon, insertions of new objects numbered by their place in the
/// list (checked at `datum_jetzt`, RFC 3339 text), then the map symbols of
/// the insertions whose use has one.
pub fn operations_to_xml_file_internal(
    aenderungen_todo: &[Operation],
    objects: &NasXmlObjects,
    datum_jetzt: &str,
    catalogue: &NutzungsArtMap,
) -> (r: Vec<(String, OpPrereq)>)
    requires
        aenderungen_todo@.len() <= usize::MAX / 2,
    ensures
        final_views(r@) == spec_operations_xml(
            operation_views(aenderungen_todo@),
            *objects,
            datum_jetzt@,
            *catalogue,
        ),
{
    let ghost ov = operation_views(aenderungen_todo@);
    let ghost first = Seq::new(
        ov.len(),
        |i: int| op_entry(i as nat, ov[i], *objects, datum_jetzt@, *catalogue),
    );
    let ghost second = Seq::new(ov.len(), |i: int| symbol_entry(i as nat, ov[i]));
    let ghost idf = |x: Option<FinalString>| x;
    let n = aenderungen_todo.len();
    let mut r: Vec<(String, OpPrereq)> = Vec::new();
    let mut i: usize = 0;
    while i < n
        invariant
            i <= n,
            n == ov.len(),
            ov == operation_views(aenderungen_todo@),
            first == Seq::new(
                ov.len(),
                |i: int| op_entry(i as nat, ov[i], *objects, datum_jetzt@, *catalogue),
            ),
            idf == (|x: Option<FinalString>| x),
            final_views(r@) == first.take(i as int).filter_map(idf),
        decreases n - i,
    {
        proof {
            first.lemma_filter_map_take_succ(idf, i as int);
        }
        assert(ov[i as int] == aenderungen_todo@[i as int]@);
        let e = op_xml_entry(i, &aenderungen_todo[i], objects, datum_jetzt, catalogue);
        let ghost before = r@;
        match e {
            Some(x) => {
                r.push(x);
                assert(final_views(r@) =~= final_views(before).push(first[i as int]->0));
            },
            None => {},
        }
        i = i + 1;
    }
    assert(first.take(n as int) =~= first);
    let ghost part1 = final_views(r@);
    let mut j: usize = 0;
    assert(second.take(0).filter_map(idf) =~= Seq::<FinalString>::empty());
    while j < n
        invariant
            j <= n,
            n == ov.len(),
            n <= usize::MAX / 2,
            ov == operation_views(aenderungen_todo@),
            second == Seq::new(ov.len(), |i: int| symbol_entry(i as nat, ov[i])),
            idf == (|x: Option<FinalString>| x),
            final_views(r@) == part1 + second.take(j as int).filter_map(idf),
        decreases n - j,
    {
        proof {
            second.lemma_filter_map_take_succ(idf, j as int);
        }
        assert(ov[j as int] == aenderungen_todo@[j as int]@);
        let e = symbol_xml_entry(j, &aenderungen_todo[j]);
        let ghost before = r@;
        match e {
            Some(x) => {
                r.push(x);
                assert(final_views(r@) =~= final_views(before).push(second[j as int]->0));
            },
            None => {},
        }
        j = j + 1;
    }
    assert(second.take(n as int) =~= second);
    r
}


/// The operations with a deletion of each building to delete appended, in
/// key order, on layer `AX_Gebaeude`, without use, and with the empty
/// polygon `leer` (as the caller writes and hashes it).
pub fn insert_gebaeude_delete(aenderungen: &Aenderungen, aenderungen_todo: &[Operation], leer: &PolygonText) -> (r: Vec<Operation>)
    ensures
        operation_views(r@) == operation_views(aenderungen_todo@) + aenderungen.gebaeude_loeschen.kv().map_values(
            |e: (Seq<char>, GebaeudeLoeschen)|
                OperationView::Delete {
                    obj_id: e.1.gebaeude_id@,
                    ebene: "AX_Gebaeude"@,
                    kuerzel: Seq::empty(),
                    poly_alt: leer@,
                },
        ),
{
    let mut r: Vec<Operation> = Vec::new();
    let mut i: usize = 0;
    while i < aenderungen_todo.len()
        invariant
            i <= aenderungen_todo@.len(),
            operation_views(r@) == operation_views(aenderungen_todo@).take(i as int),
        decreases aenderungen_todo.len() - i,
    {
        let o = aenderungen_todo[i].copy();
        let ghost before = r@;
        r.push(o);
        assert(operation_views(r@) =~= operation_views(before).push(aenderungen_todo@[i as int]@));
        assert(operation_views(aenderungen_todo@).take(i + 1) =~= operation_views(aenderungen_todo@).take(i as int).push(aenderungen_todo@[i as int]@));
        i = i + 1;
    }
    assert(operation_views(aenderungen_todo@).take(aenderungen_todo@.len() as int) =~= operation_views(aenderungen_todo@));
    let ghost base = operation_views(r@);
    let g = &aenderungen.gebaeude_loeschen;
    let ghost kv = g.kv();
    let ghost f = |e: (Seq<char>, GebaeudeLoeschen)|
        OperationView::Delete {
            obj_id: e.1.gebaeude_id@,
            ebene: "AX_Gebaeude"@,
            kuerzel: Seq::empty(),
            poly_alt: leer@,
        };
    let mut j: usize = 0;
    assert(base + kv.take(0).map_values(f) =~= base);
    while j < g.len()
        invariant
            j <= kv.len(),
            kv == g.kv(),
            f == (|e: (Seq<char>, GebaeudeLoeschen)|
                OperationView::Delete {
                    obj_id: e.1.gebaeude_id@,
                    ebene: "AX_Gebaeude"@,
                    kuerzel: Seq::empty(),
                    poly_alt: leer@,
                }),
            operation_views(r@) == base + kv.take(j as int).map_values(f),
        decreases kv.len() - j,
    {
        let geb = g.value_at(j);
        let o = Operation::Delete {
            obj_id: copy_string(&geb.gebaeude_id),
            ebene: to_string("AX_Gebaeude"),
            kuerzel: String::new(),
            poly_alt: leer.copy(),
        };
        let ghost before = r@;
        r.push(o);
        assert(operation_views(r@) =~= operation_views(before).push(f(kv[j as int])));
        assert(kv.take(j + 1).map_values(f) =~= kv.take(j as int).map_values(f).push(f(kv[j as int])));
        j = j + 1;
    }
    assert(kv.take(kv.len() as int) =~= kv);
    r
}

} // verus!
