//! Plain-value settings of the PDF output.

use vstd::prelude::*;
use crate::text::{chars_of, copy_string, push_str, string_from_chars, string_views, to_string, trim, trim_str};
use crate::collation::str_eq;
use crate::sorted_map::{SortedMap, lookup};

verus! {

/// Where the background maps come from.
#[derive(Debug, Default, Clone)]
pub struct MapKonfiguration {
    pub basemap: Option<String>,
    pub dop_source: Option<String>,
    pub dop_layers: Option<String>,
    pub dgm_source: Option<String>,
    pub dgm_layers: Option<String>,
}

/// A symbol style: its kind and SVG.
#[derive(Debug, Clone)]
pub struct PpoStil {
    pub art: String,
    pub svgname: Option<String>,
    pub svg_base64: Option<String>,
}

/// The project's header data.
#[derive(Debug, Default, Clone, PartialEq, PartialOrd)]
pub struct ProjektInfo {
    pub antragsnr: String,
    pub katasteramt: String,
    pub vermessungsstelle: String,
    pub erstellt_durch: String,
    pub beruf_kuerzel: String,
    pub gemeinde: String,
    pub gemarkung: String,
    pub bearbeitung_beendet_am: String,
    pub alkis_aktualitaet: String,
    pub orthofoto_datum: String,
    pub gis_feldbloecke_datum: String,
}

/// The identity of a survey sheet's configuration.
#[derive(Debug, Default, Copy, Clone, Ord, Eq, Hash, PartialEq, PartialOrd)]
pub struct RissConfigId(pub [u64; 4]);

/// What a PDF is made for.
#[derive(Debug, PartialEq, Clone, Copy)]
pub enum PdfTargetUse {
    PreviewRiss,
    HintergrundCheck,
}

/// Areas are filled unless the style says otherwise.
pub fn default_fill() -> (r: bool)
    ensures
        r,
{
    true
}


/// The map style of a layer. The line width is held as the decimal text
/// that the settings page shows of it.
#[derive(Debug, PartialEq)]
pub struct EbenenStyle {
    pub name: String,
    pub fill_color: Option<String>,
    pub outline_color: Option<String>,
    pub outline_thickness: Option<String>,
}

pub open spec fn opt_view(o: Option<String>) -> Option<Seq<char>> {
    match o {
        Some(s) => Some(s@),
        None => None,
    }
}

pub struct EbenenStyleView {
    pub name: Seq<char>,
    pub fill_color: Option<Seq<char>>,
    pub outline_color: Option<Seq<char>>,
    pub outline_thickness: Option<Seq<char>>,
}

pub open spec fn style_view(s: EbenenStyle) -> EbenenStyleView {
    EbenenStyleView {
        name: s.name@,
        fill_color: opt_view(s.fill_color),
        outline_color: opt_view(s.outline_color),
        outline_thickness: opt_view(s.outline_thickness),
    }
}

fn copy_opt(o: &Option<String>) -> (r: Option<String>)
    ensures
        opt_view(r) == opt_view(*o),
{
    match o {
        Some(s) => Some(copy_string(s)),
        None => None,
    }
}

impl EbenenStyle {
    pub fn copy(&self) -> (r: EbenenStyle)
        ensures
            style_view(r) == style_view(*self),
    {
        EbenenStyle {
            name: copy_string(&self.name),
            fill_color: copy_opt(&self.fill_color),
            outline_color: copy_opt(&self.outline_color),
            outline_thickness: copy_opt(&self.outline_thickness),
        }
    }
}

/// The layer styles, with the order in which the layers are drawn.
#[derive(Debug)]
pub struct StyleConfig {
    pub ebenen_ordnung: Vec<String>,
    pub ebenen: SortedMap<String, EbenenStyle>,
}

/// The styles in drawing order: each layer of the order that has a style,
/// with it.
pub open spec fn spec_styles_sorted(c: StyleConfig) -> Seq<(Seq<char>, EbenenStyleView)> {
    string_views(c.ebenen_ordnung@).filter_map(
        |s: Seq<char>|
            match lookup(c.ebenen.kv(), s) {
                Some(st) => Some((s, style_view(st))),
                None => None,
            },
    )
}

pub open spec fn styled_views(v: Seq<(String, EbenenStyle)>) -> Seq<(Seq<char>, EbenenStyleView)> {
    v.map_values(|e: (String, EbenenStyle)| (e.0@, style_view(e.1)))
}

/// The style is the one named `name`, both trimmed.
pub open spec fn names_layer(st: EbenenStyle, name: Seq<char>) -> bool {
    trim(st.name@) == trim(name)
}

impl StyleConfig {
    /// The styles in drawing order.
    pub fn get_styles_sorted(&self) -> (r: Vec<(String, EbenenStyle)>)
        ensures
            styled_views(r@) == spec_styles_sorted(*self),
    {
        let ghost ov = string_views(self.ebenen_ordnung@);
        let ghost f = |s: Seq<char>|
            match lookup(self.ebenen.kv(), s) {
                Some(st) => Some((s, style_view(st))),
                None => None,
            };
        let mut r: Vec<(String, EbenenStyle)> = Vec::new();
        let mut i: usize = 0;
        while i < self.ebenen_ordnung.len()
            invariant
                i <= ov.len(),
                ov == string_views(self.ebenen_ordnung@),
                f == (|s: Seq<char>|
                    match lookup(self.ebenen.kv(), s) {
                        Some(st) => Some((s, style_view(st))),
                        None => None,
                    }),
                styled_views(r@) == ov.take(i as int).filter_map(f),
            decreases ov.len() - i,
        {
            proof {
                ov.lemma_filter_map_take_succ(f, i as int);
            }
            let s = &self.ebenen_ordnung[i];
            assert(ov[i as int] == s@);
            match self.ebenen.get(s) {
                Some(st) => {
                    let e = (copy_string(s), st.copy());
                    let ghost before = r@;
                    r.push(e);
                    assert(styled_views(r@) =~= styled_views(before).push(f(ov[i as int])->0));
                },
                None => {},
            }
            i = i + 1;
        }
        assert(ov.take(ov.len() as int) =~= ov);
        r
    }

    /// The names of the styled layers, in drawing order.
    pub fn get_ebenen_darstellung(&self) -> (r: Vec<String>)
        ensures
            string_views(r@) == spec_styles_sorted(*self).map_values(
                |e: (Seq<char>, EbenenStyleView)| e.1.name,
            ),
    {
        let sorted = self.get_styles_sorted();
        let ghost sv = styled_views(sorted@);
        let mut r: Vec<String> = Vec::new();
        let mut i: usize = 0;
        while i < sorted.len()
            invariant
                i <= sorted@.len(),
                sv == styled_views(sorted@),
                string_views(r@) == sv.take(i as int).map_values(
                    |e: (Seq<char>, EbenenStyleView)| e.1.name,
                ),
            decreases sorted.len() - i,
        {
            let n = copy_string(&sorted[i].1.name);
            let ghost before = r@;
            r.push(n);
            assert(string_views(r@) =~= string_views(before).push(n@));
            assert(sv.take(i + 1) =~= sv.take(i as int).push(sv[i as int]));
            assert(string_views(r@) =~= sv.take(i + 1).map_values(
                |e: (Seq<char>, EbenenStyleView)| e.1.name,
            ));
            i = i + 1;
        }
        assert(sv.take(sv.len() as int) =~= sv);
        r
    }

    /// The key of the first style (in key order) named `layer_name`, both
    /// names trimmed; else the message that there is none.
    pub fn get_layer_style(&self, layer_name: &str) -> (r: Result<String, String>)
        ensures
            ({
                let kv = self.ebenen.kv();
                match r {
                    Ok(k) => exists|i: int|
                        0 <= i < kv.len() && kv[i].0 == k@ && names_layer(kv[i].1, layer_name@)
                            && forall|j: int| 0 <= j < i ==> !names_layer(#[trigger] kv[j].1, layer_name@),
                    Err(e) => e@ == "style für "@ + layer_name@ + " nicht gefunden"@
                        && forall|j: int| 0 <= j < kv.len() ==> !names_layer(#[trigger] kv[j].1, layer_name@),
                }
            }),
    {
        let ghost kv = self.ebenen.kv();
        let wanted = trim_str(layer_name);
        let mut i: usize = 0;
        while i < self.ebenen.len()
            invariant
                i <= kv.len(),
                kv == self.ebenen.kv(),
                wanted@ == trim(layer_name@),
                forall|j: int| 0 <= j < i ==> !names_layer(#[trigger] kv[j].1, layer_name@),
            decreases kv.len() - i,
        {
            let st = self.ebenen.value_at(i);
            let n = trim_str(st.name.as_str());
            if str_eq(n.as_str(), wanted.as_str()) {
                let k = copy_string(self.ebenen.key_at(i));
                assert(names_layer(kv[i as int].1, layer_name@));
                return Ok(k);
            }
            i = i + 1;
        }
        let mut msg = chars_of("style für ");
        push_str(&mut msg, layer_name);
        push_str(&mut msg, " nicht gefunden");
        Err(string_from_chars(msg.as_slice()))
    }
}


/// A text style of the PDF; the font size is held as the decimal text that
/// the settings page shows of it.
#[derive(Debug, PartialEq)]
pub struct PtoStil {
    pub art: String,
    pub fontsize: Option<String>,
    pub font: Option<String>,
    pub color: Option<String>,
}

/// The PDF style of a use. The line width is held as the decimal text that
/// the settings page shows of it.
#[derive(Debug, PartialEq)]
pub struct PdfEbenenStyle {
    pub kuerzel: String,
    pub fill_color: Option<String>,
    pub fill: bool,
    pub outline_color: Option<String>,
    pub outline_thickness: Option<String>,
    pub outline_dash: Option<String>,
    pub outline_overprint: bool,
    pub pattern_svg: Option<String>,
    pub pattern_placement: Option<String>,
    pub lagebez_ohne_hsnr: PtoStil,
}

pub struct PtoStilView {
    pub art: Seq<char>,
    pub fontsize: Option<Seq<char>>,
    pub font: Option<Seq<char>>,
    pub color: Option<Seq<char>>,
}

pub struct PdfEbenenStyleView {
    pub kuerzel: Seq<char>,
    pub fill_color: Option<Seq<char>>,
    pub fill: bool,
    pub outline_color: Option<Seq<char>>,
    pub outline_thickness: Option<Seq<char>>,
    pub outline_dash: Option<Seq<char>>,
    pub outline_overprint: bool,
    pub pattern_svg: Option<Seq<char>>,
    pub pattern_placement: Option<Seq<char>>,
    pub lagebez_ohne_hsnr: PtoStilView,
}

pub open spec fn pto_view(s: PtoStil) -> PtoStilView {
    PtoStilView { art: s.art@, fontsize: opt_view(s.fontsize), font: opt_view(s.font), color: opt_view(s.color) }
}

pub open spec fn pdf_style_view(s: PdfEbenenStyle) -> PdfEbenenStyleView {
    PdfEbenenStyleView {
        kuerzel: s.kuerzel@,
        fill_color: opt_view(s.fill_color),
        fill: s.fill,
        outline_color: opt_view(s.outline_color),
        outline_thickness: opt_view(s.outline_thickness),
        outline_dash: opt_view(s.outline_dash),
        outline_overprint: s.outline_overprint,
        pattern_svg: opt_view(s.pattern_svg),
        pattern_placement: opt_view(s.pattern_placement),
        lagebez_ohne_hsnr: pto_view(s.lagebez_ohne_hsnr),
    }
}

impl PtoStil {
    pub fn copy(&self) -> (r: PtoStil)
        ensures
            pto_view(r) == pto_view(*self),
    {
        PtoStil {
            art: copy_string(&self.art),
            fontsize: copy_opt(&self.fontsize),
            font: copy_opt(&self.font),
            color: copy_opt(&self.color),
        }
    }
}

impl PdfEbenenStyle {
    pub fn copy(&self) -> (r: PdfEbenenStyle)
        ensures
            pdf_style_view(r) == pdf_style_view(*self),
    {
        PdfEbenenStyle {
            kuerzel: copy_string(&self.kuerzel),
            fill_color: copy_opt(&self.fill_color),
            fill: self.fill,
            outline_color: copy_opt(&self.outline_color),
            outline_thickness: copy_opt(&self.outline_thickness),
            outline_dash: copy_opt(&self.outline_dash),
            outline_overprint: self.outline_overprint,
            pattern_svg: copy_opt(&self.pattern_svg),
            pattern_placement: copy_opt(&self.pattern_placement),
            lagebez_ohne_hsnr: self.lagebez_ohne_hsnr.copy(),
        }
    }
}

impl Default for PtoStil {
    fn default() -> (r: Self)
        ensures
            pto_view(r) == (PtoStilView { art: Seq::empty(), fontsize: None, font: None, color: None }),
    {
        PtoStil { art: String::new(), fontsize: None, font: None, color: None }
    }
}

/// The default PDF style: filled black, without outline or pattern.
pub open spec fn default_pdf_style() -> PdfEbenenStyleView {
    PdfEbenenStyleView {
        kuerzel: Seq::empty(),
        fill_color: Some("#000000"@),
        fill: true,
        outline_color: None,
        outline_thickness: None,
        outline_dash: None,
        outline_overprint: false,
        pattern_svg: None,
        pattern_placement: None,
        lagebez_ohne_hsnr: PtoStilView { art: Seq::empty(), fontsize: None, font: None, color: None },
    }
}

impl Default for PdfEbenenStyle {
    fn default() -> (r: Self)
        ensures
            pdf_style_view(r) == default_pdf_style(),
    {
        PdfEbenenStyle {
            kuerzel: String::new(),
            fill_color: Some(to_string("#000000")),
            fill: true,
            outline_color: None,
            outline_thickness: None,
            outline_dash: None,
            outline_overprint: false,
            pattern_svg: None,
            pattern_placement: None,
            lagebez_ohne_hsnr: PtoStil { art: String::new(), fontsize: None, font: None, color: None },
        }
    }
}

impl PdfEbenenStyle {
    /// A grey outline style for a use that has no style of its own: red
    /// where a background map is shown, blue-grey otherwise, with the line
    /// width `0.1`.
    pub fn default_grau(kuerzel: &str, has_background: bool) -> (r: PdfEbenenStyle)
        ensures
            pdf_style_view(r) == (PdfEbenenStyleView {
                kuerzel: kuerzel@,
                fill_color: None,
                fill: false,
                outline_color: Some(
                    if has_background {
                        "#ff0000"@
                    } else {
                        "#6082B6"@
                    },
                ),
                outline_thickness: Some("0.1"@),
                outline_dash: None,
                outline_overprint: false,
                pattern_svg: None,
                pattern_placement: None,
                lagebez_ohne_hsnr: PtoStilView { art: Seq::empty(), fontsize: None, font: None, color: None },
            }),
    {
        PdfEbenenStyle {
            kuerzel: to_string(kuerzel),
            fill_color: None,
            fill: false,
            outline_color: Some(to_string(if has_background { "#ff0000" } else { "#6082B6" })),
            outline_thickness: Some(to_string("0.1")),
            outline_overprint: false,
            outline_dash: None,
            pattern_svg: None,
            pattern_placement: None,
            lagebez_ohne_hsnr: PtoStil { art: String::new(), fontsize: None, font: None, color: None },
        }
    }
}

/// The PDF styles of the uses, with the order in which they are drawn, and
/// the SVG symbols of the PDF. (The styles of parcels, building areas and
/// labels, which hold sizes in floating point, are kept by the caller.)
#[derive(Debug)]
pub struct PdfStyleConfig {
    pub grenzpunkt_svg: Option<String>,
    pub pfeil_svg: Option<String>,
    pub nordpfeil_svg: Option<String>,
    pub gebauede_loeschen_svg: Option<String>,
    pub layer_ordnung: Vec<String>,
    pub nutzungsarten: SortedMap<String, PdfEbenenStyle>,
}

/// The settings: background maps, map styles and PDF styles. (The
/// distances of the clean-up steps, in floating point, are kept by the
/// caller.)
#[derive(Debug)]
pub struct Konfiguration {
    pub map: MapKonfiguration,
    pub style: StyleConfig,
    pub pdf: PdfStyleConfig,
}

/// The PDF styles in drawing order: each use of the order that has a style,
/// with it.
pub open spec fn spec_nutzungsarten_sorted(c: PdfStyleConfig) -> Seq<(Seq<char>, PdfEbenenStyleView)> {
    string_views(c.layer_ordnung@).filter_map(
        |s: Seq<char>|
            match lookup(c.nutzungsarten.kv(), s) {
                Some(st) => Some((s, pdf_style_view(st))),
                None => None,
            },
    )
}

pub open spec fn pdf_styled_views(v: Seq<(String, PdfEbenenStyle)>) -> Seq<(Seq<char>, PdfEbenenStyleView)> {
    v.map_values(|e: (String, PdfEbenenStyle)| (e.0@, pdf_style_view(e.1)))
}

impl PdfStyleConfig {
    /// The PDF styles in drawing order.
    pub fn get_nutzungsarten_sorted(&self) -> (r: Vec<(String, PdfEbenenStyle)>)
        ensures
            pdf_styled_views(r@) == spec_nutzungsarten_sorted(*self),
    {
        let ghost ov = string_views(self.layer_ordnung@);
        let ghost f = |s: Seq<char>|
            match lookup(self.nutzungsarten.kv(), s) {
                Some(st) => Some((s, pdf_style_view(st))),
                None => None,
            };
        let mut r: Vec<(String, PdfEbenenStyle)> = Vec::new();
        let mut i: usize = 0;
        while i < self.layer_ordnung.len()
            invariant
                i <= ov.len(),
                ov == string_views(self.layer_ordnung@),
                f == (|s: Seq<char>|
                    match lookup(self.nutzungsarten.kv(), s) {
                        Some(st) => Some((s, pdf_style_view(st))),
                        None => None,
                    }),
                pdf_styled_views(r@) == ov.take(i as int).filter_map(f),
            decreases ov.len() - i,
        {
            proof {
                ov.lemma_filter_map_take_succ(f, i as int);
            }
            let s = &self.layer_ordnung[i];
            assert(ov[i as int] == s@);
            match self.nutzungsarten.get(s) {
                Some(st) => {
                    let e = (copy_string(s), st.copy());
                    let ghost before = r@;
                    r.push(e);
                    assert(pdf_styled_views(r@) =~= pdf_styled_views(before).push(f(ov[i as int])->0));
                },
                None => {},
            }
            i = i + 1;
        }
        assert(ov.take(ov.len() as int) =~= ov);
        r
    }
}

} // verus!
