//! Filling the Word templates of the application forms.

use vstd::prelude::*;
use vstd::slice::slice_to_vec;
use crate::text::{
    chars_of, join, join_strings, push_str, replace, replace_str, string_from_chars, string_views,
    to_string,
};
use crate::geograf::{ExportFile, export_views, export_file_view};

verus! {

/// What the Antragsbegleitblatt states.
pub struct AntragsbegleitblattInfo {
    pub datum: String,
    pub antragsnr: String,
    pub gemarkung: String,
    pub gemarkungsnummer: String,
    pub fluren_bearbeitet: String,
    /// (Flur, parcels), e.g. `Fl. 1:` and `4, 5`.
    pub flurstuecke_bearbeitet: Vec<(String, String)>,
    /// An owner and the parcels it holds.
    pub eigentuemer: Vec<(String, Vec<String>)>,
}

/// The three XML templates of the form: the document, one parcel line and
/// one owner row.
pub struct AntragsbegleitblattTemplates {
    pub document: String,
    pub flurstuecke: String,
    pub zeile: String,
}

pub open spec fn wt(s: Seq<char>) -> Seq<char> {
    "<w:t>"@ + s + "</w:t>"@
}

/// An owner row: the owner's name and the parcels, comma-separated.
pub open spec fn spec_gen_row(row: Seq<char>, eigentuemer: Seq<char>, flst: Seq<Seq<char>>) -> Seq<char> {
    replace(
        replace(row, "<w:t>%tn1%</w:t>"@, wt(eigentuemer)),
        "<w:t>%%FLURSTUECKE%%</w:t>"@,
        wt(join(flst, ", "@)),
    )
}

/// A parcel line: the Flur and its parcels.
pub open spec fn spec_gen_flst(line: Seq<char>, flur: Seq<char>, flst: Seq<char>) -> Seq<char> {
    replace(
        replace(line, "<w:t>%%FLUR%%</w:t>"@, wt(flur)),
        "<w:t>%%FLURSTUECKE%%</w:t>"@,
        wt(flst),
    )
}

pub open spec fn concat_all(parts: Seq<Seq<char>>) -> Seq<char>
    decreases parts.len(),
{
    if parts.len() == 0 {
        Seq::empty()
    } else {
        concat_all(parts.drop_last()) + parts.last()
    }
}

pub open spec fn rows_of(row: Seq<char>, e: Seq<(String, Vec<String>)>) -> Seq<Seq<char>> {
    e.map_values(|x: (String, Vec<String>)| spec_gen_row(row, x.0@, string_views(x.1@)))
}

pub open spec fn flst_lines_of(line: Seq<char>, f: Seq<(String, String)>) -> Seq<Seq<char>> {
    f.map_values(|x: (String, String)| spec_gen_flst(line, x.0@, x.1@))
}

/// The document with its placeholders replaced, one after another.
pub open spec fn spec_document_xml(t: AntragsbegleitblattTemplates, info: AntragsbegleitblattInfo) -> Seq<char> {
    let d1 = replace(t.document@, "<w:t>%%REPLACEME_DATUM%%</w:t>"@, wt(info.datum@));
    let d2 = replace(d1, "<w:t>%%ANTRAGSNR_NUR_NUMMER%%</w:t>"@, wt(info.antragsnr@));
    let d3 = replace(d2, "<w:t>%%GEMARKUNGSNAME%%</w:t>"@, wt(info.gemarkung@));
    let d4 = replace(d3, "<w:t>%%GEMARKUNG_NUMMER%%</w:t>"@, wt(info.gemarkungsnummer@));
    let d5 = replace(d4, "<w:t>%%FLUREN_NUMMERN%%</w:t>"@, wt(info.fluren_bearbeitet@));
    let d6 = replace(
        d5,
        "<!-- %%FLURSTUECKE%% -->"@,
        concat_all(flst_lines_of(t.flurstuecke@, info.flurstuecke_bearbeitet@)),
    );
    replace(d6, "<!-- %%ROWS%% -->"@, concat_all(rows_of(t.zeile@, info.eigentuemer@)))
}

fn wt_exec(s: &str) -> (r: String)
    ensures
        r@ == wt(s@),
{
    let mut v = chars_of("<w:t>");
    push_str(&mut v, s);
    push_str(&mut v, "</w:t>");
    string_from_chars(v.as_slice())
}

fn antragsbegleitblatt_gen_row(row: &str, e: &(String, Vec<String>)) -> (r: String)
    ensures
        r@ == spec_gen_row(row@, e.0@, string_views(e.1@)),
{
    let a = replace_str(row, "<w:t>%tn1%</w:t>", wt_exec(e.0.as_str()).as_str());
    let j = join_strings(&e.1, ", ");
    replace_str(a.as_str(), "<w:t>%%FLURSTUECKE%%</w:t>", wt_exec(j.as_str()).as_str())
}

fn antragsbegleitblatt_gen_bearbeitete_flst(line: &str, f: &(String, String)) -> (r: String)
    ensures
        r@ == spec_gen_flst(line@, f.0@, f.1@),
{
    let a = replace_str(line, "<w:t>%%FLUR%%</w:t>", wt_exec(f.0.as_str()).as_str());
    replace_str(a.as_str(), "<w:t>%%FLURSTUECKE%%</w:t>", wt_exec(f.1.as_str()).as_str())
}

fn document_xml(t: &AntragsbegleitblattTemplates, info: &AntragsbegleitblattInfo) -> (r: String)
    ensures
        r@ == spec_document_xml(*t, *info),
{
    let d1 = replace_str(t.document.as_str(), "<w:t>%%REPLACEME_DATUM%%</w:t>", wt_exec(info.datum.as_str()).as_str());
    let d2 = replace_str(d1.as_str(), "<w:t>%%ANTRAGSNR_NUR_NUMMER%%</w:t>", wt_exec(info.antragsnr.as_str()).as_str());
    let d3 = replace_str(d2.as_str(), "<w:t>%%GEMARKUNGSNAME%%</w:t>", wt_exec(info.gemarkung.as_str()).as_str());
    let d4 = replace_str(d3.as_str(), "<w:t>%%GEMARKUNG_NUMMER%%</w:t>", wt_exec(info.gemarkungsnummer.as_str()).as_str());
    let d5 = replace_str(d4.as_str(), "<w:t>%%FLUREN_NUMMERN%%</w:t>", wt_exec(info.fluren_bearbeitet.as_str()).as_str());
    let mut fl: Vec<char> = Vec::new();
    let mut i: usize = 0;
    while i < info.flurstuecke_bearbeitet.len()
        invariant
            i <= info.flurstuecke_bearbeitet@.len(),
            fl@ == concat_all(flst_lines_of(t.flurstuecke@, info.flurstuecke_bearbeitet@).take(i as int)),
        decreases info.flurstuecke_bearbeitet.len() - i,
    {
        let s = antragsbegleitblatt_gen_bearbeitete_flst(t.flurstuecke.as_str(), &info.flurstuecke_bearbeitet[i]);
        push_str(&mut fl, s.as_str());
        assert(flst_lines_of(t.flurstuecke@, info.flurstuecke_bearbeitet@).take(i + 1).drop_last()
            =~= flst_lines_of(t.flurstuecke@, info.flurstuecke_bearbeitet@).take(i as int));
        i = i + 1;
    }
    assert(flst_lines_of(t.flurstuecke@, info.flurstuecke_bearbeitet@).take(
        info.flurstuecke_bearbeitet@.len() as int,
    ) =~= flst_lines_of(t.flurstuecke@, info.flurstuecke_bearbeitet@));
    let mut rows: Vec<char> = Vec::new();
    let mut j: usize = 0;
    while j < info.eigentuemer.len()
        invariant
            j <= info.eigentuemer@.len(),
            rows@ == concat_all(rows_of(t.zeile@, info.eigentuemer@).take(j as int)),
        decreases info.eigentuemer.len() - j,
    {
        let s = antragsbegleitblatt_gen_row(t.zeile.as_str(), &info.eigentuemer[j]);
        push_str(&mut rows, s.as_str());
        assert(rows_of(t.zeile@, info.eigentuemer@).take(j + 1).drop_last() =~= rows_of(
            t.zeile@,
            info.eigentuemer@,
        ).take(j as int));
        j = j + 1;
    }
    assert(rows_of(t.zeile@, info.eigentuemer@).take(info.eigentuemer@.len() as int) =~= rows_of(
        t.zeile@,
        info.eigentuemer@,
    ));
    let fls = string_from_chars(fl.as_slice());
    let d6 = replace_str(d5.as_str(), "<!-- %%FLURSTUECKE%% -->", fls.as_str());
    let rs = string_from_chars(rows.as_slice());
    replace_str(d6.as_str(), "<!-- %%ROWS%% -->", rs.as_str())
}

/// The files of the form: those of the template archive, then
/// `word/document.xml` with the placeholders filled.
pub fn generate_antragsbegleitblatt_docx(
    info: &AntragsbegleitblattInfo,
    templates: &AntragsbegleitblattTemplates,
    template_files: Vec<ExportFile>,
) -> (r: Vec<ExportFile>)
    ensures
        export_views(r@) == export_views(template_files@).push(
            (
                Some("word"@),
                "document.xml"@,
                vstd::utf8::encode_utf8(spec_document_xml(*templates, *info)),
            ),
        ),
{
    let doc = document_xml(templates, info);
    let bytes = slice_to_vec(doc.as_str().as_bytes());
    let mut zip = template_files;
    let ghost before = zip@;
    zip.push((Some(to_string("word")), to_string("document.xml"), bytes));
    assert(export_views(zip@) =~= export_views(before).push(export_file_view(zip@.last())));
    zip
}

pub struct BearbeitungslisteInfo {
    pub datum: String,
}

/// The Bearbeitungsliste: not produced yet, no bytes.
pub fn generate_bearbeitungsliste_xlsx(info: &BearbeitungslisteInfo) -> (r: Vec<u8>)
    ensures
        r@.len() == 0,
{
    Vec::new()
}

pub struct FortfuehrungsbelegInfo {
    pub datum: String,
}

/// The Fortführungsbeleg: not produced yet, no bytes.
pub fn generate_fortfuehrungsbeleg_docx(info: &FortfuehrungsbelegInfo) -> (r: Vec<u8>)
    ensures
        r@.len() == 0,
{
    Vec::new()
}

} // verus!
