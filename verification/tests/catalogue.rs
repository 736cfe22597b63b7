use tnviewer::get_nutzungsartenkatalog_ebenen;
use tnviewer::search::{search_map, to_lowercase, NutzungsArt, NutzungsArtMap};
use tnviewer::sorted_map::SortedMap;
use tnviewer::ui::{is_false, normalize_for_js, render_select, ui_render_search_popover_content};

fn art(atr: &str, bez: &str, def: &str, ehb: &str) -> NutzungsArt {
    NutzungsArt {
        atr: atr.to_string(),
        wia: String::new(),
        nab: String::new(),
        nak: String::new(),
        bez: bez.to_string(),
        def: def.to_string(),
        ken: String::new(),
        oak: String::new(),
        ehb: ehb.to_string(),
    }
}

fn katalog() -> NutzungsArtMap {
    let mut m: NutzungsArtMap = SortedMap::new();
    m.insert("WALD".to_string(), art("AX_Ebene=ax_wald,x=1", "Wald", "Fläche mit Bäumen", ""));
    m.insert("GR".to_string(), art("AX_Ebene=ax_landwirtschaft", "Grünland", "Wiese", "Weide"));
    m.insert("W".to_string(), art("y=2", "Weg", "Ein Weg", "für Wald"));
    m
}

#[test]
fn lowercase_is_unicode_aware() {
    assert_eq!(to_lowercase("ÄBC Straße"), "äbc straße");
}

#[test]
fn search_puts_exact_abbreviations_first() {
    let hits = search_map(&katalog(), "w");
    let keys: Vec<String> = hits.iter().map(|h| h.0.clone()).collect();
    assert_eq!(keys, vec!["W", "GR", "W", "WALD"]);
    let hits = search_map(&katalog(), "WALD");
    let keys: Vec<String> = hits.iter().map(|h| h.0.clone()).collect();
    assert_eq!(keys, vec!["WALD", "W", "WALD"]);
    assert!(search_map(&katalog(), "xyz").is_empty());
}

#[test]
fn ebenen_of_the_catalogue() {
    let e = get_nutzungsartenkatalog_ebenen(&katalog());
    assert_eq!(e.len(), 2);
    assert_eq!(e.get(&"GR".to_string()), Some(&"ax_landwirtschaft".to_string()));
    assert_eq!(e.get(&"WALD".to_string()), Some(&"ax_wald".to_string()));
    assert_eq!(e.get(&"W".to_string()), None);
}

#[test]
fn normalize_joins_trimmed_lines() {
    assert_eq!(normalize_for_js("  a `b`\n   c  \r\n".to_string()), "a 'b'c");
    assert_eq!(normalize_for_js(String::new()), "");
}

#[test]
fn select_marks_the_chosen_use() {
    let m = katalog();
    let s = render_select(&m, &Some("W".to_string()), "f", "1", "h");
    assert_eq!(
        s,
        "<select id='h-1' onchange='f(event);' data-id='1'><option  value='NOTDEFINED'>nicht defin.</option><option >GR</option><option  selected='selected' >W</option><option >WALD</option></select>"
    );
    let n = render_select(&SortedMap::new(), &None, "g", "2", "k");
    assert_eq!(
        n,
        "<select id='k-2' onchange='g(event);' data-id='2'><option  selected='selected'  value='NOTDEFINED'>nicht defin.</option></select>"
    );
}

#[test]
fn popover_without_hits() {
    let s = ui_render_search_popover_content(&katalog(), "xyz");
    assert_eq!(
        s,
        "<div style='background:transparent;width: 100%;height: 100%;min-height: 100%;z-index:1001;pointer-events:all;' onmouseup='closePopOver()'><div style='pointer-events: unset;padding: 1px;position: absolute;right: 5px;top: 30px;max-width: 302px;background: white;border-radius: 0px;'><div style='border:1px solid #efefef;border-radius:5px;'><p style='padding: 0px 10px;font-size: 14px;color: #444;margin-top: 5px;'>Keine Suchergebnisse</p></div></div></div>"
    );
}

#[test]
fn popover_lists_hits() {
    let s = ui_render_search_popover_content(&katalog(), "wiese");
    assert!(s.contains("GR (Grünland)</p>"));
    assert!(s.contains("Wiese Weide"));
    assert!(!s.contains("Keine Suchergebnisse"));
    assert!(!s.contains('\n'));
}

#[test]
fn flag_left_out_when_false() {
    assert!(is_false(&false));
    assert!(!is_false(&true));
}

use tnviewer::ui::AenderungenIntersection;

fn piece(alt: &str, neu: &str, flst: &str) -> AenderungenIntersection {
    AenderungenIntersection {
        alt: alt.to_string(),
        neu: neu.to_string(),
        flst_id: flst.to_string(),
        flst_id_part: String::new(),
    }
}

#[test]
fn parcel_ids_in_long_form() {
    assert_eq!(AenderungenIntersection::format_flst_id_func("12118000300010______"), "12-1180-003-00010/00000");
    let p = piece("A", "B", "12-1180-003-00010/0002");
    assert_eq!(p.format_flst_id(), "12-1180-003-00010/00002");
    assert_eq!(p.format_flst_id_search(), "1211800030001000002");
}

#[test]
fn note_from_changed_uses() {
    let pieces = vec![
        piece("GR", "WALD", "12118000300010______"),
        piece("GR", "GR", "12-1180-003-00010"),
        piece("LH", "NH", "12118000300010"),
        piece("X", "Y", "12118000300011______"),
    ];
    assert_eq!(
        AenderungenIntersection::get_auto_notiz(&pieces, "12118000300010"),
        "LH entfernen, NH / WALD einzeichnen, GR anpassen"
    );
    assert_eq!(AenderungenIntersection::get_auto_notiz(&pieces, "12118000300011"), "X entfernen, Y einzeichnen");
    assert_eq!(AenderungenIntersection::get_auto_notiz(&pieces, "12118000300099"), "");
    let only_new = vec![piece("", "WALD", "1"), piece("A", "A", "1")];
    assert_eq!(AenderungenIntersection::get_auto_notiz(&only_new, "1"), "WALD einzeichnen");
    let swap = vec![piece("A", "B", "1"), piece("B", "A", "1")];
    assert_eq!(AenderungenIntersection::get_auto_notiz(&swap, "1"), "A / B anpassen");
}

use tnviewer::search::search_lowered;

#[test]
fn search_with_given_lowercase_texts() {
    let m = katalog();
    let low = vec![
        ("gr".to_string(), "grünland".to_string(), "wiese".to_string(), "weide".to_string()),
        ("w".to_string(), "weg".to_string(), "ein weg".to_string(), "für wald".to_string()),
        ("wald".to_string(), "wald".to_string(), "fläche mit bäumen".to_string(), "".to_string()),
    ];
    let keys = |v: Vec<(String, NutzungsArt)>| v.into_iter().map(|h| h.0).collect::<Vec<_>>();
    assert_eq!(keys(search_lowered(&m, &low, "wald")), vec!["WALD", "W", "WALD"]);
    assert_eq!(keys(search_lowered(&m, &low, "ei")), vec!["GR", "W"]);
    assert!(search_lowered(&m, &low, "WALD").is_empty());
}

use tnviewer::ui::{get_gebaeude_modified_flst, GebaeudeLoeschen};
use tnviewer::xlsx::FlstIdParsedNumber;

#[test]
fn parcels_with_deleted_buildings() {
    let mut m: SortedMap<String, GebaeudeLoeschen> = SortedMap::new();
    m.insert(
        "g1".to_string(),
        GebaeudeLoeschen {
            gebaeude_id: "g1".to_string(),
            flst_id: vec!["12118000300010".to_string(), "12118000300002".to_string()],
        },
    );
    m.insert(
        "g2".to_string(),
        GebaeudeLoeschen { gebaeude_id: "g2".to_string(), flst_id: vec!["12-1180-003-00010".to_string()] },
    );
    let n = |z: usize| FlstIdParsedNumber { land: 12, gemarkung: 1180, flur: 3, flst_zaehler: z, flst_nenner: None };
    assert_eq!(get_gebaeude_modified_flst(&m), vec![n(2), n(10)]);
    assert!(get_gebaeude_modified_flst(&SortedMap::new()).is_empty());
}

use tnviewer::csv::parse_csv;
use tnviewer::nas::TaggedPolygon;
use tnviewer::ui::render_csv_editable;

fn tagged(pairs: &[(&str, &str)]) -> TaggedPolygon {
    let mut a = SortedMap::new();
    for (k, v) in pairs {
        a.insert(k.to_string(), v.to_string());
    }
    TaggedPolygon { attributes: a }
}

fn card(fid: &str, flur: &str, nr: &str, notiz: &str, border: &str, split_nas: &str) -> String {
    format!("
        <div class='csv-datensatz' id='csv_flst_{fid}' style='background:#3e3e58;padding: 10px;margin-bottom: 10px;border-radius: 5px;display: flex;flex-direction: column;{border}' ondblclick='focusFlst(event);' data-id='{fid}'>
            <h5 style='font-size: 18px;font-weight: bold;color: white;'  data-id='{fid}'>Fl. {flur} Flst. {nr}</h5>
            <input type='text' placeholder='Notiz...' value='{notiz}' oninput='changeNotiz(event);' onchange='changeNotiz(event);' data-id='{fid}' style='font-family: sans-serif;margin-bottom: 10px;width: 100%;padding: 3px;font-size:16px;'></input>
            {split_nas}
        </div>")
}

#[test]
fn csv_cards_with_the_selected_parcel() {
    let csv = parse_csv(
        "ID;N;E\n12118000300010______;W;A\n12118000300011______;W;B",
        "ID",
        "N",
        "E",
        ";",
        true,
    )
    .unwrap();
    let mut split: SortedMap<String, Vec<TaggedPolygon>> = SortedMap::new();
    split.insert(
        "12118000300010".to_string(),
        vec![
            tagged(&[("AX_Ebene", "AX_Wald"), ("id", "DE1"), ("BerechneteGroesseM2", "25")]),
            tagged(&[("AX_Ebene", "X"), ("id", "DE2")]),
            tagged(&[("id", "DE3"), ("BerechneteGroesseM2", "7")]),
            tagged(&[("AX_Ebene", "Y"), ("id", "DE4"), ("AX_IntersectionId", "2"), ("BerechneteGroesseM2", "3")]),
        ],
    );
    let mut na: SortedMap<String, String> = SortedMap::new();
    na.insert("12118000300010:AX_Wald:DE1".to_string(), "GR".to_string());
    let k = katalog();
    let out = render_csv_editable(&csv, &na, "12-1180-003-00010", Some(&split), &k);
    let sel1 = render_select(&k, &Some("GR".to_string()), "nutzungsArtAendern", "12118000300010:AX_Wald:DE1", "nutzungsart-aendern");
    let sel2 = render_select(&k, &None, "nutzungsArtAendern", "12118000300010:Y:DE4:2", "nutzungsart-aendern");
    let parts = format!(
        "<div class='nutzung-veraendern'><div><p style='cursor:pointer;text-decoration:underline;' onmouseup='zoomToFlstPart(event);' data-part-id='12118000300010:AX_Wald:DE1'>25m² AX_Wald</p>{sel1}</div><div><p style='cursor:pointer;text-decoration:underline;' onmouseup='zoomToFlstPart(event);' data-part-id='12118000300010:Y:DE4:2'>3m² Y</p>{sel2}</div></div>"
    );
    let expected = card("12_1180_003_00010_00000", "3", "10", "", "border:1px solid red;", &parts)
        + &card("12_1180_003_00011_00000", "3", "11", "", "border:1px solid transparent;", "");
    assert_eq!(out, expected);
    let none = render_csv_editable(&csv, &na, "12-1180-003-00099", None, &k);
    assert!(!none.contains("red"));
    assert!(!none.contains("nutzung-veraendern"));
}

use tnviewer::ui::render_switch_content;

#[test]
fn content_switch_marks_the_active_side() {
    assert_eq!(render_switch_content(Some(1), Some(true)), "");
    assert_eq!(
        render_switch_content(None, None),
        "\n        <div class='project-content-switch active' onclick='selectContent(0);'>Flurstücke</div>\n        <div class='project-content-switch ' onclick='selectContent(1);'>Änderungen</div>\n    "
    );
    assert_eq!(
        render_switch_content(Some(0), Some(true)),
        "\n        <div class='project-content-switch ' onclick='selectContent(0);'>Flurstücke</div>\n        <div class='project-content-switch active' onclick='selectContent(1);'>Änderungen</div>\n    "
    );
}

use tnviewer::collation::sort_strings;
use tnviewer::geograf::legende_zeilen;

#[test]
fn legend_shows_the_used_uses() {
    let pieces = vec![piece("GR", "WALD", "1"), piece("W", "W", "2"), piece("XX", "GR", "3")];
    assert_eq!(legende_zeilen(&pieces, &katalog()), vec!["Grünland (GR)", "Wald (WALD)", "Weg (W)"]);
    assert!(legende_zeilen(&[], &katalog()).is_empty());
}

#[test]
fn texts_sorted_like_std() {
    let v: Vec<String> = ["b", "a", "ä", "B", "a", ""].iter().map(|s| s.to_string()).collect();
    let mut expected = v.clone();
    expected.sort();
    assert_eq!(sort_strings(v), expected);
}

use tnviewer::ui::{render_secondary_content, PolyNeuInfo};

fn expected_secondary(geb: &[(&str, &str)], neu: &[(&str, Option<&str>, bool)], k: &NutzungsArtMap) -> String {
    let mut html = "<div id='aenderungen-container'>".to_string();
    html += "<h2>Gebäude löschen</h2>";
    html += "<div id='zu-loeschende-gebaeude'>";
    for (k, gebaeude_id) in geb.iter().rev() {
        html.push_str(&format!(
            "<div class='__application-aenderung-container' id='gebaeude-loeschen-{gebaeude_id}' data-gebaeude-id='{gebaeude_id}'>
                <div style='display:flex;'>
                    <p class='__application-zoom-to' style='color: white;font-weight: bold;' data-gebaeude-id='{gebaeude_id}' onclick='zoomToGebaeudeLoeschen(event);'>{gebaeude_id}</p>
                </div>
                <p class='__application-secondary-undo' onclick='gebaeudeLoeschenUndo(event);' data-gebaeude-id='{k}'>X</p>
            </div>"
        ));
    }
    html += "</div>";
    html += "<h2><span style='display: flex;flex-direction: row;justify-content: space-between;flex-grow: 1;'>Neue Nutzungen <p style='text-decoration:underline;cursor:pointer;' onclick='nutzungenSaeubern(event);' data-nutzung-id=''>[alle bereinigen]</p></span></h2>";
    html += "<div id='neue-na'>";
    for (new_poly_id, nutzung, locked) in neu.iter().rev() {
        let select_nutzung = render_select(k, &nutzung.map(|s| s.to_string()), "changeSelectPolyNeu", new_poly_id, "aendern-poly-neu");
        let new_poly_id_first_chars = new_poly_id.split("-").next().unwrap_or("");
        let new_poly_id_first_chars = new_poly_id_first_chars.chars().take(10).collect::<String>();
        let lo_ul = if *locked { "LOCK" } else { "UNLOCK" };
        html.push_str(&format!(
            "<div class='na-neu' id='na-neu-{new_poly_id}' data-new-poly-id='{new_poly_id}'>
                <div style='display:flex;'>
                    <img src='data:image/png;base64,{lo_ul}' width='16px' height='16px' class='__application-zoom-to' onclick='lockUnlockPoly(event);' data-nutzung-id='{new_poly_id}' data-poly-neu-id='{new_poly_id}'></img>
                    <p class='__application-zoom-to' onclick='nutzungenSaeubern(event);' data-nutzung-id='{new_poly_id}' data-poly-neu-id='{new_poly_id}'>[ber.]</p>
                    <p class='__application-zoom-to' onclick='zoomToPolyNeu(event);' style='color: white;font-weight: bold;' data-poly-neu-id='{new_poly_id}'>{new_poly_id_first_chars}</p>
                </div>
                <div style='display:flex;'>
                    {select_nutzung}
                    <p class='__application-secondary-undo' onclick='polyNeuUndo(event);' data-poly-neu-id='{new_poly_id}' style='margin-left: 10px;display: flex;align-items: center;'>X</p>
                </div>
            </div>"
        ));
    }
    html += "</div>";
    html += "</div>";
    html
}

#[test]
fn list_of_changes() {
    let geb = [("k1", "DEBBAL01"), ("k2", "DEBBAL02")];
    let neu = [("abcdefghijkl-1", Some("GR"), true), ("x-2", None, false)];
    let mut gm: SortedMap<String, GebaeudeLoeschen> = SortedMap::new();
    for (k, g) in geb.iter() {
        gm.insert(k.to_string(), GebaeudeLoeschen { gebaeude_id: g.to_string(), flst_id: vec![] });
    }
    let mut nm: SortedMap<String, PolyNeuInfo> = SortedMap::new();
    for (id, n, l) in neu.iter() {
        nm.insert(id.to_string(), PolyNeuInfo { nutzung: n.map(|s| s.to_string()), locked: *l });
    }
    let k = katalog();
    assert_eq!(render_secondary_content(&gm, &nm, "LOCK", "UNLOCK", &k), expected_secondary(&geb, &neu, &k));
    let empty = render_secondary_content(&SortedMap::new(), &SortedMap::new(), "L", "U", &k);
    assert!(empty.starts_with("<div id='aenderungen-container'><h2>Gebäude löschen</h2>"));
}
