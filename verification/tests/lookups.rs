use tnviewer::nas::{NasXMLFile, SplitNasXml, TaggedPolygon};
use tnviewer::pdf::{EbenenStyle, StyleConfig};
use tnviewer::sorted_map::SortedMap;
use tnviewer::{search_flst_internal, search_flst_part_internal, search_for_gebauede, SearchFlstInternalReturn};

fn tagged(pairs: &[(&str, &str)]) -> TaggedPolygon {
    let mut a = SortedMap::new();
    for (k, v) in pairs {
        a.insert(k.to_string(), v.to_string());
    }
    TaggedPolygon { attributes: a }
}

fn nas() -> NasXMLFile {
    let mut ebenen = SortedMap::new();
    ebenen.insert(
        "AX_Flurstueck".to_string(),
        vec![
            tagged(&[("flurstueckskennzeichen", "121180003002610000")]),
            tagged(&[("AX_Flurstueck", "kaputt"), ("flurstueckskennzeichen", "12-1180-003-00007")]),
            tagged(&[("AX_Flurstueck", "12-1180-003-00007/0000")]),
            tagged(&[("AX_Flurstueck", "12-1180-003-00007")]),
        ],
    );
    ebenen.insert(
        "AX_Gebaeude".to_string(),
        vec![tagged(&[("id", "G1")]), tagged(&[("id", "G2")]), tagged(&[("id", "G2")])],
    );
    NasXMLFile { ebenen, crs: String::new() }
}

#[test]
fn parcel_found_by_long_form() {
    let r = search_flst_internal("121180003000070000", &nas()).unwrap();
    assert_eq!(
        r,
        SearchFlstInternalReturn {
            id_input: "121180003000070000".to_string(),
            id_nice: "12-1180-003-00007/00000".to_string(),
            ebene: "AX_Flurstueck".to_string(),
            flst: ("AX_Flurstueck".to_string(), 2),
        }
    );
    assert_eq!(search_flst_internal("12-1180-003-00261/0000", &nas()).unwrap().flst.1, 0);
    assert_eq!(search_flst_internal("12-1180-003-00999", &nas()), None);
    // text without digits reads as the default identifier, as "kaputt" does
    assert_eq!(search_flst_internal("", &nas()).unwrap().flst.1, 1);
    let leer = NasXMLFile { ebenen: SortedMap::new(), crs: String::new() };
    assert_eq!(search_flst_internal("121180003000070000", &leer), None);
}

#[test]
fn building_found_by_id() {
    assert_eq!(search_for_gebauede(&nas(), "G2"), Ok(Some(1)));
    assert_eq!(search_for_gebauede(&nas(), "G3"), Ok(None));
    let leer = NasXMLFile { ebenen: SortedMap::new(), crs: String::new() };
    assert_eq!(search_for_gebauede(&leer, "G1"), Err("keine Ebene AX_Gebaeude".to_string()));
}

#[test]
fn piece_found_by_identifier() {
    let mut m = SortedMap::new();
    m.insert(
        "kein Flurstück".to_string(),
        vec![tagged(&[("AX_Ebene", "AX_Wald"), ("id", "A"), ("AX_Flurstueck", "F")])],
    );
    m.insert(
        "12-1180-003-00007/0000".to_string(),
        vec![
            tagged(&[("AX_Ebene", "AX_Wald"), ("id", "B"), ("AX_Flurstueck", "F")]),
            tagged(&[("AX_Ebene", "AX_Wald"), ("id", "A"), ("AX_Flurstueck", "F")]),
            tagged(&[("id", "A"), ("AX_Flurstueck", "F")]),
        ],
    );
    let s = SplitNasXml { crs: String::new(), flurstuecke_nutzungen: m };
    let r = search_flst_part_internal("F:AX_Wald:A:0", &s).unwrap();
    assert_eq!(r.flst, ("12-1180-003-00007/0000".to_string(), 1));
    assert_eq!(r.id_nice, "12-1180-003-00007/00000");
    assert_eq!(r.ebene, "AX_Wald");
    assert_eq!(r.id_input, "F:AX_Wald:A:0");
    assert_eq!(search_flst_part_internal("F:AX_Wald:C:0", &s), None);
}

fn styles() -> StyleConfig {
    let mut ebenen = SortedMap::new();
    let st = |n: &str, f: Option<&str>| EbenenStyle { name: n.to_string(), fill_color: f.map(String::from), outline_color: None, outline_thickness: None };
    ebenen.insert("a".to_string(), st("Wald", Some("#0f0")));
    ebenen.insert("b".to_string(), st(" Wasser ", None));
    ebenen.insert("c".to_string(), st("Wald", None));
    StyleConfig { ebenen_ordnung: vec!["c".to_string(), "x".to_string(), "a".to_string()], ebenen }
}

#[test]
fn styles_in_drawing_order() {
    let s = styles();
    let sorted = s.get_styles_sorted();
    assert_eq!(sorted.len(), 2);
    assert_eq!(sorted[0].0, "c");
    assert_eq!(sorted[1].0, "a");
    assert_eq!(sorted[1].1.fill_color, Some("#0f0".to_string()));
    assert_eq!(s.get_ebenen_darstellung(), vec!["Wald".to_string(), "Wald".to_string()]);
}

#[test]
fn style_by_layer_name() {
    let s = styles();
    assert_eq!(s.get_layer_style("Wald"), Ok("a".to_string()));
    assert_eq!(s.get_layer_style("Wasser  "), Ok("b".to_string()));
    assert_eq!(s.get_layer_style("Acker"), Err("style für Acker nicht gefunden".to_string()));
}

use tnviewer::lock_unlock_poly;
use tnviewer::ui::PolyNeuInfo;

fn areas() -> SortedMap<String, PolyNeuInfo> {
    let mut m = SortedMap::new();
    m.insert("a".to_string(), PolyNeuInfo { nutzung: Some("WALD".to_string()), locked: false });
    m.insert("b".to_string(), PolyNeuInfo { nutzung: None, locked: true });
    m
}

#[test]
fn lock_one_area() {
    let mut m = areas();
    let log = lock_unlock_poly(Some("  a ".to_string()), &mut m);
    assert_eq!(log, vec!["ok locking aenderung a".to_string()]);
    assert!(m.get(&"a".to_string()).unwrap().locked);
    assert!(m.get(&"b".to_string()).unwrap().locked);
    assert_eq!(m.get(&"a".to_string()).unwrap().nutzung, Some("WALD".to_string()));
    let log = lock_unlock_poly(Some("c".to_string()), &mut m);
    assert!(log.is_empty());
}

#[test]
fn lock_all_areas() {
    let mut m = areas();
    let log = lock_unlock_poly(Some(String::new()), &mut m);
    assert_eq!(log, vec!["ok locking aenderung a".to_string(), "ok locking aenderung b".to_string()]);
    assert!(m.get(&"a".to_string()).unwrap().locked);
    assert!(!m.get(&"b".to_string()).unwrap().locked);
    let log = lock_unlock_poly(None, &mut m);
    assert_eq!(log.len(), 2);
    assert!(!m.get(&"a".to_string()).unwrap().locked);
    assert_eq!(m.len(), 2);
}

#[test]
fn locking_twice_restores() {
    let mut m = areas();
    lock_unlock_poly(Some("b".to_string()), &mut m);
    lock_unlock_poly(Some("b".to_string()), &mut m);
    assert!(!m.get(&"a".to_string()).unwrap().locked);
    assert!(m.get(&"b".to_string()).unwrap().locked);
    lock_unlock_poly(None, &mut m);
    lock_unlock_poly(None, &mut m);
    assert!(!m.get(&"a".to_string()).unwrap().locked);
    assert!(m.get(&"b".to_string()).unwrap().locked);
}

use tnviewer::ui::{AenderungenIntersection, AenderungenIntersections};

#[test]
fn fluren_of_the_faces() {
    let f = |id: &str| AenderungenIntersection {
        alt: "A".to_string(),
        neu: "B".to_string(),
        flst_id: id.to_string(),
        flst_id_part: String::new(),
    };
    let s = AenderungenIntersections(vec![
        f("12-1180-007-00001/0000"),
        f("12-1180-003-00002/0000"),
        f("12-0352-001-00003/0000"),
        f("12-1180-003-00004/0000"),
    ]);
    assert_eq!(s.get_fluren(1180), vec![3, 7]);
    assert_eq!(s.get_fluren(352), vec![1]);
    assert_eq!(s.get_fluren(9), Vec::<usize>::new());
}

use tnviewer::csv::Status;
use tnviewer::search::NutzungsArt;
use tnviewer::xlsx::FlstIdParsed;

fn wia_catalogue() -> tnviewer::search::NutzungsArtMap {
    let art = |wia: &str| NutzungsArt {
        atr: String::new(),
        wia: wia.to_string(),
        nab: String::new(),
        nak: String::new(),
        bez: String::new(),
        def: String::new(),
        ken: String::new(),
        oak: String::new(),
        ehb: String::new(),
    };
    let mut m = SortedMap::new();
    m.insert("WALD".to_string(), art("Wald"));
    m.insert("LH".to_string(), art("Wald"));
    m.insert("GR".to_string(), art("Grünland"));
    m
}

fn face(alt: &str, neu: &str, flst: &str) -> AenderungenIntersection {
    AenderungenIntersection { alt: alt.to_string(), neu: neu.to_string(), flst_id: flst.to_string(), flst_id_part: String::new() }
}

#[test]
fn status_of_a_parcel() {
    let cat = wia_catalogue();
    let f = "12-1180-003-00001/0000";
    let g = "12-1180-003-00002/0000";
    let geb = vec![FlstIdParsed::from_str(g).parse_num().unwrap()];
    let same = vec![face("WALD", "WALD", f), face("GR", "LH", g)];
    assert_eq!(AenderungenIntersection::get_auto_status(&same, &geb, f, &cat), (Status::Bleibt, false));
    assert_eq!(AenderungenIntersection::get_auto_status(&same, &geb, g, &cat), (Status::AenderungMitBenachrichtigung, true));
    let quiet = vec![face("WALD", "LH", f)];
    assert_eq!(AenderungenIntersection::get_auto_status(&quiet, &[], f, &cat), (Status::AenderungKeineBenachrichtigung, false));
    assert_eq!(AenderungenIntersection::get_auto_status(&quiet, &geb, "12-1180-003-00002", &cat), (Status::Bleibt, true));
}
