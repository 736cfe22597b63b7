use tnviewer::nas::TaggedPolygon;
use tnviewer::search::{NutzungsArt, NutzungsArtMap};
use tnviewer::sorted_map::SortedMap;

fn art(atr: &str, wia: &str, nak: &str) -> NutzungsArt {
    NutzungsArt {
        atr: atr.to_string(),
        wia: wia.to_string(),
        nab: String::new(),
        nak: nak.to_string(),
        bez: String::new(),
        def: String::new(),
        ken: String::new(),
        oak: String::new(),
        ehb: String::new(),
    }
}

fn katalog() -> NutzungsArtMap {
    let mut m: NutzungsArtMap = SortedMap::new();
    m.insert("WALD".to_string(), art("AX_Ebene=AX_Wald", "Wald", "42"));
    m.insert("LH".to_string(), art("AX_Ebene=AX_Wald, vegetationsmerkmal=1100", "Wald", "x"));
    m.insert("NH".to_string(), art("AX_Ebene=AX_Wald,vegetationsmerkmal=1200", "Wald", ""));
    m.insert("GR".to_string(), art("AX_Ebene=AX_Landwirtschaft,vegetationsmerkmal=1020", "Grünland", "7"));
    m
}

fn tagged(pairs: &[(&str, &str)]) -> TaggedPolygon {
    let mut a = SortedMap::new();
    for (k, v) in pairs {
        a.insert(k.to_string(), v.to_string());
    }
    TaggedPolygon { attributes: a }
}

#[test]
fn most_specific_abbreviation() {
    let k = katalog();
    assert_eq!(tagged(&[("AX_Ebene", "AX_Wald")]).get_auto_kuerzel(&k), Some("WALD".to_string()));
    assert_eq!(
        tagged(&[("AX_Ebene", "AX_Wald"), ("vegetationsmerkmal", "1100")]).get_auto_kuerzel(&k),
        Some("LH".to_string())
    );
    assert_eq!(
        tagged(&[("AX_Ebene", "AX_Wald"), ("vegetationsmerkmal", "1200")]).get_auto_kuerzel(&k),
        Some("NH".to_string())
    );
    assert_eq!(tagged(&[("AX_Ebene", "AX_Gebaeude")]).get_auto_kuerzel(&k), None);
}

#[test]
fn equally_long_attributes_take_the_last() {
    let mut m: NutzungsArtMap = SortedMap::new();
    m.insert("A".to_string(), art("x=1", "", ""));
    m.insert("B".to_string(), art("y=2", "", ""));
    assert_eq!(tagged(&[("x", "1"), ("y", "2")]).get_auto_kuerzel(&m), Some("B".to_string()));
}

#[test]
fn catalogue_lookups() {
    let k = katalog();
    assert_eq!(TaggedPolygon::get_auto_ebene(&k, "GR"), Some("AX_Landwirtschaft".to_string()));
    assert_eq!(TaggedPolygon::get_auto_ebene(&k, "XX"), None);
    assert_eq!(TaggedPolygon::get_wirtschaftsart(&k, " GR "), Some("Grünland".to_string()));
    assert_eq!(TaggedPolygon::get_wirtschaftsart(&k, "XX"), None);
    assert_eq!(TaggedPolygon::get_nutzungsartenkennung(&k, "WALD"), Some(42));
    assert_eq!(TaggedPolygon::get_nutzungsartenkennung(&k, "LH"), None);
}

#[test]
fn attributes_for_an_abbreviation() {
    let k = katalog();
    let m = TaggedPolygon::get_auto_attributes_for_kuerzel(&k, "LH", &[("extra", "1"), ("AX_Ebene", "X")]);
    assert_eq!(m.len(), 3);
    assert_eq!(m.get(&"AX_Ebene".to_string()), Some(&"X".to_string()));
    assert_eq!(m.get(&" vegetationsmerkmal".to_string()), Some(&"1100".to_string()));
    assert_eq!(m.get(&"extra".to_string()), Some(&"1".to_string()));
    assert_eq!(TaggedPolygon::get_auto_attributes_for_kuerzel(&k, "??", &[]).len(), 0);
}

#[test]
fn identifiers() {
    assert_eq!(TaggedPolygon::get_object_id("urn:adv:DEBBAL73"), Some("DEBBAL73".to_string()));
    assert_eq!(TaggedPolygon::get_object_id("urn:adv"), None);
    let t = tagged(&[("AX_Ebene", "AX_Wald"), ("id", "DE1"), ("AX_Flurstueck", "12118000300010")]);
    assert_eq!(t.get_flst_part_id(), Some("12118000300010:AX_Wald:DE1:0".to_string()));
    let u = tagged(&[
        ("AX_Ebene", "AX_Wald"),
        ("id", "DE1"),
        ("AX_Flurstueck", "F"),
        ("AX_IntersectionId", "5"),
    ]);
    assert_eq!(u.get_flst_part_id(), Some("F:AX_Wald:DE1:5".to_string()));
    assert_eq!(tagged(&[("id", "DE1")]).get_flst_part_id(), None);
}

use tnviewer::nas::SplitNasXml;
use tnviewer::ui::AenderungenIntersection;

fn attr(t: &TaggedPolygon, k: &str) -> Option<String> {
    t.attributes.get(&k.to_string()).cloned()
}

fn split_nas() -> SplitNasXml {
    let mut m = SortedMap::new();
    m.insert(
        "12-1180-003-00261/0000".to_string(),
        vec![
            tagged(&[("AX_Ebene", "AX_Wald"), ("id", "A"), ("AX_Flurstueck", "12-1180-003-00261/0000")]),
            tagged(&[
                ("AX_Ebene", "AX_Wald"),
                ("id", "A"),
                ("AX_IntersectionId", "2"),
                ("AX_Flurstueck", "12-1180-003-00261/0000"),
                ("vegetationsmerkmal", "1200"),
            ]),
        ],
    );
    m.insert(
        "12-0352-001-00007/0000".to_string(),
        vec![tagged(&[("AX_Ebene", "AX_Landwirtschaft"), ("vegetationsmerkmal", "1020"), ("id", "B")])],
    );
    m.insert("kein Flurstück".to_string(), Vec::new());
    SplitNasXml { crs: "+proj=utm".to_string(), flurstuecke_nutzungen: m }
}

#[test]
fn attribute_getters() {
    let t = tagged(&[("AX_Ebene", "AX_Wald"), ("id", "X"), ("AX_IntersectionId", "3"), ("AX_Flurstueck", "F")]);
    assert_eq!(t.get_ebene(), Some("AX_Wald".to_string()));
    assert_eq!(t.get_de_id(), Some("X".to_string()));
    assert_eq!(t.get_intersection_id(), Some("3".to_string()));
    assert_eq!(t.get_flurstueck_id(), Some("F".to_string()));
    let e = tagged(&[]);
    assert_eq!(e.get_ebene(), None);
    assert_eq!(e.get_de_id(), None);
    assert_eq!(e.get_intersection_id(), None);
    assert_eq!(e.get_flurstueck_id(), None);
    let c = t.copy();
    assert_eq!(attr(&c, "id"), Some("X".to_string()));
    assert_eq!(c.attributes.len(), 4);
}

#[test]
fn retain_one_gemarkung() {
    let s = split_nas();
    let r = s.only_retain_gemarkung(1180);
    assert_eq!(r.crs, "+proj=utm");
    assert_eq!(r.flurstuecke_nutzungen.len(), 1);
    assert_eq!(r.flurstuecke_nutzungen.key_at(0), "12-1180-003-00261/0000");
    assert_eq!(r.flurstuecke_nutzungen.value_at(0).len(), 2);
    assert_eq!(s.only_retain_gemarkung(352).flurstuecke_nutzungen.len(), 1);
    assert_eq!(s.only_retain_gemarkung(1).flurstuecke_nutzungen.len(), 0);
}

#[test]
fn piece_by_identifier() {
    let s = split_nas();
    let p = s.get_flst_part_by_id("12-1180-003-00261/0000:AX_Wald:A").unwrap();
    assert_eq!(attr(p, "AX_IntersectionId"), None);
    let p = s.get_flst_part_by_id("12-1180-003-00261/0000:AX_Wald:A:2").unwrap();
    assert_eq!(attr(p, "vegetationsmerkmal"), Some("1200".to_string()));
    assert!(s.get_flst_part_by_id("12-1180-003-00261/0000:AX_Wald:A:3").is_none());
    assert!(s.get_flst_part_by_id("12-1180-003-00261/0000:AX_Wald:B").is_none());
    assert!(s.get_flst_part_by_id("12-9999-003-00261/0000:AX_Wald:A").is_none());
    assert!(s.get_flst_part_by_id("12-1180-003-00261/0000:AX_Wald").is_none());
    assert!(s.get_flst_part_by_id("a:b:c:d:e").is_none());
}

#[test]
fn pieces_as_split_faces() {
    let s = split_nas();
    let v = s.as_splitflaechen(&katalog());
    let got = v
        .iter()
        .map(|a| (a.alt.clone(), a.neu.clone(), a.flst_id.clone(), a.flst_id_part.clone()))
        .collect::<Vec<_>>();
    let f = "12-1180-003-00261/0000".to_string();
    assert_eq!(
        got,
        vec![
            ("WALD".to_string(), "WALD".to_string(), f.clone(), format!("{f}:AX_Wald:A:0")),
            ("NH".to_string(), "NH".to_string(), f.clone(), format!("{f}:AX_Wald:A:2")),
        ]
    );
}

#[test]
fn future_pieces_replace_the_old() {
    let s = split_nas();
    let f = "12-1180-003-00261/0000".to_string();
    let sf = vec![
        AenderungenIntersection { alt: "WALD".to_string(), neu: "GR".to_string(), flst_id: f.clone(), flst_id_part: String::new() },
        AenderungenIntersection { alt: "NH".to_string(), neu: "LH".to_string(), flst_id: f.clone(), flst_id_part: String::new() },
        AenderungenIntersection { alt: "X".to_string(), neu: "Y".to_string(), flst_id: "nirgends".to_string(), flst_id_part: String::new() },
    ];
    let ids = vec!["n1".to_string(), "n2".to_string(), "n3".to_string()];
    let r = s.migrate_future(&sf, &ids, &katalog());
    assert_eq!(r.flurstuecke_nutzungen.len(), 3);
    let parts = r.flurstuecke_nutzungen.get(&f).unwrap();
    assert_eq!(parts.len(), 2);
    assert_eq!(attr(&parts[0], "id"), Some("n1".to_string()));
    assert_eq!(attr(&parts[0], "AX_Ebene"), Some("AX_Landwirtschaft".to_string()));
    assert_eq!(attr(&parts[0], "vegetationsmerkmal"), Some("1020".to_string()));
    assert_eq!(attr(&parts[0], "AX_Flurstueck"), Some(f.clone()));
    assert_eq!(attr(&parts[0], "AX_IntersectionId"), Some("0".to_string()));
    assert_eq!(attr(&parts[1], "id"), Some("n2".to_string()));
    // the catalogue text has a space after the comma, which stays in the name
    assert_eq!(attr(&parts[1], " vegetationsmerkmal"), Some("1100".to_string()));
    let other = r.flurstuecke_nutzungen.get(&"12-0352-001-00007/0000".to_string()).unwrap();
    assert_eq!(other.len(), 1);
    assert_eq!(attr(&other[0], "id"), Some("B".to_string()));
}
