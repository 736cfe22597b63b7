use tnviewer::david::{process_final_strings, OpPrereq};

fn ins(id: &str) -> OpPrereq {
    OpPrereq::Insert { id: id.to_string() }
}
fn del(id: &str) -> OpPrereq {
    OpPrereq::Delete { id: id.to_string() }
}
fn rep(id: &str) -> OpPrereq {
    OpPrereq::Replace { id: id.to_string() }
}

#[test]
fn get_id_of_each_kind() {
    assert_eq!(ins("a").get_id(), "a");
    assert_eq!(del("b").get_id(), "b");
    assert_eq!(rep("c").get_id(), "c");
}

#[test]
fn inserted_and_deleted_objects_drop_out() {
    let input = vec![
        ("s1".to_string(), ins("1")),
        ("s2".to_string(), del("1")),
        ("s3".to_string(), rep("1")),
        ("s4".to_string(), rep("2")),
        ("s5".to_string(), del("3")),
        ("s6".to_string(), ins("4")),
    ];
    let out = process_final_strings(&input);
    assert_eq!(
        out,
        vec![
            ("s4".to_string(), rep("2")),
            ("s5".to_string(), del("3")),
            ("s6".to_string(), ins("4")),
        ]
    );
}

#[test]
fn processing_twice_changes_nothing() {
    let input = vec![
        ("a".to_string(), del("x")),
        ("b".to_string(), ins("x")),
        ("c".to_string(), ins("y")),
        ("d".to_string(), del("z")),
        ("e".to_string(), rep("z")),
    ];
    let once = process_final_strings(&input);
    let twice = process_final_strings(&once);
    assert_eq!(once, twice);
    assert_eq!(once.len(), 3);
}

#[test]
fn empty_request() {
    assert!(process_final_strings(&[]).is_empty());
}

use tnviewer::david::{
    filter_identic_operations, get_insert_xml_node, get_replace_xml_node, new_object_id_string,
    operations_to_xml_file_internal, polygon_to_position_node, Operation, PolygonText, Signatur,
};
use tnviewer::nas::{MemberObject, NasXmlObjects};
use tnviewer::search::{NutzungsArt, NutzungsArtMap};
use tnviewer::sorted_map::SortedMap;

fn poly(hash: u64, label: Option<&str>) -> PolygonText {
    PolygonText {
        hash,
        outer_ring: "<ring>o</ring>".to_string(),
        inner_rings: Vec::new(),
        label_pos: label.map(|s| s.to_string()),
    }
}

fn insert(kuerzel: &str, hash: u64) -> Operation {
    Operation::Insert { ebene: "AX_Wald".to_string(), kuerzel: kuerzel.to_string(), poly_neu: poly(hash, Some("1 2")) }
}

fn delete(obj_id: &str, kuerzel: &str, hash: u64) -> Operation {
    Operation::Delete {
        obj_id: obj_id.to_string(),
        ebene: "AX_Wald".to_string(),
        kuerzel: kuerzel.to_string(),
        poly_alt: poly(hash, None),
    }
}

#[test]
fn new_object_ids_have_ten_digits() {
    assert_eq!(new_object_id_string(3), "DE_0010000000003");
    assert_eq!(new_object_id_string(12345678901), "DE_00112345678901");
}

#[test]
fn area_symbol_for_forest() {
    let s = Signatur::from_kuerzel("WALD", "DE_0010000000001", None, 2).unwrap();
    assert_eq!(
        s,
        Signatur::Flaeche {
            id: "DE_0010000000002".to_string(),
            fuer: "DE_0010000000001".to_string(),
            signaturnummer: "3456".to_string(),
            art: "VEG".to_string(),
            positionierungsregel: "1104".to_string(),
        }
    );
    let xml = s.get_xml();
    assert!(xml.contains("<AP_Darstellung gml:id=\"DE_0010000000002\">"));
    assert!(xml.contains("<signaturnummer>3456</signaturnummer>"));
    assert!(xml.contains("<positionierungsregel>1104</positionierungsregel>"));
    assert!(xml.contains("xlink:href=\"urn:adv:oid:DE_0010000000001\""));
    assert!(!xml.contains("$$"));
}

#[test]
fn point_symbol_needs_a_label_position() {
    assert_eq!(Signatur::from_kuerzel("SUM", "X", None, 0), None);
    let s = Signatur::from_kuerzel("SUM", "X", Some("5.5 6.5".to_string()), 0).unwrap();
    assert_eq!(
        s,
        Signatur::Punkt {
            id: "DE_0010000000000".to_string(),
            fuer: "X".to_string(),
            pos: "5.5 6.5".to_string(),
            signaturnummer: "3478".to_string(),
            art: "Sumpf".to_string(),
        }
    );
    assert!(s.get_xml().contains("<gml:pos>5.5 6.5</gml:pos>"));
    assert!(s.get_xml().contains("<art>Sumpf</art>"));
}

#[test]
fn symbols_of_each_use() {
    let nr = |k: &str| match Signatur::from_kuerzel(k, "X", Some("0 0".to_string()), 1) {
        Some(Signatur::Punkt { signaturnummer, art, .. }) => Some((signaturnummer, art, String::new())),
        Some(Signatur::Flaeche { signaturnummer, art, positionierungsregel, .. }) => {
            Some((signaturnummer, art, positionierungsregel))
        }
        None => None,
    };
    let t = |a: &str, b: &str, c: &str| Some((a.to_string(), b.to_string(), c.to_string()));
    assert_eq!(nr("WAS"), t("3490", "FKT", ""));
    assert_eq!(nr("LH"), t("3458", "VEG", "1104"));
    assert_eq!(nr("NH"), t("3460", "VEG", "1104"));
    assert_eq!(nr("LNH"), t("3462", "VEG", "1104"));
    assert_eq!(nr("GR"), t("3413", "VEG", "1100"));
    assert_eq!(nr("GRÜ"), t("3413", "FKT", "1100"));
    assert_eq!(nr("G"), t("3421", "VEG", "1100"));
    assert_eq!(nr("A"), None);
    assert_eq!(nr("wald"), None);
}

#[test]
fn position_node_holds_all_rings() {
    let p = PolygonText {
        hash: 0,
        outer_ring: "OUTER".to_string(),
        inner_rings: vec!["IN1".to_string(), "IN2".to_string()],
        label_pos: None,
    };
    let s = polygon_to_position_node(&p);
    assert!(s.contains("<gml:exterior>\n            OUTER\n                                    </gml:exterior>"));
    assert!(s.contains("<gml:interior>\n            IN1\n"));
    assert!(s.contains("</gml:interior>\n            \r\n\n                                    <gml:interior>\n            IN2"));
    assert!(!s.contains("$$"));
    assert!(s.starts_with("\n                    <position>"));
}

#[test]
fn insert_node_lists_the_attributes() {
    let s = get_insert_xml_node(
        "AX_Wald",
        "DE_0010000000004",
        &[("vegetationsmerkmal", "1100"), ("name", "Heide")],
        "2024-05-01T10:00:00Z",
        &poly(1, None),
    );
    assert!(s.contains("<AX_Wald gml:id=\"DE_0010000000004\">"));
    assert!(s.contains("</AX_Wald>"));
    assert!(s.contains("urn:adv:oid:DE_0010000000004"));
    assert!(s.contains("<datumDerLetztenUeberpruefung>2024-05-01T10:00:00Z</datumDerLetztenUeberpruefung>"));
    assert!(s.contains("<vegetationsmerkmal>1100</vegetationsmerkmal>\r\n<name>Heide</name>"));
    assert!(s.contains("<ring>o</ring>"));
    assert!(!s.contains("$$"));
}

fn member(poly_count: usize) -> MemberObject {
    let mut extra = SortedMap::new();
    extra.insert("identifier".to_string(), "x".to_string());
    extra.insert("funktion".to_string(), "2000".to_string());
    extra.insert("datumDerLetztenUeberpruefung".to_string(), "y".to_string());
    MemberObject {
        member_type: "AX_Wohnbauflaeche".to_string(),
        beginnt: "2019-03-04T05:06:07Z".to_string(),
        dient_zur_darstellung_von: None,
        ist_bestandteil_von: Some("urn:a".to_string()),
        hat: None,
        ist_teil_von: None,
        extra_attribute: extra,
        poly: (0..poly_count).map(|i| poly(i as u64, None)).collect(),
    }
}

#[test]
fn replace_node_keeps_attributes_and_references() {
    let s = get_replace_xml_node("DEBBAL01", &member(1), &poly(9, None));
    assert!(s.contains("<AX_Wohnbauflaeche gml:id=\"DEBBAL0120190304T050607Z\">"));
    assert!(s.contains("<fes:ResourceId rid=\"DEBBAL0120190304T050607Z\"/>"));
    assert!(s.contains("urn:adv:oid:DEBBAL01</gml:identifier>"));
    assert!(s.contains("<beginnt>2019-03-04T05:06:07Z</beginnt>"));
    assert!(s.contains(
        "\n                    <funktion>2000</funktion>\r\n                    <istBestandteilVon href=\"urn:a\"/>\n"
    ));
    assert!(!s.contains("identifier>x<"));
    assert!(!s.contains(">y<"));
    assert!(!s.contains("$$"));
}

#[test]
fn operation_ids() {
    assert_eq!(delete("D1", "WALD", 42).get_str_id(), "Delete:D1::AX_Wald::WALD::42");
    assert_eq!(insert("GR", 7).get_str_id(), "Insert:AX_Wald::GR::7");
    let r = Operation::Replace {
        obj_id: "R".to_string(),
        ebene: "E".to_string(),
        kuerzel: "K".to_string(),
        poly_alt: poly(1, None),
        poly_neu: poly(18446744073709551615, None),
    };
    assert_eq!(r.get_str_id(), "Replace:R::E::K::1::18446744073709551615");
    assert_eq!(r.get_geom_kuerzel_pair(), (18446744073709551615, "K".to_string()));
    assert_eq!(delete("D1", "WALD", 42).get_geom_kuerzel_pair(), (42, "WALD".to_string()));
}

#[test]
fn identical_delete_and_insert_drop_out() {
    let input = vec![delete("D1", "WALD", 5), insert("WALD", 5), insert("GR", 5), delete("D2", "GR", 6)];
    let out = filter_identic_operations(&input);
    assert_eq!(out, vec![insert("GR", 5), delete("D2", "GR", 6)]);
    assert_eq!(filter_identic_operations(&out), out);
}

fn catalogue() -> NutzungsArtMap {
    let mut m = NutzungsArtMap::new();
    m.insert(
        "WALD".to_string(),
        NutzungsArt {
            atr: "AX_Ebene=AX_Wald,vegetationsmerkmal=1100".to_string(),
            wia: String::new(),
            nab: String::new(),
            nak: String::new(),
            bez: String::new(),
            def: String::new(),
            ken: String::new(),
            oak: String::new(),
            ehb: String::new(),
        },
    );
    m
}

#[test]
fn request_entries_for_operations() {
    let mut objects = SortedMap::new();
    objects.insert("D1".to_string(), member(1));
    objects.insert("D2".to_string(), member(0));
    let objects = NasXmlObjects { objects };
    let ops = vec![delete("D1", "WALD", 1), delete("D2", "GR", 2), delete("D3", "GR", 3), insert("WALD", 4)];
    let out = operations_to_xml_file_internal(&ops, &objects, "2024-01-02T03:04:05Z", &catalogue());
    assert_eq!(out.len(), 3);
    assert_eq!(
        out[0].0,
        "            <wfs:Delete typeName=\"AX_Wohnbauflaeche\"><fes:Filter><fes:ResourceId rid=\"D120190304T050607Z\" /></fes:Filter></wfs:Delete>"
    );
    assert_eq!(out[0].1, del("D1"));
    assert!(out[1].0.contains("<AX_Wald gml:id=\"DE_0010000000003\">"));
    assert!(out[1].0.contains("<vegetationsmerkmal>1100</vegetationsmerkmal>"));
    assert!(!out[1].0.contains("<AX_Ebene>"));
    assert_eq!(out[1].1, ins("DE_0010000000003"));
    assert!(out[2].0.contains("<AP_Darstellung gml:id=\"DE_0010000000006\">"));
    assert!(out[2].0.contains("urn:adv:oid:DE_0010000000003\"/>"));
    assert_eq!(out[2].1, ins("DE_0010000000003"));
}

use tnviewer::david::insert_gebaeude_delete;
use tnviewer::screen::Aenderungen;
use tnviewer::ui::GebaeudeLoeschen;

#[test]
fn building_deletions_appended() {
    let mut g = SortedMap::new();
    g.insert("b".to_string(), GebaeudeLoeschen { gebaeude_id: "DEBB2".to_string(), flst_id: Vec::new() });
    g.insert("a".to_string(), GebaeudeLoeschen { gebaeude_id: "DEBB1".to_string(), flst_id: Vec::new() });
    let a = Aenderungen { gebaeude_loeschen: g, na_definiert: SortedMap::new(), na_polygone_neu: SortedMap::new() };
    let leer = PolygonText { hash: 0, outer_ring: String::new(), inner_rings: Vec::new(), label_pos: None };
    let out = insert_gebaeude_delete(&a, &[insert("WALD", 1)], &leer);
    assert_eq!(out.len(), 3);
    assert_eq!(out[0], insert("WALD", 1));
    assert_eq!(out[1].get_str_id(), "Delete:DEBB1::AX_Gebaeude::::0");
    assert_eq!(out[2].get_str_id(), "Delete:DEBB2::AX_Gebaeude::::0");
}
