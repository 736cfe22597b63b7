use tnviewer::grafbat::{generate_grafbat_out, GrafbatAngledPoint, GrafbatPoint, GrafbatRiss, GrafbatText};
use tnviewer::nas::{get_proj_string, parse_nas_xml};
use tnviewer::sorted_map::SortedMap;
use tnviewer::xml::XmlNode;

fn node(t: &str, attrs: &[(&str, &str)], children: Vec<XmlNode>, text: Option<&str>) -> XmlNode {
    let mut a = SortedMap::new();
    for (k, v) in attrs {
        a.insert(k.to_string(), v.to_string());
    }
    XmlNode { node_type: t.to_string(), attributes: a, children, text: text.map(|s| s.to_string()) }
}

fn crs_node(standard: &str, href: &str) -> XmlNode {
    node(
        "AA_Koordinatenreferenzsystemangaben",
        &[],
        vec![node("standard", &[], vec![], Some(standard)), node("crs", &[("href", href)], vec![], None)],
        None,
    )
}

fn members() -> Vec<XmlNode> {
    vec![
        node(
            "member",
            &[],
            vec![node(
                "AX_Gebaeude",
                &[("id", "DE1")],
                vec![
                    node("gebaeudefunktion", &[], vec![], Some("2000")),
                    node("position", &[], vec![], None),
                    node("id", &[], vec![], Some("child")),
                ],
                None,
            )],
            None,
        ),
        node("member", &[], vec![node("AX_Wald", &[("id", "DE2")], vec![], None)], None),
        node("member", &[], vec![node("AX_Gebaeude", &[], vec![], None)], None),
        node("member", &[], vec![node("AX_Gebaeude", &[("id", "DE3")], vec![], None)], None),
    ]
}

#[test]
fn nas_import_keeps_whitelisted_objects() {
    let mut children = vec![crs_node("false", "urn:adv:crs:ETRS89_UTM32"), crs_node("true", "urn:adv:crs:ETRS89_UTM33")];
    children.extend(members());
    let xml = vec![node("AX_Bestandsdatenauszug", &[], children, None)];
    let wl = vec!["AX_Gebaeude".to_string()];
    let f = parse_nas_xml(&xml, &wl, &vec![2, 1, 1, 0]).unwrap();
    assert_eq!(f.crs, get_proj_string("ETRS89_UTM33").unwrap());
    assert_eq!(f.ebenen.len(), 1);
    let objs = f.ebenen.get(&"AX_Gebaeude".to_string()).unwrap();
    assert_eq!(objs.len(), 2);
    let a = &objs[1].attributes;
    assert_eq!(a.len(), 3);
    assert_eq!(a.get(&"gebaeudefunktion".to_string()), Some(&"2000".to_string()));
    // the object's own attribute wins over a child's text
    assert_eq!(a.get(&"id".to_string()), Some(&"DE1".to_string()));
    assert_eq!(a.get(&"AX_Ebene".to_string()), Some(&"AX_Gebaeude".to_string()));
}

#[test]
fn nas_import_errors() {
    let xml = vec![node("root", &[], members(), None)];
    let wl = vec!["AX_Gebaeude".to_string()];
    assert_eq!(
        parse_nas_xml(&xml, &wl, &vec![1, 1, 1, 1]).unwrap_err(),
        "kein Koordinatenreferenzsystem gefunden (AA_Koordinatenreferenzsystemangaben = standard)"
    );
    let xml = vec![node("root", &[], vec![crs_node("true", "urn:adv:crs:FOO")], None)];
    assert_eq!(parse_nas_xml(&xml, &wl, &vec![]).unwrap_err(), "Unbekanntes CRS: FOO");
}

fn t(x: &str, k: &str, bezug: bool) -> GrafbatText {
    GrafbatText {
        x: x.to_string(),
        y: "2".to_string(),
        ref_x: "8".to_string(),
        ref_y: "9".to_string(),
        bezug,
        kuerzel: k.to_string(),
    }
}

fn p(x: &str, y: &str) -> GrafbatPoint {
    GrafbatPoint { x: x.to_string(), y: y.to_string() }
}

fn empty_riss() -> GrafbatRiss {
    GrafbatRiss {
        texte_alt: vec![],
        texte_neu: vec![],
        texte_bleibt: vec![],
        flurstueck_texte: vec![],
        flur_texte: vec![],
        rote_linien: vec![],
        punkte_untergehend: vec![],
        min_x: "0".to_string(),
        min_y: "1".to_string(),
        max_x: "5".to_string(),
        hoehe: "3".to_string(),
    }
}

#[test]
fn grafbat_ids_and_groups_per_riss() {
    let mut r1 = empty_riss();
    r1.texte_alt = vec![t("1", "GR", true)];
    r1.flur_texte = vec![t("4", "Flur 3", true)];
    r1.rote_linien = vec![vec![p("a", "b"), p("c", "d"), p("e", "f")]];
    r1.punkte_untergehend = vec![GrafbatAngledPoint { x: "x".to_string(), y: "y".to_string(), gon: "50".to_string() }];
    let r2 = empty_riss();
    let mut risse = SortedMap::new();
    risse.insert(7usize, r1);
    risse.insert(12usize, r2);
    let out = generate_grafbat_out("P {prjname} {{x}}\nU {uuid}\r\nB {bbox}\n", "A1", "u-1", "0,0,1,1", &risse);
    let lines: Vec<&str> = out.split("\r\n").collect();
    let expected = vec![
        "P A1 {x}",
        "U u-1",
        "B 0,0,1,1",
        "TE2: ,1600.9101.4140,1,2,8,9,100,0,0,0,0,,0,,,,,,,j,,,",
        "  TX2: GR",
        "TE3, ,0: ,1600.9103.4200,4,2,,,100,0,0,4,0,,0,,,,,,,n,,,",
        "  TX3: Flur 3",
        "PK2: ,1600.9104.0,a,b,,,0,0,,,,1005,09.10.24,0,,0,,0,0,,1,0,0,0,,,,,,",
        "PK3: ,1600.9104.0,c,d,,,0,0,,,,1005,09.10.24,0,,0,,0,0,,1,0,0,0,,,,,,",
        "LI2: PK=2,PK=3,1600.9104.1,,,,0,0,,,,",
        "PK4: ,1600.9104.0,c,d,,,0,0,,,,1005,09.10.24,0,,0,,0,0,,1,0,0,0,,,,,,",
        "PK5: ,1600.9104.0,e,f,,,0,0,,,,1005,09.10.24,0,,0,,0,0,,1,0,0,0,,,,,,",
        "LI3: PK=4,PK=5,1600.9104.1,,,,0,0,,,,",
        "PK6: ,1600.401.20,x,y,,50,0,0,,,,1007,09.10.24,0,,0,,0,0,,1,0,0,0,,,,,,",
        "MA9: RISS007-GESAMT,,\"\",date:08.10.24,depend:1,neu:1",
        "  MR: LI=2",
        "  MR: LI=3",
        "  MR: PK=2",
        "  MR: PK=3",
        "  MR: PK=4",
        "  MR: PK=5",
        "  MR: PK=6",
        "  MR: TE=2",
        "  MR: TE=3",
        "MA2: Riss7-Texte-Alt,,\"\",date:08.10.24,depend:1,neu:1",
        "  MR: TE=2",
        "MA3: Riss7-Texte-Neu,,\"\",date:08.10.24,depend:1,neu:1",
        "MA4: Riss7-Texte-Bleibt,,\"\",date:08.10.24,depend:1,neu:1",
        "MA5: Riss7-Texte-Flurstuecke,,\"\",date:08.10.24,depend:1,neu:1",
        "MA6: Riss7-Texte-Flur,,\"\",date:08.10.24,depend:1,neu:1",
        "  MR: TE=3",
        "MA7: Riss7-Linien-Rot,,\"\",date:08.10.24,depend:1,neu:1",
        "  MR: LI=2",
        "  MR: LI=3",
        "  MR: PK=2",
        "  MR: PK=3",
        "  MR: PK=4",
        "  MR: PK=5",
        "MA8: Riss7-Punkte-Untergehend,,\"\",date:08.10.24,depend:1,neu:1",
        "  MR: PK=6",
        "PB7: Riss7,1600.873.0,0,1,5,1,3,0",
        "MA17: RISS012-GESAMT,,\"\",date:08.10.24,depend:1,neu:1",
        "MA10: Riss12-Texte-Alt,,\"\",date:08.10.24,depend:1,neu:1",
        "MA11: Riss12-Texte-Neu,,\"\",date:08.10.24,depend:1,neu:1",
        "MA12: Riss12-Texte-Bleibt,,\"\",date:08.10.24,depend:1,neu:1",
        "MA13: Riss12-Texte-Flurstuecke,,\"\",date:08.10.24,depend:1,neu:1",
        "MA14: Riss12-Texte-Flur,,\"\",date:08.10.24,depend:1,neu:1",
        "MA15: Riss12-Linien-Rot,,\"\",date:08.10.24,depend:1,neu:1",
        "MA16: Riss12-Punkte-Untergehend,,\"\",date:08.10.24,depend:1,neu:1",
        "PB12: Riss12,1600.873.0,0,1,5,1,3,0",
    ];
    assert_eq!(lines, expected);
}
