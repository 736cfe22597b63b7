use tnviewer::xlsx::{FlstIdParsed, FlstIdParsedNumber};

#[test]
fn test_flst_parsing() {
    let s1 = FlstIdParsed::from_str("12 1180 003 00010 0000 00");
    let s2 = FlstIdParsed::from_str("12118000300010______");
    let target = FlstIdParsed {
        land: "12".to_string(),
        gemarkung: "1180".to_string(),
        flur: "003".to_string(),
        flst_zaehler: "00010".to_string(),
        flst_nenner: "0000".to_string(),
        padding: "00".to_string(),
    };
    assert_eq!(s1, s2);
    assert_eq!(s1, target);
}

#[test]
fn parse_num_drops_zero_nenner() {
    let p = FlstIdParsed::from_str("12-1180-003-00261/0000").parse_num().unwrap();
    assert_eq!(
        p,
        FlstIdParsedNumber { land: 12, gemarkung: 1180, flur: 3, flst_zaehler: 261, flst_nenner: None }
    );
    assert_eq!(p.format_nice(), "12-1180-003-00261/00000");
    assert_eq!(p.format_start_str(), "12118000300261");
    assert_eq!(p.format_str(), "261");
}

use tnviewer::csv::parse_csv;
use tnviewer::xlsx::{format_flst_liste, get_alle_flst};

fn num(flur: usize, z: usize, n: Option<usize>) -> FlstIdParsedNumber {
    FlstIdParsedNumber { land: 12, gemarkung: 1180, flur, flst_zaehler: z, flst_nenner: n }
}

#[test]
fn from_str_defaults_for_non_numbers() {
    let p = FlstIdParsed::from_str("ab");
    assert_eq!(p.land, "12");
    assert_eq!(p.gemarkung, "0000");
    assert_eq!(p.flur, "001");
    assert_eq!(p.flst_zaehler, "00001");
    assert_eq!(p.flst_nenner, "0000");
    assert_eq!(p.padding, "00");
    assert_eq!(p.to_nice_string(), "12-0000-001-00001/0000");
}

#[test]
fn from_str_pads_short_numbers() {
    let p = FlstIdParsed::from_str("1-7-3-5/2");
    assert_eq!(p.land, "17");
    assert_eq!(p.gemarkung, "0352");
    assert_eq!(p.flur, "001");
    assert_eq!(p.flst_zaehler, "00001");
    let q = FlstIdParsed::from_str("12-1180-3");
    assert_eq!(q.flur, "003");
}

#[test]
fn formats_of_a_parcel() {
    let p = num(3, 10, Some(2));
    assert_eq!(p.format_str(), "10/2");
    assert_eq!(p.format_dxf(), "10_2");
    assert_eq!(p.format_str_zero(), "10/2");
    assert_eq!(p.format_start_str(), "1211800030001000002");
    assert_eq!(p.format_nice(), "12-1180-003-00010/00002");
    assert_eq!(p.get_flur(), "3");
    let q = num(3, 10, None);
    assert_eq!(q.format_str(), "10");
    assert_eq!(q.format_dxf(), "10");
    assert_eq!(q.format_str_zero(), "10/0");
    let z = num(3, 10, Some(0));
    assert_eq!(z.format_str(), "10");
}

#[test]
fn flst_liste_one_flur() {
    assert_eq!(format_flst_liste(vec![num(3, 10, None), num(3, 4, Some(2))]), "10/0,4/2");
}

#[test]
fn flst_liste_several_fluren() {
    assert_eq!(
        format_flst_liste(vec![num(5, 1, None), num(3, 4, Some(2)), num(5, 2, None)]),
        "FLUR 3: 4/2\r\nFLUR 5: 1/0,2/0"
    );
    assert_eq!(format_flst_liste(vec![]), "");
}

#[test]
fn alle_flst_of_a_data_set() {
    let d = parse_csv(
        "ID;N;E\n12118000300010______;W;A\n12118000400011______;W;B\nxx;W;C",
        "ID",
        "N",
        "E",
        ";",
        true,
    )
    .unwrap();
    assert_eq!(get_alle_flst(&d), "FLURSTUECKE:\r\nFLUR 1: 1/0\r\nFLUR 3: 10/0\r\nFLUR 4: 11/0\r\n");
}

#[test]
fn every_identifier_reads_as_a_number() {
    for s in ["", "xyz!", "12", "99-9999-999-99999/9999", "+1+2"] {
        assert!(FlstIdParsed::from_str(s).parse_num().is_some(), "{s}");
    }
}

#[test]
fn long_form_reads_back() {
    for s in ["12 1180 003 00010 0000 99", "1-7-3-5/2", "ab", "12118000300261000777"] {
        let p = FlstIdParsed::from_str(s);
        let q = FlstIdParsed::from_str(&p.to_nice_string());
        assert_eq!(q, FlstIdParsed { padding: "00".to_string(), ..p.clone() }, "{s}");
    }
}
