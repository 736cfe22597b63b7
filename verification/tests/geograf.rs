use std::cmp::Ordering;
use tnviewer::csv::Status;
use tnviewer::geograf::{
    append_shp, format_fluren, get_modified_fluren_flst, join_fluren, EigentuemerClean,
    FlstEigentuemer, HeaderCalcConfig, ShpReturn,
};
use tnviewer::sorted_map::SortedMap;
use tnviewer::xlsx::FlstIdParsedNumber;

fn herr(v: &str, n: &str) -> EigentuemerClean {
    EigentuemerClean::Herr { vorname: v.to_string(), nachname: n.to_string() }
}

#[test]
fn owner_from_text() {
    assert_eq!(EigentuemerClean::from_str("Müller, Hans (Herr)"), herr("Hans", "Müller"));
    assert_eq!(EigentuemerClean::from_str("Schmidt, Anna (Frau)"), herr("Anna", "Schmidt"));
    assert_eq!(
        EigentuemerClean::from_str(" Bau GmbH (Firma) "),
        EigentuemerClean::Firma { name: "Bau GmbH".to_string() }
    );
    assert_eq!(
        EigentuemerClean::from_str(" Stadt Cottbus "),
        EigentuemerClean::Sonstige { name: "Stadt Cottbus".to_string() }
    );
    assert_eq!(EigentuemerClean::from_str("Herr Meier"), herr("", "Herr Meier"));
}

#[test]
fn owner_format_and_rank() {
    assert_eq!(herr("Hans", "Müller").format(), "Hans Müller");
    let f = EigentuemerClean::Firma { name: " X AG ".to_string() };
    assert_eq!(f.format(), "X AG");
    assert_eq!(f.rank(), 0);
    assert_eq!(EigentuemerClean::Sonstige { name: "s".to_string() }.rank(), 1);
    assert_eq!(herr("a", "b").rank(), 2);
}

#[test]
fn owner_order() {
    let firma = EigentuemerClean::Firma { name: "Z".to_string() };
    let sonst = EigentuemerClean::Sonstige { name: "A".to_string() };
    let anna = herr("Anna", "B");
    let frau_anna = EigentuemerClean::Frau { vorname: "Anna".to_string(), nachname: "B".to_string() };
    let bert = herr("Bert", "A");
    assert_eq!(firma.order(&sonst), Ordering::Less);
    assert_eq!(sonst.order(&anna), Ordering::Less);
    assert_eq!(anna.order(&firma), Ordering::Greater);
    assert_eq!(anna.order(&bert), Ordering::Less);
    assert_eq!(anna.order(&frau_anna), Ordering::Equal);
    assert_eq!(bert.order(&bert), Ordering::Equal);
}

#[test]
fn fluren_ranges() {
    assert_eq!(join_fluren(&[]), None);
    assert_eq!(join_fluren(&[7]), Some("7".to_string()));
    assert_eq!(join_fluren(&[5, 1, 2, 3, 3]), Some("1 - 3, 5".to_string()));
    assert_eq!(join_fluren(&[9, 4, 10, 6]), Some("4, 6, 9 - 10".to_string()));
}

#[test]
fn fluren_first_and_last() {
    assert_eq!(format_fluren(&[]), "");
    assert_eq!(format_fluren(&["3".to_string()]), "3");
    assert_eq!(format_fluren(&["3".to_string(), "4".to_string(), "8".to_string()]), "3 - 8");
}

fn num(gemarkung: usize, flur: usize, z: usize) -> FlstIdParsedNumber {
    FlstIdParsedNumber { land: 12, gemarkung, flur, flst_zaehler: z, flst_nenner: None }
}

fn entry(status: Status) -> FlstEigentuemer {
    FlstEigentuemer {
        nutzung: String::new(),
        status,
        eigentuemer: vec![],
        notiz: String::new(),
        auto_notiz: String::new(),
    }
}

#[test]
fn modified_parcels_by_flur() {
    let mut m: SortedMap<FlstIdParsedNumber, FlstEigentuemer> = SortedMap::new();
    m.insert(num(1180, 2, 5), entry(Status::AenderungKeineBenachrichtigung));
    m.insert(num(1180, 2, 3), entry(Status::AenderungMitBenachrichtigung));
    m.insert(num(1180, 1, 9), entry(Status::Bleibt));
    m.insert(num(1180, 4, 1), entry(Status::AenderungMitBenachrichtigung));
    m.insert(num(1175, 4, 2), entry(Status::AenderungMitBenachrichtigung));
    let r = get_modified_fluren_flst(&m, 1180);
    assert_eq!(r.len(), 2);
    assert_eq!(r.get(&2), Some(&vec![num(1180, 2, 3), num(1180, 2, 5)]));
    assert_eq!(r.get(&4), Some(&vec![num(1180, 4, 1)]));
    assert_eq!(r.get(&1), None);
}

fn config(fluren: &[(usize, Vec<FlstIdParsedNumber>)]) -> HeaderCalcConfig {
    let mut inner = SortedMap::new();
    for (f, v) in fluren {
        inner.insert(*f, v.clone());
    }
    let mut g = SortedMap::new();
    g.insert(1180, inner);
    HeaderCalcConfig { gemarkungs_nr: 1180, gemarkungen: g }
}

#[test]
fn header_texts() {
    let c = config(&[(3, vec![num(1180, 3, 7), num(1180, 3, 2), num(1180, 3, 7)])]);
    assert_eq!(c.get_flst_string(), "2, 7");
    assert_eq!(c.get_fluren_string(), "3");
    assert_eq!(c.get_fluren_len(), 1);
    let many = config(&[(3, vec![num(1180, 3, 1), num(1180, 3, 2), num(1180, 3, 3), num(1180, 3, 4)])]);
    assert_eq!(many.get_flst_string(), "diverse");
    let two = config(&[(1, vec![]), (2, vec![])]);
    assert_eq!(two.get_flst_string(), "diverse");
    assert_eq!(two.get_fluren_string(), "1, 2");
    let five = config(&[(1, vec![]), (2, vec![]), (3, vec![]), (4, vec![]), (5, vec![])]);
    assert_eq!(five.get_fluren_string(), "diverse");
    assert_eq!(five.get_fluren_len(), 5);
    let other = HeaderCalcConfig { gemarkungs_nr: 1, gemarkungen: SortedMap::new() };
    assert_eq!(other.get_flst_string(), "diverse");
    assert_eq!(other.get_fluren_string(), "");
    assert_eq!(other.get_fluren_len(), 0);
}

#[test]
fn shapefile_parts_are_appended() {
    let mut files = vec![(None, "x.txt".to_string(), vec![1u8])];
    let shp = ShpReturn { shp: vec![1], shx: vec![2], dbf: vec![3], prj: vec![4], cpg: vec![5] };
    append_shp(&mut files, "linien", Some("dir".to_string()), shp);
    assert_eq!(files.len(), 6);
    assert_eq!(files[1], (Some("dir".to_string()), "linien.shp".to_string(), vec![1]));
    assert_eq!(files[5], (Some("dir".to_string()), "linien.cpg".to_string(), vec![5]));
}

use tnviewer::geograf::{flur_label, group_by_eigentuemer, join_flst_sorted};

fn nn(flur: usize, z: usize, n: Option<usize>) -> FlstIdParsedNumber {
    FlstIdParsedNumber { land: 12, gemarkung: 1180, flur, flst_zaehler: z, flst_nenner: n }
}

#[test]
fn flst_ranges_by_whole_number() {
    assert_eq!(join_flst_sorted(&[], &[]), None);
    assert_eq!(join_flst_sorted(&[nn(1, 5, Some(2))], &[5]), Some("5/2".to_string()));
    assert_eq!(
        join_flst_sorted(&[nn(1, 1, None), nn(1, 2, None), nn(1, 3, None), nn(1, 5, None)], &[1, 2, 3, 5]),
        Some("1 - 3, 5".to_string())
    );
    assert_eq!(
        join_flst_sorted(&[nn(1, 10, Some(1)), nn(1, 10, Some(2)), nn(1, 11, None)], &[10, 10, 11]),
        Some("10/1, 10/2 - 11".to_string())
    );
    assert_eq!(
        join_flst_sorted(&[nn(1, 10, None), nn(1, 10, Some(0))], &[10, 10]),
        Some("10, 10".to_string())
    );
}

#[test]
fn flur_labels() {
    assert_eq!(flur_label(3), "Fl. 3: ");
    assert_eq!(flur_label(12), "Fl. 12: ");
}

fn owned_by(owners: Vec<EigentuemerClean>) -> FlstEigentuemer {
    FlstEigentuemer {
        nutzung: String::new(),
        status: Status::Bleibt,
        eigentuemer: owners,
        notiz: String::new(),
        auto_notiz: String::new(),
    }
}

#[test]
fn owners_grouped_with_their_parcels() {
    let firma = EigentuemerClean::Firma { name: "X".to_string() };
    let anna = herr("Anna", "B");
    let frau_anna = EigentuemerClean::Frau { vorname: "Anna".to_string(), nachname: "B".to_string() };
    let p1 = nn(1, 1, None);
    let p2 = nn(2, 5, None);
    let p3 = nn(1, 7, None);
    let mut m: SortedMap<FlstIdParsedNumber, FlstEigentuemer> = SortedMap::new();
    m.insert(p2, owned_by(vec![frau_anna.clone()]));
    m.insert(p1, owned_by(vec![anna.clone(), firma.clone()]));
    m.insert(p3, owned_by(vec![firma.clone(), firma.clone()]));
    let g = group_by_eigentuemer(&m);
    assert_eq!(g.len(), 2);
    assert_eq!(g[0].0, firma);
    assert_eq!(g[0].1.len(), 1);
    assert_eq!(g[0].1.get(&1), Some(&vec![p1, p3, p3]));
    assert_eq!(g[1].0, anna);
    assert_eq!(g[1].1.get(&1), Some(&vec![p1]));
    assert_eq!(g[1].1.get(&2), Some(&vec![p2]));
    assert!(group_by_eigentuemer(&SortedMap::new()).is_empty());
}

use tnviewer::csv::parse_csv;
use tnviewer::nas::{SplitNasXml, TaggedPolygon};

fn piece(flst: &str) -> TaggedPolygon {
    let mut a = SortedMap::new();
    a.insert("AX_Flurstueck".to_string(), flst.to_string());
    TaggedPolygon { attributes: a }
}

#[test]
fn header_parcels_from_the_split_data() {
    let csv = parse_csv("ID;N;E\n12118000300010______;W;B", "ID", "N", "E", ";", true).unwrap();
    let mut m = SortedMap::new();
    m.insert(
        "a".to_string(),
        vec![piece("12-1180-003-00010/0002"), piece("12-1180-003-00004/0000"), piece("kein")],
    );
    m.insert(
        "b".to_string(),
        vec![piece("12-1180-003-00004/0000"), piece("12-1180-005-00001/0000"), piece("12-0352-001-00001/0000")],
    );
    let split = SplitNasXml { crs: String::new(), flurstuecke_nutzungen: m };
    let h = HeaderCalcConfig::from_csv(&split, &csv, None);
    assert_eq!(h.gemarkungs_nr, 1180);
    // "kein" reads as the default identifier 12-0000-001-00001
    assert_eq!(h.gemarkungen.len(), 3);
    let g = h.gemarkungen.get(&1180).unwrap();
    assert_eq!(g.len(), 2);
    let flur3 = g.get(&3).unwrap();
    assert_eq!(flur3.iter().map(|f| (f.flst_zaehler, f.flst_nenner)).collect::<Vec<_>>(), vec![(4, None), (10, Some(2))]);
    assert_eq!(g.get(&5).unwrap().len(), 1);
    assert_eq!(h.get_fluren_string(), "3, 5");
    assert_eq!(h.get_flst_string(), "diverse");

    let inside = vec![piece("12-1180-003-00010/0002"), piece("12-1180-003-00004/0000")];
    let h = HeaderCalcConfig::from_csv(&split, &csv, Some(&inside));
    assert_eq!(h.gemarkungen.len(), 1);
    assert_eq!(h.get_flst_string(), "4, 10/2");
}

use tnviewer::geograf::{get_eigentuemer, join_flst, join_modified_fluren, CommaKey};

fn key_for(f: &FlstIdParsedNumber) -> CommaKey {
    // zaehler.nenner with one fractional digit, as a rank
    let n = f.flst_nenner.unwrap_or(0) as i64;
    CommaKey { rank: f.flst_zaehler as i64 * 10 + n, whole: f.flst_zaehler }
}

fn keys_for(v: &[FlstIdParsedNumber]) -> SortedMap<FlstIdParsedNumber, CommaKey> {
    let mut k = SortedMap::new();
    for f in v {
        k.insert(*f, key_for(f));
    }
    k
}

#[test]
fn flst_joined_in_number_order() {
    let v = vec![nn(1, 5, None), nn(1, 2, None), nn(1, 3, Some(1)), nn(1, 3, None), nn(1, 9, None)];
    let keys = keys_for(&v);
    assert_eq!(join_flst(&v, &keys), Some("2 - 3, 3/1, 5, 9".to_string()));
    assert_eq!(join_flst(&[], &keys), None);
    assert_eq!(join_flst(&[nn(1, 7, Some(2))], &keys_for(&[nn(1, 7, Some(2))])), Some("7/2".to_string()));
    // equal ranks keep their order
    let a = nn(1, 4, Some(1));
    let b = nn(1, 4, Some(2));
    let mut tie = SortedMap::new();
    tie.insert(a, CommaKey { rank: 41, whole: 4 });
    tie.insert(b, CommaKey { rank: 41, whole: 4 });
    assert_eq!(join_flst(&[b, a], &tie), Some("4/2, 4/1".to_string()));
    assert_eq!(join_flst(&[a, b], &tie), Some("4/1, 4/2".to_string()));
}

#[test]
fn owner_lines_by_flur() {
    let firma = EigentuemerClean::Firma { name: "X".to_string() };
    let anna = herr("Anna", "B");
    let p1 = nn(1, 3, None);
    let p2 = nn(1, 1, None);
    let p3 = nn(4, 8, Some(2));
    let mut m: SortedMap<FlstIdParsedNumber, FlstEigentuemer> = SortedMap::new();
    m.insert(p1, owned_by(vec![anna.clone()]));
    m.insert(p2, owned_by(vec![anna.clone(), firma.clone()]));
    m.insert(p3, owned_by(vec![anna.clone()]));
    let keys = keys_for(&[p1, p2, p3]);
    let r = get_eigentuemer(&m, &keys);
    assert_eq!(r.len(), 2);
    assert_eq!(r[0], (firma, vec!["Fl. 1: 1".to_string()]));
    assert_eq!(r[1], (anna, vec!["Fl. 1: 1, 3".to_string(), "Fl. 4: 8/2".to_string()]));
    assert!(get_eigentuemer(&SortedMap::new(), &keys).is_empty());
}

#[test]
fn modified_fluren_by_label() {
    let mut modified: SortedMap<usize, Vec<FlstIdParsedNumber>> = SortedMap::new();
    modified.insert(2, vec![nn(2, 7, None), nn(2, 6, None)]);
    modified.insert(10, vec![nn(10, 1, None)]);
    modified.insert(11, vec![]);
    let keys = keys_for(&[nn(2, 7, None), nn(2, 6, None), nn(10, 1, None)]);
    let r = join_modified_fluren(&modified, &keys);
    assert_eq!(r.len(), 2);
    assert_eq!(r.key_at(0), "Fl. 10: ");
    assert_eq!(r.value_at(0), "1");
    assert_eq!(r.key_at(1), "Fl. 2: ");
    assert_eq!(r.value_at(1), "6 - 7");
}

use tnviewer::csv::{CsvDataType, CsvDatensatz};
use tnviewer::xlsx::FlstIdParsed;
use tnviewer::geograf::{owners_of_records, splitflaechen_eigentuemer_map, splitflaechen_eigentuemer_map_modified};
use tnviewer::search::{NutzungsArt, NutzungsArtMap};
use tnviewer::ui::{AenderungenIntersection, AenderungenIntersections};

fn rec(e: &str, n: &str, notiz: &str) -> CsvDatensatz {
    CsvDatensatz { eigentuemer: e.to_string(), nutzung: n.to_string(), notiz: notiz.to_string() }
}

fn wald_catalogue() -> NutzungsArtMap {
    let art = |wia: &str| NutzungsArt {
        atr: String::new(),
        wia: wia.to_string(),
        nab: String::new(),
        nak: String::new(),
        bez: String::new(),
        def: String::new(),
        ken: String::new(),
        oak: String::new(),
        ehb: String::new(),
    };
    let mut m = SortedMap::new();
    m.insert("WALD".to_string(), art("Wald"));
    m.insert("GR".to_string(), art("Grünland"));
    m
}

#[test]
fn owners_read_sorted_and_once() {
    let ds = vec![
        rec("Müller, Hans (Herr)", "", ""),
        rec("X GmbH (Firma)", "", ""),
        rec("Müller, Hans (Herr)", "", ""),
        rec("Verein", "", ""),
    ];
    let r = owners_of_records(&ds);
    assert_eq!(
        r,
        vec![
            EigentuemerClean::Firma { name: "X GmbH".to_string() },
            EigentuemerClean::Sonstige { name: "Verein".to_string() },
            herr("Hans", "Müller"),
        ]
    );
    assert!(owners_of_records(&vec![]).is_empty());
}

#[test]
fn eigentuemer_map_from_records() {
    let a = "12-1180-003-00001/0000";
    let b = "12-1180-003-00002/0000";
    let mut m: SortedMap<String, Vec<CsvDatensatz>> = SortedMap::new();
    m.insert(a.to_string(), vec![rec("Müller, Hans (Herr)", "Wald", "n1"), rec("X GmbH (Firma)", "GR", "n2")]);
    m.insert(b.to_string(), vec![rec("Verein", "Wald", "")]);
    m.insert("12-1180-003-00003/0000".to_string(), vec![]);
    let data = CsvDataType::Old(m);
    let cat = wald_catalogue();
    let faces = AenderungenIntersections(vec![AenderungenIntersection {
        alt: "WALD".to_string(),
        neu: "GR".to_string(),
        flst_id: a.to_string(),
        flst_id_part: String::new(),
    }]);
    let r = splitflaechen_eigentuemer_map(&data, &faces, &[], &cat);
    assert_eq!(r.len(), 2);
    let pa = FlstIdParsed::from_str(a).parse_num().unwrap();
    let pb = FlstIdParsed::from_str(b).parse_num().unwrap();
    let ea = r.get(&pa).unwrap();
    assert_eq!(ea.nutzung, "Wald");
    assert_eq!(ea.notiz, "n1");
    assert_eq!(ea.status, Status::AenderungMitBenachrichtigung);
    assert_eq!(ea.eigentuemer, vec![EigentuemerClean::Firma { name: "X GmbH".to_string() }, herr("Hans", "Müller")]);
    assert_eq!(ea.auto_notiz, AenderungenIntersection::get_auto_notiz(&faces.0, a));
    assert!(!ea.auto_notiz.is_empty());
    let eb = r.get(&pb).unwrap();
    assert_eq!(eb.status, Status::Bleibt);
    assert_eq!(eb.auto_notiz, "");
    let only = splitflaechen_eigentuemer_map_modified(&data, &faces, &[], &cat);
    assert_eq!(only.len(), 1);
    assert!(only.get(&pa).is_some());
}
