use tnviewer::csv::parse_csv;
use tnviewer::geograf::ExportFile;
use tnviewer::nas::{
    default_etrs33, get_proj_string, Relate, SvgPolyInternalResult, UseRadians,
};
use tnviewer::pdf::default_fill;
use tnviewer::xml_templates::{
    generate_antragsbegleitblatt_docx, generate_bearbeitungsliste_xlsx,
    generate_fortfuehrungsbeleg_docx, AntragsbegleitblattInfo, AntragsbegleitblattTemplates,
    BearbeitungslisteInfo, FortfuehrungsbelegInfo,
};
use tnviewer::zip::strip_prefix;
use tnviewer::{get_main_gemarkung, validate_format_flst_id};

#[test]
fn projections_by_name() {
    assert_eq!(default_etrs33(), "+proj=utm +ellps=GRS80 +units=m +no_defs +zone=33");
    assert_eq!(
        get_proj_string("ETRS89_UTM32"),
        Some("+proj=utm +ellps=GRS80 +units=m +no_defs +zone=32".to_string())
    );
    assert_eq!(get_proj_string("ETRS89_UTM60"), None);
    assert_eq!(get_proj_string("WGS84"), None);
}

#[test]
fn radians_flags() {
    assert!(UseRadians::ForSource.for_source());
    assert!(!UseRadians::ForSource.for_target());
    assert!(UseRadians::ForSourceAndTarget.for_target());
    assert!(!UseRadians::Neither.for_source());
}

fn side(num_points: usize, touching: usize, inside: usize, on_line: bool) -> SvgPolyInternalResult {
    SvgPolyInternalResult {
        num_points,
        points_touching_lines: touching,
        points_inside_other_poly: inside,
        all_points_are_on_line: on_line,
    }
}

#[test]
fn polygon_relations() {
    let r = Relate { is_1: side(4, 2, 0, false), is_2: side(5, 1, 0, false) };
    assert!(r.touches_other_poly_outside());
    assert!(r.only_touches());
    assert!(!r.overlaps());
    assert!(!r.is_equal());
    assert!(!r.a_contained_in_b());
    let c = Relate { is_1: side(4, 1, 3, false), is_2: side(6, 0, 0, true) };
    assert!(c.a_contained_in_b());
    assert!(!c.b_contained_in_a());
    assert!(c.overlaps());
    assert!(c.is_equal());
    assert!(!c.only_touches());
    assert!(c.is_1.overlaps_other_poly());
    assert!(side(3, 5, 0, false).is_contained_in_other_poly());
}

#[test]
fn archive_paths() {
    assert_eq!(strip_prefix("top", "top"), None);
    assert_eq!(strip_prefix("top/word/x.xml", "top"), Some("word/x.xml".to_string()));
    assert_eq!(strip_prefix("other/x", "top"), Some("other/x".to_string()));
    assert_eq!(strip_prefix("topx/y", "top"), Some("topx/y".to_string()));
}

#[test]
fn main_gemarkung_of_a_data_set() {
    let d = parse_csv("ID;N;E\nab;W;A\n12118000300010______;W;B", "ID", "N", "E", ";", true).unwrap();
    assert_eq!(get_main_gemarkung(&d), 1180);
    let x = parse_csv("ID;N;E\nab;W;A", "ID", "N", "E", ";", true).unwrap();
    assert_eq!(get_main_gemarkung(&x), 0);
    let e = parse_csv("ID;N;E\n12117500300010______;W;B", "ID", "N", "E", ";", true).unwrap();
    assert_eq!(get_main_gemarkung(&e), 1175);
    let empty = parse_csv("", "ID", "N", "E", ";", true).unwrap();
    assert_eq!(get_main_gemarkung(&empty), 0);
}

#[test]
fn long_form_of_an_identifier() {
    assert_eq!(validate_format_flst_id("12118000300010______".to_string()), "12-1180-003-00010/00000");
    assert_eq!(validate_format_flst_id("1211800030001000020000".to_string()), "12-1180-003-00010/00002");
}

#[test]
fn form_document_is_filled() {
    let info = AntragsbegleitblattInfo {
        datum: "01.02.2024".to_string(),
        antragsnr: "7".to_string(),
        gemarkung: "Gm".to_string(),
        gemarkungsnummer: "1180".to_string(),
        fluren_bearbeitet: "1 - 2".to_string(),
        flurstuecke_bearbeitet: vec![("Fl. 1:".to_string(), "4, 5".to_string())],
        eigentuemer: vec![("Hans Müller".to_string(), vec!["Fl. 1: 4".to_string(), "Fl. 2: 9".to_string()])],
    };
    let templates = AntragsbegleitblattTemplates {
        document: "<d><w:t>%%REPLACEME_DATUM%%</w:t>|<w:t>%%ANTRAGSNR_NUR_NUMMER%%</w:t>|<!-- %%FLURSTUECKE%% -->|<!-- %%ROWS%% --></d>".to_string(),
        flurstuecke: "<l><w:t>%%FLUR%%</w:t><w:t>%%FLURSTUECKE%%</w:t></l>".to_string(),
        zeile: "<r><w:t>%tn1%</w:t><w:t>%%FLURSTUECKE%%</w:t></r>".to_string(),
    };
    let base: Vec<ExportFile> = vec![(None, "[Content_Types].xml".to_string(), vec![1, 2])];
    let files = generate_antragsbegleitblatt_docx(&info, &templates, base);
    assert_eq!(files.len(), 2);
    assert_eq!(files[1].0, Some("word".to_string()));
    assert_eq!(files[1].1, "document.xml");
    assert_eq!(
        String::from_utf8(files[1].2.clone()).unwrap(),
        "<d><w:t>01.02.2024</w:t>|<w:t>7</w:t>|<l><w:t>Fl. 1:</w:t><w:t>4, 5</w:t></l>|<r><w:t>Hans Müller</w:t><w:t>Fl. 1: 4, Fl. 2: 9</w:t></r></d>"
    );
}

#[test]
fn unfinished_forms_are_empty() {
    assert!(generate_bearbeitungsliste_xlsx(&BearbeitungslisteInfo { datum: "x".to_string() }).is_empty());
    assert!(generate_fortfuehrungsbeleg_docx(&FortfuehrungsbelegInfo { datum: "x".to_string() }).is_empty());
}

#[test]
fn areas_are_filled_by_default() {
    assert!(default_fill());
}

use tnviewer::konfiguration::{insert_layer_front, move_layer};

fn strs(v: &[&str]) -> Vec<String> {
    v.iter().map(|s| s.to_string()).collect()
}

#[test]
fn layers_move_and_delete() {
    let mut o = strs(&["a", "b", "c"]);
    assert!(!move_layer(&mut o, "b", "move-up"));
    assert_eq!(o, strs(&["b", "a", "c"]));
    assert!(!move_layer(&mut o, "b", "move-up"));
    assert_eq!(o, strs(&["b", "a", "c"]));
    assert!(!move_layer(&mut o, "a", "move-down"));
    assert_eq!(o, strs(&["b", "c", "a"]));
    assert!(!move_layer(&mut o, "a", "move-down"));
    assert_eq!(o, strs(&["b", "c", "a"]));
    assert!(!move_layer(&mut o, "x", "move-up"));
    assert!(!move_layer(&mut o, "c", "sideways"));
    assert_eq!(o, strs(&["b", "c", "a"]));
    let mut d = strs(&["b", "a", "b"]);
    assert!(move_layer(&mut d, "b", "delete"));
    assert_eq!(d, strs(&["a"]));
}

#[test]
fn new_layers_come_first() {
    let mut o = strs(&["a"]);
    insert_layer_front(&mut o, "n".to_string());
    assert_eq!(o, strs(&["n", "a"]));
}
