use tnviewer::csv::{parse_csv, search_for_flst_id, CsvDataType, CsvDatensatz, Status};
use tnviewer::sorted_map::SortedMap;

fn new_entries(d: &CsvDataType) -> Vec<(String, Vec<String>, String, String)> {
    match d {
        CsvDataType::New(m) => (0..m.len())
            .map(|i| {
                let v = m.value_at(i);
                (m.key_at(i).clone(), v.eigentuemer.clone(), v.nutzung.clone(), v.notiz.clone())
            })
            .collect(),
        CsvDataType::Old(_) => panic!("expected the new form"),
    }
}

#[test]
fn parse_csv_groups_rows_by_id() {
    let csv = "ID;Nutzung;Eigentümer\r\nB;Wald;Anna\nA;Acker;Bert\nB;Heide;Carl\n";
    let d = parse_csv(csv, "ID", "Nutzung", "Eigentümer", ";", true).unwrap();
    assert_eq!(
        new_entries(&d),
        vec![
            ("A".to_string(), vec!["Bert".to_string()], "Acker".to_string(), String::new()),
            (
                "B".to_string(),
                vec!["Anna".to_string(), "Carl".to_string()],
                "Wald".to_string(),
                String::new()
            ),
        ]
    );
}

#[test]
fn parse_csv_without_header_uses_given_order() {
    let d = parse_csv("X,Grünland,Dora", "id", "nutzung", "eig", ",", false).unwrap();
    assert_eq!(
        new_entries(&d),
        vec![("X".to_string(), vec!["Dora".to_string()], "Grünland".to_string(), String::new())]
    );
}

#[test]
fn parse_csv_empty_text() {
    let d = parse_csv("", "ID", "N", "E", ";", true).unwrap();
    assert!(d.is_empty());
    assert!(new_entries(&d).is_empty());
}

#[test]
fn parse_csv_reports_missing_columns() {
    let e = parse_csv("ID;Nutzung\n1;Wald", "ID", "Nutzung", "Eigentümer", ";", true).unwrap_err();
    assert_eq!(e, "Fehler in Zeile 2: Eigentümer fehlt (Spalte Eigentümer)");
    let e = parse_csv("A;B;C\n1;2", "A", "C", "B", ";", true).unwrap_err();
    assert_eq!(e, "Fehler in Zeile 2: Nutzung fehlt (Spalte C)");
    let e = parse_csv("1;2;3\n4", "ID", "N", "E", ";", false).unwrap_err();
    assert_eq!(e, "Fehler in Zeile 2: Eigentümer fehlt (Spalte E)");
    let e = parse_csv("A;B\n1;2", "ID", "A", "B", ";", true).unwrap_err();
    assert_eq!(e, "Fehler in Zeile 2: ID fehlt (Spalte ID)");
}

#[test]
fn parse_csv_same_column_twice_is_missing() {
    let e = parse_csv("ID;N\n1;2", "ID", "N", "ID", ";", true).unwrap_err();
    assert_eq!(e, "Fehler in Zeile 2: Eigentümer fehlt (Spalte ID)");
}

#[test]
fn migrate_new_takes_first_use_without_note() {
    let mut m: SortedMap<String, Vec<CsvDatensatz>> = SortedMap::new();
    m.push_to(
        "K".to_string(),
        CsvDatensatz { eigentuemer: "E1".into(), nutzung: "N1".into(), notiz: "x".into() },
    );
    m.push_to(
        "K".to_string(),
        CsvDatensatz { eigentuemer: "E2".into(), nutzung: "N2".into(), notiz: "".into() },
    );
    let d = CsvDataType::Old(m).migrate_new();
    assert_eq!(
        new_entries(&d),
        vec![(
            "K".to_string(),
            vec!["E1".to_string(), "E2".to_string()],
            "N2".to_string(),
            String::new()
        )]
    );
    let keys: Vec<String> = d.keys().into_iter().cloned().collect();
    assert_eq!(keys, vec!["K".to_string()]);
}

#[test]
fn old_fallback_gives_one_record_per_owner() {
    let d = parse_csv("ID;N;E\n7;Wald;A\n7;Acker;B", "ID", "N", "E", ";", true).unwrap();
    let fb = d.get_old_fallback();
    assert_eq!(fb.len(), 1);
    assert_eq!(fb.key_at(0), "7");
    let v = fb.value_at(0);
    assert_eq!(v.len(), 2);
    assert_eq!(v[0], CsvDatensatz { eigentuemer: "A".into(), nutzung: "Wald".into(), notiz: "".into() });
    assert_eq!(v[1], CsvDatensatz { eigentuemer: "B".into(), nutzung: "Wald".into(), notiz: "".into() });
}

#[test]
fn search_for_flst_id_finds_by_prefix() {
    let d = parse_csv(
        "ID;N;E\n12118000300010______;Wald;A\n12118000300011______;Acker;B",
        "ID",
        "N",
        "E",
        ";",
        true,
    )
    .unwrap();
    let (k, v) = search_for_flst_id(&d, "12-1180-003-00011").unwrap();
    assert_eq!(k, "12118000300011______");
    assert_eq!(v[0].eigentuemer, "B");
    assert!(search_for_flst_id(&d, "12-1180-003-00099").is_none());
}

#[test]
fn status_was_modified() {
    assert!(!Status::Bleibt.was_modified());
    assert!(Status::AenderungKeineBenachrichtigung.was_modified());
    assert!(Status::AenderungMitBenachrichtigung.was_modified());
}

#[test]
fn default_data_set_is_new_and_empty() {
    let d = CsvDataType::default();
    assert!(d.is_empty());
    assert!(matches!(d, CsvDataType::New(_)));
}
