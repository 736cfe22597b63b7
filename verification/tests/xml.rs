use tnviewer::xml::{
    get_all_nodes_in_subtree, get_all_nodes_in_subtree_comparator, get_all_nodes_in_tree,
    parse_xml_string, XmlNode, XmlParseError,
};

const DOC: &str = "<?xml version=\"1.0\"?>\n<a x=\"1\"><b>hi</b><c/><b y=\"2\"> t </b></a>";

fn parse(s: &str) -> Vec<XmlNode> {
    let mut log = Vec::new();
    parse_xml_string(s, &mut log).unwrap()
}

fn types(v: &[&XmlNode]) -> Vec<String> {
    v.iter().map(|n| n.node_type.clone()).collect()
}

#[test]
fn parse_builds_the_tree() {
    let nodes = parse(DOC);
    assert_eq!(nodes.len(), 1);
    let a = &nodes[0];
    assert_eq!(a.node_type, "a");
    assert_eq!(a.attributes.get(&"x".to_string()), Some(&"1".to_string()));
    assert_eq!(a.text, None);
    assert_eq!(a.children.len(), 3);
    assert_eq!(a.children[0].node_type, "b");
    assert_eq!(a.children[0].text, Some("hi".to_string()));
    assert_eq!(a.children[1].node_type, "c");
    assert_eq!(a.children[1].children.len(), 0);
    assert_eq!(a.children[2].text, Some("t".to_string()));
    assert_eq!(a.children[2].attributes.get(&"y".to_string()), Some(&"2".to_string()));
}

#[test]
fn parse_skips_doctype_and_joins_text() {
    let nodes = parse("<!DOCTYPE x>\n<p>one<br/>two</p>");
    assert_eq!(nodes.len(), 1);
    assert_eq!(nodes[0].text, Some("onetwo".to_string()));
    assert_eq!(types(&nodes[0].children.iter().collect::<Vec<_>>()), vec!["br"]);
}

#[test]
fn parse_reports_wrong_closing_tag() {
    let mut log = Vec::new();
    match parse_xml_string("<a><b></a></b>", &mut log) {
        Err(XmlParseError::MalformedHierarchy(found, open)) => {
            assert_eq!(found, "a");
            assert_eq!(open, "b");
        }
        other => panic!("unexpected {:?}", other),
    }
}

#[test]
fn parse_reports_unfinished_declaration() {
    let mut log = Vec::new();
    match parse_xml_string("<?xml version", &mut log) {
        Err(XmlParseError::MalformedHierarchy(a, b)) => {
            assert_eq!(a, "<?xml");
            assert_eq!(b, "?>");
        }
        other => panic!("unexpected {:?}", other),
    }
}

#[test]
fn parse_reports_tokenizer_errors() {
    let mut log = Vec::new();
    assert!(matches!(parse_xml_string("<a b></a>", &mut log), Err(XmlParseError::ParseError(_))));
}

#[test]
fn subtree_search_by_type() {
    let nodes = parse("<r><b/><a><b><b/></b></a><b/></r>");
    let found = get_all_nodes_in_subtree(&nodes, "b");
    assert_eq!(found.len(), 4);
    let all = get_all_nodes_in_tree(&nodes);
    assert_eq!(types(&all), vec!["r", "b", "a", "b", "b", "b"]);
    let filtered: Vec<&XmlNode> = all.iter().cloned().filter(|n| n.node_type == "b").collect();
    assert_eq!(filtered.len(), found.len());
    for (x, y) in filtered.iter().zip(found.iter()) {
        assert!(std::ptr::eq(*x, *y));
    }
}

#[test]
fn subtree_search_with_comparator() {
    let nodes = parse(DOC);
    let found = get_all_nodes_in_subtree_comparator(&nodes, |n: &XmlNode| n.text.is_some());
    assert_eq!(types(&found), vec!["b", "b"]);
}

#[test]
fn children_and_paths() {
    let nodes = parse("<r><a><b>1</b><c/></a><a><b>2</b></a><z/></r>");
    let r = &nodes[0];
    assert_eq!(types(&r.get_all_children_of_type("a")), vec!["a", "a"]);
    let bs = r.select_subitems(&["a", "b"]);
    assert_eq!(bs.len(), 2);
    assert_eq!(bs[1].text, Some("2".to_string()));
    let stop = r.select_subitems(&["a", "q"]);
    assert_eq!(types(&stop), vec!["a", "a"]);
    let none = r.select_subitems(&["q"]);
    assert_eq!(types(&none), vec!["r"]);
    assert!(r.select_subitems(&[]).is_empty());
}

use tnviewer::xml::{build_tree, XmlToken};

#[test]
fn tree_from_tokens() {
    let toks = vec![
        XmlToken::ElementStart("a".to_string()),
        XmlToken::Attribute("x".to_string(), "1".to_string()),
        XmlToken::Other,
        XmlToken::Text("  hi ".to_string()),
        XmlToken::ElementStart("b".to_string()),
        XmlToken::EmptyEnd,
        XmlToken::Text("there".to_string()),
        XmlToken::CloseEnd("a".to_string()),
    ];
    let root = build_tree(&toks).unwrap();
    assert_eq!(root.node_type, "");
    assert_eq!(root.children.len(), 1);
    let a = &root.children[0];
    assert_eq!(a.node_type, "a");
    assert_eq!(a.text, Some("hithere".to_string()));
    assert_eq!(a.attributes.get(&"x".to_string()), Some(&"1".to_string()));
    assert_eq!(a.children[0].node_type, "b");
    let bad = vec![XmlToken::ElementStart("a".to_string()), XmlToken::CloseEnd("c".to_string())];
    match build_tree(&bad) {
        Err((x, y)) => {
            assert_eq!(x, "c");
            assert_eq!(y, "a");
        }
        Ok(_) => panic!("accepted a wrong closing tag"),
    }
}
