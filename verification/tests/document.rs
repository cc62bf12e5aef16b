//! The document model itself: selector lookup, attribute lookup, and the
//! clone marker.

use mangaparse::dom::{clone_marked, Node};

fn leaf(text: &str) -> Node {
    Node { attrs: vec![], text: text.to_string(), data: String::new(), queries: vec![] }
}

#[test]
fn selector_lookup_takes_first_entry_of_equal_keys() {
    let doc = Node {
        attrs: vec![],
        text: String::new(),
        data: String::new(),
        queries: vec![
            ("p".to_string(), vec![leaf("first"), leaf("second")]),
            ("p".to_string(), vec![leaf("shadowed")]),
        ],
    };
    assert_eq!(doc.select_count("p"), 2);
    assert_eq!(doc.select_first("p").unwrap().text, "first");
    assert_eq!(doc.select_last("p").unwrap().text, "second");
    assert_eq!(doc.select_nth("p", 1).text, "second");
}

#[test]
fn unknown_selector_yields_nothing() {
    let doc = leaf("");
    assert_eq!(doc.select_count("div"), 0);
    assert!(doc.select_first("div").is_none());
    assert!(doc.select_last("div").is_none());
}

#[test]
fn attribute_lookup_takes_first_entry_of_equal_names() {
    let n = Node {
        attrs: vec![
            ("href".to_string(), "/a".to_string()),
            ("href".to_string(), "/b".to_string()),
        ],
        text: String::new(),
        data: String::new(),
        queries: vec![],
    };
    assert_eq!(n.attr("href").unwrap(), "/a");
    assert!(n.attr("class").is_none());
}

#[test]
fn clone_marker_is_a_class_substring() {
    let mk = |class: Option<&str>| Node {
        attrs: class.map(|c| ("class".to_string(), c.to_string())).into_iter().collect(),
        text: String::new(),
        data: String::new(),
        queries: vec![],
    };
    assert!(clone_marked(&mk(Some("cards__item cloned"))));
    assert!(clone_marked(&mk(Some("clonedcard"))));
    assert!(!clone_marked(&mk(Some("cards__item"))));
    assert!(!clone_marked(&mk(None)));
}
