use treexml_util::{
    make_cdata_element, make_text_element, make_tree_element, render_i64, trimmed_optional,
    ElementExt, Node,
};

#[test]
fn tree_element_wraps_children() {
    let child = make_text_element("key", "value".to_string());
    let root = make_tree_element("root", vec![child]);
    assert_eq!(root.name, "root");
    assert_eq!(root.text, None);
    assert_eq!(root.cdata, None);
    assert_eq!(root.children.len(), 1);
    assert_eq!(root.children[0].name, "key");
}

#[test]
fn text_element_carries_text() {
    let e = make_text_element("data", "payload".to_string());
    assert_eq!(e.name, "data");
    assert_eq!(e.text.as_deref(), Some("payload"));
    assert_eq!(e.cdata, None);
    assert!(e.children.is_empty());
}

#[test]
fn cdata_element_carries_cdata() {
    let e = make_cdata_element("blob", "<raw>".to_string());
    assert_eq!(e.name, "blob");
    assert_eq!(e.text, None);
    assert_eq!(e.cdata.as_deref(), Some("<raw>"));
    assert!(e.children.is_empty());
}

#[test]
fn text_element_round_trips_an_integer() {
    let e = make_text_element("data", render_i64(5));
    let mut out = i64::default();
    assert_eq!(e.unmarshal_into(&mut out).unwrap(), true);
    assert_eq!(out, 5);
}

#[test]
fn rendered_integers_round_trip() {
    for v in [0, 5, -5, 10, -10, 1234567, i64::MAX, i64::MIN] {
        let e = make_text_element("data", render_i64(v));
        let mut out = i64::default();
        assert_eq!(e.unmarshal_into(&mut out).unwrap(), true);
        assert_eq!(out, v);
    }
}

#[test]
fn render_writes_plain_decimal() {
    assert_eq!(render_i64(0), "0");
    assert_eq!(render_i64(42), "42");
    assert_eq!(render_i64(-17), "-17");
    assert_eq!(render_i64(i64::MAX), "9223372036854775807");
    assert_eq!(render_i64(i64::MIN), "-9223372036854775808");
}

#[test]
fn trimmed_optional_strips_surrounding_whitespace() {
    assert_eq!(trimmed_optional(&None), None);
    assert_eq!(
        trimmed_optional(&Some("  a b\t\n".to_string())),
        Some("a b".to_string())
    );
    assert_eq!(trimmed_optional(&Some("plain".to_string())), Some("plain".to_string()));
    assert_eq!(trimmed_optional(&Some("   ".to_string())), Some(String::new()));
}

#[test]
fn trimmed_optional_agrees_with_str_trim() {
    for s in ["\u{a0}\u{3000} mixed\u{2028} ", "a", "", " inner space kept "] {
        assert_eq!(
            trimmed_optional(&Some(s.to_string())),
            Some(s.trim().to_string())
        );
    }
}
