use treexml_util::{ElementExt, Error, Node, Unmarshaller};

fn node_with_text(text: Option<&str>) -> Node {
    Node {
        name: "data".to_string(),
        text: text.map(|t| t.to_string()),
        cdata: None,
        children: vec![],
    }
}

#[test]
fn coerce_parses_accepted_integer_texts() {
    for (text, expected) in [
        ("5", 5),
        ("42", 42),
        ("-7", -7),
        ("+13", 13),
        ("0", 0),
        ("007", 7),
        ("9223372036854775807", i64::MAX),
        ("-9223372036854775808", i64::MIN),
    ] {
        let node = node_with_text(Some(text));
        let mut out: i64 = 999;
        assert_eq!(node.unmarshal_into(&mut out).unwrap(), true);
        assert_eq!(out, expected);
    }
}

#[test]
fn coerce_rejects_bad_integer_texts() {
    for text in [
        "",
        "+",
        "-",
        "abc",
        "12a",
        " 5",
        "5 ",
        "1.5",
        "9223372036854775808",
        "-9223372036854775809",
        "99999999999999999999",
    ] {
        let node = node_with_text(Some(text));
        let mut out: i64 = 999;
        let err = node.unmarshal_into(&mut out).unwrap_err();
        assert!(matches!(err, Error::ValueFromStr { ref t } if t == text));
        assert_eq!(out, 999, "output must stay untouched on a parse failure");
    }
}

#[test]
fn coerce_without_text_keeps_the_default() {
    let node = node_with_text(None);

    let mut number: i64 = 123;
    assert_eq!(node.unmarshal_into(&mut number).unwrap(), false);
    assert_eq!(number, 123);

    let mut string = "untouched".to_string();
    assert_eq!(node.unmarshal_into(&mut string).unwrap(), false);
    assert_eq!(string, "untouched");
}

#[test]
fn coerce_string_takes_text_verbatim() {
    let node = node_with_text(Some("  spaced text "));
    let mut out = String::new();
    assert_eq!(node.unmarshal_into(&mut out).unwrap(), true);
    assert_eq!(out, "  spaced text ");
}

#[test]
fn coerce_bool_without_text_assigns_true() {
    let node = node_with_text(None);
    let mut out = false;
    assert_eq!(node.unmarshal_bool_into(&mut out).unwrap(), true);
    assert_eq!(out, true);
}

#[test]
fn coerce_bool_reads_the_vocabulary() {
    for (text, expected) in [("true", true), ("1", true), ("false", false), ("0", false)] {
        let node = node_with_text(Some(text));
        let mut out = !expected;
        assert_eq!(node.unmarshal_bool_into(&mut out).unwrap(), true);
        assert_eq!(out, expected);
    }
}

#[test]
fn coerce_bool_rejects_other_text() {
    let node = node_with_text(Some("maybe"));
    let mut out = false;
    let err = node.unmarshal_bool_into(&mut out).unwrap_err();
    assert!(matches!(err, Error::ValueFromStr { ref t } if t == "maybe"));
    assert_eq!(out, false, "output must stay untouched on a parse failure");
}

#[test]
fn coerce_bool_is_case_sensitive() {
    for text in ["True", "FALSE", "tRuE", "01", "2", "", " true"] {
        let node = node_with_text(Some(text));
        let mut out = false;
        let err = node.unmarshal_bool_into(&mut out).unwrap_err();
        assert!(matches!(err, Error::ValueFromStr { ref t } if t == text));
    }
}

#[test]
fn unmarshal_from_matches_unmarshal_into_for_plain_types() {
    let node = node_with_text(Some("-31"));
    let mut number = i64::default();
    assert_eq!(number.unmarshal_from(&node).unwrap(), true);
    assert_eq!(number, -31);

    let node = node_with_text(Some("word"));
    let mut string = String::default();
    assert_eq!(string.unmarshal_from(&node).unwrap(), true);
    assert_eq!(string, "word");

    let node = node_with_text(None);
    let mut string = "kept".to_string();
    assert_eq!(string.unmarshal_from(&node).unwrap(), false);
    assert_eq!(string, "kept");
}
