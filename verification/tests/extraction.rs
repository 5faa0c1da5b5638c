use treexml_util::{parse_node, ElementExt, Error, Node, Unmarshaller};

fn leaf(name: &str, text: Option<&str>) -> Node {
    Node {
        name: name.to_string(),
        text: text.map(|t| t.to_string()),
        cdata: None,
        children: vec![],
    }
}

#[test]
fn test_deserialize() {
    let fixture = parse_node("<data>5</data>").unwrap().unwrap();
    let expectation = 5;

    let mut result = i64::default();
    result.unmarshal_from(&fixture).unwrap();

    assert_eq!(expectation, result);
}

#[test]
fn test_deserialize_bool() {
    let fixture = parse_node("<do_want/>").unwrap().unwrap();
    let expectation = true;

    let mut result = bool::default();
    result.unmarshal_from(&fixture).unwrap();

    assert_eq!(expectation, result);
}

#[test]
fn test_find_value() {
    let root = Node {
        name: "root".to_string(),
        text: None,
        cdata: None,
        children: vec![leaf("key", Some("value"))],
    };

    let expectation = "value".to_string();

    let result = root.find_value1::<String>("key").unwrap();

    assert_eq!(expectation, result);
}

#[test]
fn find_optional_absent_is_empty_not_error() {
    let root = leaf("root", None);
    let found = root.find_value0::<String>("missing").unwrap();
    assert!(found.is_none());
    let found = root.find_value0::<i64>("missing").unwrap();
    assert!(found.is_none());
    let found = root.find_value0::<bool>("missing").unwrap();
    assert!(found.is_none());
}

#[test]
fn find_optional_present_without_text_is_empty() {
    let root = Node {
        name: "root".to_string(),
        text: None,
        cdata: None,
        children: vec![leaf("key", None)],
    };
    let found = root.find_value0::<i64>("key").unwrap();
    assert!(found.is_none());
}

#[test]
fn find_optional_present_with_value() {
    let root = Node {
        name: "root".to_string(),
        text: None,
        cdata: None,
        children: vec![leaf("count", Some("42"))],
    };
    let found = root.find_value0::<i64>("count").unwrap();
    assert_eq!(found, Some(42));
}

#[test]
fn find_optional_unparsable_is_error_naming_text() {
    let root = Node {
        name: "root".to_string(),
        text: None,
        cdata: None,
        children: vec![leaf("count", Some("many"))],
    };
    let err = root.find_value0::<i64>("count").unwrap_err();
    assert!(matches!(err, Error::ValueFromStr { ref t } if t == "many"));
}

#[test]
fn find_required_absent_is_error_naming_path() {
    let root = leaf("root", None);
    let err = root.find_value1::<String>("a/b").unwrap_err();
    assert!(matches!(err, Error::ValueNotFound { ref path } if path == "a/b"));
}

#[test]
fn find_required_present_without_text_is_error_naming_path() {
    let root = Node {
        name: "root".to_string(),
        text: None,
        cdata: None,
        children: vec![leaf("key", None)],
    };
    let err = root.find_value1::<i64>("key").unwrap_err();
    assert!(matches!(err, Error::ValueNotFound { ref path } if path == "key"));
}

#[test]
fn find_descends_nested_path() {
    let inner = Node {
        name: "b".to_string(),
        text: None,
        cdata: None,
        children: vec![leaf("c", Some("7"))],
    };
    let root = Node {
        name: "root".to_string(),
        text: None,
        cdata: None,
        children: vec![Node {
            name: "a".to_string(),
            text: None,
            cdata: None,
            children: vec![inner],
        }],
    };
    let result = root.find_value1::<i64>("a/b/c").unwrap();
    assert_eq!(result, 7);
}

#[test]
fn find_takes_first_child_of_a_name() {
    let root = Node {
        name: "root".to_string(),
        text: None,
        cdata: None,
        children: vec![leaf("key", Some("first")), leaf("key", Some("second"))],
    };
    let result = root.find_value1::<String>("key").unwrap();
    assert_eq!(result, "first");
}

#[test]
fn find_bool_absent_is_false_not_error() {
    let root = leaf("root", None);
    assert_eq!(root.find_bool("missing").unwrap(), false);
}

#[test]
fn find_bool_present_empty_is_true() {
    let root = Node {
        name: "root".to_string(),
        text: None,
        cdata: None,
        children: vec![leaf("flag", None)],
    };
    assert_eq!(root.find_bool("flag").unwrap(), true);
}

#[test]
fn find_bool_reads_tokens() {
    for (text, expected) in [("true", true), ("1", true), ("false", false), ("0", false)] {
        let root = Node {
            name: "root".to_string(),
            text: None,
            cdata: None,
            children: vec![leaf("flag", Some(text))],
        };
        assert_eq!(root.find_bool("flag").unwrap(), expected);
    }
}

#[test]
fn find_bool_rejects_other_text() {
    let root = Node {
        name: "root".to_string(),
        text: None,
        cdata: None,
        children: vec![leaf("flag", Some("yes"))],
    };
    let err = root.find_bool("flag").unwrap_err();
    assert!(matches!(err, Error::ValueFromStr { ref t } if t == "yes"));
}

#[test]
fn find_returns_the_node_or_names_the_path() {
    let root = Node {
        name: "root".to_string(),
        text: None,
        cdata: None,
        children: vec![leaf("key", Some("value"))],
    };
    let found = root.find("key").unwrap();
    assert_eq!(found.text.as_deref(), Some("value"));
    let err = root.find("no/such/node").unwrap_err();
    assert!(matches!(err, Error::ElementNotFound { ref path } if path == "no/such/node"));
}

#[test]
fn parse_node_reports_malformed_xml() {
    let err = parse_node("<unclosed>").unwrap_err();
    assert!(matches!(err, Error::ParseError { .. }));
}

#[test]
fn parse_node_builds_the_tree() {
    let root = parse_node("<root><key>value</key></root>").unwrap().unwrap();
    assert_eq!(root.name, "root");
    assert_eq!(root.children.len(), 1);
    assert_eq!(root.children[0].name, "key");
    assert_eq!(root.children[0].text.as_deref(), Some("value"));
}
