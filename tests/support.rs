use messenger_archive::types::{attribute, attribute_or};
use messenger_archive::{str_eq, Attribute, PathContext};

#[test]
fn path_suffix_and_whole_match() {
    let mut p = PathContext::new();
    assert_eq!(p.leave(), None);
    p.enter("html".to_string());
    p.enter("body".to_string());
    p.enter("div".to_string());
    assert!(p.ends_with(&vec!["body", "div"]));
    assert!(!p.ends_with(&vec!["html", "div"]));
    assert!(!p.ends_with(&vec!["x", "html", "body", "div"]));
    assert!(p.is(&vec!["html", "body", "div"]));
    assert!(!p.is(&vec!["body", "div"]));
    assert!(p.contains("body"));
    assert!(!p.contains("td"));
    assert_eq!(p.leave(), Some("div".to_string()));
    assert_eq!(p.len(), 2);
}

#[test]
fn attributes_default_and_last_wins() {
    let attrs = vec![
        Attribute { name: "a".to_string(), value: "1".to_string() },
        Attribute { name: "a".to_string(), value: "2".to_string() },
    ];
    assert_eq!(attribute(&attrs, "a"), Some("2".to_string()));
    assert_eq!(attribute(&attrs, "b"), None);
    assert_eq!(attribute_or(&attrs, "b", "0"), "0");
}

#[test]
fn string_equality() {
    assert!(str_eq("tr", "tr"));
    assert!(!str_eq("tr", "td"));
    assert!(!str_eq("tr", "tre"));
    assert!(str_eq("", ""));
}
