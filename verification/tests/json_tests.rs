use archive_replicator::json::{parse_json, Json};

#[test]
fn documents_are_parsed() {
    let text = br#"{"nodes": [{"id": "a", "port": 4401}, null, true], "n": -1, "f": 1.5}"#;
    let json = parse_json(text).unwrap();
    let nodes = json.member("nodes").unwrap().items().unwrap();
    assert_eq!(nodes.len(), 3);
    assert_eq!(nodes[0].member("id").unwrap().text(), Some("a"));
    assert_eq!(nodes[0].member("port").unwrap().unsigned(), Some(4401));
    assert!(matches!(nodes[1], Json::Null));
    assert!(matches!(nodes[2], Json::Bool(true)));
    assert_eq!(json.member("n").unwrap().unsigned(), None);
    assert_eq!(json.member("f").unwrap().unsigned(), None);
}

#[test]
fn what_is_no_document_is_not_parsed() {
    assert!(parse_json(b"").is_none());
    assert!(parse_json(b"{").is_none());
    assert!(parse_json(b"<html></html>").is_none());
    assert!(parse_json(b"{} {}").is_none());
}

#[test]
fn only_objects_have_members() {
    assert!(parse_json(b"[1]").unwrap().member("a").is_none());
    assert!(parse_json(b"{}").unwrap().member("a").is_none());
    assert!(parse_json(b"\"a\"").unwrap().member("a").is_none());
}

#[test]
fn values_are_read_as_what_they_are() {
    let text = parse_json(b"\"12\"").unwrap();
    assert_eq!(text.text(), Some("12"));
    assert_eq!(text.unsigned(), None);
    assert!(text.items().is_none());
    let number = parse_json(b"18446744073709551615").unwrap();
    assert_eq!(number.unsigned(), Some(u64::MAX));
    assert_eq!(number.text(), None);
}

#[test]
fn the_last_member_of_a_name_counts() {
    let json = Json::Object(vec![
        ("a".to_string(), Json::Number(Some(1))),
        ("b".to_string(), Json::Number(Some(2))),
        ("a".to_string(), Json::Number(Some(3))),
    ]);
    assert_eq!(json.member("a").unwrap().unsigned(), Some(3));
    assert_eq!(json.member("b").unwrap().unsigned(), Some(2));
    let parsed = parse_json(br#"{"a": 1, "a": 3}"#).unwrap();
    assert_eq!(parsed.member("a").unwrap().unsigned(), Some(3));
}
