use weasel::headers::{parse_header_text, parse_headers, HeaderMap, ParseHeaderErrors};

fn value(map: &HeaderMap, name: &str) -> Option<String> {
    map.get(name).cloned()
}

#[test]
fn folded_header_block_decodes_to_two_headers() {
    let map = match parse_headers(b"Subject: Hi\n there\nFrom: a@b.com\n") {
        Ok(m) => m,
        Err(_) => panic!("valid UTF-8 must decode"),
    };
    assert_eq!(map.len(), 2);
    assert_eq!(value(&map, "Subject"), Some("Hi there".to_string()));
    assert_eq!(value(&map, "From"), Some("a@b.com".to_string()));
}

#[test]
fn simple_lines_split_at_first_colon() {
    let map = parse_header_text("Date: Tue, 1 Jul 2003 10:52:37 +0200\nX-Note: a: b: c\n");
    assert_eq!(map.len(), 2);
    assert_eq!(value(&map, "Date"), Some("Tue, 1 Jul 2003 10:52:37 +0200".to_string()));
    assert_eq!(value(&map, "X-Note"), Some("a: b: c".to_string()));
}

#[test]
fn continuation_appends_to_previous_value() {
    let map = parse_header_text("X-Long: part one\n\tpart two\n  part three\nTo: x@y.org");
    assert_eq!(map.len(), 2);
    assert_eq!(value(&map, "X-Long"), Some("part one\tpart two  part three".to_string()));
    assert_eq!(value(&map, "To"), Some("x@y.org".to_string()));
    assert_eq!(value(&map, "part two"), None);
}

#[test]
fn crlf_line_ends_are_unfolded() {
    let map = parse_header_text("Subject: Hi\r\n there\r\nFrom: a@b.com\r\n\r\n");
    assert_eq!(map.len(), 2);
    assert_eq!(value(&map, "Subject"), Some("Hi there".to_string()));
    assert_eq!(value(&map, "From"), Some("a@b.com".to_string()));
}

#[test]
fn line_without_colon_is_skipped() {
    let map = parse_header_text("garbage line\nKey: v\n");
    assert_eq!(map.len(), 1);
    assert_eq!(value(&map, "Key"), Some("v".to_string()));
    assert_eq!(value(&map, "garbage line"), None);
}

#[test]
fn leading_continuation_is_dropped() {
    let map = parse_header_text(" orphan: x\nKey: v");
    assert_eq!(map.len(), 1);
    assert_eq!(value(&map, "orphan"), None);
    assert_eq!(value(&map, "Key"), Some("v".to_string()));
}

#[test]
fn later_duplicate_replaces_earlier() {
    let map = parse_header_text("A: 1\nB: 2\nA: 3\n");
    assert_eq!(map.len(), 2);
    assert_eq!(value(&map, "A"), Some("3".to_string()));
    assert_eq!(value(&map, "B"), Some("2".to_string()));
}

#[test]
fn empty_block_has_no_headers() {
    let map = parse_header_text("");
    assert_eq!(map.len(), 0);
    let map = parse_header_text("\n\n");
    assert_eq!(map.len(), 0);
}

#[test]
fn empty_value_is_kept() {
    let map = parse_header_text("Empty:\nK:v");
    assert_eq!(value(&map, "Empty"), Some(String::new()));
    assert_eq!(value(&map, "K"), Some("v".to_string()));
}

#[test]
fn non_utf8_block_is_refused() {
    let bytes: Vec<u8> = vec![b'A', b':', b' ', 0xff, 0xfe, b'\n'];
    assert!(matches!(parse_headers(&bytes), Err(ParseHeaderErrors::NotUtf8)));
}

#[test]
fn utf8_values_are_decoded() {
    let map = match parse_headers("Subject: Grüße\n".as_bytes()) {
        Ok(m) => m,
        Err(_) => panic!("valid UTF-8 must decode"),
    };
    assert_eq!(value(&map, "Subject"), Some("Grüße".to_string()));
}

#[test]
fn header_map_insert_and_get() {
    let mut map = HeaderMap::new();
    assert_eq!(map.len(), 0);
    map.insert("A".to_string(), "1".to_string());
    map.insert("A".to_string(), "2".to_string());
    map.insert("B".to_string(), "3".to_string());
    assert_eq!(map.len(), 2);
    assert_eq!(value(&map, "A"), Some("2".to_string()));
    assert_eq!(value(&map, "C"), None);
}

#[test]
fn unicode_whitespace_is_trimmed_and_folds() {
    let map = parse_header_text("K:\u{a0}v\u{3000}\n\u{2003}w");
    assert_eq!(map.len(), 1);
    assert_eq!(value(&map, "K"), Some("v\u{3000}\u{2003}w".to_string()));
}
