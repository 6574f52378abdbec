use weasel::envelope::{
    decode_envelope, process_address, process_addresses, process_date, process_subject,
    MessageDate, RawAddress, RawEnvelope, StringAddress,
};

fn bytes(s: &str) -> Option<Vec<u8>> {
    Some(s.as_bytes().to_vec())
}

#[test]
fn display_with_all_fields() {
    let a = StringAddress::new(
        Some("John Doe".to_string()),
        None,
        Some("jdoe".to_string()),
        Some("example.com".to_string()),
    );
    assert_eq!(a.display(), "John Doe <jdoe@example.com>");
}

#[test]
fn display_renders_missing_fields_empty() {
    let none = StringAddress::new(None, None, None, None);
    assert_eq!(none.display(), " <@>");
    let no_name = StringAddress::new(None, Some("@route".to_string()), Some("a".to_string()), Some("b.c".to_string()));
    assert_eq!(no_name.display(), " <a@b.c>");
    let no_host = StringAddress::new(Some("N".to_string()), None, Some("m".to_string()), None);
    assert_eq!(no_host.display(), "N <m@>");
}

#[test]
fn address_fields_decode_independently() {
    let raw = RawAddress {
        name: Some(vec![0xc3, 0x28]),
        adl: None,
        mailbox: bytes("jdoe"),
        host: bytes("example.com"),
    };
    let a = process_address(&raw);
    assert_eq!(a.name, None);
    assert_eq!(a.adl, None);
    assert_eq!(a.mailbox, Some("jdoe".to_string()));
    assert_eq!(a.host, Some("example.com".to_string()));
}

#[test]
fn address_list_keeps_order() {
    let list = Some(vec![
        RawAddress { name: bytes("One"), adl: None, mailbox: bytes("one"), host: bytes("x.org") },
        RawAddress { name: None, adl: None, mailbox: bytes("two"), host: bytes("y.org") },
    ]);
    let out = match process_addresses(&list) {
        Some(v) => v,
        None => panic!("a present list decodes to a list"),
    };
    assert_eq!(out.len(), 2);
    assert_eq!(out[0].display(), "One <one@x.org>");
    assert_eq!(out[1].display(), " <two@y.org>");
    assert!(process_addresses(&None).is_none());
    assert_eq!(process_addresses(&Some(Vec::new())).map(|v| v.len()), Some(0));
}

#[test]
fn date_is_parsed() {
    let d = process_date(&bytes("Tue, 1 Jul 2003 10:52:37 +0200"));
    assert_eq!(d, Some(MessageDate { unix_timestamp: 1057049557, offset_seconds: 7200 }));
}

#[test]
fn unreadable_date_is_absent() {
    assert_eq!(process_date(&bytes("yesterday")), None);
    assert_eq!(process_date(&Some(vec![0xff])), None);
    assert_eq!(process_date(&None), None);
}

#[test]
fn subject_is_decoded() {
    assert_eq!(process_subject(&bytes("Hello")), Some("Hello".to_string()));
    assert_eq!(process_subject(&Some(vec![b'H', 0x80])), None);
    assert_eq!(process_subject(&None), None);
}

#[test]
fn envelope_fields_degrade_independently() {
    let raw = RawEnvelope {
        date: bytes("not a date"),
        subject: bytes("Meeting"),
        from: Some(vec![RawAddress { name: None, adl: None, mailbox: bytes("a"), host: bytes("b.com") }]),
    };
    let e = decode_envelope(&raw);
    assert_eq!(e.date, None);
    assert_eq!(e.subject, Some("Meeting".to_string()));
    let from = e.from.expect("sender list stays");
    assert_eq!(from.len(), 1);
    assert_eq!(from[0].display(), " <a@b.com>");
}
