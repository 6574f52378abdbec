use weasel::config::Account;
use weasel::envelope::{RawAddress, RawEnvelope};
use weasel::record::{PersistedRecord, RecordStore};
use weasel::session::{
    decode_batch, decode_message, Event, FetchError, MailboxSession, Op, RawMessage,
};

fn account(address: &str) -> Account {
    Account {
        address: address.to_string(),
        smtp_address: "smtp.example.com".to_string(),
        smtp_password: "smtp-secret".to_string(),
        smtp_port: 465,
        imap_address: "imap.example.com".to_string(),
        imap_password: "imap-secret".to_string(),
        imap_port: 993,
    }
}

fn raw(uid: Option<u32>, subject: &str) -> RawMessage {
    RawMessage {
        uid,
        envelope: Some(RawEnvelope {
            date: None,
            subject: Some(subject.as_bytes().to_vec()),
            from: Some(vec![RawAddress {
                name: None,
                adl: None,
                mailbox: Some(b"a".to_vec()),
                host: Some(b"b.com".to_vec()),
            }]),
        }),
    }
}

fn forward_all(forward: Vec<PersistedRecord>, store: &mut RecordStore) -> usize {
    let n = forward.len();
    for r in forward {
        store.store(r);
    }
    n
}

/// Drives a session through connect, authenticate and select, all succeeding.
fn select_ok(session: &mut MailboxSession) {
    for _ in 0..3 {
        let step = session.step(Event::Succeeded);
        assert!(step.forward.is_empty());
    }
}

#[test]
fn session_asks_for_each_step_in_order() {
    let (mut s, op) = MailboxSession::open(account("me@example.com"), "INBOX".to_string());
    match op {
        Op::Connect { host, port } => {
            assert_eq!(host, "imap.example.com");
            assert_eq!(port, 993);
        }
        _ => panic!("first operation is connect"),
    }
    match s.step(Event::Succeeded).op {
        Op::Authenticate { identity, secret } => {
            assert_eq!(identity, "me@example.com");
            assert_eq!(secret, "imap-secret");
        }
        _ => panic!("second operation is authenticate"),
    }
    match s.step(Event::Succeeded).op {
        Op::Select { mailbox } => assert_eq!(mailbox, "INBOX"),
        _ => panic!("third operation is select"),
    }
    assert!(matches!(s.step(Event::Succeeded).op, Op::FetchAll));
    let step = s.step(Event::Fetched(Vec::new()));
    assert!(step.forward.is_empty());
    assert!(matches!(step.op, Op::Logout));
    assert!(matches!(s.step(Event::Succeeded).op, Op::Finish(Ok(0))));
}

#[test]
fn three_messages_are_forwarded_in_order() {
    let mut store = RecordStore::new();
    let (mut s, _) = MailboxSession::open(account("me@example.com"), "INBOX".to_string());
    select_ok(&mut s);
    let batch = vec![raw(Some(11), "one"), raw(Some(12), "two"), raw(Some(13), "three")];
    let step = s.step(Event::Fetched(batch));
    assert!(matches!(step.op, Op::Logout));
    assert_eq!(forward_all(step.forward, &mut store), 3);
    assert!(matches!(s.step(Event::Succeeded).op, Op::Finish(Ok(3))));
    assert_eq!(store.len(), 3);
    assert_eq!(store.get(0).uid, 11);
    assert_eq!(store.get(1).uid, 12);
    assert_eq!(store.get(2).uid, 13);
    assert_eq!(store.get(0).subject, Some("one".to_string()));
    assert_eq!(store.get(2).subject, Some("three".to_string()));
}

#[test]
fn rejected_credentials_end_with_auth_failed() {
    let mut store = RecordStore::new();
    let (mut s, _) = MailboxSession::open(account("me@example.com"), "INBOX".to_string());
    let step = s.step(Event::Succeeded);
    assert!(matches!(step.op, Op::Authenticate { .. }));
    let step = s.step(Event::Failed);
    assert_eq!(forward_all(step.forward, &mut store), 0);
    assert!(matches!(step.op, Op::Finish(Err(FetchError::AuthFailed))));
    assert_eq!(store.len(), 0);
}

#[test]
fn two_accounts_fail_independently() {
    let mut store = RecordStore::new();
    let (mut good, _) = MailboxSession::open(account("good@example.com"), "INBOX".to_string());
    let (mut bad, _) = MailboxSession::open(account("bad@example.com"), "INBOX".to_string());
    // Interleave the two sessions step by step.
    for _ in 0..2 {
        assert!(good.step(Event::Succeeded).forward.is_empty());
        assert!(bad.step(Event::Succeeded).forward.is_empty());
    }
    assert!(matches!(good.step(Event::Succeeded).op, Op::FetchAll));
    let failed = bad.step(Event::Failed);
    assert!(matches!(failed.op, Op::Finish(Err(FetchError::SelectFailed))));
    assert_eq!(forward_all(failed.forward, &mut store), 0);
    let step = good.step(Event::Fetched(vec![raw(Some(1), "a"), raw(Some(2), "b")]));
    assert_eq!(forward_all(step.forward, &mut store), 2);
    assert!(matches!(good.step(Event::Succeeded).op, Op::Finish(Ok(2))));
    assert_eq!(store.len(), 2);
    assert_eq!(store.get(0).uid, 1);
    assert_eq!(store.get(1).uid, 2);
}

#[test]
fn connect_failure_ends_with_connect_failed() {
    let (mut s, _) = MailboxSession::open(account("me@example.com"), "INBOX".to_string());
    let step = s.step(Event::Failed);
    assert!(step.forward.is_empty());
    assert!(matches!(step.op, Op::Finish(Err(FetchError::ConnectFailed))));
}

#[test]
fn fetch_failure_ends_with_fetch_failed() {
    let (mut s, _) = MailboxSession::open(account("me@example.com"), "INBOX".to_string());
    select_ok(&mut s);
    let step = s.step(Event::Failed);
    assert!(step.forward.is_empty());
    assert!(matches!(step.op, Op::Finish(Err(FetchError::FetchFailed))));
}

#[test]
fn missing_identifier_is_fatal() {
    let mut store = RecordStore::new();
    let (mut s, _) = MailboxSession::open(account("me@example.com"), "INBOX".to_string());
    select_ok(&mut s);
    let batch = vec![raw(Some(5), "kept"), raw(None, "no uid"), raw(Some(7), "after")];
    let step = s.step(Event::Fetched(batch));
    assert!(matches!(step.op, Op::Finish(Err(FetchError::FetchFailed))));
    assert_eq!(forward_all(step.forward, &mut store), 1);
    assert_eq!(store.get(0).uid, 5);
}

#[test]
fn logout_failure_is_reported_after_records() {
    let mut store = RecordStore::new();
    let (mut s, _) = MailboxSession::open(account("me@example.com"), "INBOX".to_string());
    select_ok(&mut s);
    let step = s.step(Event::Fetched(vec![raw(Some(9), "x")]));
    assert!(matches!(step.op, Op::Logout));
    assert_eq!(forward_all(step.forward, &mut store), 1);
    let step = s.step(Event::Failed);
    assert!(matches!(step.op, Op::Finish(Err(FetchError::LogoutFailed))));
    assert_eq!(store.len(), 1);
}

#[test]
fn decode_message_refuses_missing_uid() {
    assert!(decode_message(&raw(None, "x")).is_none());
    let m = decode_message(&raw(Some(0), "x")).expect("uid present");
    assert_eq!(m.uid, 0);
    assert_eq!(m.envelope.subject, Some("x".to_string()));
    let bare = decode_message(&RawMessage { uid: Some(3), envelope: None }).expect("uid present");
    assert_eq!(bare.envelope.date, None);
    assert_eq!(bare.envelope.subject, None);
    assert!(bare.envelope.from.is_none());
}

#[test]
fn decode_batch_stops_at_missing_uid() {
    let out = decode_batch(&vec![raw(Some(1), "a"), raw(None, "b"), raw(Some(3), "c")]);
    assert_eq!(out.len(), 1);
    let out = decode_batch(&vec![raw(Some(1), "a"), raw(Some(2), "b")]);
    assert_eq!(out.len(), 2);
    assert_eq!(out[1].uid, 2);
    assert_eq!(decode_batch(&Vec::new()).len(), 0);
}

#[test]
fn store_keeps_duplicates() {
    let mut store = RecordStore::new();
    for _ in 0..2 {
        let (mut s, _) = MailboxSession::open(account("me@example.com"), "INBOX".to_string());
        select_ok(&mut s);
        let step = s.step(Event::Fetched(vec![raw(Some(4), "same")]));
        forward_all(step.forward, &mut store);
    }
    assert_eq!(store.len(), 2);
    assert_eq!(store.get(0).uid, 4);
    assert_eq!(store.get(1).uid, 4);
}
