//! The mailbox session: connect, authenticate, select, fetch, log out. The
//! session decides; the caller performs each remote operation it asks for and
//! hands back what came of it.
use vstd::prelude::*;

use crate::config::Account;
use crate::envelope::{decode_envelope, empty_envelope, envelope_of, Envelope, RawEnvelope};
use crate::record::{FetchedMessage, MessageView, PersistedRecord};

verus! {

/// Why a fetch attempt ended early; each kind belongs to one protocol step.
#[derive(Clone, Copy, Debug, PartialEq, Eq, Structural)]
pub enum FetchError {
    /// The secured connection could not be established.
    ConnectFailed,
    /// The server rejected the credentials.
    AuthFailed,
    /// The mailbox could not be selected.
    SelectFailed,
    /// The messages could not be fetched, or the server sent one without its identifier.
    FetchFailed,
    /// The session could not be closed cleanly.
    LogoutFailed,
}

/// A message as the server returned it.
pub struct RawMessage {
    pub uid: Option<u32>,
    pub envelope: Option<RawEnvelope>,
}

/// The message that a raw message decodes to; `None` where the server left
/// out its identifier. A message without envelope has an empty one.
pub open spec fn message_of_raw(m: RawMessage) -> Option<MessageView> {
    match m.uid {
        Some(uid) => Some(
            MessageView {
                uid,
                envelope: match m.envelope {
                    Some(e) => envelope_of(e),
                    None => empty_envelope(),
                },
            },
        ),
        None => None,
    }
}

/// Decodes a raw message; one without identifier is refused, never given a default.
pub fn decode_message(m: &RawMessage) -> (r: Option<FetchedMessage>)
    ensures
        r is Some <==> m.uid is Some,
        r matches Some(f) ==> message_of_raw(*m) == Some(f@),
{
    match m.uid {
        Some(uid) => {
            let envelope = match &m.envelope {
                Some(e) => decode_envelope(e),
                None => Envelope::empty(),
            };
            Some(FetchedMessage { uid, envelope })
        },
        None => None,
    }
}

/// `records` are the records of the messages of `batch` that come before the
/// first message without identifier (all of them where there is none).
pub open spec fn records_before_missing(records: Seq<PersistedRecord>, batch: Seq<RawMessage>) -> bool {
    &&& records.len() <= batch.len()
    &&& forall|j: int|
        0 <= j < records.len() ==> message_of_raw(#[trigger] batch[j]) == Some(records[j]@)
    &&& records.len() < batch.len() ==> batch[records.len() as int].uid is None
}

/// A message without identifier is never given a default nor skipped: the
/// records of a batch stop before it, so the batch cannot complete.
pub proof fn lemma_missing_uid_is_fatal(records: Seq<PersistedRecord>, batch: Seq<RawMessage>, k: int)
    requires
        records_before_missing(records, batch),
        0 <= k < batch.len(),
        batch[k].uid is None,
    ensures
        records.len() <= k,
        records.len() < batch.len(),
{
    if records.len() > k {
        assert(message_of_raw(batch[k]) == Some(records[k]@));
    }
}

/// The records of a fetched batch, in order, up to the first message that
/// lacks its identifier.
pub fn decode_batch(batch: &Vec<RawMessage>) -> (r: Vec<PersistedRecord>)
    ensures
        records_before_missing(r@, batch@),
{
    let mut out: Vec<PersistedRecord> = Vec::new();
    let mut i: usize = 0;
    while i < batch.len()
        invariant
            i <= batch.len(),
            out@.len() == i,
            forall|j: int| 0 <= j < i ==> message_of_raw(#[trigger] batch@[j]) == Some(out@[j]@),
        decreases batch.len() - i,
    {
        match decode_message(&batch[i]) {
            Some(m) => {
                out.push(PersistedRecord::of_message(m));
            },
            None => {
                return out;
            },
        }
        i = i + 1;
    }
    out
}

/// Where a session stands.
#[derive(Clone, Copy, Debug, PartialEq, Eq, Structural)]
pub enum Phase {
    Disconnected,
    Connected,
    Authenticated,
    MailboxSelected,
    /// The messages were fetched and `forwarded` records handed on.
    Fetching { forwarded: usize },
    /// The session ended; it is not used again.
    Closed,
}

/// What came of the operation that the session asked for last.
pub enum Event {
    /// It succeeded (connect, authenticate, select or log out).
    Succeeded,
    /// It failed or timed out.
    Failed,
    /// The fetch succeeded with these messages.
    Fetched(Vec<RawMessage>),
}

/// The next remote operation, or the end of the attempt.
pub enum Op {
    Connect { host: String, port: u16 },
    Authenticate { identity: String, secret: String },
    Select { mailbox: String },
    FetchAll,
    Logout,
    /// The attempt is over: the number of records handed on, or why it stopped.
    Finish(Result<usize, FetchError>),
}

/// The records to hand on to the store, in order, before performing `op`.
pub struct Step {
    pub forward: Vec<PersistedRecord>,
    pub op: Op,
}

/// One fetch attempt against one mailbox of one account.
pub struct MailboxSession {
    account: Account,
    mailbox: String,
    phase: Phase,
}

/// The step that ends a session with `result`, forwarding nothing.
pub open spec fn ends_with(r: Step, result: Result<usize, FetchError>) -> bool {
    r.forward@.len() == 0 && r.op == Op::Finish(result)
}

impl MailboxSession {
    pub closed spec fn spec_account(&self) -> Account {
        self.account
    }

    pub closed spec fn spec_mailbox(&self) -> String {
        self.mailbox
    }

    pub closed spec fn spec_phase(&self) -> Phase {
        self.phase
    }

    /// Where this session stands.
    pub fn phase(&self) -> (r: Phase)
        ensures
            r == self.spec_phase(),
    {
        self.phase
    }

    /// A fresh session, and its first operation: connect to the account's
    /// mailbox server.
    pub fn open(account: Account, mailbox: String) -> (r: (MailboxSession, Op))
        ensures
            r.0.spec_account() == account,
            r.0.spec_mailbox() == mailbox,
            r.0.spec_phase() == Phase::Disconnected,
            r.1 == (Op::Connect { host: account.imap_address, port: account.imap_port }),
    {
        let op = Op::Connect { host: account.imap_address.clone(), port: account.imap_port };
        (MailboxSession { account, mailbox, phase: Phase::Disconnected }, op)
    }

    /// Takes what came of the last operation and gives the next one. Each
    /// step succeeds only on its own success; any other event ends the
    /// attempt with that step's error. After a fetch, the records of the
    /// messages are handed on before logging out; a message without
    /// identifier ends the attempt with `FetchFailed` after the records
    /// before it.
    pub fn step(&mut self, event: Event) -> (r: Step)
        requires
            !(old(self).spec_phase() is Closed),
        ensures
            final(self).spec_account() == old(self).spec_account(),
            final(self).spec_mailbox() == old(self).spec_mailbox(),
            ({
                let a = old(self).spec_account();
                let next = final(self).spec_phase();
                match old(self).spec_phase() {
                    Phase::Disconnected => if event is Succeeded {
                        &&& next == Phase::Connected
                        &&& r.forward@.len() == 0
                        &&& r.op == (Op::Authenticate {
                            identity: a.address,
                            secret: a.imap_password,
                        })
                    } else {
                        next is Closed && ends_with(r, Err(FetchError::ConnectFailed))
                    },
                    Phase::Connected => if event is Succeeded {
                        &&& next == Phase::Authenticated
                        &&& r.forward@.len() == 0
                        &&& r.op == (Op::Select { mailbox: old(self).spec_mailbox() })
                    } else {
                        next is Closed && ends_with(r, Err(FetchError::AuthFailed))
                    },
                    Phase::Authenticated => if event is Succeeded {
                        &&& next == Phase::MailboxSelected
                        &&& r.forward@.len() == 0
                        &&& r.op == Op::FetchAll
                    } else {
                        next is Closed && ends_with(r, Err(FetchError::SelectFailed))
                    },
                    Phase::MailboxSelected => match event {
                        Event::Fetched(batch) => {
                            &&& records_before_missing(r.forward@, batch@)
                            &&& if r.forward@.len() == batch@.len() {
                                next == (Phase::Fetching { forwarded: r.forward@.len() as usize })
                                    && r.op == Op::Logout
                            } else {
                                next is Closed && r.op == Op::Finish(Err(FetchError::FetchFailed))
                            }
                        },
                        _ => next is Closed && ends_with(r, Err(FetchError::FetchFailed)),
                    },
                    Phase::Fetching { forwarded } => {
                        &&& next is Closed
                        &&& if event is Succeeded {
                            ends_with(r, Ok(forwarded))
                        } else {
                            ends_with(r, Err(FetchError::LogoutFailed))
                        }
                    },
                    Phase::Closed => false,
                }
            }),
    {
        let none: Vec<PersistedRecord> = Vec::new();
        match self.phase {
            Phase::Disconnected => match event {
                Event::Succeeded => {
                    self.phase = Phase::Connected;
                    Step {
                        forward: none,
                        op: Op::Authenticate {
                            identity: self.account.address.clone(),
                            secret: self.account.imap_password.clone(),
                        },
                    }
                },
                _ => self.finish(Err(FetchError::ConnectFailed)),
            },
            Phase::Connected => match event {
                Event::Succeeded => {
                    self.phase = Phase::Authenticated;
                    Step { forward: none, op: Op::Select { mailbox: self.mailbox.clone() } }
                },
                _ => self.finish(Err(FetchError::AuthFailed)),
            },
            Phase::Authenticated => match event {
                Event::Succeeded => {
                    self.phase = Phase::MailboxSelected;
                    Step { forward: none, op: Op::FetchAll }
                },
                _ => self.finish(Err(FetchError::SelectFailed)),
            },
            Phase::MailboxSelected => match event {
                Event::Fetched(batch) => {
                    let forward = decode_batch(&batch);
                    if forward.len() == batch.len() {
                        self.phase = Phase::Fetching { forwarded: forward.len() };
                        Step { forward, op: Op::Logout }
                    } else {
                        self.phase = Phase::Closed;
                        Step { forward, op: Op::Finish(Err(FetchError::FetchFailed)) }
                    }
                },
                _ => self.finish(Err(FetchError::FetchFailed)),
            },
            Phase::Fetching { forwarded } => match event {
                Event::Succeeded => self.finish(Ok(forwarded)),
                _ => self.finish(Err(FetchError::LogoutFailed)),
            },
            Phase::Closed => self.finish(Err(FetchError::FetchFailed)),
        }
    }

    /// Closes the session with `result`.
    fn finish(&mut self, result: Result<usize, FetchError>) -> (r: Step)
        ensures
            final(self).spec_account() == old(self).spec_account(),
            final(self).spec_mailbox() == old(self).spec_mailbox(),
            final(self).spec_phase() is Closed,
            ends_with(r, result),
    {
        self.phase = Phase::Closed;
        Step { forward: Vec::new(), op: Op::Finish(result) }
    }
}

} // verus!
