//! Fetched messages, the records persisted for them, and the store that
//! holds the records.
use vstd::prelude::*;

use crate::envelope::{
    opt_addresses_view, opt_view, Envelope, EnvelopeView, MessageDate, StringAddress,
};

verus! {

/// A message as fetched: the identifier the server assigned and its envelope.
pub struct FetchedMessage {
    pub uid: u32,
    pub envelope: Envelope,
}

/// The values of a fetched message.
pub struct MessageView {
    pub uid: u32,
    pub envelope: EnvelopeView,
}

impl View for FetchedMessage {
    type V = MessageView;

    open spec fn view(&self) -> MessageView {
        MessageView { uid: self.uid, envelope: self.envelope@ }
    }
}

/// The durable form of a fetched message.
pub struct PersistedRecord {
    pub uid: u32,
    pub date: Option<MessageDate>,
    pub subject: Option<String>,
    pub from: Option<Vec<StringAddress>>,
}

impl View for PersistedRecord {
    type V = MessageView;

    open spec fn view(&self) -> MessageView {
        MessageView {
            uid: self.uid,
            envelope: EnvelopeView {
                date: self.date,
                subject: opt_view(self.subject),
                from: opt_addresses_view(self.from),
            },
        }
    }
}

/// The record persisted for a message.
pub open spec fn record_of(m: FetchedMessage) -> PersistedRecord {
    PersistedRecord {
        uid: m.uid,
        date: m.envelope.date,
        subject: m.envelope.subject,
        from: m.envelope.from,
    }
}

/// The message that a persisted record reads back as.
pub open spec fn message_of(r: PersistedRecord) -> FetchedMessage {
    FetchedMessage { uid: r.uid, envelope: Envelope { date: r.date, subject: r.subject, from: r.from } }
}

impl From<FetchedMessage> for PersistedRecord {
    fn from(value: FetchedMessage) -> (r: PersistedRecord) {
        PersistedRecord {
            uid: value.uid,
            date: value.envelope.date,
            subject: value.envelope.subject,
            from: value.envelope.from,
        }
    }
}

impl vstd::std_specs::convert::FromSpecImpl<FetchedMessage> for PersistedRecord {
    open spec fn obeys_from_spec() -> bool {
        true
    }

    open spec fn from_spec(v: FetchedMessage) -> PersistedRecord {
        record_of(v)
    }
}

impl PersistedRecord {
    /// The record persisted for `m`.
    pub fn of_message(m: FetchedMessage) -> (r: PersistedRecord)
        ensures
            r == record_of(m),
            r@ == m@,
    {
        PersistedRecord::from(m)
    }

    /// Reads the record back as a fetched message.
    pub fn into_message(self) -> (r: FetchedMessage)
        ensures
            r == message_of(self),
            r@ == self@,
    {
        FetchedMessage {
            uid: self.uid,
            envelope: Envelope { date: self.date, subject: self.subject, from: self.from },
        }
    }
}

/// Persisting a message and reading the record back gives the message again:
/// identifier, date, subject and senders are kept exactly.
pub proof fn lemma_record_round_trip(m: FetchedMessage)
    ensures
        message_of(record_of(m)) == m,
        record_of(m)@ == m@,
{
}

/// The records written so far, in the order in which they arrived. Records
/// are not deduplicated: storing the same message twice holds it twice.
pub struct RecordStore {
    records: Vec<PersistedRecord>,
}

impl RecordStore {
    /// The records held, in arrival order.
    pub closed spec fn spec_records(&self) -> Seq<PersistedRecord> {
        self.records@
    }

    /// An empty store.
    pub fn new() -> (r: RecordStore)
        ensures
            r.spec_records() == Seq::<PersistedRecord>::empty(),
    {
        RecordStore { records: Vec::new() }
    }

    /// Writes `record` after all records written before it.
    pub fn store(&mut self, record: PersistedRecord)
        ensures
            final(self).spec_records() == old(self).spec_records().push(record),
    {
        self.records.push(record);
    }

    /// The number of records held.
    pub fn len(&self) -> (r: usize)
        ensures
            r == self.spec_records().len(),
    {
        self.records.len()
    }

    /// The record written `i`-th.
    pub fn get(&self, i: usize) -> (r: &PersistedRecord)
        requires
            i < self.spec_records().len(),
        ensures
            *r == self.spec_records()[i as int],
    {
        &self.records[i]
    }
}

} // verus!
