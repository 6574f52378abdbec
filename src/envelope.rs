//! Decoding of the envelope fields that a server returns for a message:
//! date, subject and sender addresses.
use vstd::prelude::*;

use crate::text::{text_of, utf8_str, utf8_string};

verus! {

/// A point in time as a message's date header gives it.
#[derive(Clone, Copy, Debug, PartialEq, Eq, Structural)]
pub struct MessageDate {
    /// Seconds since 1970-01-01 00:00 UTC.
    pub unix_timestamp: i64,
    /// The offset from UTC that the header stated, in seconds east.
    pub offset_seconds: i32,
}

/// The date that the text `s` states in the internet message date format, or
/// `None` where it states none.
pub uninterp spec fn rfc2822_date(s: Seq<char>) -> Option<MessageDate>;

/// Relies on `time::OffsetDateTime::parse` with the `Rfc2822` format
/// description: the result depends on the text alone. The parsed value is
/// kept as its Unix timestamp and its UTC offset in whole seconds.
#[verifier::external_body]
fn parse_rfc2822(s: &str) -> (r: Option<MessageDate>)
    ensures
        r == rfc2822_date(s@),
{
    match time::OffsetDateTime::parse(s, &time::format_description::well_known::Rfc2822) {
        Ok(d) => Some(
            MessageDate { unix_timestamp: d.unix_timestamp(), offset_seconds: d.offset().whole_seconds() },
        ),
        Err(_) => None,
    }
}

/// The text of an optional byte field: `None` where the field is absent or not UTF-8.
pub open spec fn field_text(o: Option<Vec<u8>>) -> Option<Seq<char>> {
    match o {
        Some(b) => text_of(b@),
        None => None,
    }
}

/// The characters of an optional string.
pub open spec fn opt_view(o: Option<String>) -> Option<Seq<char>> {
    match o {
        Some(s) => Some(s@),
        None => None,
    }
}

/// The characters of an optional string, or nothing where it is absent.
pub open spec fn or_empty(o: Option<Seq<char>>) -> Seq<char> {
    match o {
        Some(s) => s,
        None => Seq::empty(),
    }
}

/// The date that a raw date field gives: `None` where it is absent, not
/// UTF-8, or not a date.
pub open spec fn date_of(o: Option<Vec<u8>>) -> Option<MessageDate> {
    match field_text(o) {
        Some(s) => rfc2822_date(s),
        None => None,
    }
}

/// Decodes a raw date field; an absent or unreadable date gives `None`.
pub fn process_date(date: &Option<Vec<u8>>) -> (r: Option<MessageDate>)
    ensures
        r == date_of(*date),
{
    match date {
        Some(b) => match utf8_str(b.as_slice()) {
            Some(s) => parse_rfc2822(s),
            None => None,
        },
        None => None,
    }
}

/// Decodes an optional byte field as UTF-8 text; absent or invalid text gives `None`.
pub fn decode_field(field: &Option<Vec<u8>>) -> (r: Option<String>)
    ensures
        opt_view(r) == field_text(*field),
{
    match field {
        Some(b) => utf8_string(b.as_slice()),
        None => None,
    }
}

/// Decodes a raw subject field; absent or invalid text gives `None`.
pub fn process_subject(subject: &Option<Vec<u8>>) -> (r: Option<String>)
    ensures
        opt_view(r) == field_text(*subject),
{
    decode_field(subject)
}

/// An address as the server sends it: four optional byte fields.
pub struct RawAddress {
    pub name: Option<Vec<u8>>,
    pub adl: Option<Vec<u8>>,
    pub mailbox: Option<Vec<u8>>,
    pub host: Option<Vec<u8>>,
}

/// An address with text fields, each of which may be absent.
pub struct StringAddress {
    /// `John Doe` in `John Doe <jdoe@example.com>`.
    pub name: Option<String>,
    /// The source route (at-domain list).
    pub adl: Option<String>,
    /// `jdoe` in `John Doe <jdoe@example.com>`.
    pub mailbox: Option<String>,
    /// `example.com` in `John Doe <jdoe@example.com>`.
    pub host: Option<String>,
}

/// The text of the four fields of an address.
pub struct AddressView {
    pub name: Option<Seq<char>>,
    pub adl: Option<Seq<char>>,
    pub mailbox: Option<Seq<char>>,
    pub host: Option<Seq<char>>,
}

impl View for StringAddress {
    type V = AddressView;

    open spec fn view(&self) -> AddressView {
        AddressView {
            name: opt_view(self.name),
            adl: opt_view(self.adl),
            mailbox: opt_view(self.mailbox),
            host: opt_view(self.host),
        }
    }
}

/// The canonical display form `{name} <{mailbox}@{host}>` of an address,
/// with each absent field rendered empty.
pub open spec fn display_of(a: AddressView) -> Seq<char> {
    or_empty(a.name) + seq![' ', '<'] + or_empty(a.mailbox) + seq!['@'] + or_empty(a.host)
        + seq!['>']
}

/// Appends the text of `o` to `s`, nothing where it is absent.
fn append_opt(s: &mut String, o: &Option<String>)
    ensures
        final(s)@ == old(s)@ + or_empty(opt_view(*o)),
{
    match o {
        Some(t) => s.append(t.as_str()),
        None => {
            assert(old(s)@ + Seq::<char>::empty() =~= old(s)@);
        },
    }
}

impl StringAddress {
    /// An address with the given fields.
    pub fn new(
        name: Option<String>,
        adl: Option<String>,
        mailbox: Option<String>,
        host: Option<String>,
    ) -> (r: StringAddress)
        ensures
            r.name == name,
            r.adl == adl,
            r.mailbox == mailbox,
            r.host == host,
    {
        StringAddress { name, adl, mailbox, host }
    }

    /// The canonical display form of this address; absent fields render empty.
    pub fn display(&self) -> (r: String)
        ensures
            r@ == display_of(self@),
    {
        let mut s = String::new();
        append_opt(&mut s, &self.name);
        s.push(' ');
        s.push('<');
        append_opt(&mut s, &self.mailbox);
        s.push('@');
        append_opt(&mut s, &self.host);
        s.push('>');
        assert(s@ =~= display_of(self@));
        s
    }
}

/// The address that a raw address decodes to: each field on its own.
pub open spec fn address_of(a: RawAddress) -> AddressView {
    AddressView {
        name: field_text(a.name),
        adl: field_text(a.adl),
        mailbox: field_text(a.mailbox),
        host: field_text(a.host),
    }
}

/// Decodes each field of a raw address on its own; a field that is not
/// UTF-8 becomes absent and the others stay.
pub fn process_address(a: &RawAddress) -> (r: StringAddress)
    ensures
        r@ == address_of(*a),
{
    StringAddress::new(
        decode_field(&a.name),
        decode_field(&a.adl),
        decode_field(&a.mailbox),
        decode_field(&a.host),
    )
}

/// The text of each address of a list.
pub open spec fn addresses_view(v: Seq<StringAddress>) -> Seq<AddressView> {
    v.map_values(|a: StringAddress| a@)
}

/// The text of each address of an optional list.
pub open spec fn opt_addresses_view(o: Option<Vec<StringAddress>>) -> Option<Seq<AddressView>> {
    match o {
        Some(v) => Some(addresses_view(v@)),
        None => None,
    }
}

/// The addresses that an optional raw address list decodes to.
pub open spec fn addresses_of(o: Option<Vec<RawAddress>>) -> Option<Seq<AddressView>> {
    match o {
        Some(v) => Some(v@.map_values(|a: RawAddress| address_of(a))),
        None => None,
    }
}

/// Decodes an optional list of raw addresses, one address for each.
pub fn process_addresses(list: &Option<Vec<RawAddress>>) -> (r: Option<Vec<StringAddress>>)
    ensures
        opt_addresses_view(r) == addresses_of(*list),
{
    match list {
        Some(v) => {
            let mut out: Vec<StringAddress> = Vec::new();
            let mut i: usize = 0;
            while i < v.len()
                invariant
                    i <= v.len(),
                    addresses_view(out@) == v@.take(i as int).map_values(
                        |a: RawAddress| address_of(a),
                    ),
                decreases v.len() - i,
            {
                let a = process_address(&v[i]);
                let ghost prev = out@;
                out.push(a);
                assert(addresses_view(out@) =~= addresses_view(prev).push(a@));
                assert(v@.take(i + 1).map_values(|a: RawAddress| address_of(a)) =~= v@.take(
                    i as int,
                ).map_values(|a: RawAddress| address_of(a)).push(address_of(v@[i as int])));
                assert(addresses_view(out@) =~= v@.take(i + 1).map_values(
                    |a: RawAddress| address_of(a),
                ));
                i = i + 1;
            }
            assert(v@.take(v.len() as int) =~= v@);
            Some(out)
        },
        None => None,
    }
}

/// The structured metadata of a message; each field may be absent on its own.
pub struct Envelope {
    pub date: Option<MessageDate>,
    pub subject: Option<String>,
    pub from: Option<Vec<StringAddress>>,
}

/// The values of an envelope's fields.
pub struct EnvelopeView {
    pub date: Option<MessageDate>,
    pub subject: Option<Seq<char>>,
    pub from: Option<Seq<AddressView>>,
}

impl View for Envelope {
    type V = EnvelopeView;

    open spec fn view(&self) -> EnvelopeView {
        EnvelopeView {
            date: self.date,
            subject: opt_view(self.subject),
            from: opt_addresses_view(self.from),
        }
    }
}

/// An envelope as the server sends it.
pub struct RawEnvelope {
    pub date: Option<Vec<u8>>,
    pub subject: Option<Vec<u8>>,
    pub from: Option<Vec<RawAddress>>,
}

/// The envelope that a raw envelope decodes to, field by field.
pub open spec fn envelope_of(e: RawEnvelope) -> EnvelopeView {
    EnvelopeView { date: date_of(e.date), subject: field_text(e.subject), from: addresses_of(e.from) }
}

/// Decodes each field of a raw envelope on its own; a field that cannot be
/// read becomes absent and leaves the others as they are.
pub fn decode_envelope(e: &RawEnvelope) -> (r: Envelope)
    ensures
        r@ == envelope_of(*e),
{
    Envelope {
        date: process_date(&e.date),
        subject: process_subject(&e.subject),
        from: process_addresses(&e.from),
    }
}

/// The envelope with no field present.
pub open spec fn empty_envelope() -> EnvelopeView {
    EnvelopeView { date: None, subject: None, from: None }
}

impl Envelope {
    /// An envelope with no field present.
    pub fn empty() -> (r: Envelope)
        ensures
            r@ == empty_envelope(),
    {
        Envelope { date: None, subject: None, from: None }
    }
}

} // verus!
