//! The records of an authority file: the credentials that a host keeps for
//! its displays.

use crate::byteorder::{u16_bytes, u16_value, ByteOrder};
use crate::protocol::Family;
use crate::utils::read_u16;
use vstd::prelude::*;
use vstd::slice::slice_to_vec;

verus! {

/// One record of an authority file.
#[derive(Debug)]
pub struct XAuthEntry {
    /// The protocol family.
    pub family: Family,
    /// Host address.
    pub address: Vec<u8>,
    /// The number of the display, as text.
    pub display_number: Vec<u8>,
    /// The authorization protocol that the client expects the server to use.
    pub authorization_protocol_name: Vec<u8>,
    /// The authorization value itself: the cookie.
    pub authorization_protocol_data: Vec<u8>,
}

/// What an [`XAuthEntry`] holds.
pub ghost struct XAuthEntryView {
    pub family: Family,
    pub address: Seq<u8>,
    pub display_number: Seq<u8>,
    pub authorization_protocol_name: Seq<u8>,
    pub authorization_protocol_data: Seq<u8>,
}

impl View for XAuthEntry {
    type V = XAuthEntryView;

    open spec fn view(&self) -> XAuthEntryView {
        XAuthEntryView {
            family: self.family,
            address: self.address@,
            display_number: self.display_number@,
            authorization_protocol_name: self.authorization_protocol_name@,
            authorization_protocol_data: self.authorization_protocol_data@,
        }
    }
}

impl Clone for XAuthEntry {
    fn clone(&self) -> (copy: XAuthEntry)
        ensures
            copy@ == self@,
    {
        XAuthEntry {
            family: self.family,
            address: self.address.clone(),
            display_number: self.display_number.clone(),
            authorization_protocol_name: self.authorization_protocol_name.clone(),
            authorization_protocol_data: self.authorization_protocol_data.clone(),
        }
    }
}

/// What each of the given entries holds.
pub open spec fn entry_views(entries: Seq<XAuthEntry>) -> Seq<XAuthEntryView> {
    Seq::new(entries.len(), |i: int| entries[i]@)
}

/// The 16-bit number at the head of `bytes`, most significant byte first,
/// and the bytes behind it; nothing where `bytes` is shorter than that.
pub open spec fn spec_preceding_bytes(bytes: Seq<u8>) -> Option<(u16, Seq<u8>)> {
    if bytes.len() < 2 {
        None
    } else {
        Some((u16_value(ByteOrder::Big, bytes), bytes.skip(2)))
    }
}

/// The field at the head of `bytes`, which is a 16-bit length and that many
/// bytes, and the bytes behind it; nothing where `bytes` ends before the
/// field does.
pub open spec fn spec_subsequent_bytes(bytes: Seq<u8>) -> Option<(Seq<u8>, Seq<u8>)> {
    match spec_preceding_bytes(bytes) {
        None => None,
        Some((len, body)) => if body.len() < len {
            None
        } else {
            Some((body.take(len as int), body.skip(len as int)))
        },
    }
}

/// The record at the head of `bytes` and the bytes behind it; nothing where
/// `bytes` ends before the record does. A record is the family and four
/// fields: address, display number, authorization name, authorization data.
pub open spec fn spec_xauth_entry(bytes: Seq<u8>) -> Option<(XAuthEntryView, Seq<u8>)> {
    match spec_preceding_bytes(bytes) {
        None => None,
        Some((family, rest)) => match spec_subsequent_bytes(rest) {
            None => None,
            Some((address, rest)) => match spec_subsequent_bytes(rest) {
                None => None,
                Some((display_number, rest)) => match spec_subsequent_bytes(rest) {
                    None => None,
                    Some((authorization_protocol_name, rest)) => match spec_subsequent_bytes(rest) {
                        None => None,
                        Some((authorization_protocol_data, rest)) => Some(
                            (
                                XAuthEntryView {
                                    family,
                                    address,
                                    display_number,
                                    authorization_protocol_name,
                                    authorization_protocol_data,
                                },
                                rest,
                            ),
                        ),
                    },
                },
            },
        },
    }
}

/// The records of an authority file with the given content: every record
/// up to the first place where no whole record stands.
pub open spec fn spec_entries(bytes: Seq<u8>) -> Seq<XAuthEntryView>
    decreases bytes.len(),
{
    match spec_xauth_entry(bytes) {
        None => Seq::empty(),
        Some((entry, rest)) => seq![entry] + spec_entries(rest),
    }
}

/// A record takes at least ten bytes, so what is behind it is shorter.
pub proof fn lemma_entry_consumes(bytes: Seq<u8>)
    requires
        spec_xauth_entry(bytes) is Some,
    ensures
        spec_xauth_entry(bytes)->Some_0.1.len() + 10 <= bytes.len(),
{
}

/// Reads the 16-bit number at the head of `bytes`, most significant byte
/// first.
pub fn read_preceding_bytes(bytes: &[u8]) -> (r: Option<(u16, &[u8])>)
    ensures
        match r {
            Some((n, rest)) => spec_preceding_bytes(bytes@) == Some((n, rest@)),
            None => spec_preceding_bytes(bytes@) is None,
        },
{
    if bytes.len() < 2 {
        return None;
    }
    proof {
        assert(bytes@.skip(0) =~= bytes@);
    }
    let n = read_u16(bytes, 0, ByteOrder::Big);
    let (_, rest) = bytes.split_at(2);
    proof {
        assert(rest@ =~= bytes@.skip(2));
    }
    Some((n, rest))
}

/// Reads the length-prefixed field at the head of `bytes`.
pub fn read_subsequent_bytes(bytes: &[u8]) -> (r: Option<(Vec<u8>, &[u8])>)
    ensures
        match r {
            Some((field, rest)) => spec_subsequent_bytes(bytes@) == Some((field@, rest@)),
            None => spec_subsequent_bytes(bytes@) is None,
        },
{
    let (len, body) = match read_preceding_bytes(bytes) {
        Some(read) => read,
        None => {
            return None;
        },
    };
    if body.len() < len as usize {
        return None;
    }
    let (field, rest) = body.split_at(len as usize);
    proof {
        assert(field@ =~= body@.take(len as int));
        assert(rest@ =~= body@.skip(len as int));
    }
    Some((slice_to_vec(field), rest))
}

/// Reads the record at the head of `bytes`.
pub fn read_xauth_entry(bytes: &[u8]) -> (r: Option<(XAuthEntry, &[u8])>)
    ensures
        match r {
            Some((entry, rest)) => spec_xauth_entry(bytes@) == Some((entry@, rest@)),
            None => spec_xauth_entry(bytes@) is None,
        },
{
    let (family, rest) = match read_preceding_bytes(bytes) {
        Some(read) => read,
        None => {
            return None;
        },
    };
    let (address, rest) = match read_subsequent_bytes(rest) {
        Some(read) => read,
        None => {
            return None;
        },
    };
    let (display_number, rest) = match read_subsequent_bytes(rest) {
        Some(read) => read,
        None => {
            return None;
        },
    };
    let (authorization_protocol_name, rest) = match read_subsequent_bytes(rest) {
        Some(read) => read,
        None => {
            return None;
        },
    };
    let (authorization_protocol_data, rest) = match read_subsequent_bytes(rest) {
        Some(read) => read,
        None => {
            return None;
        },
    };
    Some(
        (
            XAuthEntry {
                family,
                address,
                display_number,
                authorization_protocol_name,
                authorization_protocol_data,
            },
            rest,
        ),
    )
}

impl XAuthEntry {
    /// Decodes the content of an authority file: its records in file
    /// order. Decoding ends where no whole record is left; what stands
    /// there is dropped and is no failure.
    pub fn parse(bytes: &[u8]) -> (entries: Vec<XAuthEntry>)
        ensures
            entry_views(entries@) == spec_entries(bytes@),
            forall|i: int| 0 <= i < entries@.len() ==> fits_record(#[trigger] entries@[i]@),
    {
        let mut entries: Vec<XAuthEntry> = Vec::new();
        let mut rest = bytes;
        proof {
            assert(entry_views(entries@) + spec_entries(bytes@) =~= spec_entries(bytes@));
        }
        loop
            invariant
                spec_entries(bytes@) == entry_views(entries@) + spec_entries(rest@),
                forall|i: int| 0 <= i < entries@.len() ==> fits_record(#[trigger] entries@[i]@),
            decreases rest@.len(),
        {
            let ghost before = entry_views(entries@);
            match read_xauth_entry(rest) {
                Some((entry, behind)) => {
                    proof {
                        lemma_entry_consumes(rest@);
                        assert(before + (seq![entry@] + spec_entries(behind@)) =~= before.push(
                            entry@,
                        ) + spec_entries(behind@));
                    }
                    entries.push(entry);
                    proof {
                        assert(entry_views(entries@) =~= before.push(entry@));
                    }
                    rest = behind;
                },
                None => {
                    proof {
                        assert(before + Seq::<XAuthEntryView>::empty() =~= before);
                    }
                    return entries;
                },
            }
        }
    }
}

/// The bytes of a field in an authority file: its length in two bytes, most
/// significant first, and the field itself.
pub open spec fn field_bytes(field: Seq<u8>) -> Seq<u8> {
    u16_bytes(ByteOrder::Big, field.len() as u16) + field
}

/// The bytes of a record in an authority file.
pub open spec fn entry_bytes(entry: XAuthEntryView) -> Seq<u8> {
    u16_bytes(ByteOrder::Big, entry.family) + field_bytes(entry.address) + field_bytes(
        entry.display_number,
    ) + field_bytes(entry.authorization_protocol_name) + field_bytes(
        entry.authorization_protocol_data,
    )
}

/// The bytes of the given records, one behind the other.
pub open spec fn entries_bytes(entries: Seq<XAuthEntryView>) -> Seq<u8>
    decreases entries.len(),
{
    if entries.len() == 0 {
        Seq::empty()
    } else {
        entry_bytes(entries[0]) + entries_bytes(entries.skip(1))
    }
}

/// True when the length of every field fits the two bytes that a record has
/// for it.
pub open spec fn fits_record(entry: XAuthEntryView) -> bool {
    &&& entry.address.len() <= u16::MAX
    &&& entry.display_number.len() <= u16::MAX
    &&& entry.authorization_protocol_name.len() <= u16::MAX
    &&& entry.authorization_protocol_data.len() <= u16::MAX
}

/// A number that was written is read back, whatever follows it.
pub proof fn lemma_number_round_trip(n: u16, rest: Seq<u8>)
    ensures
        spec_preceding_bytes(u16_bytes(ByteOrder::Big, n) + rest) == Some((n, rest)),
{
    let bytes = u16_bytes(ByteOrder::Big, n) + rest;
    assert(bytes[0] == u16_bytes(ByteOrder::Big, n)[0]);
    assert(bytes[1] == u16_bytes(ByteOrder::Big, n)[1]);
    assert(bytes.skip(2) =~= rest);
}

/// A field that was written is read back, whatever follows it.
pub proof fn lemma_field_round_trip(field: Seq<u8>, rest: Seq<u8>)
    requires
        field.len() <= u16::MAX,
    ensures
        spec_subsequent_bytes(field_bytes(field) + rest) == Some((field, rest)),
{
    let body = field + rest;
    assert(field_bytes(field) + rest =~= u16_bytes(ByteOrder::Big, field.len() as u16) + body);
    lemma_number_round_trip(field.len() as u16, body);
    assert(body.take(field.len() as int) =~= field);
    assert(body.skip(field.len() as int) =~= rest);
}

/// A record that was written is read back, whatever follows it.
pub proof fn lemma_entry_round_trip(entry: XAuthEntryView, rest: Seq<u8>)
    requires
        fits_record(entry),
    ensures
        spec_xauth_entry(entry_bytes(entry) + rest) == Some((entry, rest)),
{
    let r3 = field_bytes(entry.authorization_protocol_data) + rest;
    let r2 = field_bytes(entry.authorization_protocol_name) + r3;
    let r1 = field_bytes(entry.display_number) + r2;
    let r0 = field_bytes(entry.address) + r1;
    let bytes = entry_bytes(entry) + rest;
    assert(bytes =~= u16_bytes(ByteOrder::Big, entry.family) + r0);
    lemma_number_round_trip(entry.family, r0);
    assert(spec_preceding_bytes(bytes) == Some((entry.family, r0)));
    lemma_field_round_trip(entry.address, r1);
    assert(spec_subsequent_bytes(r0) == Some((entry.address, r1)));
    lemma_field_round_trip(entry.display_number, r2);
    assert(spec_subsequent_bytes(r1) == Some((entry.display_number, r2)));
    lemma_field_round_trip(entry.authorization_protocol_name, r3);
    assert(spec_subsequent_bytes(r2) == Some((entry.authorization_protocol_name, r3)));
    lemma_field_round_trip(entry.authorization_protocol_data, rest);
    assert(spec_subsequent_bytes(r3) == Some((entry.authorization_protocol_data, rest)));
}

/// A file that holds the given records, followed by bytes that do not make
/// up a whole record, decodes to exactly these records, in their order.
pub proof fn lemma_entries_round_trip(entries: Seq<XAuthEntryView>, tail: Seq<u8>)
    requires
        forall|i: int| 0 <= i < entries.len() ==> fits_record(#[trigger] entries[i]),
        spec_xauth_entry(tail) is None,
    ensures
        spec_entries(entries_bytes(entries) + tail) == entries,
    decreases entries.len(),
{
    if entries.len() == 0 {
        assert(entries_bytes(entries) + tail =~= tail);
        assert(spec_entries(tail) =~= entries);
    } else {
        let others = entries.skip(1);
        let rest = entries_bytes(others) + tail;
        let bytes = entries_bytes(entries) + tail;
        assert(bytes == entry_bytes(entries[0]) + rest) by {
            lemma_concat_assoc(entry_bytes(entries[0]), entries_bytes(others), tail);
        }
        assert(spec_xauth_entry(bytes) == Some((entries[0], rest))) by {
            lemma_entry_round_trip(entries[0], rest);
        }
        assert(spec_entries(rest) == others) by {
            assert forall|i: int| 0 <= i < others.len() implies fits_record(
                #[trigger] others[i],
            ) by {
                assert(others[i] == entries[i + 1]);
            }
            lemma_entries_round_trip(others, tail);
        }
        assert(spec_entries(bytes) == seq![entries[0]] + others);
        assert(seq![entries[0]] + others =~= entries);
    }
}

/// Joining three sequences gives the same whichever two are joined first.
proof fn lemma_concat_assoc(a: Seq<u8>, b: Seq<u8>, c: Seq<u8>)
    ensures
        (a + b) + c == a + (b + c),
{
    assert((a + b) + c =~= a + (b + c));
}

/// Bytes that are fewer than the ten of the shortest record hold no record.
pub proof fn lemma_short_tail_is_no_entry(tail: Seq<u8>)
    requires
        tail.len() < 10,
    ensures
        spec_xauth_entry(tail) is None,
{
}

} // verus!
