//! Decoding primitives of the wire format: fixed-width integers, text of a
//! stated length, lists of fixed-size records and alignment padding.

use crate::byteorder::{u16_value, u32_value, u64_value, ByteOrder};
use crate::errors::ParseError;
use vstd::prelude::*;
use vstd::utf8::{decode_utf8, valid_utf8};

verus! {

/// A value that occupies a fixed number of bytes on the wire.
pub trait Deserialize: Sized {
    /// The number of bytes that one value occupies.
    spec fn width() -> nat;

    /// The value that `width()` bytes stand for in the given order.
    spec fn value(bytes: Seq<u8>, order: ByteOrder) -> Self;

    /// The number of bytes that one value occupies.
    fn size() -> (n: usize)
        ensures
            n == Self::width(),
    ;

    /// Decodes a slice that holds exactly one value. A slice of any other
    /// length gives `OutOfBound`.
    fn deserialize(bytes: &[u8], order: ByteOrder) -> (r: Result<Self, ParseError>)
        ensures
            bytes@.len() == Self::width() ==> r == Ok::<Self, ParseError>(
                Self::value(bytes@, order),
            ),
            bytes@.len() != Self::width() ==> r == Err::<Self, ParseError>(
                ParseError::OutOfBound,
            ),
    ;
}

impl Deserialize for u8 {
    open spec fn width() -> nat {
        1
    }

    open spec fn value(bytes: Seq<u8>, order: ByteOrder) -> u8 {
        bytes[0]
    }

    fn size() -> (n: usize) {
        1
    }

    fn deserialize(bytes: &[u8], order: ByteOrder) -> (r: Result<u8, ParseError>) {
        if bytes.len() != 1 {
            return Err(ParseError::OutOfBound);
        }
        Ok(bytes[0])
    }
}

impl Deserialize for u16 {
    open spec fn width() -> nat {
        2
    }

    open spec fn value(bytes: Seq<u8>, order: ByteOrder) -> u16 {
        u16_value(order, bytes)
    }

    fn size() -> (n: usize) {
        2
    }

    fn deserialize(bytes: &[u8], order: ByteOrder) -> (r: Result<u16, ParseError>) {
        if bytes.len() != 2 {
            return Err(ParseError::OutOfBound);
        }
        Ok(read_u16(bytes, 0, order))
    }
}

impl Deserialize for u32 {
    open spec fn width() -> nat {
        4
    }

    open spec fn value(bytes: Seq<u8>, order: ByteOrder) -> u32 {
        u32_value(order, bytes)
    }

    fn size() -> (n: usize) {
        4
    }

    fn deserialize(bytes: &[u8], order: ByteOrder) -> (r: Result<u32, ParseError>) {
        if bytes.len() != 4 {
            return Err(ParseError::OutOfBound);
        }
        Ok(read_u32(bytes, 0, order))
    }
}

impl Deserialize for u64 {
    open spec fn width() -> nat {
        8
    }

    open spec fn value(bytes: Seq<u8>, order: ByteOrder) -> u64 {
        u64_value(order, bytes)
    }

    fn size() -> (n: usize) {
        8
    }

    fn deserialize(bytes: &[u8], order: ByteOrder) -> (r: Result<u64, ParseError>) {
        if bytes.len() != 8 {
            return Err(ParseError::OutOfBound);
        }
        let first = read_u32(bytes, 0, order);
        let second = read_u32(bytes, 4, order);
        proof {
            assert(bytes@.skip(0) =~= bytes@);
        }
        match order {
            ByteOrder::Little => Ok(first as u64 + 4294967296 * (second as u64)),
            ByteOrder::Big => Ok(second as u64 + 4294967296 * (first as u64)),
        }
    }
}

/// The 16-bit value that stands at `at` in `bytes`.
pub fn read_u16(bytes: &[u8], at: usize, order: ByteOrder) -> (n: u16)
    requires
        at + 2 <= bytes@.len(),
    ensures
        n == u16_value(order, bytes@.skip(at as int)),
{
    let first = bytes[at] as u16;
    let second = bytes[at + 1] as u16;
    match order {
        ByteOrder::Little => first + 256 * second,
        ByteOrder::Big => second + 256 * first,
    }
}

/// The 32-bit value that stands at `at` in `bytes`.
pub fn read_u32(bytes: &[u8], at: usize, order: ByteOrder) -> (n: u32)
    requires
        at + 4 <= bytes@.len(),
    ensures
        n == u32_value(order, bytes@.skip(at as int)),
{
    let b0 = bytes[at] as u32;
    let b1 = bytes[at + 1] as u32;
    let b2 = bytes[at + 2] as u32;
    let b3 = bytes[at + 3] as u32;
    match order {
        ByteOrder::Little => b0 + 256 * b1 + 65536 * b2 + 16777216 * b3,
        ByteOrder::Big => b3 + 256 * b2 + 65536 * b1 + 16777216 * b0,
    }
}

/// A decoding result with the bytes that were left over taken as a sequence.
pub open spec fn with_rest<T>(r: Result<(T, &[u8]), ParseError>) -> Result<
    (T, Seq<u8>),
    ParseError,
> {
    match r {
        Ok((value, rest)) => Ok((value, rest@)),
        Err(e) => Err(e),
    }
}

/// The value at the head of `bytes` and the bytes behind it, or
/// `NotEnoughData` where `bytes` is shorter than one value.
pub open spec fn spec_deserialize_into<T: Deserialize>(
    bytes: Seq<u8>,
    order: ByteOrder,
) -> Result<(T, Seq<u8>), ParseError> {
    if bytes.len() < T::width() {
        Err(ParseError::NotEnoughData)
    } else {
        Ok((T::value(bytes.take(T::width() as int), order), bytes.skip(T::width() as int)))
    }
}

/// Decodes one value from the head of `bytes`, read in the given order, and
/// returns it with the rest of the slice.
pub fn deserialize_into_with<'a, T: Deserialize>(bytes: &'a [u8], order: ByteOrder) -> (r: Result<
    (T, &'a [u8]),
    ParseError,
>)
    ensures
        with_rest(r) == spec_deserialize_into::<T>(bytes@, order),
{
    let size = T::size();
    if bytes.len() < size {
        return Err(ParseError::NotEnoughData);
    }
    let (head, rest) = bytes.split_at(size);
    proof {
        assert(head@ =~= bytes@.take(size as int));
        assert(rest@ =~= bytes@.skip(size as int));
    }
    match T::deserialize(head, order) {
        Ok(value) => Ok((value, rest)),
        Err(e) => Err(e),
    }
}

/// Decodes one value from the head of `bytes`, read in the order of the
/// host, and returns it with the rest of the slice.
pub fn deserialize_into<'a, T: Deserialize>(bytes: &'a [u8]) -> (r: Result<
    (T, &'a [u8]),
    ParseError,
>)
    ensures
        with_rest(r) == spec_deserialize_into::<T>(bytes@, ByteOrder::Little) || with_rest(r)
            == spec_deserialize_into::<T>(bytes@, ByteOrder::Big),
        bytes@.len() < T::width() <==> r == Err::<(T, &[u8]), ParseError>(
            ParseError::NotEnoughData,
        ),
{
    let order = ByteOrder::native();
    deserialize_into_with::<T>(bytes, order)
}

/// The text that `String::from_utf8_lossy` makes of `bytes`.
pub uninterp spec fn lossy_text(bytes: Seq<u8>) -> Seq<char>;

/// True when every byte is an ASCII code.
pub open spec fn is_ascii_bytes(bytes: Seq<u8>) -> bool {
    forall|i: int| 0 <= i < bytes.len() ==> bytes[i] < 128
}

/// The characters whose codes are the given bytes.
pub open spec fn ascii_text(bytes: Seq<u8>) -> Seq<char> {
    Seq::new(bytes.len(), |i: int| bytes[i] as char)
}

/// `String::from_utf8_lossy`: the text that the bytes spell in UTF-8, with
/// the replacement character in place of each malformed sequence. Bytes that
/// are valid UTF-8 spell the text that they encode, and bytes that are all
/// ASCII codes spell one character each.
#[verifier::external_body]
fn text_of(bytes: &[u8]) -> (text: String)
    ensures
        text@ == lossy_text(bytes@),
        valid_utf8(bytes@) ==> text@ == decode_utf8(bytes@),
        is_ascii_bytes(bytes@) ==> text@ == ascii_text(bytes@),
{
    String::from_utf8_lossy(bytes).into_owned()
}

/// Decodes `length` bytes of text from the head of `bytes` and returns the
/// text with the rest of the slice. Bytes that are no valid UTF-8 are
/// replaced, not refused.
pub fn deserialize_into_string(bytes: &[u8], length: u16) -> (r: Result<(String, &[u8]), ParseError>)
    ensures
        bytes@.len() < length ==> r == Err::<(String, &[u8]), ParseError>(
            ParseError::NotEnoughData,
        ),
        bytes@.len() >= length ==> r is Ok && r->Ok_0.0@ == lossy_text(bytes@.take(length as int))
            && r->Ok_0.1@ == bytes@.skip(length as int),
        bytes@.len() >= length && valid_utf8(bytes@.take(length as int)) ==> r->Ok_0.0@
            == decode_utf8(bytes@.take(length as int)),
        bytes@.len() >= length && is_ascii_bytes(bytes@.take(length as int)) ==> r->Ok_0.0@
            == ascii_text(bytes@.take(length as int)),
{
    if bytes.len() < length as usize {
        return Err(ParseError::NotEnoughData);
    }
    let (head, rest) = bytes.split_at(length as usize);
    proof {
        assert(head@ =~= bytes@.take(length as int));
        assert(rest@ =~= bytes@.skip(length as int));
    }
    Ok((text_of(head), rest))
}

/// The number of bytes that bring `length` up to the next multiple of
/// `boundary`.
pub open spec fn padding(length: nat, boundary: nat) -> nat
    recommends
        boundary > 0,
{
    ((boundary - length % boundary) % (boundary as int)) as nat
}

/// The number of bytes to skip after `consumed` bytes so that the next field
/// starts on a 4-byte boundary.
pub fn align_to_4(consumed: usize) -> (skip: usize)
    ensures
        skip == padding(consumed as nat, 4),
        skip < 4,
        (consumed + skip) % 4 == 0,
{
    (4 - consumed % 4) % 4
}

/// Drops from the head of `slice` the padding that follows a section of
/// `length` bytes, so that what is left starts on a multiple of `boundary`.
pub fn trim_by_padding(slice: &[u8], length: u16, boundary: u16) -> (rest: &[u8])
    requires
        boundary > 0,
        padding(length as nat, boundary as nat) <= slice@.len(),
    ensures
        rest@ == slice@.skip(padding(length as nat, boundary as nat) as int),
{
    let p = (boundary - length % boundary) % boundary;
    let (_, rest) = slice.split_at(p as usize);
    proof {
        assert(rest@ =~= slice@.skip(p as int));
    }
    rest
}

/// A record of fixed size that stands in a list on the wire.
pub trait DeserializeList: Sized {
    /// The number of bytes that one record occupies in a list.
    spec fn record_size() -> nat;

    /// What the bytes of one record decode to.
    spec fn record(bytes: Seq<u8>, order: ByteOrder) -> Result<Self, ParseError>;

    /// Decodes the bytes of one record.
    fn deserialize(bytes: &[u8], order: ByteOrder) -> (r: Result<Self, ParseError>)
        ensures
            r == Self::record(bytes@, order),
    ;

    /// The number of bytes that one record occupies in a list.
    fn size() -> (n: usize)
        ensures
            n == Self::record_size(),
    ;
}

/// The bytes of the record with index `i` in a list that starts at the head
/// of `bytes`.
pub open spec fn record_bytes<T: DeserializeList>(bytes: Seq<u8>, i: int) -> Seq<u8> {
    bytes.subrange(i * T::record_size(), (i + 1) * T::record_size())
}

/// The first `n` records of the list at the head of `bytes`, or the failure
/// of the first record that does not decode.
pub open spec fn spec_records<T: DeserializeList>(
    bytes: Seq<u8>,
    n: nat,
    order: ByteOrder,
) -> Result<Seq<T>, ParseError>
    decreases n,
{
    if n == 0 {
        Ok(Seq::empty())
    } else {
        match spec_records::<T>(bytes, (n - 1) as nat, order) {
            Err(e) => Err(e),
            Ok(items) => match T::record(record_bytes::<T>(bytes, n - 1), order) {
                Err(e) => Err(e),
                Ok(item) => Ok(items.push(item)),
            },
        }
    }
}

/// A list of `n` records at the head of `bytes` and the bytes behind it.
/// The list takes `n` times the size of a record: `OverFlow` where that
/// product does not fit the machine's word, `NotEnoughData` where `bytes`
/// is shorter.
pub open spec fn spec_deserialize_into_vec<T: DeserializeList>(
    bytes: Seq<u8>,
    n: nat,
    order: ByteOrder,
) -> Result<(Seq<T>, Seq<u8>), ParseError> {
    let total = T::record_size() * n;
    if total > usize::MAX {
        Err(ParseError::OverFlow)
    } else if bytes.len() < total {
        Err(ParseError::NotEnoughData)
    } else {
        match spec_records::<T>(bytes, n, order) {
            Err(e) => Err(e),
            Ok(items) => Ok((items, bytes.skip(total as int))),
        }
    }
}

/// A list result with the records and the bytes left over taken as sequences.
pub open spec fn list_with_rest<T>(r: Result<(Vec<T>, &[u8]), ParseError>) -> Result<
    (Seq<T>, Seq<u8>),
    ParseError,
> {
    match r {
        Ok((items, rest)) => Ok((items@, rest@)),
        Err(e) => Err(e),
    }
}

/// Once a record fails, every longer list fails in the same way.
pub proof fn lemma_records_failure_stays<T: DeserializeList>(
    bytes: Seq<u8>,
    m: nat,
    n: nat,
    order: ByteOrder,
)
    requires
        m <= n,
        spec_records::<T>(bytes, m, order) is Err,
    ensures
        spec_records::<T>(bytes, n, order) == spec_records::<T>(bytes, m, order),
    decreases n,
{
    if m < n {
        lemma_records_failure_stays::<T>(bytes, m, (n - 1) as nat, order);
    }
}

/// A list that decodes holds `n` records, and the record with index `i` is
/// what the bytes at `i` times the record size decode to.
pub proof fn lemma_records_each<T: DeserializeList>(bytes: Seq<u8>, n: nat, order: ByteOrder)
    requires
        spec_records::<T>(bytes, n, order) is Ok,
    ensures
        spec_records::<T>(bytes, n, order)->Ok_0.len() == n,
        forall|i: int|
            0 <= i < n ==> T::record(#[trigger] record_bytes::<T>(bytes, i), order) == Ok::<
                T,
                ParseError,
            >(spec_records::<T>(bytes, n, order)->Ok_0[i]),
    decreases n,
{
    if n > 0 {
        lemma_records_each::<T>(bytes, (n - 1) as nat, order);
    }
}

/// Decodes `n` consecutive records from the head of `bytes`, read in the
/// given order, and returns them with the rest of the slice.
pub fn deserialize_into_vec_with<'a, T: DeserializeList>(
    bytes: &'a [u8],
    n: usize,
    order: ByteOrder,
) -> (r: Result<(Vec<T>, &'a [u8]), ParseError>)
    ensures
        list_with_rest(r) == spec_deserialize_into_vec::<T>(bytes@, n as nat, order),
{
    let element_size = T::size();
    let tot_length: usize = match element_size.checked_mul(n) {
        Some(t) => t,
        None => {
            return Err(ParseError::OverFlow);
        },
    };
    if bytes.len() < tot_length {
        return Err(ParseError::NotEnoughData);
    }
    let mut items: Vec<T> = Vec::with_capacity(n);
    let mut start: usize = 0;
    let mut i: usize = 0;
    while i < n
        invariant
            i <= n,
            element_size == T::record_size(),
            tot_length == element_size * n,
            tot_length <= bytes@.len(),
            start == i * element_size,
            spec_records::<T>(bytes@, i as nat, order) == Ok::<Seq<T>, ParseError>(items@),
        decreases n - i,
    {
        proof {
            assert((i + 1) * element_size == i * element_size + element_size) by (nonlinear_arith);
            assert((i + 1) * element_size <= n * element_size) by (nonlinear_arith)
                requires
                    i + 1 <= n,
            ;
            assert(element_size * n == n * element_size) by (nonlinear_arith);
        }
        let chunk = &bytes[start..start + element_size];
        proof {
            assert(chunk@ =~= record_bytes::<T>(bytes@, i as int));
        }
        match T::deserialize(chunk, order) {
            Ok(item) => {
                items.push(item);
            },
            Err(e) => {
                proof {
                    lemma_records_failure_stays::<T>(bytes@, (i + 1) as nat, n as nat, order);
                }
                return Err(e);
            },
        }
        start += element_size;
        i += 1;
    }
    let (_, rest) = bytes.split_at(tot_length);
    proof {
        assert(rest@ =~= bytes@.skip(tot_length as int));
    }
    Ok((items, rest))
}

/// Decodes `n` consecutive records from the head of `bytes`, read in the
/// order of the host, and returns them with the rest of the slice.
pub fn deserialize_into_vec<'a, T: DeserializeList>(bytes: &'a [u8], n: usize) -> (r: Result<
    (Vec<T>, &'a [u8]),
    ParseError,
>)
    ensures
        list_with_rest(r) == spec_deserialize_into_vec::<T>(bytes@, n as nat, ByteOrder::Little)
            || list_with_rest(r) == spec_deserialize_into_vec::<T>(
            bytes@,
            n as nat,
            ByteOrder::Big,
        ),
        T::record_size() * n > usize::MAX ==> r == Err::<(Vec<T>, &[u8]), ParseError>(
            ParseError::OverFlow,
        ),
        T::record_size() * n <= usize::MAX && bytes@.len() < T::record_size() * n ==> r == Err::<
            (Vec<T>, &[u8]),
            ParseError,
        >(ParseError::NotEnoughData),
{
    let order = ByteOrder::native();
    deserialize_into_vec_with::<T>(bytes, n, order)
}

} // verus!
