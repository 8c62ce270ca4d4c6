//! Byte orders and the fixed-width integer encodings of the wire format.

use vstd::prelude::*;

verus! {

/// The order in which the bytes of a multi-byte integer travel.
#[derive(Clone, Copy, Debug, PartialEq, Eq, Structural)]
pub enum ByteOrder {
    /// Least significant byte first.
    Little,
    /// Most significant byte first.
    Big,
}

/// The marker byte that announces little-endian fields in a setup request.
pub const LITTLE_MARKER: u8 = 0x6c;

/// The marker byte that announces big-endian fields in a setup request.
pub const BIG_MARKER: u8 = 0x42;

impl ByteOrder {
    /// The byte order of the machine that runs this code.
    pub fn native() -> (order: ByteOrder) {
        let probe = host_bytes(1);
        Self::of_probe(probe)
    }

    /// The order in which two bytes hold the number 1: least significant
    /// byte first where the first byte is 1, most significant byte first
    /// otherwise.
    pub open spec fn spec_of_probe(probe: Seq<u8>) -> ByteOrder {
        if probe[0] == 1 {
            ByteOrder::Little
        } else {
            ByteOrder::Big
        }
    }

    /// The order in which the two bytes of `probe` hold the number 1.
    pub fn of_probe(probe: [u8; 2]) -> (order: ByteOrder)
        ensures
            order == Self::spec_of_probe(probe@),
    {
        if probe[0] == 1 {
            ByteOrder::Little
        } else {
            ByteOrder::Big
        }
    }

    /// The marker byte that a setup request carries for this order.
    pub open spec fn spec_marker(self) -> u8 {
        match self {
            ByteOrder::Little => LITTLE_MARKER,
            ByteOrder::Big => BIG_MARKER,
        }
    }

    /// The marker byte that a setup request carries for this order.
    pub fn marker(self) -> (m: u8)
        ensures
            m == self.spec_marker(),
    {
        match self {
            ByteOrder::Little => LITTLE_MARKER,
            ByteOrder::Big => BIG_MARKER,
        }
    }

    /// The order that a marker byte stands for, if it stands for one.
    pub open spec fn spec_from_marker(m: u8) -> Option<ByteOrder> {
        if m == LITTLE_MARKER {
            Some(ByteOrder::Little)
        } else if m == BIG_MARKER {
            Some(ByteOrder::Big)
        } else {
            None
        }
    }

    /// The order that a marker byte stands for, if it stands for one.
    pub fn from_marker(m: u8) -> (order: Option<ByteOrder>)
        ensures
            order == Self::spec_from_marker(m),
    {
        if m == LITTLE_MARKER {
            Some(ByteOrder::Little)
        } else if m == BIG_MARKER {
            Some(ByteOrder::Big)
        } else {
            None
        }
    }

    /// Appends the two bytes of `n` in this order to `out`.
    pub fn put_u16(self, out: &mut Vec<u8>, n: u16)
        ensures
            final(out)@ == old(out)@ + u16_bytes(self, n),
    {
        match self {
            ByteOrder::Little => {
                out.push((n % 256) as u8);
                out.push((n / 256) as u8);
            },
            ByteOrder::Big => {
                out.push((n / 256) as u8);
                out.push((n % 256) as u8);
            },
        }
        proof {
            assert(out@ =~= old(out)@ + u16_bytes(self, n));
        }
    }
}

/// `u16::to_ne_bytes`: the two bytes of `n` as the host keeps them in memory.
/// Every host keeps them in one of the two orders; which one is not stated.
#[verifier::external_body]
fn host_bytes(n: u16) -> (b: [u8; 2])
    ensures
        b@ == u16_bytes(ByteOrder::Little, n) || b@ == u16_bytes(ByteOrder::Big, n),
{
    n.to_ne_bytes()
}

/// The two bytes of `n` in the given order.
pub open spec fn u16_bytes(order: ByteOrder, n: u16) -> Seq<u8> {
    match order {
        ByteOrder::Little => seq![(n % 256) as u8, (n / 256) as u8],
        ByteOrder::Big => seq![(n / 256) as u8, (n % 256) as u8],
    }
}

/// The value of the first two bytes of `b`, read in the given order.
pub open spec fn u16_value(order: ByteOrder, b: Seq<u8>) -> u16
    recommends
        b.len() >= 2,
{
    match order {
        ByteOrder::Little => (b[0] as nat + 256 * b[1] as nat) as u16,
        ByteOrder::Big => (b[1] as nat + 256 * b[0] as nat) as u16,
    }
}

/// The value of the first four bytes of `b`, read in the given order.
pub open spec fn u32_value(order: ByteOrder, b: Seq<u8>) -> u32
    recommends
        b.len() >= 4,
{
    match order {
        ByteOrder::Little => (b[0] as nat + 256 * b[1] as nat + 65536 * b[2] as nat + 16777216
            * b[3] as nat) as u32,
        ByteOrder::Big => (b[3] as nat + 256 * b[2] as nat + 65536 * b[1] as nat + 16777216
            * b[0] as nat) as u32,
    }
}

/// The value of the first eight bytes of `b`, read in the given order.
pub open spec fn u64_value(order: ByteOrder, b: Seq<u8>) -> u64
    recommends
        b.len() >= 8,
{
    match order {
        ByteOrder::Little => (u32_value(order, b) as nat + 4294967296 * u32_value(
            order,
            b.skip(4),
        ) as nat) as u64,
        ByteOrder::Big => (u32_value(order, b.skip(4)) as nat + 4294967296 * u32_value(
            order,
            b,
        ) as nat) as u64,
    }
}

/// The bytes of the number 1 tell the order in which they were written.
pub proof fn lemma_probe_tells_order(order: ByteOrder)
    ensures
        ByteOrder::spec_of_probe(u16_bytes(order, 1)) == order,
{
}

/// Reading back the bytes of `n` in the order they were written gives `n`.
pub proof fn lemma_u16_round_trip(order: ByteOrder, n: u16)
    ensures
        u16_bytes(order, n).len() == 2,
        u16_value(order, u16_bytes(order, n)) == n,
{
}

/// Writing the value of two bytes in the order they were read gives the
/// same two bytes.
pub proof fn lemma_u16_bytes_of_value(order: ByteOrder, b: Seq<u8>)
    requires
        b.len() == 2,
    ensures
        u16_bytes(order, u16_value(order, b)) == b,
{
    assert(u16_bytes(order, u16_value(order, b)) =~= b);
}

/// Big-endian encoder of 16-bit values.
pub struct BigEndian;

/// Little-endian encoder of 16-bit values.
pub struct LittleEndian;

impl BigEndian {
    /// Stores `n` in the first two bytes of `buf`, most significant byte first.
    pub fn write_u16(&self, buf: &mut [u8], n: u16)
        requires
            old(buf)@.len() >= 2,
        ensures
            final(buf)@.len() == old(buf)@.len(),
            final(buf)@.subrange(0, 2) == u16_bytes(ByteOrder::Big, n),
            final(buf)@.skip(2) == old(buf)@.skip(2),
    {
        buf[0] = (n / 256) as u8;
        buf[1] = (n % 256) as u8;
        proof {
            assert(buf@.subrange(0, 2) =~= u16_bytes(ByteOrder::Big, n));
            assert(buf@.skip(2) =~= old(buf)@.skip(2));
        }
    }
}

impl LittleEndian {
    /// Stores `n` in the first two bytes of `buf`, least significant byte first.
    pub fn write_u16(&self, buf: &mut [u8], n: u16)
        requires
            old(buf)@.len() >= 2,
        ensures
            final(buf)@.len() == old(buf)@.len(),
            final(buf)@.subrange(0, 2) == u16_bytes(ByteOrder::Little, n),
            final(buf)@.skip(2) == old(buf)@.skip(2),
    {
        buf[0] = (n % 256) as u8;
        buf[1] = (n / 256) as u8;
        proof {
            assert(buf@.subrange(0, 2) =~= u16_bytes(ByteOrder::Little, n));
            assert(buf@.skip(2) =~= old(buf)@.skip(2));
        }
    }
}

} // verus!
