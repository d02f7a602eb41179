//! Integers in byte buffers, and the trait of values with a fixed wire layout. The guest and the
//! host share their memory, so a layout has the integers in the byte order of the host.

use vstd::prelude::*;
use vstd::slice::slice_subrange;

verus! {

/// The order of the bytes of an integer.
#[derive(Copy, Clone, Debug, PartialEq, Eq)]
pub enum ByteOrder {
    /// The least significant byte comes first.
    Little,
    /// The most significant byte comes first.
    Big,
}

/// The 16-bit integer whose bytes start at `at`.
pub open spec fn u16_at(order: ByteOrder, bytes: Seq<u8>, at: int) -> u16 {
    match order {
        ByteOrder::Little => (bytes[at] + 0x100 * bytes[at + 1]) as u16,
        ByteOrder::Big => (bytes[at + 1] + 0x100 * bytes[at]) as u16,
    }
}

/// The 32-bit integer whose bytes start at `at`.
pub open spec fn u32_at(order: ByteOrder, bytes: Seq<u8>, at: int) -> u32 {
    match order {
        ByteOrder::Little => (bytes[at] + 0x100 * bytes[at + 1] + 0x1_0000 * bytes[at + 2]
            + 0x100_0000 * bytes[at + 3]) as u32,
        ByteOrder::Big => (bytes[at + 3] + 0x100 * bytes[at + 2] + 0x1_0000 * bytes[at + 1]
            + 0x100_0000 * bytes[at]) as u32,
    }
}

/// The 64-bit integer whose bytes start at `at`.
pub open spec fn u64_at(order: ByteOrder, bytes: Seq<u8>, at: int) -> u64 {
    match order {
        ByteOrder::Little => (u32_at(order, bytes, at) + 0x1_0000_0000 * u32_at(
            order,
            bytes,
            at + 4,
        )) as u64,
        ByteOrder::Big => (u32_at(order, bytes, at + 4) + 0x1_0000_0000 * u32_at(
            order,
            bytes,
            at,
        )) as u64,
    }
}

/// The 128-bit integer whose little-endian bytes start at `at`.
pub open spec fn le_u128(bytes: Seq<u8>, at: int) -> u128 {
    (u64_at(ByteOrder::Little, bytes, at) + 0x1_0000_0000_0000_0000 * u64_at(
        ByteOrder::Little,
        bytes,
        at + 8,
    )) as u128
}

/// The bytes of a 16-bit integer.
#[verifier::opaque]
pub open spec fn u16_bytes(order: ByteOrder, v: u16) -> Seq<u8> {
    match order {
        ByteOrder::Little => seq![(v % 0x100) as u8, (v / 0x100) as u8],
        ByteOrder::Big => seq![(v / 0x100) as u8, (v % 0x100) as u8],
    }
}

/// Byte `k` of the four bytes of a 32-bit integer, the least significant first.
pub open spec fn u32_le_byte(v: u32, k: int) -> u8 {
    if k == 0 {
        (v % 0x100) as u8
    } else if k == 1 {
        (v / 0x100 % 0x100) as u8
    } else if k == 2 {
        (v / 0x1_0000 % 0x100) as u8
    } else {
        (v / 0x100_0000) as u8
    }
}

/// Byte `k` of the four bytes of a 32-bit integer.
pub open spec fn u32_byte(order: ByteOrder, v: u32, k: int) -> u8 {
    match order {
        ByteOrder::Little => u32_le_byte(v, k),
        ByteOrder::Big => u32_le_byte(v, 3 - k),
    }
}

/// The bytes of a 32-bit integer.
#[verifier::opaque]
pub open spec fn u32_bytes(order: ByteOrder, v: u32) -> Seq<u8> {
    seq![u32_byte(order, v, 0), u32_byte(order, v, 1), u32_byte(order, v, 2), u32_byte(order, v, 3)]
}

/// The bytes of a 64-bit integer.
#[verifier::opaque]
pub open spec fn u64_bytes(order: ByteOrder, v: u64) -> Seq<u8> {
    let low = u32_bytes(order, (v % 0x1_0000_0000) as u32);
    let high = u32_bytes(order, (v / 0x1_0000_0000) as u32);
    match order {
        ByteOrder::Little => low + high,
        ByteOrder::Big => high + low,
    }
}

/// The bytes of a sequence of 32-bit integers, one after the other.
#[verifier::opaque]
pub open spec fn u32s_bytes(order: ByteOrder, words: Seq<u32>) -> Seq<u8> {
    Seq::new(4 * words.len(), |i: int| u32_byte(order, words[i / 4], i % 4))
}

/// The `n` 32-bit integers whose bytes start at `at`.
pub open spec fn u32s_at(order: ByteOrder, bytes: Seq<u8>, at: int, n: nat) -> Seq<u32> {
    Seq::new(n, |i: int| u32_at(order, bytes, at + 4 * i))
}

/// How many bytes the integers take.
pub broadcast proof fn lemma_u16_bytes_len(order: ByteOrder, v: u16)
    ensures
        #[trigger] u16_bytes(order, v).len() == 2,
{
    reveal(u16_bytes);
}

/// How many bytes the integers take.
pub broadcast proof fn lemma_u32_bytes_len(order: ByteOrder, v: u32)
    ensures
        #[trigger] u32_bytes(order, v).len() == 4,
{
    reveal(u32_bytes);
}

/// How many bytes the integers take.
pub broadcast proof fn lemma_u64_bytes_len(order: ByteOrder, v: u64)
    ensures
        #[trigger] u64_bytes(order, v).len() == 8,
{
    reveal(u64_bytes);
    reveal(u32_bytes);
}

/// How many bytes the integers take.
pub broadcast proof fn lemma_u32s_bytes_len(order: ByteOrder, words: Seq<u32>)
    ensures
        #[trigger] u32s_bytes(order, words).len() == 4 * words.len(),
{
    reveal(u32s_bytes);
}

pub broadcast group group_bytes_len {
    lemma_u16_bytes_len,
    lemma_u32_bytes_len,
    lemma_u64_bytes_len,
    lemma_u32s_bytes_len,
}

proof fn lemma_u32_byte(order: ByteOrder, bytes: Seq<u8>, at: int)
    ensures
        u32_byte(order, u32_at(order, bytes, at), 0) == bytes[at],
        u32_byte(order, u32_at(order, bytes, at), 1) == bytes[at + 1],
        u32_byte(order, u32_at(order, bytes, at), 2) == bytes[at + 2],
        u32_byte(order, u32_at(order, bytes, at), 3) == bytes[at + 3],
{
    let (b0, b1, b2, b3) = match order {
        ByteOrder::Little => (bytes[at], bytes[at + 1], bytes[at + 2], bytes[at + 3]),
        ByteOrder::Big => (bytes[at + 3], bytes[at + 2], bytes[at + 1], bytes[at]),
    };
    let v = u32_at(order, bytes, at);
    assert(v % 0x100 == b0 && v / 0x100 % 0x100 == b1 && v / 0x1_0000 % 0x100 == b2 && v
        / 0x100_0000 == b3) by (bit_vector)
        requires
            v == b0 + 0x100 * b1 + 0x1_0000 * b2 + 0x100_0000 * b3,
    ;
}

/// Bytes that are those of `v` read back as `v`.
pub proof fn lemma_read_u16(order: ByteOrder, bytes: Seq<u8>, at: int, v: u16)
    requires
        0 <= at,
        at + 2 <= bytes.len(),
        bytes.subrange(at, at + 2) == u16_bytes(order, v),
    ensures
        u16_at(order, bytes, at) == v,
{
    reveal(u16_bytes);
    assert(bytes[at] == bytes.subrange(at, at + 2)[0]);
    assert(bytes[at + 1] == bytes.subrange(at, at + 2)[1]);
}

/// Bytes that are those of `v` read back as `v`.
pub proof fn lemma_read_u32(order: ByteOrder, bytes: Seq<u8>, at: int, v: u32)
    requires
        0 <= at,
        at + 4 <= bytes.len(),
        bytes.subrange(at, at + 4) == u32_bytes(order, v),
    ensures
        u32_at(order, bytes, at) == v,
{
    reveal(u32_bytes);
    let s = bytes.subrange(at, at + 4);
    assert(bytes[at] == s[0]);
    assert(bytes[at + 1] == s[1]);
    assert(bytes[at + 2] == s[2]);
    assert(bytes[at + 3] == s[3]);
}

/// Bytes that are those of `v` read back as `v`.
pub proof fn lemma_read_u64(order: ByteOrder, bytes: Seq<u8>, at: int, v: u64)
    requires
        0 <= at,
        at + 8 <= bytes.len(),
        bytes.subrange(at, at + 8) == u64_bytes(order, v),
    ensures
        u64_at(order, bytes, at) == v,
{
    reveal(u64_bytes);
    reveal(u32_bytes);
    let s = bytes.subrange(at, at + 8);
    let low = (v % 0x1_0000_0000) as u32;
    let high = (v / 0x1_0000_0000) as u32;
    let (first, second) = match order {
        ByteOrder::Little => (low, high),
        ByteOrder::Big => (high, low),
    };
    assert(bytes.subrange(at, at + 4) =~= s.subrange(0, 4));
    assert(s.subrange(0, 4) =~= u32_bytes(order, first));
    assert(bytes.subrange(at + 4, at + 4 + 4) =~= s.subrange(4, 8));
    assert(s.subrange(4, 8) =~= u32_bytes(order, second));
    lemma_read_u32(order, bytes, at, first);
    lemma_read_u32(order, bytes, at + 4, second);
}

/// Bytes that are those of `words` read back as `words`.
pub proof fn lemma_read_u32s(order: ByteOrder, bytes: Seq<u8>, at: int, words: Seq<u32>)
    requires
        0 <= at,
        at + 4 * words.len() <= bytes.len(),
        bytes.subrange(at, at + 4 * words.len()) == u32s_bytes(order, words),
    ensures
        u32s_at(order, bytes, at, words.len()) == words,
{
    reveal(u32s_bytes);
    reveal(u32_bytes);
    let s = bytes.subrange(at, at + 4 * words.len());
    assert forall|i: int| 0 <= i < words.len() implies u32_at(order, bytes, at + 4 * i)
        == words[i] by {
        assert forall|k: int| 0 <= k < 4 implies s[4 * i + k] == u32_byte(order, words[i], k) by {
            assert((4 * i + k) / 4 == i && (4 * i + k) % 4 == k);
        }
        assert(bytes.subrange(at + 4 * i, at + 4 * i + 4) =~= s.subrange(4 * i, 4 * i + 4));
        assert(s.subrange(4 * i, 4 * i + 4) =~= u32_bytes(order, words[i]));
        lemma_read_u32(order, bytes, at + 4 * i, words[i]);
    }
    assert(u32s_at(order, bytes, at, words.len()) =~= words);
}

/// The integer read at `at` has the bytes that stand there.
pub proof fn lemma_write_u16(order: ByteOrder, bytes: Seq<u8>, at: int)
    requires
        0 <= at,
        at + 2 <= bytes.len(),
    ensures
        u16_bytes(order, u16_at(order, bytes, at)) == bytes.subrange(at, at + 2),
{
    reveal(u16_bytes);
    assert(u16_bytes(order, u16_at(order, bytes, at)) =~= bytes.subrange(at, at + 2));
}

/// The integer read at `at` has the bytes that stand there.
pub proof fn lemma_write_u32(order: ByteOrder, bytes: Seq<u8>, at: int)
    requires
        0 <= at,
        at + 4 <= bytes.len(),
    ensures
        u32_bytes(order, u32_at(order, bytes, at)) == bytes.subrange(at, at + 4),
{
    reveal(u32_bytes);
    lemma_u32_byte(order, bytes, at);
    assert(u32_bytes(order, u32_at(order, bytes, at)) =~= bytes.subrange(at, at + 4));
}

proof fn lemma_split_u64(low: u32, high: u32)
    ensures
        ((low + 0x1_0000_0000 * high) as u64 % 0x1_0000_0000) as u32 == low,
        ((low + 0x1_0000_0000 * high) as u64 / 0x1_0000_0000) as u32 == high,
{
}

/// The integer read at `at` has the bytes that stand there.
pub proof fn lemma_write_u64(order: ByteOrder, bytes: Seq<u8>, at: int)
    requires
        0 <= at,
        at + 8 <= bytes.len(),
    ensures
        u64_bytes(order, u64_at(order, bytes, at)) == bytes.subrange(at, at + 8),
{
    reveal(u64_bytes);
    lemma_write_u32(order, bytes, at);
    lemma_write_u32(order, bytes, at + 4);
    let first = u32_at(order, bytes, at);
    let second = u32_at(order, bytes, at + 4);
    match order {
        ByteOrder::Little => lemma_split_u64(first, second),
        ByteOrder::Big => lemma_split_u64(second, first),
    }
    assert(bytes.subrange(at, at + 4) + bytes.subrange(at + 4, at + 8) =~= bytes.subrange(
        at,
        at + 8,
    ));
}

/// The integers read at `at` have the bytes that stand there.
pub proof fn lemma_write_u32s(order: ByteOrder, bytes: Seq<u8>, at: int, n: nat)
    requires
        0 <= at,
        at + 4 * n <= bytes.len(),
    ensures
        u32s_bytes(order, u32s_at(order, bytes, at, n)) == bytes.subrange(at, at + 4 * n),
{
    reveal(u32s_bytes);
    let words = u32s_at(order, bytes, at, n);
    assert forall|i: int| 0 <= i < 4 * n implies u32s_bytes(order, words)[i] == bytes[at + i] by {
        let w = i / 4;
        assert(words[w] == u32_at(order, bytes, at + 4 * w));
        lemma_u32_byte(order, bytes, at + 4 * w);
        assert(i == 4 * w + i % 4);
    }
    assert(u32s_bytes(order, words) =~= bytes.subrange(at, at + 4 * n));
}

/// `zerocopy::FromBytes::read_from_prefix` on `zerocopy::little_endian::U16`, then `get`: the
/// integer in the first two bytes, or nothing where `source` is shorter than that.
#[verifier::external_body]
fn le_u16_from_prefix(source: &[u8]) -> (r: Option<u16>)
    ensures
        r == (if source@.len() >= 2 {
            Some(u16_at(ByteOrder::Little, source@, 0))
        } else {
            None::<u16>
        }),
{
    match <zerocopy::little_endian::U16 as zerocopy::FromBytes>::read_from_prefix(source) {
        Ok((value, _)) => Some(value.get()),
        Err(_) => None,
    }
}

/// `zerocopy::FromBytes::read_from_prefix` on `zerocopy::big_endian::U16`, then `get`: the
/// integer in the first two bytes, or nothing where `source` is shorter than that.
#[verifier::external_body]
fn be_u16_from_prefix(source: &[u8]) -> (r: Option<u16>)
    ensures
        r == (if source@.len() >= 2 {
            Some(u16_at(ByteOrder::Big, source@, 0))
        } else {
            None::<u16>
        }),
{
    match <zerocopy::big_endian::U16 as zerocopy::FromBytes>::read_from_prefix(source) {
        Ok((value, _)) => Some(value.get()),
        Err(_) => None,
    }
}

/// `zerocopy::FromBytes::read_from_prefix` on `zerocopy::little_endian::U32`, then `get`: the
/// integer in the first four bytes, or nothing where `source` is shorter than that.
#[verifier::external_body]
fn le_u32_from_prefix(source: &[u8]) -> (r: Option<u32>)
    ensures
        r == (if source@.len() >= 4 {
            Some(u32_at(ByteOrder::Little, source@, 0))
        } else {
            None::<u32>
        }),
{
    match <zerocopy::little_endian::U32 as zerocopy::FromBytes>::read_from_prefix(source) {
        Ok((value, _)) => Some(value.get()),
        Err(_) => None,
    }
}

/// `zerocopy::FromBytes::read_from_prefix` on `zerocopy::big_endian::U32`, then `get`: the
/// integer in the first four bytes, or nothing where `source` is shorter than that.
#[verifier::external_body]
fn be_u32_from_prefix(source: &[u8]) -> (r: Option<u32>)
    ensures
        r == (if source@.len() >= 4 {
            Some(u32_at(ByteOrder::Big, source@, 0))
        } else {
            None::<u32>
        }),
{
    match <zerocopy::big_endian::U32 as zerocopy::FromBytes>::read_from_prefix(source) {
        Ok((value, _)) => Some(value.get()),
        Err(_) => None,
    }
}

/// `zerocopy::IntoBytes::as_bytes` on a `zerocopy::little_endian::U16`: its two bytes, least
/// significant first.
#[verifier::external_body]
fn u16_as_le_bytes(value: u16) -> (r: Vec<u8>)
    ensures
        r@ == u16_bytes(ByteOrder::Little, value),
{
    zerocopy::IntoBytes::as_bytes(&zerocopy::little_endian::U16::new(value)).to_vec()
}

/// `zerocopy::IntoBytes::as_bytes` on a `zerocopy::big_endian::U16`: its two bytes, most
/// significant first.
#[verifier::external_body]
fn u16_as_be_bytes(value: u16) -> (r: Vec<u8>)
    ensures
        r@ == u16_bytes(ByteOrder::Big, value),
{
    zerocopy::IntoBytes::as_bytes(&zerocopy::big_endian::U16::new(value)).to_vec()
}

/// `zerocopy::IntoBytes::as_bytes` on a `zerocopy::little_endian::U32`: its four bytes, least
/// significant first.
#[verifier::external_body]
fn u32_as_le_bytes(value: u32) -> (r: Vec<u8>)
    ensures
        r@ == u32_bytes(ByteOrder::Little, value),
{
    zerocopy::IntoBytes::as_bytes(&zerocopy::little_endian::U32::new(value)).to_vec()
}

/// `zerocopy::IntoBytes::as_bytes` on a `zerocopy::big_endian::U32`: its four bytes, most
/// significant first.
#[verifier::external_body]
fn u32_as_be_bytes(value: u32) -> (r: Vec<u8>)
    ensures
        r@ == u32_bytes(ByteOrder::Big, value),
{
    zerocopy::IntoBytes::as_bytes(&zerocopy::big_endian::U32::new(value)).to_vec()
}

pub fn read_u16(order: ByteOrder, bytes: &[u8], at: usize) -> (r: u16)
    requires
        at + 2 <= bytes.len(),
    ensures
        r == u16_at(order, bytes@, at as int),
{
    let source = slice_subrange(bytes, at, at + 2);
    match order {
        ByteOrder::Little => le_u16_from_prefix(source).unwrap(),
        ByteOrder::Big => be_u16_from_prefix(source).unwrap(),
    }
}

pub fn read_u32(order: ByteOrder, bytes: &[u8], at: usize) -> (r: u32)
    requires
        at + 4 <= bytes.len(),
    ensures
        r == u32_at(order, bytes@, at as int),
{
    let source = slice_subrange(bytes, at, at + 4);
    match order {
        ByteOrder::Little => le_u32_from_prefix(source).unwrap(),
        ByteOrder::Big => be_u32_from_prefix(source).unwrap(),
    }
}

pub fn read_u64(order: ByteOrder, bytes: &[u8], at: usize) -> (r: u64)
    requires
        at + 8 <= bytes.len(),
    ensures
        r == u64_at(order, bytes@, at as int),
{
    let first: u64 = read_u32(order, bytes, at) as u64;
    let second: u64 = read_u32(order, bytes, at + 4) as u64;
    match order {
        ByteOrder::Little => first + 0x1_0000_0000 * second,
        ByteOrder::Big => second + 0x1_0000_0000 * first,
    }
}

/// Reads a little-endian integer.
pub fn read_le_u128(bytes: &[u8], at: usize) -> (r: u128)
    requires
        at + 16 <= bytes.len(),
    ensures
        r == le_u128(bytes@, at as int),
{
    let low: u128 = read_u64(ByteOrder::Little, bytes, at) as u128;
    let high: u128 = read_u64(ByteOrder::Little, bytes, at + 8) as u128;
    low + 0x1_0000_0000_0000_0000 * high
}

pub fn push_u16(order: ByteOrder, out: &mut Vec<u8>, value: u16)
    ensures
        final(out)@ == old(out)@ + u16_bytes(order, value),
{
    let mut bytes = match order {
        ByteOrder::Little => u16_as_le_bytes(value),
        ByteOrder::Big => u16_as_be_bytes(value),
    };
    out.append(&mut bytes);
}

pub fn push_u32(order: ByteOrder, out: &mut Vec<u8>, value: u32)
    ensures
        final(out)@ == old(out)@ + u32_bytes(order, value),
{
    let mut bytes = match order {
        ByteOrder::Little => u32_as_le_bytes(value),
        ByteOrder::Big => u32_as_be_bytes(value),
    };
    out.append(&mut bytes);
}

pub fn push_u64(order: ByteOrder, out: &mut Vec<u8>, value: u64)
    ensures
        final(out)@ == old(out)@ + u64_bytes(order, value),
{
    let low: u32 = (value % 0x1_0000_0000) as u32;
    let high: u32 = (value / 0x1_0000_0000) as u32;
    match order {
        ByteOrder::Little => {
            push_u32(order, out, low);
            push_u32(order, out, high);
        },
        ByteOrder::Big => {
            push_u32(order, out, high);
            push_u32(order, out, low);
        },
    }
    proof {
        reveal(u64_bytes);
    }
    assert(out@ =~= old(out)@ + u64_bytes(order, value));
}

pub fn push_u32s(order: ByteOrder, out: &mut Vec<u8>, words: &[u32])
    ensures
        final(out)@ == old(out)@ + u32s_bytes(order, words@),
{
    let mut i: usize = 0;
    proof {
        reveal(u32s_bytes);
        assert(out@ =~= old(out)@ + u32s_bytes(order, words@.take(0)));
    }
    while i < words.len()
        invariant
            0 <= i <= words.len(),
            out@ == old(out)@ + u32s_bytes(order, words@.take(i as int)),
        decreases words.len() - i,
    {
        let ghost before = out@;
        push_u32(order, out, words[i]);
        i += 1;
        proof {
            reveal(u32s_bytes);
            reveal(u32_bytes);
            let shorter = u32s_bytes(order, words@.take(i - 1));
            let longer = u32s_bytes(order, words@.take(i as int));
            assert forall|k: int| 0 <= k < longer.len() implies #[trigger] longer[k] == (shorter
                + u32_bytes(order, words[i - 1]))[k] by {
                if k >= 4 * (i - 1) {
                    assert(k / 4 == i - 1);
                }
            }
            assert(longer =~= shorter + u32_bytes(order, words[i - 1]));
            assert(out@ =~= old(out)@ + longer);
        }
    }
    assert(words@.take(i as int) =~= words@);
}

pub fn push_bytes(out: &mut Vec<u8>, bytes: &[u8])
    ensures
        final(out)@ == old(out)@ + bytes@,
{
    out.extend_from_slice(bytes);
}

/// A value with a fixed layout in bytes.
pub trait Wire: Sized {
    /// The number of bytes that the layout takes.
    spec fn wire_size() -> nat;

    /// The value that a buffer of at least `wire_size()` bytes starts with.
    spec fn decoded(order: ByteOrder, bytes: Seq<u8>) -> Self;

    /// The bytes of the value.
    spec fn encoded(self, order: ByteOrder) -> Seq<u8>;

    /// The number of bytes that the layout takes.
    fn size_of() -> (r: usize)
        ensures
            r == Self::wire_size(),
    ;

    /// Reads the value that `bytes` starts with, where `bytes` is long enough to hold one.
    fn read_from_prefix(order: ByteOrder, bytes: &[u8]) -> (r: Option<Self>)
        ensures
            r == (if bytes@.len() >= Self::wire_size() {
                Some(Self::decoded(order, bytes@))
            } else {
                None
            }),
    ;

    /// The bytes of the value.
    fn as_bytes(&self, order: ByteOrder) -> (r: Vec<u8>)
        ensures
            r@ == self.encoded(order),
            r@.len() == Self::wire_size(),
    ;

    /// What was written is what is read, whatever follows it in the buffer.
    proof fn decode_encoded(self, order: ByteOrder, tail: Seq<u8>)
        ensures
            self.encoded(order).len() == Self::wire_size(),
            Self::decoded(order, self.encoded(order) + tail) == self,
    ;

    /// What was read is written back as the bytes that it was read from.
    proof fn encode_decoded(order: ByteOrder, bytes: Seq<u8>)
        requires
            bytes.len() >= Self::wire_size(),
        ensures
            Self::decoded(order, bytes).encoded(order) == bytes.take(Self::wire_size() as int),
    ;
}

} // verus!
