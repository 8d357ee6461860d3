//! The binary encoding of stored values and of map and list keys.

use vstd::prelude::*;

verus! {

/// A type with a deterministic binary form.
///
/// `encode_spec` and `decode_spec` are the mathematical description of the
/// encoding; the executable methods are held to them. Decoding reads a
/// value from the front of a byte string, so that what `encode_spec` writes
/// is always read back as the same value.
pub trait Codec: Sized {
    /// The bytes that `self` is written as.
    spec fn encode_spec(&self) -> Seq<u8>;

    /// The value that `bytes` is read as, if it holds one.
    spec fn decode_spec(bytes: Seq<u8>) -> Option<Self>;

    /// Decoding what was encoded gives the value back.
    proof fn decode_encode(value: Self)
        ensures
            Self::decode_spec(value.encode_spec()) == Some(value),
    ;

    /// Appends the encoding of `self` to `dest`.
    fn encode_to(&self, dest: &mut Vec<u8>)
        ensures
            final(dest)@ == old(dest)@ + self.encode_spec(),
    ;

    /// Reads a value from `bytes`.
    fn decode(bytes: &[u8]) -> (value: Option<Self>)
        ensures
            value == Self::decode_spec(bytes@),
    ;
}

/// The number of values that `width` bytes can tell apart.
pub open spec fn byte_range(width: nat) -> nat
    decreases width,
{
    if width == 0 {
        1
    } else {
        256 * byte_range((width - 1) as nat)
    }
}

/// The little-endian bytes of `value` at a width of `width` bytes: the
/// lowest byte comes first.
pub open spec fn le_bytes(value: nat, width: nat) -> Seq<u8>
    decreases width,
{
    if width == 0 {
        Seq::empty()
    } else {
        seq![(value % 256) as u8] + le_bytes(value / 256, (width - 1) as nat)
    }
}

/// The number that `bytes` stand for, the lowest byte first.
pub open spec fn le_value(bytes: Seq<u8>) -> nat
    decreases bytes.len(),
{
    if bytes.len() == 0 {
        0
    } else {
        bytes[0] as nat + 256 * le_value(bytes.drop_first())
    }
}

/// A number is written in as many bytes as the width says.
pub proof fn lemma_le_bytes_len(value: nat, width: nat)
    ensures
        le_bytes(value, width).len() == width,
    decreases width,
{
    if width > 0 {
        lemma_le_bytes_len(value / 256, (width - 1) as nat);
    }
}

/// A number that fits the width is read back from its bytes.
pub proof fn lemma_le_value_of_bytes(value: nat, width: nat)
    requires
        value < byte_range(width),
    ensures
        le_value(le_bytes(value, width)) == value,
    decreases width,
{
    if width > 0 {
        let rest = (width - 1) as nat;
        let bytes = le_bytes(value, width);
        lemma_le_bytes_len(value / 256, rest);
        assert(bytes.drop_first() =~= le_bytes(value / 256, rest));
        assert(value / 256 < byte_range(rest)) by (nonlinear_arith)
            requires
                value < 256 * byte_range(rest),
        ;
        lemma_le_value_of_bytes(value / 256, rest);
        assert(value == value % 256 + 256 * (value / 256)) by (nonlinear_arith);
    }
}

/// Bytes stand for a number that fits their width, and that number is
/// written as those bytes.
pub proof fn lemma_le_bytes_of_value(bytes: Seq<u8>)
    ensures
        le_value(bytes) < byte_range(bytes.len()),
        le_bytes(le_value(bytes), bytes.len()) == bytes,
    decreases bytes.len(),
{
    if bytes.len() > 0 {
        let rest = bytes.drop_first();
        let low = bytes[0] as nat;
        let high = le_value(rest);
        lemma_le_bytes_of_value(rest);
        assert(low + 256 * high < 256 * byte_range(rest.len())) by (nonlinear_arith)
            requires
                low < 256,
                high < byte_range(rest.len()),
        ;
        assert((low + 256 * high) % 256 == low && (low + 256 * high) / 256 == high)
            by (nonlinear_arith)
            requires
                low < 256,
        ;
        assert(le_bytes(le_value(bytes), bytes.len()) =~= bytes);
    }
}

/// Four bytes tell 2^32 values apart, and eight bytes 2^64.
pub proof fn lemma_byte_ranges()
    ensures
        byte_range(4) == 0x1_0000_0000,
        byte_range(8) == 0x1_0000_0000_0000_0000,
{
    reveal_with_fuel(byte_range, 9);
}

/// Appends the four little-endian bytes of `value` to `dest`, by
/// `parity_codec::Encode::encode_to` at `u32`: the crate writes a
/// fixed-width integer as its little-endian bytes and nothing else.
#[verifier::external_body]
fn encode_u32_to(value: u32, dest: &mut Vec<u8>)
    ensures
        final(dest)@ == old(dest)@ + le_bytes(value as nat, 4),
{
    parity_codec::Encode::encode_to(&value, dest)
}

/// Reads a `u32` by `parity_codec::Decode::decode` at `u32`: the crate takes
/// the first four bytes as a little-endian integer, and gives nothing when
/// fewer than four are there. Bytes after the fourth are not looked at.
#[verifier::external_body]
fn decode_u32(bytes: &[u8]) -> (value: Option<u32>)
    ensures
        value == if bytes@.len() >= 4 {
            Some(le_value(bytes@.subrange(0, 4)) as u32)
        } else {
            None
        },
{
    let mut input = bytes;
    parity_codec::Decode::decode(&mut input)
}

impl Codec for u32 {
    open spec fn encode_spec(&self) -> Seq<u8> {
        le_bytes(*self as nat, 4)
    }

    open spec fn decode_spec(bytes: Seq<u8>) -> Option<u32> {
        if bytes.len() >= 4 {
            Some(le_value(bytes.subrange(0, 4)) as u32)
        } else {
            None
        }
    }

    proof fn decode_encode(value: u32) {
        let bytes = le_bytes(value as nat, 4);
        lemma_byte_ranges();
        lemma_le_bytes_len(value as nat, 4);
        lemma_le_value_of_bytes(value as nat, 4);
        assert(bytes.subrange(0, 4) =~= bytes);
    }

    fn encode_to(&self, dest: &mut Vec<u8>) {
        encode_u32_to(*self, dest)
    }

    fn decode(bytes: &[u8]) -> (value: Option<u32>) {
        decode_u32(bytes)
    }
}

/// Every `u32` is encoded in four bytes.
pub proof fn lemma_u32_encoding_len(value: u32)
    ensures
        value.encode_spec().len() == 4,
{
    lemma_le_bytes_len(value as nat, 4);
}

/// Four bytes are the encoding of the `u32` that is read from them.
pub proof fn lemma_u32_of_four_bytes(bytes: Seq<u8>)
    requires
        bytes.len() == 4,
    ensures
        u32::decode_spec(bytes) matches Some(value) && value.encode_spec() == bytes,
{
    lemma_byte_ranges();
    assert(bytes.subrange(0, 4) =~= bytes);
    lemma_le_bytes_of_value(bytes);
}

/// Appends the eight little-endian bytes of `value` to `dest`, by
/// `parity_codec::Encode::encode_to` at `u64`: the crate writes a
/// fixed-width integer as its little-endian bytes and nothing else.
#[verifier::external_body]
fn encode_u64_to(value: u64, dest: &mut Vec<u8>)
    ensures
        final(dest)@ == old(dest)@ + le_bytes(value as nat, 8),
{
    parity_codec::Encode::encode_to(&value, dest)
}

/// Reads a `u64` by `parity_codec::Decode::decode` at `u64`: the crate takes
/// the first eight bytes as a little-endian integer, and gives nothing when
/// fewer than eight are there. Bytes after the eighth are not looked at.
#[verifier::external_body]
fn decode_u64(bytes: &[u8]) -> (value: Option<u64>)
    ensures
        value == if bytes@.len() >= 8 {
            Some(le_value(bytes@.subrange(0, 8)) as u64)
        } else {
            None
        },
{
    let mut input = bytes;
    parity_codec::Decode::decode(&mut input)
}

impl Codec for u64 {
    open spec fn encode_spec(&self) -> Seq<u8> {
        le_bytes(*self as nat, 8)
    }

    open spec fn decode_spec(bytes: Seq<u8>) -> Option<u64> {
        if bytes.len() >= 8 {
            Some(le_value(bytes.subrange(0, 8)) as u64)
        } else {
            None
        }
    }

    proof fn decode_encode(value: u64) {
        let bytes = le_bytes(value as nat, 8);
        lemma_byte_ranges();
        lemma_le_bytes_len(value as nat, 8);
        lemma_le_value_of_bytes(value as nat, 8);
        assert(bytes.subrange(0, 8) =~= bytes);
    }

    fn encode_to(&self, dest: &mut Vec<u8>) {
        encode_u64_to(*self, dest)
    }

    fn decode(bytes: &[u8]) -> (value: Option<u64>) {
        decode_u64(bytes)
    }
}

/// The array of thirty-two bytes that holds `bytes`.
pub open spec fn bytes32(bytes: Seq<u8>) -> [u8; 32]
    recommends
        bytes.len() == 32,
{
    choose|array: [u8; 32]| array@ == bytes
}

/// Appends the thirty-two bytes of `value` to `dest`, by
/// `parity_codec::Encode::encode_to` at `[u8; 32]`: the crate writes such
/// an array as its bytes, in order, with no length before them.
#[verifier::external_body]
fn encode_bytes32_to(value: &[u8; 32], dest: &mut Vec<u8>)
    ensures
        final(dest)@ == old(dest)@ + value@,
{
    parity_codec::Encode::encode_to(value, dest)
}

/// Reads a `[u8; 32]` by `parity_codec::Decode::decode` at `[u8; 32]`: the
/// crate takes the first thirty-two bytes, in order, and gives nothing when
/// fewer are there. Bytes after them are not looked at.
#[verifier::external_body]
fn decode_bytes32(bytes: &[u8]) -> (value: Option<[u8; 32]>)
    ensures
        match value {
            Some(array) => bytes@.len() >= 32 && array@ == bytes@.subrange(0, 32),
            None => bytes@.len() < 32,
        },
{
    let mut input = bytes;
    parity_codec::Decode::decode(&mut input)
}

impl Codec for [u8; 32] {
    open spec fn encode_spec(&self) -> Seq<u8> {
        self@
    }

    open spec fn decode_spec(bytes: Seq<u8>) -> Option<[u8; 32]> {
        if bytes.len() >= 32 {
            Some(bytes32(bytes.subrange(0, 32)))
        } else {
            None
        }
    }

    proof fn decode_encode(value: [u8; 32]) {
        assert(value@.subrange(0, 32) =~= value@);
        assert(bytes32(value@) =~= value);
    }

    fn encode_to(&self, dest: &mut Vec<u8>) {
        encode_bytes32_to(self, dest)
    }

    fn decode(bytes: &[u8]) -> (value: Option<[u8; 32]>) {
        let value = decode_bytes32(bytes);
        proof {
            if let Some(array) = value {
                assert(bytes32(bytes@.subrange(0, 32)) =~= array);
            }
        }
        value
    }
}

} // verus!
