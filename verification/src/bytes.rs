//! Big-endian encoding of 64-bit integers, read and written through
//! `byteorder`.
use byteorder::{BigEndian, ReadBytesExt, WriteBytesExt};
use vstd::prelude::*;

verus! {

/// Number of bytes in the big-endian encoding of a `u64`.
pub const U64_LEN: usize = 8;

/// `std::io::Error`, the error type of the readers and writers.
#[verifier::external_type_specification]
#[verifier::external_body]
pub struct ExIoError(std::io::Error);

/// The eight bytes of `n`, most significant first.
pub open spec fn be_bytes(n: u64) -> Seq<u8> {
    seq![
        (n >> 56u64) as u8,
        (n >> 48u64) as u8,
        (n >> 40u64) as u8,
        (n >> 32u64) as u8,
        (n >> 24u64) as u8,
        (n >> 16u64) as u8,
        (n >> 8u64) as u8,
        n as u8,
    ]
}

/// The integer whose big-endian encoding is the first eight bytes of `b`.
pub open spec fn be_value(b: Seq<u8>) -> u64 {
    (b[0] as u64) << 56u64 | (b[1] as u64) << 48u64 | (b[2] as u64) << 40u64 | (b[3] as u64)
        << 32u64 | (b[4] as u64) << 24u64 | (b[5] as u64) << 16u64 | (b[6] as u64) << 8u64
        | (b[7] as u64)
}

/// Decoding the encoding of `n` gives `n` back.
pub proof fn lemma_be_value_of_bytes(n: u64)
    ensures
        be_bytes(n).len() == 8,
        be_value(be_bytes(n)) == n,
{
    let b = be_bytes(n);
    assert(b[0] == (n >> 56u64) as u8);
    assert(b[7] == n as u8);
    assert(n == ((n >> 56u64) as u8 as u64) << 56u64 | ((n >> 48u64) as u8 as u64) << 48u64 | ((n
        >> 40u64) as u8 as u64) << 40u64 | ((n >> 32u64) as u8 as u64) << 32u64 | ((n >> 24u64)
        as u8 as u64) << 24u64 | ((n >> 16u64) as u8 as u64) << 16u64 | ((n >> 8u64) as u8 as u64)
        << 8u64 | (n as u8 as u64)) by (bit_vector);
}

/// Encoding the value read from eight bytes gives those bytes back.
pub proof fn lemma_be_bytes_of_value(b: Seq<u8>)
    requires
        b.len() == 8,
    ensures
        be_bytes(be_value(b)) == b,
{
    let (b0, b1, b2, b3, b4, b5, b6, b7) = (b[0], b[1], b[2], b[3], b[4], b[5], b[6], b[7]);
    let v = be_value(b);
    assert(v == (b0 as u64) << 56u64 | (b1 as u64) << 48u64 | (b2 as u64) << 40u64 | (b3 as u64)
        << 32u64 | (b4 as u64) << 24u64 | (b5 as u64) << 16u64 | (b6 as u64) << 8u64 | (b7 as u64));
    assert({
        &&& (v >> 56u64) as u8 == b0
        &&& (v >> 48u64) as u8 == b1
        &&& (v >> 40u64) as u8 == b2
        &&& (v >> 32u64) as u8 == b3
        &&& (v >> 24u64) as u8 == b4
        &&& (v >> 16u64) as u8 == b5
        &&& (v >> 8u64) as u8 == b6
        &&& v as u8 == b7
    }) by (bit_vector)
        requires
            v == (b0 as u64) << 56u64 | (b1 as u64) << 48u64 | (b2 as u64) << 40u64 | (b3 as u64)
                << 32u64 | (b4 as u64) << 24u64 | (b5 as u64) << 16u64 | (b6 as u64) << 8u64 | (
            b7 as u64),
    ;
    assert(be_bytes(v) =~= b);
}

/// The big-endian value of eight bytes, as a number: the first byte counts
/// 256^7 times, each next one 256 times less, the last one once.
pub proof fn lemma_be_value_weights(b: Seq<u8>)
    requires
        b.len() == 8,
    ensures
        be_value(b) == b[0] * 0x100_0000_0000_0000 + b[1] * 0x1_0000_0000_0000 + b[2]
            * 0x100_0000_0000 + b[3] * 0x1_0000_0000 + b[4] * 0x100_0000 + b[5] * 0x1_0000 + b[6]
            * 0x100 + b[7],
{
    let (b0, b1, b2, b3, b4, b5, b6, b7) = (b[0], b[1], b[2], b[3], b[4], b[5], b[6], b[7]);
    assert((b0 as u64) << 56u64 | (b1 as u64) << 48u64 | (b2 as u64) << 40u64 | (b3 as u64)
        << 32u64 | (b4 as u64) << 24u64 | (b5 as u64) << 16u64 | (b6 as u64) << 8u64 | (b7 as u64)
        == b0 * 0x100_0000_0000_0000 + b1 * 0x1_0000_0000_0000 + b2 * 0x100_0000_0000 + b3
        * 0x1_0000_0000 + b4 * 0x100_0000 + b5 * 0x1_0000 + b6 * 0x100 + b7) by (bit_vector);
}

/// The bytes of `n`, most significant first: byte `k` is the base-256 digit
/// of `n` of weight 256^(7-k); the last byte is `n` modulo 256.
pub proof fn lemma_be_bytes_digits(n: u64)
    ensures
        be_bytes(n).len() == 8,
        be_bytes(n)[0] == n / 0x100_0000_0000_0000,
        be_bytes(n)[1] == (n / 0x1_0000_0000_0000) % 0x100,
        be_bytes(n)[2] == (n / 0x100_0000_0000) % 0x100,
        be_bytes(n)[3] == (n / 0x1_0000_0000) % 0x100,
        be_bytes(n)[4] == (n / 0x100_0000) % 0x100,
        be_bytes(n)[5] == (n / 0x1_0000) % 0x100,
        be_bytes(n)[6] == (n / 0x100) % 0x100,
        be_bytes(n)[7] == n % 0x100,
{
    assert({
        &&& (n >> 56u64) as u8 == n / 0x100_0000_0000_0000
        &&& (n >> 48u64) as u8 == (n / 0x1_0000_0000_0000) % 0x100
        &&& (n >> 40u64) as u8 == (n / 0x100_0000_0000) % 0x100
        &&& (n >> 32u64) as u8 == (n / 0x1_0000_0000) % 0x100
        &&& (n >> 24u64) as u8 == (n / 0x100_0000) % 0x100
        &&& (n >> 16u64) as u8 == (n / 0x1_0000) % 0x100
        &&& (n >> 8u64) as u8 == (n / 0x100) % 0x100
        &&& n as u8 == n % 0x100
    }) by (bit_vector);
}

/// Reads one big-endian `u64` from the front of `bytes` with
/// `byteorder::ReadBytesExt::read_u64::<BigEndian>` on a `std::io::Cursor`.
/// The claim: with at least eight bytes the call succeeds and gives the
/// big-endian value of the first eight; with fewer, `read_exact` fails and
/// so does the call.
#[verifier::external_body]
pub fn read_be_u64(input: &[u8]) -> (r: Result<u64, std::io::Error>)
    ensures
        input@.len() >= 8 ==> r.is_ok() && r.unwrap() == be_value(input@),
        input@.len() < 8 ==> r.is_err(),
{
    std::io::Cursor::new(input).read_u64::<BigEndian>()
}

/// Appends the big-endian encoding of `n` to `into` with
/// `byteorder::WriteBytesExt::write_u64::<BigEndian>`.
/// The claim: writing into a `Vec<u8>` never fails, and it appends exactly
/// the eight bytes of `n`, most significant first.
#[verifier::external_body]
pub fn write_be_u64(into: &mut Vec<u8>, n: u64) -> (r: Result<(), std::io::Error>)
    ensures
        r is Ok,
        final(into)@ == old(into)@ + be_bytes(n),
{
    into.write_u64::<BigEndian>(n)
}

} // verus!
