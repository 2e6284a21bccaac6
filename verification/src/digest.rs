//! Digests that stand for sessions, operations and payloads.
use crate::assoc::Key;
use vstd::prelude::*;

verus! {

/// A BLAKE3 digest.
#[derive(Clone, Copy, PartialEq, Eq, Debug)]
pub struct Digest {
    pub bytes: [u8; 32],
}

impl Key for Digest {
    fn is(&self, other: &Self) -> (result: bool) {
        for i in 0..32
            invariant
                forall|j: int| 0 <= j < i ==> self.bytes@[j] == other.bytes@[j],
        {
            if self.bytes[i] != other.bytes[i] {
                assert(self.bytes@ != other.bytes@);
                return false;
            }
        }
        assert(self.bytes@ =~= other.bytes@);
        assert(self.bytes == other.bytes);
        true
    }
}

/// The BLAKE3 digest of a byte string.
pub uninterp spec fn blake3_digest(input: Seq<u8>) -> Seq<u8>;

/// Hashes a byte string.
///
/// Calls `blake3::hash`, the unkeyed hash function. The digest depends on the input alone; nothing
/// else is stated of it.
#[verifier::external_body]
pub(crate) fn blake3_hash(input: &[u8]) -> (digest: Digest)
    ensures
        digest.bytes@ == blake3_digest(input@),
{
    Digest { bytes: *blake3::hash(input).as_bytes() }
}

/// A number as eight bytes, the most significant first.
pub open spec fn be_bytes(n: u64) -> Seq<u8> {
    seq![
        (n >> 56) as u8,
        (n >> 48) as u8,
        (n >> 40) as u8,
        (n >> 32) as u8,
        (n >> 24) as u8,
        (n >> 16) as u8,
        (n >> 8) as u8,
        n as u8,
    ]
}

/// Appends a number as eight bytes, the most significant first.
pub fn push_be_bytes(buffer: &mut Vec<u8>, n: u64)
    ensures
        final(buffer)@ == old(buffer)@ + be_bytes(n),
{
    let ghost before = buffer@;
    buffer.push((n >> 56) as u8);
    buffer.push((n >> 48) as u8);
    buffer.push((n >> 40) as u8);
    buffer.push((n >> 32) as u8);
    buffer.push((n >> 24) as u8);
    buffer.push((n >> 16) as u8);
    buffer.push((n >> 8) as u8);
    buffer.push(n as u8);
    assert(buffer@ =~= before + be_bytes(n));
}

/// Different numbers have different bytes.
pub proof fn lemma_be_bytes_injective(a: u64, b: u64)
    requires
        be_bytes(a) == be_bytes(b),
    ensures
        a == b,
{
    let x = be_bytes(a);
    let y = be_bytes(b);
    assert(x[0] == y[0] && x[1] == y[1] && x[2] == y[2] && x[3] == y[3] && x[4] == y[4] && x[5]
        == y[5] && x[6] == y[6] && x[7] == y[7]);
    assert(a == b) by (bit_vector)
        requires
            (a >> 56) as u8 == (b >> 56) as u8,
            (a >> 48) as u8 == (b >> 48) as u8,
            (a >> 40) as u8 == (b >> 40) as u8,
            (a >> 32) as u8 == (b >> 32) as u8,
            (a >> 24) as u8 == (b >> 24) as u8,
            (a >> 16) as u8 == (b >> 16) as u8,
            (a >> 8) as u8 == (b >> 8) as u8,
            a as u8 == b as u8,
    ;
}

/// A number is written with its most significant byte first: its bytes are its digits in base two
/// hundred and fifty-six.
pub proof fn number_is_written_from_its_top(buffer: &mut Vec<u8>, n: u64)
    requires
        call_ensures(push_be_bytes, (buffer, n), ()),
    ensures
        final(buffer)@.len() == old(buffer)@.len() + 8,
        old(buffer)@.is_prefix_of(final(buffer)@),
        ({
            let written = final(buffer)@.skip(old(buffer)@.len() as int);
            n == written[0] * 0x100000000000000 + written[1] * 0x1000000000000 + written[2]
                * 0x10000000000 + written[3] * 0x100000000 + written[4] * 0x1000000 + written[5]
                * 0x10000 + written[6] * 0x100 + written[7]
        }),
{
    assert(final(buffer)@.skip(old(buffer)@.len() as int) =~= be_bytes(n));
    assert(final(buffer)@.take(old(buffer)@.len() as int) =~= old(buffer)@);
    let a = (n >> 56) as u8;
    let b = (n >> 48) as u8;
    let c = (n >> 40) as u8;
    let d = (n >> 32) as u8;
    let e = (n >> 24) as u8;
    let f = (n >> 16) as u8;
    let g = (n >> 8) as u8;
    let h = n as u8;
    assert(n == a * 0x100000000000000 + b * 0x1000000000000 + c * 0x10000000000 + d * 0x100000000 + e
        * 0x1000000 + f * 0x10000 + g * 0x100 + h) by (bit_vector)
        requires
            a == (n >> 56) as u8,
            b == (n >> 48) as u8,
            c == (n >> 40) as u8,
            d == (n >> 32) as u8,
            e == (n >> 24) as u8,
            f == (n >> 16) as u8,
            g == (n >> 8) as u8,
            h == n as u8,
    ;
}

} // verus!
