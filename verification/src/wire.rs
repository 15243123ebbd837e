//! Bytes on the wire: big-endian integers and the appending of byte strings.

use vstd::prelude::*;

verus! {

/// The four bytes of `n` in network order, where `0 <= n < 2^32`.
pub open spec fn be32(n: nat) -> Seq<u8> {
    seq![
        (n / 0x100_0000 % 256) as u8,
        (n / 0x1_0000 % 256) as u8,
        (n / 0x100 % 256) as u8,
        (n % 256) as u8,
    ]
}

/// The number that four bytes in network order stand for.
pub open spec fn be32_value(b: Seq<u8>) -> int {
    b[0] * 0x100_0000 + b[1] * 0x1_0000 + b[2] * 0x100 + b[3]
}

/// Reading what was written gives the number back.
pub proof fn lemma_be32_round_trip(n: u32)
    ensures
        be32(n as nat).len() == 4,
        be32_value(be32(n as nat)) == n,
{
    let b0: u32 = n / 0x100_0000 % 256;
    let b1: u32 = n / 0x1_0000 % 256;
    let b2: u32 = n / 0x100 % 256;
    let b3: u32 = n % 256;
    assert(b0 * 0x100_0000 + b1 * 0x1_0000 + b2 * 0x100 + b3 == n) by (bit_vector)
        requires
            b0 == n / 0x100_0000 % 256,
            b1 == n / 0x1_0000 % 256,
            b2 == n / 0x100 % 256,
            b3 == n % 256,
    ;
    let bytes = be32(n as nat);
    assert(bytes[0] == b0 && bytes[1] == b1 && bytes[2] == b2 && bytes[3] == b3);
}

/// Appends `n` in network order.
pub fn push_be32(buf: &mut Vec<u8>, n: u32)
    ensures
        final(buf)@ == old(buf)@ + be32(n as nat),
{
    buf.push((n / 0x100_0000 % 256) as u8);
    buf.push((n / 0x1_0000 % 256) as u8);
    buf.push((n / 0x100 % 256) as u8);
    buf.push((n % 256) as u8);
    assert(buf@ =~= old(buf)@ + be32(n as nat));
}

/// Reads the number that the four bytes from `at` on stand for.
pub fn read_be32(bytes: &[u8], at: usize) -> (n: u32)
    requires
        at + 4 <= bytes@.len(),
    ensures
        n == be32_value(bytes@.subrange(at as int, at + 4)),
{
    let b0: u32 = bytes[at] as u32;
    let b1: u32 = bytes[at + 1] as u32;
    let b2: u32 = bytes[at + 2] as u32;
    let b3: u32 = bytes[at + 3] as u32;
    b0 * 0x100_0000 + b1 * 0x1_0000 + b2 * 0x100 + b3
}

/// Appends a byte string.
pub fn push_all(buf: &mut Vec<u8>, bytes: &[u8])
    ensures
        final(buf)@ == old(buf)@ + bytes@,
{
    let mut i: usize = 0;
    while i < bytes.len()
        invariant
            i <= bytes.len(),
            buf@ == old(buf)@ + bytes@.subrange(0, i as int),
        decreases bytes.len() - i,
    {
        buf.push(bytes[i]);
        i += 1;
        assert(buf@ =~= old(buf)@ + bytes@.subrange(0, i as int));
    }
    assert(bytes@.subrange(0, i as int) =~= bytes@);
}

/// A copy of the bytes from `from` up to `to`.
pub fn copy_range(bytes: &[u8], from: usize, to: usize) -> (out: Vec<u8>)
    requires
        from <= to <= bytes@.len(),
    ensures
        out@ == bytes@.subrange(from as int, to as int),
{
    let mut out: Vec<u8> = Vec::new();
    let mut i: usize = from;
    while i < to
        invariant
            from <= i <= to <= bytes@.len(),
            out@ == bytes@.subrange(from as int, i as int),
        decreases to - i,
    {
        out.push(bytes[i]);
        i += 1;
        assert(out@ =~= bytes@.subrange(from as int, i as int));
    }
    out
}

} // verus!
