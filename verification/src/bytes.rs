//! Byte-string building blocks: big-endian words and fixed-size fields.

use vstd::prelude::*;

verus! {

/// The four bytes of `x`, most significant first.
pub open spec fn be32(x: u32) -> Seq<u8> {
    seq![
        (x / 0x100_0000) as u8,
        ((x / 0x1_0000) % 0x100) as u8,
        ((x / 0x100) % 0x100) as u8,
        (x % 0x100) as u8,
    ]
}

/// The number that four bytes denote, most significant first.
pub open spec fn be32_value(b: Seq<u8>) -> int {
    b[0] * 0x100_0000 + b[1] * 0x1_0000 + b[2] * 0x100 + b[3]
}

/// The big-endian word at offset `at`.
pub open spec fn word_at(b: Seq<u8>, at: int) -> u32 {
    (b[at] * 0x100_0000 + b[at + 1] * 0x1_0000 + b[at + 2] * 0x100 + b[at + 3]) as u32
}

/// Reading a big-endian word gives back the number that was written.
pub proof fn be32_reads_back(x: u32)
    ensures
        be32(x).len() == 4,
        be32_value(be32(x)) == x,
        be32(x)[0] * 0x100_0000 + be32(x)[1] * 0x1_0000 + be32(x)[2] * 0x100 + be32(x)[3] == x,
{
}

/// Two big-endian words that denote the same number are the same four bytes.
pub proof fn be32_is_unique(b: Seq<u8>, x: u32)
    requires
        b.len() == 4,
        be32_value(b) == x,
    ensures
        b == be32(x),
{
    let (b0, b1, b2, b3) = (b[0] as int, b[1] as int, b[2] as int, b[3] as int);
    let y = x as int;
    assert(y / 0x100 == b0 * 0x1_0000 + b1 * 0x100 + b2 && y % 0x100 == b3);
    assert(y / 0x1_0000 == b0 * 0x100 + b1 && (y / 0x100) % 0x100 == b2);
    assert(y / 0x100_0000 == b0 && (y / 0x1_0000) % 0x100 == b1);
    assert(b =~= be32(x));
}

/// Appends `x` to `out`, most significant byte first.
pub fn push_be32(out: &mut Vec<u8>, x: u32)
    ensures
        final(out)@ == old(out)@ + be32(x),
        final(out)@.len() == old(out)@.len() + 4,
        final(out)@.take(old(out)@.len() as int) == old(out)@,
        ({
            let word = final(out)@.skip(old(out)@.len() as int);
            word[0] * 0x100_0000 + word[1] * 0x1_0000 + word[2] * 0x100 + word[3] == x
        }),
{
    out.push((x / 0x100_0000) as u8);
    out.push(((x / 0x1_0000) % 0x100) as u8);
    out.push(((x / 0x100) % 0x100) as u8);
    out.push((x % 0x100) as u8);
    assert(out@ =~= old(out)@ + be32(x));
    assert(out@.take(old(out)@.len() as int) =~= old(out)@);
    assert(out@.skip(old(out)@.len() as int) =~= be32(x));
}

/// The big-endian word at offset `at`.
pub fn read_be32(bytes: &[u8], at: usize) -> (x: u32)
    requires
        at + 4 <= bytes@.len(),
    ensures
        x == be32_value(bytes@.subrange(at as int, at + 4)),
        be32(x) == bytes@.subrange(at as int, at + 4),
        bytes@[at as int] * 0x100_0000 + bytes@[at + 1] * 0x1_0000 + bytes@[at + 2] * 0x100
            + bytes@[at + 3] == x,
{
    let x: u32 = bytes[at] as u32 * 0x100_0000 + bytes[at + 1] as u32 * 0x1_0000
        + bytes[at + 2] as u32 * 0x100 + bytes[at + 3] as u32;
    proof {
        be32_is_unique(bytes@.subrange(at as int, at + 4), x);
    }
    x
}

/// The `N` bytes at offset `at`.
pub fn field<const N: usize>(bytes: &[u8], at: usize) -> (r: [u8; N])
    requires
        at + N <= bytes@.len(),
    ensures
        r@ == bytes@.subrange(at as int, at + N),
{
    let len: usize = bytes.len();
    let mut r: [u8; N] = [0u8; N];
    let mut i: usize = 0;
    while i < N
        invariant
            i <= N,
            at + N <= len == bytes@.len(),
            r@.len() == N,
            forall|j: int| 0 <= j < i ==> r@[j] == bytes@[at + j],
        decreases N - i,
    {
        r[i] = bytes[at + i];
        i = i + 1;
    }
    assert(r@ =~= bytes@.subrange(at as int, at + N));
    r
}

/// Appends `more` to `out`.
pub fn push_bytes(out: &mut Vec<u8>, more: &[u8])
    ensures
        final(out)@ == old(out)@ + more@,
{
    out.extend_from_slice(more);
    assert(out@ =~= old(out)@ + more@);
}

} // verus!
