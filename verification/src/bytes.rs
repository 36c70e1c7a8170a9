//! Big-endian integers and zero-padded byte blocks.

use vstd::prelude::*;

verus! {

/// The two bytes of `n`, most significant first.
pub open spec fn be16(n: u16) -> Seq<u8> {
    seq![(n / 256) as u8, (n % 256) as u8]
}

/// The four bytes of `n`, most significant first.
pub open spec fn be32(n: u32) -> Seq<u8> {
    seq![
        (n / 16777216) as u8,
        (n / 65536 % 256) as u8,
        (n / 256 % 256) as u8,
        (n % 256) as u8,
    ]
}

/// The number whose most significant byte is `s[0]`.
pub open spec fn from_be16(s: Seq<u8>) -> u16 {
    (s[0] * 256 + s[1]) as u16
}

/// The number whose most significant byte is `s[0]`.
pub open spec fn from_be32(s: Seq<u8>) -> u32 {
    (s[0] * 16777216 + s[1] * 65536 + s[2] * 256 + s[3]) as u32
}

/// The first `n` bytes of `s`, followed by zeros where `s` is shorter.
pub open spec fn padded(s: Seq<u8>, n: nat) -> Seq<u8> {
    Seq::new(n, |i: int| if i < s.len() { s[i] } else { 0 })
}

/// Reading back the bytes of a 16-bit number gives the number.
pub proof fn lemma_be16_round_trip(n: u16)
    ensures
        from_be16(be16(n)) == n,
{
}

/// Reading back the bytes of a 32-bit number gives the number.
pub proof fn lemma_be32_round_trip(n: u32)
    ensures
        from_be32(be32(n)) == n,
{
}

/// Writing out a 16-bit number read from two bytes gives the two bytes.
pub proof fn lemma_from_be16_round_trip(s: Seq<u8>)
    requires
        s.len() == 2,
    ensures
        be16(from_be16(s)) == s,
{
}

/// Writing out a 32-bit number read from four bytes gives the four bytes.
pub proof fn lemma_from_be32_round_trip(s: Seq<u8>)
    requires
        s.len() == 4,
    ensures
        be32(from_be32(s)) == s,
{
    let (a, b, c, d) = (s[0], s[1], s[2], s[3]);
    let n = from_be32(s);
    assert(n == (((a * 256 + b) * 256) + c) * 256 + d);
    assert(n / 256 == ((a * 256 + b) * 256) + c);
    assert(n / 65536 == a * 256 + b);
    assert(n / 16777216 == a);
    assert(n % 256 == d);
    assert((n / 256) % 256 == c);
    assert((n / 65536) % 256 == b);
    assert(be32(n) =~= s);
}

/// Appends `n`, most significant byte first.
pub fn push_be16(out: &mut Vec<u8>, n: u16)
    ensures
        final(out)@ == old(out)@ + be16(n),
{
    out.push((n / 256) as u8);
    out.push((n % 256) as u8);
    assert(out@ =~= old(out)@ + be16(n));
}

/// Appends `n`, most significant byte first.
pub fn push_be32(out: &mut Vec<u8>, n: u32)
    ensures
        final(out)@ == old(out)@ + be32(n),
{
    out.push((n / 16777216) as u8);
    out.push((n / 65536 % 256) as u8);
    out.push((n / 256 % 256) as u8);
    out.push((n % 256) as u8);
    assert(out@ =~= old(out)@ + be32(n));
}

/// Reads the big-endian number at `at`.
pub fn read_be16(buf: &[u8], at: usize) -> (n: u16)
    requires
        at + 2 <= buf@.len(),
    ensures
        n == from_be16(buf@.subrange(at as int, at + 2)),
{
    buf[at] as u16 * 256 + buf[at + 1] as u16
}

/// Reads the big-endian number at `at`.
pub fn read_be32(buf: &[u8], at: usize) -> (n: u32)
    requires
        at + 4 <= buf@.len(),
    ensures
        n == from_be32(buf@.subrange(at as int, at + 4)),
{
    buf[at] as u32 * 16777216 + buf[at + 1] as u32 * 65536 + buf[at + 2] as u32 * 256
        + buf[at + 3] as u32
}

/// Copies up to `N` bytes of `buf`, starting at `from`, into a zeroed block.
pub fn padded_array<const N: usize>(buf: &[u8], from: usize) -> (block: [u8; N])
    requires
        from <= buf@.len(),
    ensures
        block@ == padded(buf@.skip(from as int), N as nat),
{
    let mut block: [u8; N] = vstd::array::array_fill_for_copy_types(0u8);
    let mut i: usize = 0;
    while i < N && i < buf.len() - from
        invariant
            from <= buf@.len(),
            i <= N,
            i <= buf@.len() - from,
            block@.len() == N,
            forall|j: int| 0 <= j < i ==> block@[j] == buf@[from + j],
            forall|j: int| i <= j < N ==> block@[j] == 0,
        decreases N - i,
    {
        block[i] = buf[from + i];
        i = i + 1;
    }
    assert(block@ =~= padded(buf@.skip(from as int), N as nat));
    block
}

/// Appends the bytes of `part`.
pub fn push_all(out: &mut Vec<u8>, part: &[u8])
    ensures
        final(out)@ == old(out)@ + part@,
{
    out.extend_from_slice(part);
    assert(out@ =~= old(out)@ + part@);
}

/// Copies the bytes of `part` from `from` up to, not including, `to`.
pub fn copy_range(part: &[u8], from: usize, to: usize) -> (out: Vec<u8>)
    requires
        from <= to <= part@.len(),
    ensures
        out@ == part@.subrange(from as int, to as int),
{
    let mut out: Vec<u8> = Vec::new();
    let mut i: usize = from;
    while i < to
        invariant
            from <= i <= to <= part@.len(),
            out@ == part@.subrange(from as int, i as int),
        decreases to - i,
    {
        out.push(part[i]);
        i = i + 1;
        assert(out@ =~= part@.subrange(from as int, i as int));
    }
    out
}

/// Copies the bytes of `part`.
pub fn copy_bytes(part: &[u8]) -> (out: Vec<u8>)
    ensures
        out@ == part@,
{
    let mut out: Vec<u8> = Vec::new();
    out.extend_from_slice(part);
    assert(out@ =~= part@);
    out
}

/// Whether two byte strings are equal.
pub fn bytes_equal(a: &[u8], b: &[u8]) -> (equal: bool)
    ensures
        equal == (a@ == b@),
{
    if a.len() != b.len() {
        return false;
    }
    let mut i: usize = 0;
    while i < a.len()
        invariant
            i <= a@.len(),
            a@.len() == b@.len(),
            forall|j: int| 0 <= j < i ==> a@[j] == b@[j],
        decreases a@.len() - i,
    {
        if a[i] != b[i] {
            return false;
        }
        i = i + 1;
    }
    assert(a@ =~= b@);
    true
}

} // verus!
