//! Big-endian integers on the wire.
//!
//! Every multi-byte field of an HTTP/2 frame is an unsigned integer in
//! network byte order. The spec functions here give the value of such a
//! field and the bytes of a value; the executable functions read and write
//! them, and the lemmas show that writing and reading are inverse.

use vstd::prelude::*;

verus! {

/// The value of the two bytes at `i`.
pub open spec fn be16(s: Seq<u8>, i: int) -> int {
    s[i] as int * 0x100 + s[i + 1] as int
}

/// The value of the three bytes at `i`.
pub open spec fn be24(s: Seq<u8>, i: int) -> int {
    s[i] as int * 0x1_0000 + s[i + 1] as int * 0x100 + s[i + 2] as int
}

/// The value of the four bytes at `i`.
pub open spec fn be32(s: Seq<u8>, i: int) -> int {
    s[i] as int * 0x100_0000 + s[i + 1] as int * 0x1_0000 + s[i + 2] as int * 0x100 + s[i
        + 3] as int
}

/// The value of the eight bytes at `i`.
pub open spec fn be64(s: Seq<u8>, i: int) -> int {
    be32(s, i) * 0x1_0000_0000 + be32(s, i + 4)
}

/// The byte of `x` that stands `k` bytes above the lowest.
#[verifier::opaque]
pub open spec fn byte_of(x: int, k: nat) -> u8 {
    ((x / pow256(k)) % 0x100) as u8
}

/// 256 to the power `k`, for the `k` that a four-byte field can have.
pub open spec fn pow256(k: nat) -> int {
    if k == 0 {
        1
    } else if k == 1 {
        0x100
    } else if k == 2 {
        0x1_0000
    } else {
        0x100_0000
    }
}

/// The two bytes of `x`, highest first.
pub open spec fn bytes16(x: int) -> Seq<u8> {
    seq![byte_of(x, 1), byte_of(x, 0)]
}

/// The three bytes of `x`, highest first.
pub open spec fn bytes24(x: int) -> Seq<u8> {
    seq![byte_of(x, 2), byte_of(x, 1), byte_of(x, 0)]
}

/// The four bytes of `x`, highest first.
pub open spec fn bytes32(x: int) -> Seq<u8> {
    seq![byte_of(x, 3), byte_of(x, 2), byte_of(x, 1), byte_of(x, 0)]
}

/// The eight bytes of `x`, highest first: the four of its upper half, then
/// the four of its lower half.
pub open spec fn bytes64(x: int) -> Seq<u8> {
    bytes32(x / 0x1_0000_0000) + bytes32(x % 0x1_0000_0000)
}

/// Reading back two written bytes gives the value.
pub proof fn lemma_be16_of_bytes16(x: int)
    requires
        0 <= x < 0x1_0000,
    ensures
        be16(bytes16(x), 0) == x,
        bytes16(x).len() == 2,
{
    reveal(byte_of);
}

/// Reading back three written bytes gives the value.
pub proof fn lemma_be24_of_bytes24(x: int)
    requires
        0 <= x < 0x100_0000,
    ensures
        be24(bytes24(x), 0) == x,
        bytes24(x).len() == 3,
{
    reveal(byte_of);
}

/// Reading back four written bytes gives the value.
pub proof fn lemma_be32_of_bytes32(x: int)
    requires
        0 <= x < 0x1_0000_0000,
    ensures
        be32(bytes32(x), 0) == x,
        bytes32(x).len() == 4,
{
    reveal(byte_of);
}

/// Reading back eight written bytes gives the value.
pub proof fn lemma_be64_of_bytes64(x: int)
    requires
        0 <= x < 0x1_0000_0000_0000_0000,
    ensures
        be64(bytes64(x), 0) == x,
        bytes64(x).len() == 8,
{
    let hi: int = x / 0x1_0000_0000;
    let lo: int = x % 0x1_0000_0000;
    lemma_be32_of_bytes32(hi);
    lemma_be32_of_bytes32(lo);
    let s = bytes64(x);
    assert(s.len() == 8);
    assert(be32(s, 0) == be32(bytes32(hi), 0));
    assert(be32(s, 4) == be32(bytes32(lo), 0));
}

/// A two-byte field is read back wherever it stands.
pub proof fn lemma_be16_in(pre: Seq<u8>, x: int, post: Seq<u8>)
    requires
        0 <= x < 0x1_0000,
    ensures
        be16(pre + bytes16(x) + post, pre.len() as int) == x,
{
    lemma_be16_of_bytes16(x);
    let b = bytes16(x);
    let s = pre + b + post;
    let n = pre.len() as int;
    assert(s[n] == b[0] && s[n + 1] == b[1]);
}

/// A four-byte field is read back wherever it stands.
pub proof fn lemma_be32_in(pre: Seq<u8>, x: int, post: Seq<u8>)
    requires
        0 <= x < 0x1_0000_0000,
    ensures
        be32(pre + bytes32(x) + post, pre.len() as int) == x,
{
    lemma_be32_of_bytes32(x);
    let b = bytes32(x);
    let s = pre + b + post;
    let n = pre.len() as int;
    assert(s[n] == b[0] && s[n + 1] == b[1] && s[n + 2] == b[2] && s[n + 3] == b[3]);
}

/// Reads the two bytes at `i`.
pub fn read_u16(s: &[u8], i: usize) -> (r: u16)
    requires
        i + 2 <= s@.len(),
    ensures
        r as int == be16(s@, i as int),
{
    let hi: u16 = s[i] as u16;
    let lo: u16 = s[i + 1] as u16;
    hi * 0x100 + lo
}

/// Reads the three bytes at `i`.
pub fn read_u24(s: &[u8], i: usize) -> (r: u32)
    requires
        i + 3 <= s@.len(),
    ensures
        r as int == be24(s@, i as int),
{
    let b0: u32 = s[i] as u32;
    let b1: u32 = s[i + 1] as u32;
    let b2: u32 = s[i + 2] as u32;
    b0 * 0x1_0000 + b1 * 0x100 + b2
}

/// Reads the four bytes at `i`.
pub fn read_u32(s: &[u8], i: usize) -> (r: u32)
    requires
        i + 4 <= s@.len(),
    ensures
        r as int == be32(s@, i as int),
{
    let b0: u32 = s[i] as u32;
    let b1: u32 = s[i + 1] as u32;
    let b2: u32 = s[i + 2] as u32;
    let b3: u32 = s[i + 3] as u32;
    b0 * 0x100_0000 + b1 * 0x1_0000 + b2 * 0x100 + b3
}

/// Reads the eight bytes at `i`.
pub fn read_u64(s: &[u8], i: usize) -> (r: u64)
    requires
        i + 8 <= s@.len(),
    ensures
        r as int == be64(s@, i as int),
{
    let n: usize = s.len();
    let hi: u64 = read_u32(s, i) as u64;
    let lo: u64 = read_u32(s, i + 4) as u64;
    hi * 0x1_0000_0000 + lo
}

/// Appends the two bytes of `x`.
pub fn push_u16(out: &mut Vec<u8>, x: u16)
    ensures
        final(out)@ == old(out)@ + bytes16(x as int),
{
    reveal(byte_of);
    out.push((x / 0x100) as u8);
    out.push((x % 0x100) as u8);
    assert(out@ =~= old(out)@ + bytes16(x as int));
}

/// Appends the three low bytes of `x`.
pub fn push_u24(out: &mut Vec<u8>, x: u32)
    ensures
        final(out)@ == old(out)@ + bytes24(x as int),
{
    reveal(byte_of);
    out.push(((x / 0x1_0000) % 0x100) as u8);
    out.push(((x / 0x100) % 0x100) as u8);
    out.push((x % 0x100) as u8);
    assert(out@ =~= old(out)@ + bytes24(x as int));
}

/// Appends the four bytes of `x`.
pub fn push_u32(out: &mut Vec<u8>, x: u32)
    ensures
        final(out)@ == old(out)@ + bytes32(x as int),
{
    reveal(byte_of);
    out.push((x / 0x100_0000) as u8);
    out.push(((x / 0x1_0000) % 0x100) as u8);
    out.push(((x / 0x100) % 0x100) as u8);
    out.push((x % 0x100) as u8);
    assert(out@ =~= old(out)@ + bytes32(x as int));
}

/// Appends the eight bytes of `x`.
pub fn push_u64(out: &mut Vec<u8>, x: u64)
    ensures
        final(out)@ == old(out)@ + bytes64(x as int),
{
    push_u32(out, (x / 0x1_0000_0000) as u32);
    push_u32(out, (x % 0x1_0000_0000) as u32);
    assert(out@ =~= old(out)@ + bytes64(x as int));
}

} // verus!
