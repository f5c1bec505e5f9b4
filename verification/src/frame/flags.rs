//! Flag bits and padding, which several frame types share.

use vstd::prelude::*;

verus! {

/// END_STREAM, on DATA and HEADERS.
pub const END_STREAM: u8 = 0x1;

/// ACK, on SETTINGS and PING.
pub const ACK: u8 = 0x1;

/// END_HEADERS, on HEADERS, PUSH_PROMISE and CONTINUATION.
pub const END_HEADERS: u8 = 0x4;

/// PADDED, on DATA, HEADERS and PUSH_PROMISE.
pub const PADDED: u8 = 0x8;

/// PRIORITY, on HEADERS.
pub const PRIORITY: u8 = 0x20;

/// Some bit of `mask` is set in `flags`.
pub open spec fn has_flag(flags: u8, mask: u8) -> bool {
    flags & mask != 0
}

/// Tells whether some bit of `mask` is set in `flags`.
pub fn is_set(flags: u8, mask: u8) -> (r: bool)
    ensures
        r == has_flag(flags, mask),
{
    flags & mask != 0
}

/// `flags` with the bits of `mask` set.
pub open spec fn with_flag(flags: u8, mask: u8) -> u8 {
    flags | mask
}

/// Sets the bits of `mask` in `flags`.
pub fn set_flag(flags: u8, mask: u8) -> (r: u8)
    ensures
        r == with_flag(flags, mask),
{
    flags | mask
}

/// A flag that was set is set, and setting it changes no other bit.
pub proof fn lemma_with_flag(flags: u8, mask: u8, other: u8)
    ensures
        mask != 0 ==> has_flag(with_flag(flags, mask), mask),
        has_flag(flags, other) ==> has_flag(with_flag(flags, mask), other),
        mask & other == 0 ==> has_flag(with_flag(flags, mask), other) == has_flag(flags, other),
        has_flag(flags, mask) && (mask == 1 || mask == 4 || mask == 8 || mask == 0x20)
            ==> with_flag(flags, mask) == flags,
{
    assert(mask != 0 ==> (flags | mask) & mask != 0) by (bit_vector);
    assert(flags & other != 0 ==> (flags | mask) & other != 0) by (bit_vector);
    assert(mask & other == 0 ==> (flags | mask) & other == flags & other) by (bit_vector);
    assert(flags & mask != 0 && (mask == 1 || mask == 4 || mask == 8 || mask == 0x20) ==> flags
        | mask == flags) by (bit_vector);
}

/// `n` zero bytes.
pub open spec fn zeros(n: nat) -> Seq<u8> {
    Seq::new(n, |i: int| 0u8)
}

/// A payload body with its padding round it: the length of the padding in
/// front and that many zero bytes behind, where the frame is padded.
pub open spec fn padded_payload(padded: bool, pad_len: u8, body: Seq<u8>) -> Seq<u8> {
    if padded {
        seq![pad_len] + body + zeros(pad_len as nat)
    } else {
        body
    }
}

/// The length of the padding and the body of a payload; none where the
/// padding would be as long as the payload or longer.
pub open spec fn unpad(padded: bool, payload: Seq<u8>) -> Option<(u8, Seq<u8>)> {
    if !padded {
        Some((0u8, payload))
    } else if payload.len() == 0 || payload[0] >= payload.len() {
        None
    } else {
        Some((payload[0], payload.subrange(1, payload.len() - payload[0])))
    }
}

/// Removing the padding from a padded body gives the body back.
pub proof fn lemma_unpad_padded(padded: bool, pad_len: u8, body: Seq<u8>)
    requires
        !padded ==> pad_len == 0,
    ensures
        unpad(padded, padded_payload(padded, pad_len, body)) == Some((pad_len, body)),
        padded_payload(padded, pad_len, body).len() == body.len() + (if padded {
            1 + pad_len
        } else {
            0
        }),
{
    if padded {
        let p = padded_payload(padded, pad_len, body);
        assert(p.len() == 1 + body.len() + pad_len);
        assert(p[0] == pad_len);
        assert(p.subrange(1, p.len() - pad_len) =~= body);
    }
}

/// Appends `n` zero bytes.
pub fn push_zeros(out: &mut Vec<u8>, n: u8)
    ensures
        final(out)@ == old(out)@ + zeros(n as nat),
{
    let mut i: u8 = 0;
    while i < n
        invariant
            i <= n,
            out@ == old(out)@ + zeros(i as nat),
        decreases n - i,
    {
        out.push(0u8);
        i = i + 1;
        assert(out@ =~= old(out)@ + zeros(i as nat));
    }
}

} // verus!
