//! The little-endian, length-prefixed encoding of instruction arguments.
use vstd::prelude::*;

verus! {

/// Largest length a 32-bit prefix can state.
pub const MAX_PREFIXED_LEN: usize = 0xffff_ffff;

/// The four little-endian bytes of `n`.
pub open spec fn le_u32(n: nat) -> Seq<u8> {
    seq![
        (n % 256) as u8,
        ((n / 256) % 256) as u8,
        ((n / 65536) % 256) as u8,
        ((n / 16777216) % 256) as u8,
    ]
}

/// A byte string preceded by its length.
pub open spec fn prefixed(b: Seq<u8>) -> Seq<u8> {
    le_u32(b.len()) + b
}

/// Appends the four little-endian bytes of `n`.
pub fn push_u32_le(out: &mut Vec<u8>, n: usize)
    requires
        n <= MAX_PREFIXED_LEN,
    ensures
        final(out)@ == old(out)@ + le_u32(n as nat),
{
    out.push((n % 256) as u8);
    out.push(((n / 256) % 256) as u8);
    out.push(((n / 65536) % 256) as u8);
    out.push(((n / 16777216) % 256) as u8);
    assert(final(out)@ =~= old(out)@ + le_u32(n as nat));
}

/// Appends the bytes of `b`.
pub fn push_bytes(out: &mut Vec<u8>, b: &[u8])
    ensures
        final(out)@ == old(out)@ + b@,
{
    let mut i: usize = 0;
    while i < b.len()
        invariant
            0 <= i <= b@.len(),
            out@ == old(out)@ + b@.take(i as int),
        decreases b@.len() - i,
    {
        out.push(b[i]);
        assert(out@ =~= old(out)@ + b@.take(i as int + 1));
        i = i + 1;
    }
    assert(b@.take(i as int) =~= b@);
}

/// Appends `b` preceded by its length.
pub fn push_prefixed(out: &mut Vec<u8>, b: &[u8])
    requires
        b@.len() <= MAX_PREFIXED_LEN,
    ensures
        final(out)@ == old(out)@ + prefixed(b@),
{
    push_u32_le(out, b.len());
    push_bytes(out, b);
    assert(out@ =~= old(out)@ + prefixed(b@));
}

} // verus!
