//! The CRC-8/DVB-S2 checksum used by MSP v2 frames, and the XOR checksum of MSP v1.
use vstd::prelude::*;

verus! {

/// One shift of the CRC register: shift left, and fold in the polynomial 0xD5
/// when the top bit falls out.
pub open spec fn crc_shift(c: u8) -> u8 {
    if c & 0x80 != 0 {
        ((c << 1u8) ^ 0xd5u8) as u8
    } else {
        (c << 1u8) as u8
    }
}

/// `n` shifts of the CRC register.
pub open spec fn crc_shifts(c: u8, n: nat) -> u8
    decreases n,
{
    if n == 0 {
        c
    } else {
        crc_shift(crc_shifts(c, (n - 1) as nat))
    }
}

/// CRC-8/DVB-S2 (polynomial 0xD5, no reflection) of the register `c` after byte `a`.
pub open spec fn spec_crc8_dvb_s2(c: u8, a: u8) -> u8 {
    crc_shifts(c ^ a, 8)
}

/// CRC-8/DVB-S2 of a sequence of bytes, starting from the register value `init`.
pub open spec fn crc8_seq(init: u8, s: Seq<u8>) -> u8
    decreases s.len(),
{
    if s.len() == 0 {
        init
    } else {
        spec_crc8_dvb_s2(crc8_seq(init, s.drop_last()), s.last())
    }
}

/// XOR of all bytes of `s` into `init`.
pub open spec fn xor_seq(init: u8, s: Seq<u8>) -> u8
    decreases s.len(),
{
    if s.len() == 0 {
        init
    } else {
        (xor_seq(init, s.drop_last()) ^ s.last()) as u8
    }
}

/// Feeds the byte `a` into the CRC-8/DVB-S2 register `c`.
pub fn crc8_dvb_s2(c: u8, a: u8) -> (r: u8)
    ensures
        r == spec_crc8_dvb_s2(c, a),
{
    let mut c = c ^ a;
    let ghost x = c;
    let mut i: u32 = 0;
    while i < 8
        invariant
            i <= 8,
            c == crc_shifts(x, i as nat),
        decreases 8 - i,
    {
        if (c & 0x80) != 0 {
            c = (c << 1u8) ^ 0xd5;
        } else {
            c = c << 1u8;
        }
        i = i + 1;
    }
    c
}

/// The CRC of a concatenation is the CRC of the second part, started from the
/// CRC of the first.
pub proof fn lemma_crc8_append(c: u8, a: Seq<u8>, b: Seq<u8>)
    ensures
        crc8_seq(c, a + b) == crc8_seq(crc8_seq(c, a), b),
    decreases b.len(),
{
    if b.len() == 0 {
        assert(a + b == a);
    } else {
        assert((a + b).drop_last() == a + b.drop_last());
        assert((a + b).last() == b.last());
        lemma_crc8_append(c, a, b.drop_last());
    }
}

/// The CRC of a non-empty sequence, computed from its first byte on.
pub proof fn lemma_crc8_first(c: u8, s: Seq<u8>)
    requires
        s.len() > 0,
    ensures
        crc8_seq(c, s) == crc8_seq(spec_crc8_dvb_s2(c, s[0]), s.drop_first()),
{
    let h = seq![s[0]];
    assert(h + s.drop_first() == s);
    assert(h.drop_last() == Seq::<u8>::empty());
    assert(crc8_seq(c, h) == spec_crc8_dvb_s2(crc8_seq(c, Seq::<u8>::empty()), s[0]));
    lemma_crc8_append(c, h, s.drop_first());
}

/// The XOR of a concatenation.
pub proof fn lemma_xor_append(c: u8, a: Seq<u8>, b: Seq<u8>)
    ensures
        xor_seq(c, a + b) == xor_seq(xor_seq(c, a), b),
    decreases b.len(),
{
    if b.len() == 0 {
        assert(a + b == a);
    } else {
        assert((a + b).drop_last() == a + b.drop_last());
        assert((a + b).last() == b.last());
        lemma_xor_append(c, a, b.drop_last());
    }
}

/// The XOR of a non-empty sequence, computed from its first byte on.
pub proof fn lemma_xor_first(c: u8, s: Seq<u8>)
    requires
        s.len() > 0,
    ensures
        xor_seq(c, s) == xor_seq((c ^ s[0]) as u8, s.drop_first()),
{
    let h = seq![s[0]];
    assert(h + s.drop_first() == s);
    assert(h.drop_last() == Seq::<u8>::empty());
    assert(xor_seq(c, h) == (xor_seq(c, Seq::<u8>::empty()) ^ s[0]) as u8);
    lemma_xor_append(c, h, s.drop_first());
}

} // verus!
