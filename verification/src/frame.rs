//! Building MSP request frames (v1 and v2) and the byte layout they follow.
use vstd::prelude::*;
use crate::crc::{crc8_dvb_s2, crc8_seq, xor_seq};

verus! {

/// Low byte of a 16-bit value.
pub open spec fn lo8(x: int) -> u8 {
    (x % 256) as u8
}

/// Second byte (bits 8..16) of a value.
pub open spec fn hi8(x: int) -> u8 {
    ((x / 256) % 256) as u8
}

/// The part of an MSP v2 frame that the CRC covers: flags, command (LE),
/// payload length (LE) and the payload.
pub open spec fn v2_body(flags: u8, cmd: u16, payload: Seq<u8>) -> Seq<u8> {
    seq![flags, lo8(cmd as int), hi8(cmd as int), lo8(payload.len() as int), hi8(payload.len() as int)]
        + payload
}

/// An MSP v2 frame: `$X`, the direction byte, the body and its CRC-8/DVB-S2.
pub open spec fn msp_v2_frame(dir: u8, flags: u8, cmd: u16, payload: Seq<u8>) -> Seq<u8> {
    seq![36u8, 88u8, dir] + v2_body(flags, cmd, payload) + seq![crc8_seq(0, v2_body(flags, cmd, payload))]
}

/// An MSP v1 frame: `$M`, the direction byte, the payload length (one byte),
/// the command (one byte), the payload and the XOR of length, command and payload.
pub open spec fn msp_v1_frame(dir: u8, cmd: u8, payload: Seq<u8>) -> Seq<u8> {
    let len8 = lo8(payload.len() as int);
    seq![36u8, 77u8, dir, len8, cmd] + payload + seq![xor_seq((len8 ^ cmd) as u8, payload)]
}

/// The direction byte of a request (to the flight controller).
pub const DIR_REQUEST: u8 = 60;
/// The direction byte of a reply (from the flight controller).
pub const DIR_REPLY: u8 = 62;
/// The direction byte of an error reply.
pub const DIR_ERROR: u8 = 33;

proof fn lemma_u16_bytes(cmd: u16)
    ensures
        (cmd & 0xff) as int == cmd % 256,
        (cmd >> 8u16) as int == cmd / 256,
        cmd / 256 < 256,
{
    assert((cmd & 0xff) as int == cmd % 256) by (bit_vector);
    assert((cmd >> 8u16) as int == cmd / 256) by (bit_vector);
}

proof fn lemma_usize_bytes(n: usize)
    ensures
        (n & 0xff) as int == n % 256,
        ((n >> 8usize) & 0xff) as int == (n / 256) % 256,
{
    assert((n & 0xff) as int == n % 256) by (bit_vector);
    assert(((n >> 8usize) & 0xff) as int == (n / 256) % 256) by (bit_vector);
}

/// Builds an MSP v2 request frame for `cmd` carrying `payload`.
pub fn encode_msp2(cmd: u16, payload: &[u8]) -> (v: Vec<u8>)
    requires
        payload.len() + 9 <= usize::MAX,
    ensures
        v@ == msp_v2_frame(DIR_REQUEST, 0, cmd, payload@),
        v@.len() == payload@.len() + 9,
{
    let paylen = payload.len();
    proof {
        lemma_u16_bytes(cmd);
        lemma_usize_bytes(paylen);
    }
    let mut v: Vec<u8> = Vec::with_capacity(paylen + 9);
    v.push(36u8);
    v.push(88u8);
    v.push(DIR_REQUEST);
    v.push(0u8);
    v.push((cmd & 0xff) as u8);
    v.push((cmd >> 8u16) as u8);
    v.push((paylen & 0xff) as u8);
    v.push(((paylen >> 8usize) & 0xff) as u8);
    let ghost body = v2_body(0, cmd, payload@);
    assert(v@ == seq![36u8, 88u8, DIR_REQUEST] + body.take(5));
    let mut i: usize = 0;
    while i < paylen
        invariant
            paylen == payload@.len(),
            paylen + 9 <= usize::MAX,
            i <= paylen,
            body == v2_body(0, cmd, payload@),
            v@ == seq![36u8, 88u8, DIR_REQUEST] + body.take(5 + i),
        decreases paylen - i,
    {
        v.push(payload[i]);
        i = i + 1;
        assert(v@ == seq![36u8, 88u8, DIR_REQUEST] + body.take(5 + i));
    }
    assert(body.take(5 + paylen) == body);
    let mut crc: u8 = 0;
    let mut j: usize = 3;
    while j < paylen + 8
        invariant
            paylen + 9 <= usize::MAX,
            3 <= j <= paylen + 8,
            v@ == seq![36u8, 88u8, DIR_REQUEST] + body,
            body.len() == paylen + 5,
            crc == crc8_seq(0, v@.subrange(3, j as int)),
        decreases paylen + 8 - j,
    {
        assert(v@.subrange(3, j + 1).drop_last() == v@.subrange(3, j as int));
        crc = crc8_dvb_s2(crc, v[j]);
        j = j + 1;
    }
    assert(v@.subrange(3, paylen + 8) == body);
    v.push(crc);
    v
}

/// Builds an MSP v1 request frame for `cmd` carrying `payload`; the length and
/// the command each take one byte, so only their low bytes are sent.
pub fn encode_msp(cmd: u16, payload: &[u8]) -> (v: Vec<u8>)
    requires
        payload.len() + 6 <= usize::MAX,
    ensures
        v@ == msp_v1_frame(DIR_REQUEST, lo8(cmd as int), payload@),
        v@.len() == payload@.len() + 6,
{
    let paylen = payload.len();
    proof {
        lemma_u16_bytes(cmd);
        lemma_usize_bytes(paylen);
    }
    let len8 = (paylen & 0xff) as u8;
    let cmd8 = (cmd & 0xff) as u8;
    let mut v: Vec<u8> = Vec::with_capacity(paylen + 6);
    v.push(36u8);
    v.push(77u8);
    v.push(DIR_REQUEST);
    v.push(len8);
    v.push(cmd8);
    let mut crc: u8 = len8 ^ cmd8;
    let mut i: usize = 0;
    while i < paylen
        invariant
            paylen == payload@.len(),
            paylen + 6 <= usize::MAX,
            i <= paylen,
            v@ == seq![36u8, 77u8, DIR_REQUEST, len8, cmd8] + payload@.take(i as int),
            crc == xor_seq((len8 ^ cmd8) as u8, payload@.take(i as int)),
        decreases paylen - i,
    {
        assert(payload@.take(i + 1).drop_last() == payload@.take(i as int));
        v.push(payload[i]);
        crc = crc ^ payload[i];
        i = i + 1;
    }
    assert(payload@.take(paylen as int) == payload@);
    v.push(crc);
    v
}

} // verus!
