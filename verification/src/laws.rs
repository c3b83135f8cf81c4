//! What the decoder promises of whole streams and frames.
use vstd::prelude::*;
use crate::crc::{crc8_seq, lemma_crc8_append, lemma_crc8_first, lemma_xor_append, lemma_xor_first, spec_crc8_dvb_s2, xor_seq};
use crate::decode::{
    DecoderView, States, TIMEOUT_LIMIT, TimeoutAction, fresh, next_toc, run, step, timeout_action,
    wf_model, zero_data,
};
use crate::frame::{DIR_ERROR, DIR_REPLY, DIR_REQUEST, hi8, lo8, msp_v1_frame, msp_v2_frame, v2_body};
use crate::msp::{MSPRes, MsgView};

verus! {

/// Reading a stream in two parts gives what reading it at once gives: if the
/// first part completes a message, that message (the rest is not read);
/// otherwise the second part is read from where the first left the decoder.
pub proof fn law_run_append(m: DecoderView, a: Seq<u8>, b: Seq<u8>)
    ensures
        run(m, a + b) == (if run(m, a).1 is Some {
            run(m, a)
        } else {
            run(run(m, a).0, b)
        }),
    decreases a.len(),
{
    if a.len() == 0 {
        assert(a + b == b);
    } else {
        assert((a + b)[0] == a[0]);
        assert((a + b).drop_first() == a.drop_first() + b);
        law_run_append(step(m, a[0]).0, a.drop_first(), b);
    }
}

/// Bytes other than `$` ahead of a frame, read by a fresh decoder, change nothing.
pub proof fn law_noise_ignored(noise: Seq<u8>, rest: Seq<u8>)
    requires
        forall|i: int| 0 <= i < noise.len() ==> noise[i] != 36u8,
    ensures
        run(fresh(), noise + rest) == run(fresh(), rest),
    decreases noise.len(),
{
    if noise.len() > 0 {
        assert((noise + rest)[0] == noise[0]);
        assert((noise + rest).drop_first() == noise.drop_first() + rest);
        assert(step(fresh(), noise[0]) == (fresh(), Option::<MsgView>::None));
        law_noise_ignored(noise.drop_first(), rest);
    } else {
        assert(noise + rest == rest);
    }
}

proof fn lemma_join_u16(x: u16)
    ensures
        (lo8(x as int) as u16) | ((hi8(x as int) as u16) << 8u16) == x,
{
    let a: u16 = x % 256;
    let b: u16 = x / 256;
    assert(a | (b << 8u16) == x) by (bit_vector)
        requires
            a == x % 256,
            b == x / 256,
    ;
    assert(lo8(x as int) as u16 == a);
    assert(hi8(x as int) as u16 == b);
}

/// Reading the payload of an MSP v2 frame.
proof fn lemma_xdata_run(m: DecoderView, rest: Seq<u8>)
    requires
        m.state == States::XData,
        m.count + rest.len() == m.msg.len,
        m.msg.data.len() == m.msg.len,
        rest.len() > 0,
    ensures
        run(m, rest) == (DecoderView {
            state: States::XChecksum,
            crc: crc8_seq(m.crc, rest),
            count: m.msg.len,
            msg: MsgView { data: m.msg.data.take(m.count as int) + rest, ..m.msg },
            ..m
        }, Option::<MsgView>::None),
    decreases rest.len(),
{
    let m2 = step(m, rest[0]).0;
    lemma_crc8_first(m.crc, rest);
    assert(step(m, rest[0]).1 is None);
    assert(run(m, rest) == run(m2, rest.drop_first()));
    assert(m2.crc == spec_crc8_dvb_s2(m.crc, rest[0]));
    assert(m2.count == m.count + 1);
    if rest.len() == 1 {
        assert(rest.drop_first().len() == 0);
        assert(run(m2, rest.drop_first()) == (m2, Option::<MsgView>::None));
        assert(m.msg.data.update(m.count as int, rest[0]) == m.msg.data.take(m.count as int) + rest);
        assert(m2.state == States::XChecksum);
        assert(crc8_seq(m2.crc, rest.drop_first()) == m2.crc);
    } else {
        lemma_xdata_run(m2, rest.drop_first());
        assert(m2.msg.data.take(m2.count as int) + rest.drop_first() == m.msg.data.take(m.count as int)
            + rest);
    }
}

/// Reading the payload of an MSP v1 frame.
proof fn lemma_data_run(m: DecoderView, rest: Seq<u8>)
    requires
        m.state == States::Data,
        m.count + rest.len() == m.msg.len,
        m.msg.data.len() == m.msg.len,
        rest.len() > 0,
    ensures
        run(m, rest) == (DecoderView {
            state: States::Crc,
            crc: xor_seq(m.crc, rest),
            count: m.msg.len,
            msg: MsgView { data: m.msg.data.take(m.count as int) + rest, ..m.msg },
            ..m
        }, Option::<MsgView>::None),
    decreases rest.len(),
{
    let m2 = step(m, rest[0]).0;
    lemma_xor_first(m.crc, rest);
    assert(step(m, rest[0]).1 is None);
    assert(run(m, rest) == run(m2, rest.drop_first()));
    assert(m2.crc == (m.crc ^ rest[0]) as u8);
    assert(m2.count == m.count + 1);
    if rest.len() == 1 {
        assert(rest.drop_first().len() == 0);
        assert(run(m2, rest.drop_first()) == (m2, Option::<MsgView>::None));
        assert(m.msg.data.update(m.count as int, rest[0]) == m.msg.data.take(m.count as int) + rest);
        assert(m2.state == States::Crc);
        assert(xor_seq(m2.crc, rest.drop_first()) == m2.crc);
    } else {
        lemma_data_run(m2, rest.drop_first());
        assert(m2.msg.data.take(m2.count as int) + rest.drop_first() == m.msg.data.take(m.count as int)
            + rest);
    }
}

/// One byte of a stream, read from position `k`.
proof fn lemma_run_skip(m: DecoderView, s: Seq<u8>, k: int)
    requires
        0 <= k < s.len(),
        step(m, s[k]).1 is None,
    ensures
        run(m, s.skip(k)) == run(step(m, s[k]).0, s.skip(k + 1)),
{
    assert(s.skip(k)[0] == s[k]);
    assert(s.skip(k).drop_first() == s.skip(k + 1));
}

proof fn lemma_crc8_five(a: u8, b: u8, c: u8, d: u8, e: u8)
    ensures
        crc8_seq(0, seq![a, b, c, d, e]) == spec_crc8_dvb_s2(
            spec_crc8_dvb_s2(spec_crc8_dvb_s2(spec_crc8_dvb_s2(spec_crc8_dvb_s2(0, a), b), c), d),
            e,
        ),
{
    let s5 = seq![a, b, c, d, e];
    let s4 = seq![a, b, c, d];
    let s3 = seq![a, b, c];
    let s2 = seq![a, b];
    let s1 = seq![a];
    assert(s5.drop_last() == s4);
    assert(s4.drop_last() == s3);
    assert(s3.drop_last() == s2);
    assert(s2.drop_last() == s1);
    assert(s1.drop_last() == Seq::<u8>::empty());
    assert(crc8_seq(0, Seq::<u8>::empty()) == 0);
    assert(s1.last() == a);
    assert(crc8_seq(0, s1) == spec_crc8_dvb_s2(crc8_seq(0, s1.drop_last()), s1.last()));
    assert(crc8_seq(0, s2) == spec_crc8_dvb_s2(crc8_seq(0, s1), b));
    assert(crc8_seq(0, s3) == spec_crc8_dvb_s2(crc8_seq(0, s2), c));
    assert(crc8_seq(0, s4) == spec_crc8_dvb_s2(crc8_seq(0, s3), d));
}

/// An MSP v2 frame whose last byte is `c`, in place of its checksum.
pub open spec fn v2_frame_with(dir: u8, flags: u8, cmd: u16, payload: Seq<u8>, c: u8) -> Seq<u8> {
    seq![36u8, 88u8, dir] + v2_body(flags, cmd, payload) + seq![c]
}

/// The outcome that a decoded MSP v2 frame with last byte `c` carries.
pub open spec fn v2_outcome(dir: u8, flags: u8, cmd: u16, payload: Seq<u8>, c: u8) -> MSPRes {
    if c != crc8_seq(0, v2_body(flags, cmd, payload)) {
        MSPRes::Crc
    } else if dir == DIR_REPLY {
        MSPRes::Valid
    } else {
        MSPRes::Dirn
    }
}

proof fn lemma_v2_frame(dir: u8, flags: u8, cmd: u16, payload: Seq<u8>, c: u8)
    requires
        payload.len() <= 0xffff,
        dir == DIR_REPLY || dir == DIR_ERROR,
    ensures
        run(fresh(), v2_frame_with(dir, flags, cmd, payload, c)) == (fresh(), Some(
            MsgView {
                len: payload.len() as u16,
                cmd: cmd,
                ok: v2_outcome(dir, flags, cmd, payload, c),
                data: payload,
            },
        )),
{
    let n = payload.len() as u16;
    let f = v2_frame_with(dir, flags, cmd, payload, c);
    let h5 = seq![flags, lo8(cmd as int), hi8(cmd as int), lo8(n as int), hi8(n as int)];
    assert(v2_body(flags, cmd, payload) == h5 + payload);
    assert(f.skip(0) == f);
    let m1 = step(fresh(), f[0]).0;
    lemma_run_skip(fresh(), f, 0);
    let m2 = step(m1, f[1]).0;
    lemma_run_skip(m1, f, 1);
    let m3 = step(m2, f[2]).0;
    lemma_run_skip(m2, f, 2);
    let m4 = step(m3, f[3]).0;
    lemma_run_skip(m3, f, 3);
    let m5 = step(m4, f[4]).0;
    lemma_run_skip(m4, f, 4);
    let m6 = step(m5, f[5]).0;
    lemma_run_skip(m5, f, 5);
    let m7 = step(m6, f[6]).0;
    lemma_run_skip(m6, f, 6);
    let m8 = step(m7, f[7]).0;
    lemma_run_skip(m7, f, 7);
    lemma_join_u16(cmd);
    lemma_join_u16(n);
    lemma_crc8_five(flags, lo8(cmd as int), hi8(cmd as int), lo8(n as int), hi8(n as int));
    assert(m8.msg.cmd == cmd);
    assert(m8.msg.len == n);
    assert(m8.crc == crc8_seq(0, h5));
    assert(m8.dirnok == (dir == DIR_REPLY));
    assert(m8.msg.ok == MSPRes::Fail);
    lemma_crc8_append(0, h5, payload);
    let tail = seq![c];
    assert(f.skip(8) == payload + tail);
    law_run_append(m8, payload, tail);
    if n > 0 {
        assert(m8.state == States::XData);
        lemma_xdata_run(m8, payload);
        assert(zero_data(n).take(0) + payload == payload);
    } else {
        assert(payload == Seq::<u8>::empty());
        assert(payload + tail == tail);
        assert(m8.state == States::XChecksum);
        assert(m8.msg.data == payload);
    }
    let mend = run(m8, payload).0;
    assert(mend.state == States::XChecksum);
    assert(mend.crc == crc8_seq(0, v2_body(flags, cmd, payload)));
    assert(tail.drop_first().len() == 0);
    assert(run(mend, tail) == step(mend, c));
}

/// An MSP v1 frame whose last byte is `c`, in place of its checksum.
pub open spec fn v1_frame_with(dir: u8, cmd: u8, payload: Seq<u8>, c: u8) -> Seq<u8> {
    seq![36u8, 77u8, dir, lo8(payload.len() as int), cmd] + payload + seq![c]
}

/// The outcome that a decoded MSP v1 frame with last byte `c` carries.
pub open spec fn v1_outcome(dir: u8, cmd: u8, payload: Seq<u8>, c: u8) -> MSPRes {
    if c != xor_seq((lo8(payload.len() as int) ^ cmd) as u8, payload) {
        MSPRes::Crc
    } else if dir == DIR_REPLY {
        MSPRes::Valid
    } else {
        MSPRes::Dirn
    }
}

proof fn lemma_v1_frame(dir: u8, cmd: u8, payload: Seq<u8>, c: u8)
    requires
        payload.len() <= 0xff,
        dir == DIR_REPLY || dir == DIR_ERROR,
    ensures
        run(fresh(), v1_frame_with(dir, cmd, payload, c)) == (fresh(), Some(
            MsgView {
                len: payload.len() as u16,
                cmd: cmd as u16,
                ok: v1_outcome(dir, cmd, payload, c),
                data: payload,
            },
        )),
{
    let n = payload.len() as u16;
    let f = v1_frame_with(dir, cmd, payload, c);
    assert(lo8(payload.len() as int) as u16 == n);
    assert(f.skip(0) == f);
    let m1 = step(fresh(), f[0]).0;
    lemma_run_skip(fresh(), f, 0);
    let m2 = step(m1, f[1]).0;
    lemma_run_skip(m1, f, 1);
    let m3 = step(m2, f[2]).0;
    lemma_run_skip(m2, f, 2);
    let m4 = step(m3, f[3]).0;
    lemma_run_skip(m3, f, 3);
    let m5 = step(m4, f[4]).0;
    lemma_run_skip(m4, f, 4);
    assert(m5.msg.cmd == cmd as u16);
    assert(m5.msg.len == n);
    assert(m5.crc == (lo8(payload.len() as int) ^ cmd) as u8);
    assert(m5.dirnok == (dir == DIR_REPLY));
    assert(m5.msg.ok == MSPRes::Fail);
    let tail = seq![c];
    assert(f.skip(5) == payload + tail);
    law_run_append(m5, payload, tail);
    if n > 0 {
        assert(m5.state == States::Data);
        lemma_data_run(m5, payload);
        assert(zero_data(n).take(0) + payload == payload);
    } else {
        assert(payload == Seq::<u8>::empty());
        assert(payload + tail == tail);
        assert(m5.state == States::Crc);
        assert(m5.msg.data == payload);
    }
    let mend = run(m5, payload).0;
    assert(mend.state == States::Crc);
    assert(tail.drop_first().len() == 0);
    assert(run(mend, tail) == step(mend, c));
}

/// An MSP v2 reply frame (direction `>`) or error frame (direction `!`) with a
/// correct checksum, read by a fresh decoder, gives back its command and
/// payload, with outcome `Valid` for a reply and `Dirn` for an error; the
/// message is complete at the frame's last byte and the decoder is fresh again.
pub proof fn law_v2_frame_decodes(dir: u8, flags: u8, cmd: u16, payload: Seq<u8>)
    requires
        payload.len() <= 0xffff,
        dir == DIR_REPLY || dir == DIR_ERROR,
    ensures
        run(fresh(), msp_v2_frame(dir, flags, cmd, payload)) == (fresh(), Some(
            MsgView {
                len: payload.len() as u16,
                cmd: cmd,
                ok: if dir == DIR_REPLY { MSPRes::Valid } else { MSPRes::Dirn },
                data: payload,
            },
        )),
{
    let c = crc8_seq(0, v2_body(flags, cmd, payload));
    lemma_v2_frame(dir, flags, cmd, payload, c);
    assert(v2_frame_with(dir, flags, cmd, payload, c) == msp_v2_frame(dir, flags, cmd, payload));
}

/// An MSP v2 frame whose last byte is not the checksum of its body decodes to
/// its command and payload with outcome `Crc`.
pub proof fn law_v2_bad_checksum(dir: u8, flags: u8, cmd: u16, payload: Seq<u8>, c: u8)
    requires
        payload.len() <= 0xffff,
        dir == DIR_REPLY || dir == DIR_ERROR,
        c != crc8_seq(0, v2_body(flags, cmd, payload)),
    ensures
        run(fresh(), v2_frame_with(dir, flags, cmd, payload, c)) == (fresh(), Some(
            MsgView { len: payload.len() as u16, cmd: cmd, ok: MSPRes::Crc, data: payload },
        )),
{
    lemma_v2_frame(dir, flags, cmd, payload, c);
}

/// An MSP v1 reply or error frame with a correct checksum, read by a fresh
/// decoder, gives back its command and payload, with outcome `Valid` for a
/// reply and `Dirn` for an error.
pub proof fn law_v1_frame_decodes(dir: u8, cmd: u8, payload: Seq<u8>)
    requires
        payload.len() <= 0xff,
        dir == DIR_REPLY || dir == DIR_ERROR,
    ensures
        run(fresh(), msp_v1_frame(dir, cmd, payload)) == (fresh(), Some(
            MsgView {
                len: payload.len() as u16,
                cmd: cmd as u16,
                ok: if dir == DIR_REPLY { MSPRes::Valid } else { MSPRes::Dirn },
                data: payload,
            },
        )),
{
    let c = xor_seq((lo8(payload.len() as int) ^ cmd) as u8, payload);
    lemma_v1_frame(dir, cmd, payload, c);
    assert(v1_frame_with(dir, cmd, payload, c) == msp_v1_frame(dir, cmd, payload));
}

/// An MSP v1 frame whose last byte is not the XOR of its length, command and
/// payload decodes to its command and payload with outcome `Crc`.
pub proof fn law_v1_bad_checksum(dir: u8, cmd: u8, payload: Seq<u8>, c: u8)
    requires
        payload.len() <= 0xff,
        dir == DIR_REPLY || dir == DIR_ERROR,
        c != xor_seq((lo8(payload.len() as int) ^ cmd) as u8, payload),
    ensures
        run(fresh(), v1_frame_with(dir, cmd, payload, c)) == (fresh(), Some(
            MsgView { len: payload.len() as u16, cmd: cmd as u16, ok: MSPRes::Crc, data: payload },
        )),
{
    lemma_v1_frame(dir, cmd, payload, c);
}

/// The checksum of an MSP v2 frame does not cover the direction byte: a request
/// frame as `encode_msp2` builds it, with its direction byte turned into `>`,
/// decodes to the request's command and payload with outcome `Valid`.
pub proof fn law_request_as_reply(cmd: u16, payload: Seq<u8>)
    requires
        payload.len() <= 0xffff,
    ensures
        run(fresh(), msp_v2_frame(DIR_REQUEST, 0, cmd, payload).update(2, DIR_REPLY)) == (fresh(), Some(
            MsgView { len: payload.len() as u16, cmd: cmd, ok: MSPRes::Valid, data: payload },
        )),
{
    assert(msp_v2_frame(DIR_REQUEST, 0, cmd, payload).update(2, DIR_REPLY) == msp_v2_frame(
        DIR_REPLY,
        0,
        cmd,
        payload,
    ));
    law_v2_frame_decodes(DIR_REPLY, 0, cmd, payload);
}

/// The timeout count after `n` consecutive timeouts, starting from `toc`.
pub open spec fn toc_after(toc: u8, n: nat) -> u8
    decreases n,
{
    if n == 0 {
        toc
    } else {
        next_toc(toc_after(toc, (n - 1) as nat))
    }
}

/// After a read that delivered bytes, the `n`-th consecutive timeout is
/// answered with `GiveUp` when `n` is 50, with `Warn` when `n` is 10, 20, 30
/// or 40, and with `Retry` otherwise.
pub proof fn law_timeouts(n: nat)
    requires
        1 <= n <= TIMEOUT_LIMIT,
    ensures
        toc_after(0, n) == n,
        timeout_action(toc_after(0, n)) == (if n == 50 {
            TimeoutAction::GiveUp
        } else if n % 10 == 0 {
            TimeoutAction::Warn
        } else {
            TimeoutAction::Retry
        }),
    decreases n,
{
    if n > 1 {
        law_timeouts((n - 1) as nat);
    } else {
        assert(toc_after(0, 0) == 0);
    }
    assert(toc_after(0, n) == next_toc(toc_after(0, (n - 1) as nat)));
}

/// Every transition keeps the decoder's invariant.
pub proof fn law_step_keeps_wf(m: DecoderView, b: u8)
    requires
        wf_model(m),
    ensures
        wf_model(step(m, b).0),
{
}

/// The last `n` bytes of `h`.
pub open spec fn tail(h: Seq<u8>, n: int) -> Seq<u8> {
    h.subrange(h.len() - n, h.len() as int)
}

/// `h` ends with `f`.
pub open spec fn ends_with(h: Seq<u8>, f: Seq<u8>) -> bool {
    h.len() >= f.len() && tail(h, f.len() as int) == f
}

/// The direction byte that a decoder has seen in the current frame.
pub open spec fn seen_dir(m: DecoderView) -> u8 {
    if m.dirnok {
        DIR_REPLY
    } else {
        DIR_ERROR
    }
}

/// The decoder `m`, having read the bytes `h`, holds what the end of `h` says:
/// in each state, the bytes of the current frame read so far are the last
/// bytes of `h`, and the command, length, payload and checksum that `m` keeps
/// are those of these bytes.
pub open spec fn tracks(m: DecoderView, h: Seq<u8>) -> bool {
    let dir = seen_dir(m);
    let cmd = m.msg.cmd;
    let len = m.msg.len;
    let data = m.msg.data;
    match m.state {
        States::Init => data.len() == 0,
        States::M => data.len() == 0 && !m.dirnok && ends_with(h, seq![36u8]),
        States::Dirn => data.len() == 0 && !m.dirnok && ends_with(h, seq![36u8, 77u8]),
        States::XHeader2 => data.len() == 0 && !m.dirnok && ends_with(h, seq![36u8, 88u8]),
        States::Len => data.len() == 0 && ends_with(h, seq![36u8, 77u8, dir]),
        States::Cmd => {
            &&& data.len() == 0
            &&& len < 256
            &&& m.crc == len
            &&& ends_with(h, seq![36u8, 77u8, dir, len as u8])
        },
        States::Data => {
            &&& h.len() >= 5 + m.count
            &&& len < 256
            &&& cmd < 256
            &&& data.len() == len
            &&& m.count < len
            &&& tail(h, 5 + m.count) == seq![36u8, 77u8, dir, len as u8, cmd as u8] + data.take(
                m.count as int,
            )
            &&& m.crc == xor_seq((len as u8 ^ cmd as u8) as u8, data.take(m.count as int))
        },
        States::Crc => {
            &&& h.len() >= 5 + len
            &&& len < 256
            &&& cmd < 256
            &&& data.len() == len
            &&& tail(h, 5 + len) == seq![36u8, 77u8, dir, len as u8, cmd as u8] + data
            &&& m.crc == xor_seq((len as u8 ^ cmd as u8) as u8, data)
        },
        States::XFlags => data.len() == 0 && ends_with(h, seq![36u8, 88u8, dir]),
        States::XId1 => {
            &&& data.len() == 0
            &&& h.len() >= 4
            &&& tail(h, 4).take(3) == seq![36u8, 88u8, dir]
            &&& m.crc == crc8_seq(0, tail(h, 4).skip(3))
        },
        States::XId2 => {
            &&& data.len() == 0
            &&& h.len() >= 5
            &&& tail(h, 5).take(3) == seq![36u8, 88u8, dir]
            &&& cmd == tail(h, 5)[4]
            &&& m.crc == crc8_seq(0, tail(h, 5).skip(3))
        },
        States::XLen1 => {
            &&& data.len() == 0
            &&& h.len() >= 6
            &&& tail(h, 6).take(3) == seq![36u8, 88u8, dir]
            &&& cmd == tail(h, 6)[4] + 256 * tail(h, 6)[5]
            &&& m.crc == crc8_seq(0, tail(h, 6).skip(3))
        },
        States::XLen2 => {
            &&& data.len() == 0
            &&& h.len() >= 7
            &&& tail(h, 7).take(3) == seq![36u8, 88u8, dir]
            &&& cmd == tail(h, 7)[4] + 256 * tail(h, 7)[5]
            &&& len == tail(h, 7)[6]
            &&& m.crc == crc8_seq(0, tail(h, 7).skip(3))
        },
        States::XData => {
            &&& h.len() >= 8 + m.count
            &&& tail(h, 8 + m.count).take(3) == seq![36u8, 88u8, dir]
            &&& cmd == tail(h, 8 + m.count)[4] + 256 * tail(h, 8 + m.count)[5]
            &&& len == tail(h, 8 + m.count)[6] + 256 * tail(h, 8 + m.count)[7]
            &&& data.len() == len
            &&& m.count < len
            &&& tail(h, 8 + m.count).skip(8) == data.take(m.count as int)
            &&& m.crc == crc8_seq(0, tail(h, 8 + m.count).skip(3))
        },
        States::XChecksum => {
            &&& h.len() >= 8 + len
            &&& tail(h, 8 + len).take(3) == seq![36u8, 88u8, dir]
            &&& cmd == tail(h, 8 + len)[4] + 256 * tail(h, 8 + len)[5]
            &&& len == tail(h, 8 + len)[6] + 256 * tail(h, 8 + len)[7]
            &&& data.len() == len
            &&& tail(h, 8 + len).skip(8) == data
            &&& m.crc == crc8_seq(0, tail(h, 8 + len).skip(3))
        },
    }
}

/// `h` ends with a whole frame, v2 or v1, whose direction byte is `dir` and
/// which carries the command and payload of `msg` under a correct checksum.
pub open spec fn ends_with_frame(h: Seq<u8>, msg: MsgView, dir: u8) -> bool {
    &&& msg.len == msg.data.len()
    &&& {
        ||| exists|flags: u8| ends_with(h, #[trigger] msp_v2_frame(dir, flags, msg.cmd, msg.data))
        ||| msg.cmd < 256 && ends_with(h, msp_v1_frame(dir, msg.cmd as u8, msg.data))
    }
}

proof fn lemma_tail_push(h: Seq<u8>, n: int, b: u8)
    requires
        0 <= n <= h.len(),
    ensures
        tail(h.push(b), n + 1) == tail(h, n).push(b),
{
    assert(tail(h.push(b), n + 1) == tail(h, n).push(b));
}

proof fn lemma_or_shift(a: u16, b: u8)
    requires
        a < 256,
    ensures
        a | ((b as u16) << 8u16) == a + 256 * b,
{
    let bb = b as u16;
    assert(a | (bb << 8u16) == a + 256 * bb) by (bit_vector)
        requires
            a < 256,
            bb < 256,
    ;
}

/// The outcome of a completed message names the direction byte of its frame.
pub open spec fn outcome_dir(ok: MSPRes) -> u8 {
    if ok == MSPRes::Valid {
        DIR_REPLY
    } else {
        DIR_ERROR
    }
}

proof fn lemma_tracks_v1(m: DecoderView, h: Seq<u8>, b: u8)
    requires
        tracks(m, h),
        wf_model(m),
        m.state == States::Len || m.state == States::Cmd || m.state == States::Data || m.state
            == States::Crc,
    ensures
        step(m, b).1 is None ==> tracks(step(m, b).0, h.push(b)),
        step(m, b).1 matches Some(msg) ==> ((msg.ok == MSPRes::Valid || msg.ok == MSPRes::Dirn)
            ==> ends_with_frame(h.push(b), msg, outcome_dir(msg.ok))),
{
    let (m2, out) = step(m, b);
    let h2 = h.push(b);
    let dir = seen_dir(m);
    match m.state {
        States::Len => {
            lemma_tail_push(h, 3, b);
            assert(tail(h2, 4) == seq![36u8, 77u8, dir, (b as u16) as u8]);
        },
        States::Cmd => {
            lemma_tail_push(h, 4, b);
            let len8 = m.msg.len as u8;
            if m.msg.len == 0 {
                assert(tail(h2, 5) == seq![36u8, 77u8, dir, len8, (b as u16) as u8] + m2.msg.data);
                assert(xor_seq((len8 ^ b) as u8, m2.msg.data) == (len8 ^ b) as u8);
            } else {
                assert(m2.msg.data.take(0) == Seq::<u8>::empty());
                assert(tail(h2, 5) == seq![36u8, 77u8, dir, len8, (b as u16) as u8] + m2.msg.data.take(
                    0,
                ));
                assert(xor_seq((len8 ^ b) as u8, m2.msg.data.take(0)) == (len8 ^ b) as u8);
            }
        },
        States::Data => {
            let k = m.count as int;
            let hdr = seq![36u8, 77u8, dir, m.msg.len as u8, m.msg.cmd as u8];
            lemma_tail_push(h, 5 + k, b);
            assert(m2.msg.data.take(k + 1) == m.msg.data.take(k).push(b));
            assert(m2.msg.data.take(k + 1).drop_last() == m.msg.data.take(k));
            assert(tail(h2, 5 + k + 1) == hdr + m2.msg.data.take(k + 1));
            if k + 1 == m.msg.len {
                assert(m2.msg.data.take(k + 1) == m2.msg.data);
            }
        },
        States::Crc => {
            if let Some(msg) = out {
                if msg.ok == MSPRes::Valid || msg.ok == MSPRes::Dirn {
                    let cmd8 = m.msg.cmd as u8;
                    let len8 = m.msg.len as u8;
                    let f = msp_v1_frame(dir, cmd8, m.msg.data);
                    assert(lo8(m.msg.data.len() as int) == len8);
                    lemma_tail_push(h, 5 + m.msg.len, b);
                    assert(tail(h2, f.len() as int) == f);
                    assert(outcome_dir(msg.ok) == dir);
                    assert(msg.cmd as u8 == cmd8);
                }
            }
        },
        _ => {},
    }
}

proof fn lemma_tracks_v2_head(m: DecoderView, h: Seq<u8>, b: u8)
    requires
        tracks(m, h),
        wf_model(m),
        m.state == States::XFlags || m.state == States::XId1 || m.state == States::XId2
            || m.state == States::XLen1 || m.state == States::XLen2,
    ensures
        step(m, b).1 is None ==> tracks(step(m, b).0, h.push(b)),
{
    let m2 = step(m, b).0;
    let h2 = h.push(b);
    let dir = seen_dir(m);
    match m.state {
        States::XFlags => {
            lemma_tail_push(h, 3, b);
            let t2 = tail(h2, 4);
            assert(t2.take(3) == seq![36u8, 88u8, dir]);
            assert(t2.skip(3) == seq![b]);
            assert(seq![b].drop_last() == Seq::<u8>::empty());
            assert(seq![b].last() == b);
            assert(crc8_seq(0, Seq::<u8>::empty()) == 0);
            assert(crc8_seq(0, seq![b]) == spec_crc8_dvb_s2(crc8_seq(0, Seq::<u8>::empty()), b));
            assert(m2.state == States::XId1);
            assert(m2.msg.data.len() == 0);
            assert(h2.len() >= 4);
            assert(seen_dir(m2) == dir);
            assert(m2.crc == crc8_seq(0, t2.skip(3)));
            assert(tracks(m2, h2));
        },
        States::XId1 => {
            lemma_tail_push(h, 4, b);
            let t = tail(h, 4);
            let t2 = tail(h2, 5);
            assert(t2.take(3) == t.take(3));
            assert(t2.skip(3).drop_last() == t.skip(3));
            assert(t2[4] == b);
            assert(tracks(m2, h2));
        },
        States::XId2 => {
            lemma_tail_push(h, 5, b);
            let t = tail(h, 5);
            let t2 = tail(h2, 6);
            assert(t2.take(3) == t.take(3));
            assert(t2.skip(3).drop_last() == t.skip(3));
            assert(t2[4] == t[4]);
            assert(t2[5] == b);
            lemma_or_shift(m.msg.cmd, b);
            assert(tracks(m2, h2));
        },
        States::XLen1 => {
            lemma_tail_push(h, 6, b);
            let t = tail(h, 6);
            let t2 = tail(h2, 7);
            assert(t2.take(3) == t.take(3));
            assert(t2.skip(3).drop_last() == t.skip(3));
            assert(t2[4] == t[4]);
            assert(t2[5] == t[5]);
            assert(t2[6] == b);
            assert(tracks(m2, h2));
        },
        States::XLen2 => {
            lemma_tail_push(h, 7, b);
            let t = tail(h, 7);
            let t2 = tail(h2, 8);
            assert(t2.take(3) == t.take(3));
            assert(t2.skip(3).drop_last() == t.skip(3));
            assert(t2[4] == t[4]);
            assert(t2[5] == t[5]);
            assert(t2[6] == t[6]);
            assert(t2[7] == b);
            lemma_or_shift(m.msg.len, b);
            assert(t2.skip(8) == Seq::<u8>::empty());
            assert(t2.skip(3).last() == b);
            assert(m2.crc == crc8_seq(0, t2.skip(3)));
            assert(m2.msg.len == t2[6] + 256 * t2[7]);
            assert(m2.msg.cmd == t2[4] + 256 * t2[5]);
            if m2.msg.len > 0 {
                assert(m2.msg.data.take(0) == Seq::<u8>::empty());
                assert(m2.state == States::XData);
                assert(m2.count == 0);
                assert(m2.msg.data.len() == m2.msg.len);
                assert(h2.len() >= 8 + m2.count);
                assert(tail(h2, 8 + m2.count) == t2);
                assert(tail(h2, 8 + m2.count).take(3) == seq![36u8, 88u8, seen_dir(m2)]);
                assert(tail(h2, 8 + m2.count).skip(8) == m2.msg.data.take(m2.count as int));
                assert(m2.count < m2.msg.len);
            } else {
                assert(m2.state == States::XChecksum);
                assert(tail(h2, 8 + m2.msg.len) == t2);
                assert(tail(h2, 8 + m2.msg.len).take(3) == seq![36u8, 88u8, seen_dir(m2)]);
                assert(tail(h2, 8 + m2.msg.len).skip(8) == m2.msg.data);
            }
            assert(tracks(m2, h2));
        },
        _ => {},
    }
}

proof fn lemma_tracks_v2_tail(m: DecoderView, h: Seq<u8>, b: u8)
    requires
        tracks(m, h),
        wf_model(m),
        m.state == States::XData || m.state == States::XChecksum,
    ensures
        step(m, b).1 is None ==> tracks(step(m, b).0, h.push(b)),
        step(m, b).1 matches Some(msg) ==> ((msg.ok == MSPRes::Valid || msg.ok == MSPRes::Dirn)
            ==> ends_with_frame(h.push(b), msg, outcome_dir(msg.ok))),
{
    let (m2, out) = step(m, b);
    let h2 = h.push(b);
    let dir = seen_dir(m);
    match m.state {
        States::XData => {
            let k = m.count as int;
            lemma_tail_push(h, 8 + k, b);
            let t = tail(h, 8 + k);
            let t2 = tail(h2, 8 + k + 1);
            assert(t2.take(3) == t.take(3));
            assert(t2.skip(3).drop_last() == t.skip(3));
            assert(t2[4] == t[4]);
            assert(t2[5] == t[5]);
            assert(t2[6] == t[6]);
            assert(t2[7] == t[7]);
            assert(m2.msg.data.take(k + 1) == m.msg.data.take(k).push(b));
            assert(t2.skip(8) == t.skip(8).push(b));
            if k + 1 == m.msg.len {
                assert(m2.msg.data.take(k + 1) == m2.msg.data);
            }
        },
        States::XChecksum => {
            if let Some(msg) = out {
                if msg.ok == MSPRes::Valid || msg.ok == MSPRes::Dirn {
                    let t = tail(h, 8 + m.msg.len);
                    let flags = t[3];
                    let f = msp_v2_frame(dir, flags, m.msg.cmd, m.msg.data);
                    lemma_tail_push(h, 8 + m.msg.len, b);
                    assert(v2_body(flags, m.msg.cmd, m.msg.data) == t.skip(3));
                    assert(tail(h2, f.len() as int) == f);
                    assert(outcome_dir(msg.ok) == dir);
                    assert(ends_with(h2, msp_v2_frame(dir, flags, msg.cmd, msg.data)));
                }
            }
        },
        _ => {},
    }
}

proof fn lemma_tracks_step(m: DecoderView, h: Seq<u8>, b: u8)
    requires
        tracks(m, h),
        wf_model(m),
    ensures
        step(m, b).1 is None ==> tracks(step(m, b).0, h.push(b)),
        step(m, b).1 matches Some(msg) ==> ((msg.ok == MSPRes::Valid || msg.ok == MSPRes::Dirn)
            ==> ends_with_frame(h.push(b), msg, outcome_dir(msg.ok))),
{
    let h2 = h.push(b);
    match m.state {
        States::Init => {
            if b == 36u8 {
                lemma_tail_push(h, 0, b);
                assert(tail(h, 0) == Seq::<u8>::empty());
                assert(tail(h2, 1) == seq![36u8]);
            }
        },
        States::M => {
            lemma_tail_push(h, 1, b);
            assert(tail(h2, 2) == seq![36u8, b]);
        },
        States::Dirn => {
            lemma_tail_push(h, 2, b);
            assert(tail(h2, 3) == seq![36u8, 77u8, b]);
        },
        States::XHeader2 => {
            lemma_tail_push(h, 2, b);
            assert(tail(h2, 3) == seq![36u8, 88u8, b]);
        },
        States::Len | States::Cmd | States::Data | States::Crc => {
            lemma_tracks_v1(m, h, b);
        },
        States::XFlags | States::XId1 | States::XId2 | States::XLen1 | States::XLen2 => {
            lemma_tracks_v2_head(m, h, b);
        },
        States::XData | States::XChecksum => {
            lemma_tracks_v2_tail(m, h, b);
        },
    }
}

proof fn lemma_run_tracks(m: DecoderView, h: Seq<u8>, rest: Seq<u8>)
    requires
        tracks(m, h),
        wf_model(m),
    ensures
        run(m, rest).1 matches Some(msg) ==> ((msg.ok == MSPRes::Valid || msg.ok == MSPRes::Dirn)
            ==> exists|k: int|
            0 < k <= rest.len() && ends_with_frame(#[trigger] (h + rest.take(k)), msg, outcome_dir(msg.ok))),
    decreases rest.len(),
{
    if rest.len() > 0 {
        let b = rest[0];
        let (m2, out) = step(m, b);
        lemma_tracks_step(m, h, b);
        law_step_keeps_wf(m, b);
        if let Some(msg) = out {
            if msg.ok == MSPRes::Valid || msg.ok == MSPRes::Dirn {
                assert(h + rest.take(1) == h.push(b));
                assert(ends_with_frame(h + rest.take(1), msg, outcome_dir(msg.ok)));
            }
        } else {
            lemma_run_tracks(m2, h.push(b), rest.drop_first());
            if let Some(msg) = run(m, rest).1 {
                if msg.ok == MSPRes::Valid || msg.ok == MSPRes::Dirn {
                    let k = choose|k: int|
                        0 < k <= rest.drop_first().len() && ends_with_frame(
                            #[trigger] (h.push(b) + rest.drop_first().take(k)),
                            msg,
                            outcome_dir(msg.ok),
                        );
                    assert(h.push(b) + rest.drop_first().take(k) == h + rest.take(k + 1));
                    assert(ends_with_frame(h + rest.take(k + 1), msg, outcome_dir(msg.ok)));
                }
            }
        }
    }
}

/// A message that the decoder reports with outcome `Valid` (or `Dirn`) was
/// sent whole: the bytes read up to it end with an MSP v2 or v1 frame whose
/// direction byte is `>` (or `!`) and which carries the message's command
/// and payload under a correct checksum.
pub proof fn law_reported_frame_was_sent(bytes: Seq<u8>)
    ensures
        run(fresh(), bytes).1 matches Some(msg) ==> ((msg.ok == MSPRes::Valid || msg.ok
            == MSPRes::Dirn) ==> exists|k: int|
            0 < k <= bytes.len() && ends_with_frame(#[trigger] bytes.take(k), msg, outcome_dir(msg.ok))),
{
    let e = Seq::<u8>::empty();
    lemma_run_tracks(fresh(), e, bytes);
    if let Some(msg) = run(fresh(), bytes).1 {
        if msg.ok == MSPRes::Valid || msg.ok == MSPRes::Dirn {
            let k = choose|k: int|
                0 < k <= bytes.len() && ends_with_frame(
                    #[trigger] (e + bytes.take(k)),
                    msg,
                    outcome_dir(msg.ok),
                );
            assert(e + bytes.take(k) == bytes.take(k));
        }
    }
}

/// The checksum of an MSP v1 frame, request, reply or error alike, is the XOR
/// of its length byte, its command byte and all its payload bytes: XOR-ing
/// every byte from the length byte through the checksum gives zero.
pub proof fn law_v1_checksum_cancels(dir: u8, cmd: u8, payload: Seq<u8>)
    ensures
        ({
            let f = msp_v1_frame(dir, cmd, payload);
            &&& f.len() == payload.len() + 6
            &&& f[3] == lo8(payload.len() as int)
            &&& f[4] == cmd
            &&& f.subrange(5, 5 + payload.len() as int) == payload
            &&& xor_seq(0, f.subrange(3, f.len() as int)) == 0
        }),
{
    let f = msp_v1_frame(dir, cmd, payload);
    let len8 = lo8(payload.len() as int);
    let c = xor_seq((len8 ^ cmd) as u8, payload);
    let head = seq![len8, cmd];
    assert(f.subrange(5, 5 + payload.len() as int) == payload);
    assert(f.subrange(3, f.len() as int) == head + payload + seq![c]);
    assert((head + payload + seq![c]).drop_last() == head + payload);
    lemma_xor_append(0, head, payload);
    assert(head.drop_last() == seq![len8]);
    assert(seq![len8].drop_last() == Seq::<u8>::empty());
    assert(xor_seq(0, Seq::<u8>::empty()) == 0);
    assert(seq![len8].last() == len8);
    assert(xor_seq(0, seq![len8]) == (xor_seq(0, seq![len8].drop_last()) ^ seq![len8].last()) as u8);
    assert(xor_seq(0, seq![len8]) == (0u8 ^ len8) as u8);
    assert(head.last() == cmd);
    assert(xor_seq(0, head) == ((0u8 ^ len8) as u8 ^ cmd) as u8);
    assert(((0u8 ^ len8) as u8 ^ cmd) as u8 == (len8 ^ cmd) as u8) by (bit_vector);
    assert((c ^ c) as u8 == 0u8) by (bit_vector);
}

/// The checksum of an MSP v1 frame does not cover the direction byte: a
/// request frame as `encode_msp` builds it, with its direction byte turned
/// into `>`, decodes to the request's command and payload with outcome `Valid`.
pub proof fn law_v1_request_as_reply(cmd: u8, payload: Seq<u8>)
    requires
        payload.len() <= 0xff,
    ensures
        run(fresh(), msp_v1_frame(DIR_REQUEST, cmd, payload).update(2, DIR_REPLY)) == (fresh(), Some(
            MsgView { len: payload.len() as u16, cmd: cmd as u16, ok: MSPRes::Valid, data: payload },
        )),
{
    assert(msp_v1_frame(DIR_REQUEST, cmd, payload).update(2, DIR_REPLY) == msp_v1_frame(
        DIR_REPLY,
        cmd,
        payload,
    ));
    law_v1_frame_decodes(DIR_REPLY, cmd, payload);
}

} // verus!
