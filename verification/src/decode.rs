//! The MSP reply decoder: a byte-at-a-time state machine for MSP v1 (`$M`)
//! and MSP v2 (`$X`) frames, and the read-timeout policy around it.
use vstd::prelude::*;
use crate::crc::{crc8_dvb_s2, spec_crc8_dvb_s2};
use crate::msp::{MSPMsg, MSPRes, MsgView, empty_msg, opt_msg_view};

verus! {

/// The states of the decoder.
#[derive(Debug, Clone, Copy, PartialEq, Eq, Structural)]
pub enum States {
    Init,
    M,
    Dirn,
    Len,
    Cmd,
    Data,
    Crc,
    XHeader2,
    XFlags,
    XId1,
    XId2,
    XLen1,
    XLen2,
    XData,
    XChecksum,
}

/// What to do after a read timed out.
#[derive(Debug, Clone, Copy, PartialEq, Eq, Structural)]
pub enum TimeoutAction {
    /// Read again.
    Retry,
    /// Report the timeout, then read again.
    Warn,
    /// Give up and report the timeout as an error.
    GiveUp,
}

/// Number of consecutive read timeouts after which reading gives up.
pub const TIMEOUT_LIMIT: u8 = 50;

/// The mathematical value of a decoder.
pub struct DecoderView {
    pub state: States,
    pub msg: MsgView,
    pub crc: u8,
    pub count: u16,
    pub dirnok: bool,
    pub toc: u8,
}

/// The decoder as it stands before any byte was read.
pub open spec fn fresh() -> DecoderView {
    DecoderView { state: States::Init, msg: empty_msg(), crc: 0, count: 0, dirnok: false, toc: 0 }
}

/// What the decoder keeps true: while payload bytes are expected, there is room
/// for them; the timeout count never passes the limit.
pub open spec fn wf_model(m: DecoderView) -> bool {
    &&& (m.state == States::Data || m.state == States::XData) ==> {
        &&& m.count < m.msg.len
        &&& m.msg.data.len() == m.msg.len
    }
    &&& m.toc <= TIMEOUT_LIMIT
}

/// The outcome of a frame whose checksum byte is `b`.
pub open spec fn verdict(m: DecoderView, b: u8) -> MSPRes {
    if m.crc != b {
        MSPRes::Crc
    } else if m.dirnok {
        MSPRes::Valid
    } else {
        MSPRes::Dirn
    }
}

/// A payload buffer of `n` zero bytes.
pub open spec fn zero_data(n: u16) -> Seq<u8> {
    Seq::new(n as nat, |i: int| 0u8)
}

/// One transition of the decoder on byte `b`: the next decoder and the message
/// completed by `b`, if any. A completed message leaves a fresh decoder behind.
pub open spec fn step(m: DecoderView, b: u8) -> (DecoderView, Option<MsgView>) {
    match m.state {
        States::Init => {
            if b == 36 {
                (DecoderView {
                    state: States::M,
                    msg: MsgView { ok: MSPRes::Fail, len: 0, cmd: 0, ..m.msg },
                    dirnok: false,
                    ..m
                }, None)
            } else {
                (m, None)
            }
        },
        States::M => {
            let next = if b == 77 {
                States::Dirn
            } else if b == 88 {
                States::XHeader2
            } else {
                States::Init
            };
            (DecoderView { state: next, ..m }, None)
        },
        States::Dirn => {
            if b == 33 {
                (DecoderView { state: States::Len, ..m }, None)
            } else if b == 62 {
                (DecoderView { state: States::Len, dirnok: true, ..m }, None)
            } else {
                (DecoderView { state: States::Init, ..m }, None)
            }
        },
        States::XHeader2 => {
            if b == 33 {
                (DecoderView { state: States::XFlags, ..m }, None)
            } else if b == 62 {
                (DecoderView { state: States::XFlags, dirnok: true, ..m }, None)
            } else {
                (DecoderView { state: States::Init, ..m }, None)
            }
        },
        States::XFlags => {
            (DecoderView { state: States::XId1, crc: spec_crc8_dvb_s2(0, b), ..m }, None)
        },
        States::XId1 => {
            (DecoderView {
                state: States::XId2,
                crc: spec_crc8_dvb_s2(m.crc, b),
                msg: MsgView { cmd: b as u16, ..m.msg },
                ..m
            }, None)
        },
        States::XId2 => {
            (DecoderView {
                state: States::XLen1,
                crc: spec_crc8_dvb_s2(m.crc, b),
                msg: MsgView { cmd: m.msg.cmd | ((b as u16) << 8u16), ..m.msg },
                ..m
            }, None)
        },
        States::XLen1 => {
            (DecoderView {
                state: States::XLen2,
                crc: spec_crc8_dvb_s2(m.crc, b),
                msg: MsgView { len: b as u16, ..m.msg },
                ..m
            }, None)
        },
        States::XLen2 => {
            let len = m.msg.len | ((b as u16) << 8u16);
            let crc = spec_crc8_dvb_s2(m.crc, b);
            if len > 0 {
                (DecoderView {
                    state: States::XData,
                    crc: crc,
                    count: 0,
                    msg: MsgView { len: len, data: zero_data(len), ..m.msg },
                    ..m
                }, None)
            } else {
                (DecoderView {
                    state: States::XChecksum,
                    crc: crc,
                    msg: MsgView { len: len, ..m.msg },
                    ..m
                }, None)
            }
        },
        States::XData => {
            let count = (m.count + 1) as u16;
            (DecoderView {
                state: if count == m.msg.len { States::XChecksum } else { States::XData },
                crc: spec_crc8_dvb_s2(m.crc, b),
                count: count,
                msg: MsgView { data: m.msg.data.update(m.count as int, b), ..m.msg },
                ..m
            }, None)
        },
        States::XChecksum => (fresh(), Some(MsgView { ok: verdict(m, b), ..m.msg })),
        States::Len => {
            (DecoderView {
                state: States::Cmd,
                crc: b,
                msg: MsgView { len: b as u16, ..m.msg },
                ..m
            }, None)
        },
        States::Cmd => {
            let crc = (m.crc ^ b) as u8;
            if m.msg.len == 0 {
                (DecoderView {
                    state: States::Crc,
                    crc: crc,
                    msg: MsgView { cmd: b as u16, ..m.msg },
                    ..m
                }, None)
            } else {
                (DecoderView {
                    state: States::Data,
                    crc: crc,
                    count: 0,
                    msg: MsgView { cmd: b as u16, data: zero_data(m.msg.len), ..m.msg },
                    ..m
                }, None)
            }
        },
        States::Data => {
            let count = (m.count + 1) as u16;
            (DecoderView {
                state: if count == m.msg.len { States::Crc } else { States::Data },
                crc: (m.crc ^ b) as u8,
                count: count,
                msg: MsgView { data: m.msg.data.update(m.count as int, b), ..m.msg },
                ..m
            }, None)
        },
        States::Crc => (fresh(), Some(MsgView { ok: verdict(m, b), ..m.msg })),
    }
}

/// Feeds `bytes` one by one, stopping at the first completed message; the
/// bytes after it are not read.
pub open spec fn run(m: DecoderView, bytes: Seq<u8>) -> (DecoderView, Option<MsgView>)
    decreases bytes.len(),
{
    if bytes.len() == 0 {
        (m, None)
    } else {
        let (m2, out) = step(m, bytes[0]);
        if out is Some {
            (m2, out)
        } else {
            run(m2, bytes.drop_first())
        }
    }
}

/// The timeout count after one more timeout.
pub open spec fn next_toc(toc: u8) -> u8 {
    if toc < TIMEOUT_LIMIT {
        (toc + 1) as u8
    } else {
        toc
    }
}

/// What to do once `toc` consecutive timeouts have been seen.
pub open spec fn timeout_action(toc: u8) -> TimeoutAction {
    if toc == TIMEOUT_LIMIT {
        TimeoutAction::GiveUp
    } else if toc % 10 == 0 {
        TimeoutAction::Warn
    } else {
        TimeoutAction::Retry
    }
}

/// A decoder of MSP replies, fed with the bytes read from the port.
pub struct MspDecoder {
    state: States,
    msg: MSPMsg,
    crc: u8,
    count: u16,
    dirnok: bool,
    toc: u8,
}

fn zeros(n: u16) -> (r: Vec<u8>)
    ensures
        r@ == zero_data(n),
{
    let mut r: Vec<u8> = Vec::with_capacity(n as usize);
    let mut i: u16 = 0;
    while i < n
        invariant
            i <= n,
            r@ == Seq::new(i as nat, |k: int| 0u8),
        decreases n - i,
    {
        r.push(0u8);
        i = i + 1;
        assert(r@ == Seq::new(i as nat, |k: int| 0u8));
    }
    r
}

impl MspDecoder {
    /// The value of the decoder.
    pub closed spec fn view(&self) -> DecoderView {
        DecoderView {
            state: self.state,
            msg: self.msg@,
            crc: self.crc,
            count: self.count,
            dirnok: self.dirnok,
            toc: self.toc,
        }
    }

    /// The decoder keeps its invariant.
    pub open spec fn wf(&self) -> bool {
        wf_model(self.view())
    }

    /// A decoder that has read nothing.
    pub fn new() -> (r: Self)
        ensures
            r.view() == fresh(),
            r.wf(),
    {
        MspDecoder {
            state: States::Init,
            msg: MSPMsg::default(),
            crc: 0,
            count: 0,
            dirnok: false,
            toc: 0,
        }
    }

    /// Takes the completed message out, with outcome `ok`, and resets the decoder.
    fn finish(&mut self, ok: MSPRes) -> (r: MSPMsg)
        ensures
            final(self).view() == fresh(),
            r@ == (MsgView { ok: ok, ..old(self).view().msg }),
    {
        let mut out = MSPMsg::default();
        std::mem::swap(&mut out, &mut self.msg);
        out.ok = ok;
        self.state = States::Init;
        self.crc = 0;
        self.count = 0;
        self.dirnok = false;
        self.toc = 0;
        out
    }

    /// Feeds one byte; returns the message that this byte completes, if any.
    pub fn feed(&mut self, b: u8) -> (r: Option<MSPMsg>)
        requires
            old(self).wf(),
        ensures
            final(self).wf(),
            (final(self).view(), opt_msg_view(r)) == step(old(self).view(), b),
    {
        match self.state {
            States::Init => {
                if b == 36u8 {
                    self.state = States::M;
                    self.msg.ok = MSPRes::Fail;
                    self.msg.len = 0;
                    self.msg.cmd = 0;
                    self.dirnok = false;
                }
                None
            },
            States::M => {
                self.state = if b == 77u8 {
                    States::Dirn
                } else if b == 88u8 {
                    States::XHeader2
                } else {
                    States::Init
                };
                None
            },
            States::Dirn => {
                if b == 33u8 {
                    self.state = States::Len;
                } else if b == 62u8 {
                    self.state = States::Len;
                    self.dirnok = true;
                } else {
                    self.state = States::Init;
                }
                None
            },
            States::XHeader2 => {
                if b == 33u8 {
                    self.state = States::XFlags;
                } else if b == 62u8 {
                    self.state = States::XFlags;
                    self.dirnok = true;
                } else {
                    self.state = States::Init;
                }
                None
            },
            States::XFlags => {
                self.crc = crc8_dvb_s2(0, b);
                self.state = States::XId1;
                None
            },
            States::XId1 => {
                self.crc = crc8_dvb_s2(self.crc, b);
                self.msg.cmd = b as u16;
                self.state = States::XId2;
                None
            },
            States::XId2 => {
                self.crc = crc8_dvb_s2(self.crc, b);
                self.msg.cmd = self.msg.cmd | ((b as u16) << 8u16);
                self.state = States::XLen1;
                None
            },
            States::XLen1 => {
                self.crc = crc8_dvb_s2(self.crc, b);
                self.msg.len = b as u16;
                self.state = States::XLen2;
                None
            },
            States::XLen2 => {
                self.crc = crc8_dvb_s2(self.crc, b);
                self.msg.len = self.msg.len | ((b as u16) << 8u16);
                if self.msg.len > 0 {
                    self.state = States::XData;
                    self.count = 0;
                    self.msg.data = zeros(self.msg.len);
                } else {
                    self.state = States::XChecksum;
                }
                None
            },
            States::XData => {
                self.crc = crc8_dvb_s2(self.crc, b);
                self.msg.data.set(self.count as usize, b);
                self.count = self.count + 1;
                if self.count == self.msg.len {
                    self.state = States::XChecksum;
                }
                None
            },
            States::XChecksum => {
                let ok = if self.crc != b {
                    MSPRes::Crc
                } else if self.dirnok {
                    MSPRes::Valid
                } else {
                    MSPRes::Dirn
                };
                Some(self.finish(ok))
            },
            States::Len => {
                self.msg.len = b as u16;
                self.crc = b;
                self.state = States::Cmd;
                None
            },
            States::Cmd => {
                self.msg.cmd = b as u16;
                self.crc = self.crc ^ b;
                if self.msg.len == 0 {
                    self.state = States::Crc;
                } else {
                    self.msg.data = zeros(self.msg.len);
                    self.state = States::Data;
                    self.count = 0;
                }
                None
            },
            States::Data => {
                self.msg.data.set(self.count as usize, b);
                self.crc = self.crc ^ b;
                self.count = self.count + 1;
                if self.count == self.msg.len {
                    self.state = States::Crc;
                }
                None
            },
            States::Crc => {
                let ok = if self.crc != b {
                    MSPRes::Crc
                } else if self.dirnok {
                    MSPRes::Valid
                } else {
                    MSPRes::Dirn
                };
                Some(self.finish(ok))
            },
        }
    }
}


impl MspDecoder {
    /// Feeds the bytes of one read: the timeout count restarts, then the bytes
    /// are fed in order until one completes a message, which is returned; the
    /// bytes after it are dropped.
    pub fn feed_bytes(&mut self, bytes: &[u8]) -> (r: Option<MSPMsg>)
        requires
            old(self).wf(),
        ensures
            final(self).wf(),
            (final(self).view(), opt_msg_view(r)) == run(
                DecoderView { toc: 0, ..old(self).view() },
                bytes@,
            ),
    {
        self.toc = 0;
        let ghost start = self.view();
        assert(bytes@.skip(0) == bytes@);
        assert(start == (DecoderView { toc: 0, ..old(self).view() }));
        let mut i: usize = 0;
        while i < bytes.len()
            invariant
                self.wf(),
                i <= bytes@.len(),
                start == (DecoderView { toc: 0, ..old(self).view() }),
                run(start, bytes@) == run(self.view(), bytes@.skip(i as int)),
            decreases bytes@.len() - i,
        {
            let ghost before = self.view();
            assert(bytes@.skip(i as int).drop_first() == bytes@.skip(i + 1));
            assert(bytes@.skip(i as int)[0] == bytes@[i as int]);
            let out = self.feed(bytes[i]);
            if out.is_some() {
                assert(run(before, bytes@.skip(i as int)) == step(before, bytes@[i as int]));
                return out;
            }
            i = i + 1;
        }
        assert(bytes@.skip(i as int).len() == 0);
        None
    }

    /// The message handed back when the port reports the end of its input:
    /// no command, no length, outcome `Fail`, and whatever payload was read.
    pub fn end_of_input(self) -> (r: MSPMsg)
        ensures
            r@ == (MsgView { len: 0, cmd: 0, ok: MSPRes::Fail, data: self.view().msg.data }),
    {
        let mut msg = self.msg;
        msg.cmd = 0;
        msg.len = 0;
        msg.ok = MSPRes::Fail;
        msg
    }

    /// Counts one more read timeout and says what to do about it.
    pub fn timeout(&mut self) -> (r: TimeoutAction)
        requires
            old(self).wf(),
        ensures
            final(self).wf(),
            final(self).view() == (DecoderView { toc: next_toc(old(self).view().toc), ..old(self).view() }),
            r == timeout_action(next_toc(old(self).view().toc)),
    {
        if self.toc < TIMEOUT_LIMIT {
            self.toc = self.toc + 1;
        }
        if self.toc == TIMEOUT_LIMIT {
            TimeoutAction::GiveUp
        } else if self.toc % 10 == 0 {
            TimeoutAction::Warn
        } else {
            TimeoutAction::Retry
        }
    }
}

} // verus!
