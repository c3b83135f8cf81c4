//! Reading the replies of the identification sequence (API version, name,
//! firmware, version, build, board, analog) and choosing the next request.
use vstd::prelude::*;
use crate::msp::{
    MSG_ANALOG, MSG_API_VERSION, MSG_BOARD_INFO, MSG_BUILD_INFO, MSG_FC_VARIANT, MSG_FC_VERSION,
    MSG_NAME, MSPMsg, MsgView,
};

verus! {

/// What a reply of the identification sequence says.
#[derive(Debug, Clone)]
pub enum Reply {
    /// MSP API version `major.minor`.
    ApiVersion { major: u8, minor: u8 },
    /// Craft name, as sent.
    Name { name: Vec<u8> },
    /// Four-letter firmware identifier.
    FcVariant { variant: Vec<u8> },
    /// Firmware version `major.minor.patch`.
    FcVersion { major: u8, minor: u8, patch: u8 },
    /// Build date (11 bytes), time (8 bytes) and source revision (the rest).
    BuildInfo { date: Vec<u8>, time: Vec<u8>, revision: Vec<u8> },
    /// Build information too short to read.
    BuildUnknown,
    /// Board name.
    BoardInfo { board: Vec<u8> },
    /// Battery voltage in tenths of a volt and current in hundredths of an ampere.
    Analog { decivolts: u8, centiamps: u16 },
    /// A reply of any other command.
    Unknown,
}

/// A reply read, and the request that follows it in the identification sequence.
#[derive(Debug, Clone)]
pub struct Description {
    pub reply: Reply,
    pub next: Option<u16>,
}

/// The request that follows the reply to `cmd`; none after the analog reading
/// or after an unknown reply.
pub open spec fn next_command(cmd: u16) -> Option<u16> {
    if cmd == MSG_API_VERSION {
        Some(MSG_NAME)
    } else if cmd == MSG_NAME {
        Some(MSG_FC_VARIANT)
    } else if cmd == MSG_FC_VARIANT {
        Some(MSG_FC_VERSION)
    } else if cmd == MSG_FC_VERSION {
        Some(MSG_BUILD_INFO)
    } else if cmd == MSG_BUILD_INFO {
        Some(MSG_BOARD_INFO)
    } else if cmd == MSG_BOARD_INFO {
        Some(MSG_ANALOG)
    } else {
        None
    }
}

/// The payload holds every byte that the reply to its command is read from.
pub open spec fn describable(m: MsgView) -> bool {
    if m.cmd == MSG_API_VERSION {
        m.data.len() >= 3
    } else if m.cmd == MSG_FC_VARIANT {
        m.data.len() >= 4
    } else if m.cmd == MSG_FC_VERSION {
        m.data.len() >= 3
    } else if m.cmd == MSG_BUILD_INFO {
        m.len > 19 ==> m.data.len() >= 19
    } else if m.cmd == MSG_BOARD_INFO {
        if m.len > 8 {
            m.data.len() >= 9
        } else {
            m.data.len() >= 4
        }
    } else if m.cmd == MSG_ANALOG {
        m.data.len() >= 7
    } else {
        true
    }
}

/// `r` is what the message `m` says.
pub open spec fn reply_describes(r: Reply, m: MsgView) -> bool {
    let d = m.data;
    if m.cmd == MSG_API_VERSION {
        r matches Reply::ApiVersion { major, minor } && major == d[1] && minor == d[2]
    } else if m.cmd == MSG_NAME {
        r matches Reply::Name { name } && name@ == d
    } else if m.cmd == MSG_FC_VARIANT {
        r matches Reply::FcVariant { variant } && variant@ == d.subrange(0, 4)
    } else if m.cmd == MSG_FC_VERSION {
        r matches Reply::FcVersion { major, minor, patch } && major == d[0] && minor == d[1] && patch
            == d[2]
    } else if m.cmd == MSG_BUILD_INFO {
        if m.len > 19 {
            r matches Reply::BuildInfo { date, time, revision } && date@ == d.subrange(0, 11) && time@
                == d.subrange(11, 19) && revision@ == d.subrange(19, d.len() as int)
        } else {
            r is BuildUnknown
        }
    } else if m.cmd == MSG_BOARD_INFO {
        r matches Reply::BoardInfo { board } && board@ == (if m.len > 8 {
            d.subrange(9, d.len() as int)
        } else {
            d.subrange(0, 4)
        })
    } else if m.cmd == MSG_ANALOG {
        r matches Reply::Analog { decivolts, centiamps } && decivolts == d[0] && centiamps == d[5]
            + 256 * d[6]
    } else {
        r is Unknown
    }
}

fn copy_range(v: &Vec<u8>, lo: usize, hi: usize) -> (r: Vec<u8>)
    requires
        lo <= hi <= v@.len(),
    ensures
        r@ == v@.subrange(lo as int, hi as int),
{
    let mut r: Vec<u8> = Vec::with_capacity(hi - lo);
    let mut i = lo;
    while i < hi
        invariant
            lo <= i <= hi <= v@.len(),
            r@ == v@.subrange(lo as int, i as int),
        decreases hi - i,
    {
        r.push(v[i]);
        i = i + 1;
        assert(r@ == v@.subrange(lo as int, i as int));
    }
    r
}

/// Whether `describe` can read the message: its payload is long enough for
/// its command.
pub fn can_describe(v: &MSPMsg) -> (b: bool)
    ensures
        b == describable(v@),
{
    let n = v.data.len();
    if v.cmd == MSG_API_VERSION {
        n >= 3
    } else if v.cmd == MSG_FC_VARIANT {
        n >= 4
    } else if v.cmd == MSG_FC_VERSION {
        n >= 3
    } else if v.cmd == MSG_BUILD_INFO {
        !(v.len > 19) || n >= 19
    } else if v.cmd == MSG_BOARD_INFO {
        if v.len > 8 {
            n >= 9
        } else {
            n >= 4
        }
    } else if v.cmd == MSG_ANALOG {
        n >= 7
    } else {
        true
    }
}

/// Reads the reply `v` and picks the next request of the identification sequence.
pub fn describe(v: &MSPMsg) -> (r: Description)
    requires
        describable(v@),
    ensures
        r.next == next_command(v.cmd),
        reply_describes(r.reply, v@),
{
    let d = &v.data;
    if v.cmd == MSG_API_VERSION {
        Description { reply: Reply::ApiVersion { major: d[1], minor: d[2] }, next: Some(MSG_NAME) }
    } else if v.cmd == MSG_NAME {
        let name = copy_range(d, 0, d.len());
        assert(name@ == d@);
        Description { reply: Reply::Name { name }, next: Some(MSG_FC_VARIANT) }
    } else if v.cmd == MSG_FC_VARIANT {
        Description {
            reply: Reply::FcVariant { variant: copy_range(d, 0, 4) },
            next: Some(MSG_FC_VERSION),
        }
    } else if v.cmd == MSG_FC_VERSION {
        Description {
            reply: Reply::FcVersion { major: d[0], minor: d[1], patch: d[2] },
            next: Some(MSG_BUILD_INFO),
        }
    } else if v.cmd == MSG_BUILD_INFO {
        let reply = if v.len > 19 {
            Reply::BuildInfo {
                date: copy_range(d, 0, 11),
                time: copy_range(d, 11, 19),
                revision: copy_range(d, 19, d.len()),
            }
        } else {
            Reply::BuildUnknown
        };
        Description { reply, next: Some(MSG_BOARD_INFO) }
    } else if v.cmd == MSG_BOARD_INFO {
        let board = if v.len > 8 {
            copy_range(d, 9, d.len())
        } else {
            copy_range(d, 0, 4)
        };
        Description { reply: Reply::BoardInfo { board }, next: Some(MSG_ANALOG) }
    } else if v.cmd == MSG_ANALOG {
        let centiamps: u16 = (d[5] as u16) + 256 * (d[6] as u16);
        Description { reply: Reply::Analog { decivolts: d[0], centiamps }, next: None }
    } else {
        Description { reply: Reply::Unknown, next: None }
    }
}

} // verus!
