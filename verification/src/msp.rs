//! MSP message types and command codes.
use vstd::prelude::*;

verus! {

/// MSP command: flight controller name.
pub const MSG_NAME: u16 = 10;
/// MSP command: API version.
pub const MSG_API_VERSION: u16 = 1;
/// MSP command: firmware variant.
pub const MSG_FC_VARIANT: u16 = 2;
/// MSP command: firmware version.
pub const MSG_FC_VERSION: u16 = 3;
/// MSP command: board information.
pub const MSG_BOARD_INFO: u16 = 4;
/// MSP command: build information.
pub const MSG_BUILD_INFO: u16 = 5;
/// MSP command: analog readings (battery voltage and current).
pub const MSG_ANALOG: u16 = 110;
/// MSP command: set raw GPS data (MSP v1 payload layout).
pub const MSP_SET_RAW_GPS: u16 = 201;
/// MSP v2 command: GPS sensor solution.
pub const MSP2_SENSOR_GPS: u16 = 0x1f03;

/// Outcome of reading one MSP reply.
#[derive(Debug, Clone, Copy, PartialEq, Eq, Structural)]
pub enum MSPRes {
    /// A well-formed reply with a valid checksum.
    Valid,
    /// The checksum did not match.
    Crc,
    /// A well-formed frame with the error direction byte `!`.
    Dirn,
    /// No complete frame was read.
    Fail,
}

impl Default for MSPRes {
    fn default() -> (r: Self)
        ensures
            r == MSPRes::Fail,
    {
        MSPRes::Fail
    }
}

/// An MSP message as read from the flight controller.
#[derive(Debug, Clone)]
pub struct MSPMsg {
    pub len: u16,
    pub cmd: u16,
    pub ok: MSPRes,
    pub data: Vec<u8>,
}

/// The mathematical value of an [`MSPMsg`].
pub struct MsgView {
    pub len: u16,
    pub cmd: u16,
    pub ok: MSPRes,
    pub data: Seq<u8>,
}

impl View for MSPMsg {
    type V = MsgView;

    open spec fn view(&self) -> MsgView {
        MsgView { len: self.len, cmd: self.cmd, ok: self.ok, data: self.data@ }
    }
}

/// The message with no command, no length, no data, and `Fail` as outcome.
pub open spec fn empty_msg() -> MsgView {
    MsgView { len: 0, cmd: 0, ok: MSPRes::Fail, data: Seq::empty() }
}

impl Default for MSPMsg {
    fn default() -> (r: Self)
        ensures
            r@ == empty_msg(),
    {
        MSPMsg { len: 0, cmd: 0, ok: MSPRes::Fail, data: Vec::new() }
    }
}

/// The view of an optional message.
pub open spec fn opt_msg_view(o: Option<MSPMsg>) -> Option<MsgView> {
    match o {
        Some(m) => Some(m@),
        None => None,
    }
}

} // verus!
