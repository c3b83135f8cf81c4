//! MSP (MultiWii Serial Protocol) framing, decoding and GPS payloads.
#![allow(unused_imports)]

pub mod crc;
pub mod frame;
pub mod gps;
pub mod msp;
pub mod decode;
pub mod describe;
pub mod laws;
pub mod payload_laws;

pub use crc::crc8_dvb_s2;
pub use frame::{encode_msp, encode_msp2};
pub use msp::{MSPMsg, MSPRes};
