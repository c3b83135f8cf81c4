//! GPS payloads sent to the flight controller, and the simulated position
//! they carry.
use vstd::prelude::*;
use crate::frame::{hi8, lo8};

verus! {

/// Little-endian bytes of a `u16`.
pub open spec fn le16(x: u16) -> Seq<u8> {
    seq![lo8(x as int), hi8(x as int)]
}

/// Little-endian bytes of a `u32`.
pub open spec fn le32(x: u32) -> Seq<u8> {
    seq![
        (x % 256) as u8,
        ((x / 256) % 256) as u8,
        ((x / 65536) % 256) as u8,
        ((x / 16777216) % 256) as u8,
    ]
}

/// Little-endian two's-complement bytes of an `i32`.
pub open spec fn le_i32(x: i32) -> Seq<u8> {
    le32(x as u32)
}

/// Little-endian two's-complement bytes of an `i16`.
pub open spec fn le_i16(x: i16) -> Seq<u8> {
    le16(x as u16)
}

fn push_u16(v: &mut Vec<u8>, x: u16)
    ensures
        final(v)@ == old(v)@ + le16(x),
{
    assert((x & 0xff) as int == x % 256) by (bit_vector);
    assert((x >> 8u16) as int == x / 256) by (bit_vector);
    v.push((x & 0xff) as u8);
    v.push((x >> 8u16) as u8);
    assert(final(v)@ == old(v)@ + le16(x));
}

fn push_u32(v: &mut Vec<u8>, x: u32)
    ensures
        final(v)@ == old(v)@ + le32(x),
{
    assert((x & 0xff) as int == x % 256) by (bit_vector);
    assert(((x >> 8u32) & 0xff) as int == (x / 256) % 256) by (bit_vector);
    assert(((x >> 16u32) & 0xff) as int == (x / 65536) % 256) by (bit_vector);
    assert(((x >> 24u32) & 0xff) as int == (x / 16777216) % 256) by (bit_vector);
    v.push((x & 0xff) as u8);
    v.push(((x >> 8u32) & 0xff) as u8);
    v.push(((x >> 16u32) & 0xff) as u8);
    v.push(((x >> 24u32) & 0xff) as u8);
    assert(final(v)@ == old(v)@ + le32(x));
}

/// The payload of `MSP2_SENSOR_GPS`.
#[derive(Debug, Clone, Copy, PartialEq, Eq, Structural)]
pub struct GpsSol {
    pub instance: u8,
    pub gpsweek: u16,
    pub mstow: u32,
    pub fixtype: u8,
    pub satellitesinview: u8,
    pub horizontalposaccuracy: u16,
    pub verticalposaccuracy: u16,
    pub horizontalvelaccuracy: u16,
    pub hdop: u16,
    pub longitude: i32,
    pub latitude: i32,
    pub mslaltitude: i32,
    pub nedvelnorth: i32,
    pub nedveleast: i32,
    pub nedveldown: i32,
    pub groundcourse: u16,
    pub trueyaw: u16,
    pub year: u16,
    pub month: u8,
    pub day: u8,
    pub hour: u8,
    pub min: u8,
    pub sec: u8,
}

/// The payload of `MSP_SET_RAW_GPS`.
#[derive(Debug, Clone, Copy, PartialEq, Eq, Structural)]
pub struct RawGps {
    pub fix: u8,
    pub numsat: u8,
    pub lat: i32,
    pub lon: i32,
    pub alt: i16,
    pub gspd: u16,
}

/// Size in bytes of a [`GpsSol`] payload.
pub const GPS_SOL_SIZE: usize = 52;
/// Size in bytes of a [`RawGps`] payload.
pub const RAW_GPS_SIZE: usize = 14;

impl GpsSol {
    /// The payload bytes: the fields in order, packed, little-endian.
    pub open spec fn spec_bytes(self) -> Seq<u8> {
        seq![self.instance] + le16(self.gpsweek) + le32(self.mstow) + seq![
            self.fixtype,
            self.satellitesinview,
        ] + le16(self.horizontalposaccuracy) + le16(self.verticalposaccuracy) + le16(
            self.horizontalvelaccuracy,
        ) + le16(self.hdop) + le_i32(self.longitude) + le_i32(self.latitude) + le_i32(
            self.mslaltitude,
        ) + le_i32(self.nedvelnorth) + le_i32(self.nedveleast) + le_i32(self.nedveldown) + le16(
            self.groundcourse,
        ) + le16(self.trueyaw) + le16(self.year) + seq![
            self.month,
            self.day,
            self.hour,
            self.min,
            self.sec,
        ]
    }

    /// Encodes the payload.
    pub fn to_bytes(&self) -> (r: Vec<u8>)
        ensures
            r@ == self.spec_bytes(),
            r@.len() == GPS_SOL_SIZE,
    {
        let mut v: Vec<u8> = Vec::with_capacity(GPS_SOL_SIZE);
        v.push(self.instance);
        push_u16(&mut v, self.gpsweek);
        push_u32(&mut v, self.mstow);
        v.push(self.fixtype);
        v.push(self.satellitesinview);
        push_u16(&mut v, self.horizontalposaccuracy);
        push_u16(&mut v, self.verticalposaccuracy);
        push_u16(&mut v, self.horizontalvelaccuracy);
        push_u16(&mut v, self.hdop);
        push_u32(&mut v, self.longitude as u32);
        push_u32(&mut v, self.latitude as u32);
        push_u32(&mut v, self.mslaltitude as u32);
        push_u32(&mut v, self.nedvelnorth as u32);
        push_u32(&mut v, self.nedveleast as u32);
        push_u32(&mut v, self.nedveldown as u32);
        push_u16(&mut v, self.groundcourse);
        push_u16(&mut v, self.trueyaw);
        push_u16(&mut v, self.year);
        v.push(self.month);
        v.push(self.day);
        v.push(self.hour);
        v.push(self.min);
        v.push(self.sec);
        assert(v@ == self.spec_bytes());
        v
    }
}

impl Default for GpsSol {
    fn default() -> (r: Self)
        ensures
            r == (GpsSol {
                instance: 0,
                gpsweek: 0,
                mstow: 0,
                fixtype: 0,
                satellitesinview: 0,
                horizontalposaccuracy: 0,
                verticalposaccuracy: 0,
                horizontalvelaccuracy: 0,
                hdop: 0,
                longitude: 0,
                latitude: 0,
                mslaltitude: 0,
                nedvelnorth: 0,
                nedveleast: 0,
                nedveldown: 0,
                groundcourse: 0,
                trueyaw: 0,
                year: 0,
                month: 0,
                day: 0,
                hour: 0,
                min: 0,
                sec: 0,
            }),
    {
        GpsSol {
            instance: 0,
            gpsweek: 0,
            mstow: 0,
            fixtype: 0,
            satellitesinview: 0,
            horizontalposaccuracy: 0,
            verticalposaccuracy: 0,
            horizontalvelaccuracy: 0,
            hdop: 0,
            longitude: 0,
            latitude: 0,
            mslaltitude: 0,
            nedvelnorth: 0,
            nedveleast: 0,
            nedveldown: 0,
            groundcourse: 0,
            trueyaw: 0,
            year: 0,
            month: 0,
            day: 0,
            hour: 0,
            min: 0,
            sec: 0,
        }
    }
}

impl RawGps {
    /// The payload bytes: the fields in order, packed, little-endian.
    pub open spec fn spec_bytes(self) -> Seq<u8> {
        seq![self.fix, self.numsat] + le_i32(self.lat) + le_i32(self.lon) + le_i16(self.alt) + le16(
            self.gspd,
        )
    }

    /// Encodes the payload.
    pub fn to_bytes(&self) -> (r: Vec<u8>)
        ensures
            r@ == self.spec_bytes(),
            r@.len() == RAW_GPS_SIZE,
    {
        let mut v: Vec<u8> = Vec::with_capacity(RAW_GPS_SIZE);
        v.push(self.fix);
        v.push(self.numsat);
        push_u32(&mut v, self.lat as u32);
        push_u32(&mut v, self.lon as u32);
        push_u16(&mut v, self.alt as u16);
        push_u16(&mut v, self.gspd);
        assert(v@ == self.spec_bytes());
        v
    }
}

impl Default for RawGps {
    fn default() -> (r: Self)
        ensures
            r == (RawGps { fix: 0, numsat: 0, lat: 0, lon: 0, alt: 0, gspd: 0 }),
    {
        RawGps { fix: 0, numsat: 0, lat: 0, lon: 0, alt: 0, gspd: 0 }
    }
}

/// Fix type that the simulated receiver reports (3D fix).
pub const SIM_FIX: u8 = 3;
/// Ground speed of the simulated craft, in metres per second.
pub const SIM_SPEED: u16 = 10;
/// Ground course of the simulated craft, in degrees.
pub const SIM_COURSE: u16 = 247;

/// A time of day in UTC, as the GPS solution carries it.
#[derive(Debug, Clone, Copy, PartialEq, Eq, Structural)]
pub struct UtcTime {
    pub year: u16,
    pub month: u8,
    pub day: u8,
    pub hour: u8,
    pub min: u8,
    pub sec: u8,
}

/// The simulated position: latitude and longitude in 1e-7 degrees, number of
/// satellites, and altitude in metres.
#[derive(Debug, Clone, Copy, PartialEq, Eq, Structural)]
pub struct GpsSim {
    pub lat: i32,
    pub lon: i32,
    pub numsat: u8,
    pub alt: i16,
}

impl GpsSim {
    /// The starting position.
    pub fn new() -> (r: Self)
        ensures
            r == (GpsSim { lat: 357610000, lon: 1403789450, numsat: 13, alt: 100 }),
    {
        GpsSim { lat: 357610000, lon: 1403789450, numsat: 13, alt: 100 }
    }

    /// The `MSP2_SENSOR_GPS` solution for the current position at time `t`,
    /// with the given east and north velocities (cm/s).
    pub fn sensor_solution(&self, t: &UtcTime, vel_east: i32, vel_north: i32) -> (g: GpsSol)
        requires
            -327 <= self.alt <= 327,
        ensures
            g == (GpsSol {
                instance: 1,
                gpsweek: 0xffff,
                mstow: 0,
                fixtype: SIM_FIX,
                satellitesinview: self.numsat,
                horizontalposaccuracy: 50,
                verticalposaccuracy: 50,
                horizontalvelaccuracy: 0,
                hdop: 100,
                longitude: self.lon,
                latitude: self.lat,
                mslaltitude: (self.alt * 100) as i32,
                nedvelnorth: vel_north,
                nedveleast: vel_east,
                nedveldown: 0,
                groundcourse: (SIM_COURSE * 100) as u16,
                trueyaw: 0xffff,
                year: t.year,
                month: t.month,
                day: t.day,
                hour: t.hour,
                min: t.min,
                sec: t.sec,
            }),
    {
        let alt_cm: i16 = self.alt * 100;
        GpsSol {
            instance: 1,
            gpsweek: 0xffff,
            mstow: 0,
            fixtype: SIM_FIX,
            satellitesinview: self.numsat,
            horizontalposaccuracy: 50,
            verticalposaccuracy: 50,
            horizontalvelaccuracy: 0,
            hdop: 100,
            longitude: self.lon,
            latitude: self.lat,
            mslaltitude: alt_cm as i32,
            nedvelnorth: vel_north,
            nedveleast: vel_east,
            nedveldown: 0,
            groundcourse: SIM_COURSE * 100,
            trueyaw: 0xffff,
            year: t.year,
            month: t.month,
            day: t.day,
            hour: t.hour,
            min: t.min,
            sec: t.sec,
        }
    }

    /// The `MSP_SET_RAW_GPS` payload for the current position.
    pub fn raw_solution(&self) -> (r: RawGps)
        ensures
            r == (RawGps {
                fix: SIM_FIX,
                numsat: self.numsat,
                lat: self.lat,
                lon: self.lon,
                alt: self.alt,
                gspd: (SIM_SPEED * 100) as u16,
            }),
    {
        RawGps {
            fix: SIM_FIX,
            numsat: self.numsat,
            lat: self.lat,
            lon: self.lon,
            alt: self.alt,
            gspd: SIM_SPEED * 100,
        }
    }

    /// Moves the simulated craft: new satellite count and altitude, and a
    /// shift of latitude and longitude.
    pub fn perturb(&mut self, numsat: u8, alt: i16, dlat: i32, dlon: i32)
        requires
            i32::MIN <= old(self).lat + dlat <= i32::MAX,
            i32::MIN <= old(self).lon + dlon <= i32::MAX,
        ensures
            *final(self) == (GpsSim {
                lat: (old(self).lat + dlat) as i32,
                lon: (old(self).lon + dlon) as i32,
                numsat: numsat,
                alt: alt,
            }),
    {
        self.numsat = numsat;
        self.alt = alt;
        self.lat = self.lat + dlat;
        self.lon = self.lon + dlon;
    }
}

} // verus!
