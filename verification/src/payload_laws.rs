//! What the identification replies are read as, and where each field of a GPS
//! payload sits.
use vstd::prelude::*;
use crate::describe::{Reply, describable, reply_describes};
use crate::gps::{GpsSol, RawGps};
use crate::msp::{
    MSG_ANALOG, MSG_API_VERSION, MSG_BOARD_INFO, MSG_BUILD_INFO, MSG_FC_VARIANT, MSG_FC_VERSION,
    MSG_NAME, MsgView,
};

verus! {

/// A reply can be described exactly when its payload holds every byte that its
/// description reads: three for the API version (bytes 1 and 2) and the
/// firmware version (bytes 0 to 2), four for the firmware variant, nineteen
/// for a build information longer than 19 bytes, nine for a board
/// information longer than 8 bytes and four for a shorter one, seven for the
/// analog readings (bytes 0, 5 and 6); the name and unknown replies read any
/// payload.
pub proof fn law_describable_exactly(m: MsgView)
    ensures
        m.cmd == MSG_API_VERSION ==> (describable(m) <==> m.data.len() >= 3),
        m.cmd == MSG_FC_VERSION ==> (describable(m) <==> m.data.len() >= 3),
        m.cmd == MSG_FC_VARIANT ==> (describable(m) <==> m.data.len() >= 4),
        m.cmd == MSG_NAME ==> describable(m),
        m.cmd == MSG_BUILD_INFO ==> (describable(m) <==> (m.len > 19 ==> m.data.len() >= 19)),
        m.cmd == MSG_BOARD_INFO && m.len > 8 ==> (describable(m) <==> m.data.len() >= 9),
        m.cmd == MSG_BOARD_INFO && m.len <= 8 ==> (describable(m) <==> m.data.len() >= 4),
        m.cmd == MSG_ANALOG ==> (describable(m) <==> m.data.len() >= 7),
        m.cmd != MSG_API_VERSION && m.cmd != MSG_FC_VERSION && m.cmd != MSG_FC_VARIANT && m.cmd
            != MSG_BUILD_INFO && m.cmd != MSG_BOARD_INFO && m.cmd != MSG_ANALOG ==> describable(m),
{
}

/// A firmware-version reply `[a, b, c, ...]` reads as version `a.b.c`, and an
/// API-version reply `[x, a, b, ...]` as API `a.b`.
pub proof fn law_versions(r: Reply, m: MsgView, a: u8, b: u8, c: u8, rest: Seq<u8>)
    ensures
        m.cmd == MSG_FC_VERSION && m.data == seq![a, b, c] + rest && reply_describes(r, m) ==> (r
            == Reply::FcVersion { major: a, minor: b, patch: c }),
        m.cmd == MSG_API_VERSION && m.data == seq![c, a, b] + rest && reply_describes(r, m) ==> (r
            == Reply::ApiVersion { major: a, minor: b }),
{
    if m.data == seq![a, b, c] + rest {
        assert(m.data[0] == a && m.data[1] == b && m.data[2] == c);
    }
    if m.data == seq![c, a, b] + rest {
        assert(m.data[1] == a && m.data[2] == b);
    }
}

/// A board-information reply longer than 8 bytes names the board by its
/// payload from byte 9 to the end, whatever bytes 0 to 8 hold; a shorter one
/// by its first four bytes. Two such replies that agree on the bytes read name
/// the same board.
pub proof fn law_board_name(r: Reply, m: MsgView, head: Seq<u8>, name: Seq<u8>)
    requires
        m.cmd == MSG_BOARD_INFO,
        reply_describes(r, m),
        describable(m),
    ensures
        m.len > 8 && m.data == head + name && head.len() == 9 ==> (r matches Reply::BoardInfo {
            board,
        } && board@ == name),
        m.len <= 8 && m.data == head + name && head.len() == 4 ==> (r matches Reply::BoardInfo {
            board,
        } && board@ == head),
{
    if m.data == head + name && head.len() == 9 {
        assert(m.data.subrange(9, m.data.len() as int) == name);
    }
    if m.data == head + name && head.len() == 4 {
        assert(m.data.subrange(0, 4) == head);
    }
}

/// The other replies: the name is the whole payload, the firmware variant its
/// first four bytes, the build information its bytes 0..11 (date), 11..19
/// (time) and the rest (revision) when longer than 19 bytes, and the analog
/// reading byte 0 in tenths of a volt and bytes 5, 6 (little-endian) in
/// hundredths of an ampere.
pub proof fn law_other_replies(r: Reply, m: MsgView)
    requires
        reply_describes(r, m),
        describable(m),
    ensures
        m.cmd == MSG_NAME ==> (r matches Reply::Name { name } && name@ == m.data),
        m.cmd == MSG_FC_VARIANT ==> (r matches Reply::FcVariant { variant } && variant@.len() == 4
            && forall|i: int| 0 <= i < 4 ==> variant@[i] == m.data[i]),
        m.cmd == MSG_BUILD_INFO && m.len > 19 ==> (r matches Reply::BuildInfo { date, time, revision }
            && date@ + time@ + revision@ == m.data && date@.len() == 11 && time@.len() == 8),
        m.cmd == MSG_BUILD_INFO && m.len <= 19 ==> r is BuildUnknown,
        m.cmd == MSG_ANALOG ==> (r matches Reply::Analog { decivolts, centiamps } && decivolts
            == m.data[0] && centiamps as int == m.data[5] as int + 256 * (m.data[6] as int)),
{
    if m.cmd == MSG_BUILD_INFO && m.len > 19 {
        let d = m.data;
        assert(d.subrange(0, 11) + d.subrange(11, 19) + d.subrange(19, d.len() as int) == d);
    }
}

/// The little-endian value of the two bytes at `off`.
pub open spec fn le_u16_at(b: Seq<u8>, off: int) -> int {
    b[off] as int + 256 * (b[off + 1] as int)
}

/// The little-endian value of the four bytes at `off`.
pub open spec fn le_u32_at(b: Seq<u8>, off: int) -> int {
    b[off] as int + 256 * (b[off + 1] as int) + 65536 * (b[off + 2] as int) + 16777216 * (b[off
        + 3] as int)
}

proof fn lemma_u16_value(x: u16)
    ensures
        (x % 256) as u8 as int + 256 * (((x / 256) % 256) as u8 as int) == x,
{
    let a: u16 = x % 256;
    let b: u16 = (x / 256) % 256;
    assert(a + 256 * b == x) by (bit_vector)
        requires
            a == x % 256,
            b == (x / 256) % 256,
    ;
}

proof fn lemma_u32_value(x: u32)
    ensures
        (x % 256) as u8 as int + 256 * (((x / 256) % 256) as u8 as int) + 65536 * (((x / 65536)
            % 256) as u8 as int) + 16777216 * (((x / 16777216) % 256) as u8 as int) == x,
{
    let a: u32 = x % 256;
    let b: u32 = (x / 256) % 256;
    let c: u32 = (x / 65536) % 256;
    let d: u32 = (x / 16777216) % 256;
    assert(a as u64 + 256 * (b as u64) + 65536 * (c as u64) + 16777216 * (d as u64) == x as u64)
        by (bit_vector)
        requires
            a == x % 256,
            b == (x / 256) % 256,
            c == (x / 65536) % 256,
            d == (x / 16777216) % 256,
    ;
}

/// The `MSP2_SENSOR_GPS` payload is 52 bytes: the fields of the solution,
/// packed in their order, little-endian, each at its own offset whatever the
/// other fields hold (signed fields in two's complement).
pub proof fn law_gps_sol_layout(g: GpsSol)
    ensures
        ({
            let b = g.spec_bytes();
            &&& b.len() == 52
            &&& b[0] == g.instance
            &&& le_u16_at(b, 1) == g.gpsweek
            &&& le_u32_at(b, 3) == g.mstow
            &&& b[7] == g.fixtype
            &&& b[8] == g.satellitesinview
            &&& le_u16_at(b, 9) == g.horizontalposaccuracy
            &&& le_u16_at(b, 11) == g.verticalposaccuracy
            &&& le_u16_at(b, 13) == g.horizontalvelaccuracy
            &&& le_u16_at(b, 15) == g.hdop
            &&& le_u32_at(b, 17) == g.longitude as u32
            &&& le_u32_at(b, 21) == g.latitude as u32
            &&& le_u32_at(b, 25) == g.mslaltitude as u32
            &&& le_u32_at(b, 29) == g.nedvelnorth as u32
            &&& le_u32_at(b, 33) == g.nedveleast as u32
            &&& le_u32_at(b, 37) == g.nedveldown as u32
            &&& le_u16_at(b, 41) == g.groundcourse
            &&& le_u16_at(b, 43) == g.trueyaw
            &&& le_u16_at(b, 45) == g.year
            &&& b[47] == g.month
            &&& b[48] == g.day
            &&& b[49] == g.hour
            &&& b[50] == g.min
            &&& b[51] == g.sec
        }),
{
    lemma_u16_value(g.gpsweek);
    lemma_u32_value(g.mstow);
    lemma_u16_value(g.horizontalposaccuracy);
    lemma_u16_value(g.verticalposaccuracy);
    lemma_u16_value(g.horizontalvelaccuracy);
    lemma_u16_value(g.hdop);
    lemma_u32_value(g.longitude as u32);
    lemma_u32_value(g.latitude as u32);
    lemma_u32_value(g.mslaltitude as u32);
    lemma_u32_value(g.nedvelnorth as u32);
    lemma_u32_value(g.nedveleast as u32);
    lemma_u32_value(g.nedveldown as u32);
    lemma_u16_value(g.groundcourse);
    lemma_u16_value(g.trueyaw);
    lemma_u16_value(g.year);
}

/// The `MSP_SET_RAW_GPS` payload is 14 bytes: fix, satellites, latitude,
/// longitude, altitude and ground speed, packed in that order, little-endian.
pub proof fn law_raw_gps_layout(r: RawGps)
    ensures
        ({
            let b = r.spec_bytes();
            &&& b.len() == 14
            &&& b[0] == r.fix
            &&& b[1] == r.numsat
            &&& le_u32_at(b, 2) == r.lat as u32
            &&& le_u32_at(b, 6) == r.lon as u32
            &&& le_u16_at(b, 10) == r.alt as u16
            &&& le_u16_at(b, 12) == r.gspd
        }),
{
    lemma_u32_value(r.lat as u32);
    lemma_u32_value(r.lon as u32);
    lemma_u16_value(r.alt as u16);
    lemma_u16_value(r.gspd);
}

} // verus!
