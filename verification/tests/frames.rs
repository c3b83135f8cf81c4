use msp_gps_toy::crc::crc8_dvb_s2;
use msp_gps_toy::frame::{encode_msp, encode_msp2};
use msp_gps_toy::msp::{MSP2_SENSOR_GPS, MSP_SET_RAW_GPS, MSG_API_VERSION};

#[test]
fn crc8_known_values() {
    assert_eq!(crc8_dvb_s2(0, 0), 0);
    assert_eq!(crc8_dvb_s2(0, 1), 213);
    assert_eq!(crc8_dvb_s2(0x55, 0xaa), 249);
    assert_eq!(crc8_dvb_s2(0, 0x80), 239);
}

#[test]
fn crc8_is_not_identity() {
    // a wrapper or helper handing back its argument would give 1 here
    assert_ne!(crc8_dvb_s2(0, 1), 1);
}

#[test]
fn encode_msp2_empty_payload() {
    assert_eq!(encode_msp2(MSG_API_VERSION, &[]), vec![36, 88, 60, 0, 1, 0, 0, 0, 69]);
}

#[test]
fn encode_msp2_with_payload() {
    assert_eq!(
        encode_msp2(MSP2_SENSOR_GPS, &[1, 2, 3]),
        vec![36, 88, 60, 0, 3, 31, 3, 0, 1, 2, 3, 121]
    );
}

#[test]
fn encode_msp2_length() {
    let payload = vec![7u8; 300];
    let v = encode_msp2(MSP_SET_RAW_GPS, &payload);
    assert_eq!(v.len(), 309);
    assert_eq!(v[6], (300 & 0xff) as u8);
    assert_eq!(v[7], 1);
    assert_eq!(&v[8..308], &payload[..]);
}

#[test]
fn encode_msp_v1() {
    assert_eq!(encode_msp(MSP_SET_RAW_GPS, &[1, 2, 3]), vec![36, 77, 60, 3, 201, 1, 2, 3, 202]);
}

#[test]
fn encode_msp_v1_truncates_command() {
    // only the low byte of the command fits in an MSP v1 frame
    assert_eq!(encode_msp(0x1f03, &[]), vec![36, 77, 60, 0, 3, 3]);
}
