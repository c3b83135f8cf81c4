use msp_gps_toy::describe::{can_describe, describe, Reply};
use msp_gps_toy::msp::{
    MSPMsg, MSPRes, MSG_ANALOG, MSG_API_VERSION, MSG_BOARD_INFO, MSG_BUILD_INFO, MSG_FC_VARIANT,
    MSG_FC_VERSION, MSG_NAME,
};

fn msg(cmd: u16, data: &[u8]) -> MSPMsg {
    MSPMsg { len: data.len() as u16, cmd, ok: MSPRes::Valid, data: data.to_vec() }
}

#[test]
fn api_version() {
    let d = describe(&msg(MSG_API_VERSION, &[0, 2, 5]));
    assert_eq!(d.next, Some(MSG_NAME));
    assert!(matches!(d.reply, Reply::ApiVersion { major: 2, minor: 5 }));
}

#[test]
fn name() {
    let d = describe(&msg(MSG_NAME, b"BENCHYMCTESTY"));
    assert_eq!(d.next, Some(MSG_FC_VARIANT));
    match d.reply {
        Reply::Name { name } => assert_eq!(name, b"BENCHYMCTESTY".to_vec()),
        _ => panic!("wrong reply"),
    }
}

#[test]
fn fc_variant() {
    let d = describe(&msg(MSG_FC_VARIANT, b"INAVX"));
    assert_eq!(d.next, Some(MSG_FC_VERSION));
    match d.reply {
        Reply::FcVariant { variant } => assert_eq!(variant, b"INAV".to_vec()),
        _ => panic!("wrong reply"),
    }
}

#[test]
fn fc_version() {
    let d = describe(&msg(MSG_FC_VERSION, &[8, 0, 0]));
    assert_eq!(d.next, Some(MSG_BUILD_INFO));
    assert!(matches!(d.reply, Reply::FcVersion { major: 8, minor: 0, patch: 0 }));
}

#[test]
fn build_info() {
    let d = describe(&msg(MSG_BUILD_INFO, b"May  1 202406:45:1352564d6f"));
    assert_eq!(d.next, Some(MSG_BOARD_INFO));
    match d.reply {
        Reply::BuildInfo { date, time, revision } => {
            assert_eq!(date, b"May  1 2024".to_vec());
            assert_eq!(time, b"06:45:13".to_vec());
            assert_eq!(revision, b"52564d6f".to_vec());
        }
        _ => panic!("wrong reply"),
    }
}

#[test]
fn build_info_too_short() {
    let d = describe(&msg(MSG_BUILD_INFO, b"May  1 2024"));
    assert_eq!(d.next, Some(MSG_BOARD_INFO));
    assert!(matches!(d.reply, Reply::BuildUnknown));
}

#[test]
fn board_info_long_and_short() {
    let d = describe(&msg(MSG_BOARD_INFO, b"SITL\x00\x00\x00\x00\x04SITL"));
    assert_eq!(d.next, Some(MSG_ANALOG));
    match d.reply {
        Reply::BoardInfo { board } => assert_eq!(board, b"SITL".to_vec()),
        _ => panic!("wrong reply"),
    }
    let d = describe(&msg(MSG_BOARD_INFO, b"SITL"));
    match d.reply {
        Reply::BoardInfo { board } => assert_eq!(board, b"SITL".to_vec()),
        _ => panic!("wrong reply"),
    }
}

#[test]
fn analog() {
    let d = describe(&msg(MSG_ANALOG, &[126, 0, 0, 0, 0, 0x34, 0x12]));
    assert_eq!(d.next, None);
    assert!(matches!(d.reply, Reply::Analog { decivolts: 126, centiamps: 0x1234 }));
}

#[test]
fn unknown_command() {
    let d = describe(&msg(999, &[]));
    assert_eq!(d.next, None);
    assert!(matches!(d.reply, Reply::Unknown));
}

#[test]
fn identification_sequence() {
    let mut cmd = MSG_API_VERSION;
    let mut seen = vec![cmd];
    let data = [0u8; 32];
    loop {
        match describe(&msg(cmd, &data)).next {
            Some(c) => {
                cmd = c;
                seen.push(c);
            }
            None => break,
        }
    }
    assert_eq!(
        seen,
        vec![
            MSG_API_VERSION,
            MSG_NAME,
            MSG_FC_VARIANT,
            MSG_FC_VERSION,
            MSG_BUILD_INFO,
            MSG_BOARD_INFO,
            MSG_ANALOG
        ]
    );
}

#[test]
fn short_payloads_cannot_be_described() {
    assert!(!can_describe(&msg(MSG_API_VERSION, &[0, 2])));
    assert!(can_describe(&msg(MSG_API_VERSION, &[0, 2, 5])));
    assert!(!can_describe(&msg(MSG_FC_VARIANT, b"INA")));
    assert!(!can_describe(&msg(MSG_ANALOG, &[1, 2, 3, 4, 5, 6])));
    assert!(can_describe(&msg(MSG_NAME, &[])));
    assert!(can_describe(&msg(999, &[])));
    let mut m = msg(MSG_BUILD_INFO, b"0123456789");
    m.len = 20;
    assert!(!can_describe(&m));
    let mut m = msg(MSG_BOARD_INFO, b"SITL");
    m.len = 9;
    assert!(!can_describe(&m));
}
