use msp_gps_toy::decode::{MspDecoder, TimeoutAction};
use msp_gps_toy::frame::encode_msp2;
use msp_gps_toy::msp::{MSPMsg, MSPRes, MSG_API_VERSION, MSG_NAME};

fn feed_all(bytes: &[u8]) -> Option<MSPMsg> {
    let mut d = MspDecoder::new();
    d.feed_bytes(bytes)
}

#[test]
fn v2_reply_decodes() {
    let m = feed_all(&[36, 88, 62, 0, 1, 0, 3, 0, 0, 2, 5, 166]).unwrap();
    assert_eq!(m.ok, MSPRes::Valid);
    assert_eq!(m.cmd, MSG_API_VERSION);
    assert_eq!(m.len, 3);
    assert_eq!(m.data, vec![0, 2, 5]);
}

#[test]
fn v2_reply_without_payload() {
    let m = feed_all(&[36, 88, 62, 0, 10, 0, 0, 0, 221]).unwrap();
    assert_eq!(m.ok, MSPRes::Valid);
    assert_eq!(m.cmd, MSG_NAME);
    assert_eq!(m.len, 0);
    assert!(m.data.is_empty());
}

#[test]
fn v2_bad_checksum() {
    let m = feed_all(&[36, 88, 62, 0, 1, 0, 3, 0, 0, 2, 5, 167]).unwrap();
    assert_eq!(m.ok, MSPRes::Crc);
    assert_eq!(m.cmd, 1);
    assert_eq!(m.data, vec![0, 2, 5]);
}

#[test]
fn v2_error_direction() {
    let m = feed_all(&[36, 88, 33, 0, 1, 0, 3, 0, 0, 2, 5, 166]).unwrap();
    assert_eq!(m.ok, MSPRes::Dirn);
}

#[test]
fn v1_reply_decodes() {
    let m = feed_all(&[36, 77, 62, 3, 1, 0, 2, 5, 5]).unwrap();
    assert_eq!(m.ok, MSPRes::Valid);
    assert_eq!(m.cmd, 1);
    assert_eq!(m.len, 3);
    assert_eq!(m.data, vec![0, 2, 5]);
}

#[test]
fn v1_bad_checksum_and_error_direction() {
    let m = feed_all(&[36, 77, 62, 3, 1, 0, 2, 5, 6]).unwrap();
    assert_eq!(m.ok, MSPRes::Crc);
    let m = feed_all(&[36, 77, 33, 3, 1, 0, 2, 5, 5]).unwrap();
    assert_eq!(m.ok, MSPRes::Dirn);
}

#[test]
fn noise_before_frame_is_skipped() {
    let m = feed_all(&[0, 1, 77, 88, 62, 36, 88, 62, 0, 10, 0, 0, 0, 221]).unwrap();
    assert_eq!(m.ok, MSPRes::Valid);
    assert_eq!(m.cmd, MSG_NAME);
}

#[test]
fn broken_header_restarts() {
    // `$M` followed by a bad direction byte goes back to waiting for `$`
    let m = feed_all(&[36, 77, 60, 36, 88, 62, 0, 10, 0, 0, 0, 221]).unwrap();
    assert_eq!(m.ok, MSPRes::Valid);
    assert_eq!(m.cmd, MSG_NAME);
}

#[test]
fn request_echo_is_not_a_reply() {
    // the decoder takes only `>` and `!` as direction bytes
    assert!(feed_all(&encode_msp2(MSG_API_VERSION, &[])).is_none());
}

#[test]
fn request_turned_into_reply_decodes() {
    let mut f = encode_msp2(0x1234, &[9, 8, 7, 6]);
    f[2] = b'>';
    let m = feed_all(&f).unwrap();
    assert_eq!(m.ok, MSPRes::Valid);
    assert_eq!(m.cmd, 0x1234);
    assert_eq!(m.data, vec![9, 8, 7, 6]);
}

#[test]
fn chunks_give_the_same_message() {
    let frame = [36u8, 88, 62, 0, 1, 0, 3, 0, 0, 2, 5, 166];
    for cut in 0..frame.len() {
        let mut d = MspDecoder::new();
        assert!(d.feed_bytes(&frame[..cut]).is_none());
        let m = d.feed_bytes(&frame[cut..]).unwrap();
        assert_eq!(m.ok, MSPRes::Valid);
        assert_eq!(m.data, vec![0, 2, 5]);
    }
}

#[test]
fn bytes_after_a_message_are_dropped() {
    let mut d = MspDecoder::new();
    let m = d.feed_bytes(&[36, 88, 62, 0, 10, 0, 0, 0, 221, 36, 88]).unwrap();
    assert_eq!(m.cmd, MSG_NAME);
    // the decoder is fresh: the dropped `$X` did not start a frame
    assert!(d.feed_bytes(&[62, 0, 10, 0, 0, 0, 221]).is_none());
}

#[test]
fn feed_one_byte_at_a_time() {
    let frame = [36u8, 77, 62, 3, 1, 0, 2, 5, 5];
    let mut d = MspDecoder::new();
    for (i, b) in frame.iter().enumerate() {
        let r = d.feed(*b);
        if i + 1 < frame.len() {
            assert!(r.is_none());
        } else {
            assert_eq!(r.unwrap().data, vec![0, 2, 5]);
        }
    }
}

#[test]
fn end_of_input_mid_payload() {
    let mut d = MspDecoder::new();
    assert!(d.feed_bytes(&[36, 88, 62, 0, 1, 0, 3, 0, 7]).is_none());
    let m = d.end_of_input();
    assert_eq!(m.ok, MSPRes::Fail);
    assert_eq!(m.cmd, 0);
    assert_eq!(m.len, 0);
    assert_eq!(m.data, vec![7, 0, 0]);
}

#[test]
fn end_of_input_fresh() {
    let m = MspDecoder::new().end_of_input();
    assert_eq!(m.ok, MSPRes::Fail);
    assert_eq!(m.cmd, 0);
    assert!(m.data.is_empty());
}

#[test]
fn timeouts_give_up_at_fifty() {
    let mut d = MspDecoder::new();
    for n in 1..=50u32 {
        let a = d.timeout();
        if n == 50 {
            assert_eq!(a, TimeoutAction::GiveUp);
        } else if n % 10 == 0 {
            assert_eq!(a, TimeoutAction::Warn);
        } else {
            assert_eq!(a, TimeoutAction::Retry);
        }
    }
}

#[test]
fn data_resets_the_timeout_count() {
    let mut d = MspDecoder::new();
    for _ in 0..49 {
        assert_ne!(d.timeout(), TimeoutAction::GiveUp);
    }
    assert!(d.feed_bytes(&[0]).is_none());
    assert_eq!(d.timeout(), TimeoutAction::Retry);
}

#[test]
fn default_outcome_is_fail() {
    assert_eq!(MSPRes::default(), MSPRes::Fail);
    let m = MSPMsg::default();
    assert_eq!(m.ok, MSPRes::Fail);
    assert_eq!(m.len, 0);
    assert_eq!(m.cmd, 0);
    assert!(m.data.is_empty());
}
