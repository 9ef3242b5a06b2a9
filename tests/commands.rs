use visca::{
    check_empty_reply, decode_pan_tilt, decode_power, decode_zoom, jog_command, pan_tilt_command,
    power_command, preset_command, Direction, Error, PanTiltValue, Positioning, PowerValue,
    PresetOp, Reply,
};

fn reply(bytes: &[u8]) -> Reply {
    Reply::parse(bytes).unwrap()
}

#[test]
fn pan_tilt_value_to_bytes() {
    let v = PanTiltValue { pan: 180, tilt: 50 };
    assert_eq!(v.to_bytes(), [0x00, 0x00, 0x0b, 0x04, 0x00, 0x00, 0x03, 0x02]);
    let v = PanTiltValue { pan: -1, tilt: i16::MIN };
    assert_eq!(v.to_bytes(), [0x0f, 0x0f, 0x0f, 0x0f, 0x08, 0x00, 0x00, 0x00]);
}

#[test]
fn pan_tilt_value_from_bytes() {
    let v = PanTiltValue::from_bytes(&[0x00, 0x00, 0x0b, 0x04, 0x0f, 0x0f, 0x0c, 0x0e]);
    assert_eq!(v, PanTiltValue { pan: 180, tilt: -50 });
}

#[test]
fn pan_tilt_nibbles_round_trip() {
    let samples = [i16::MIN, -32767, -1000, -50, -1, 0, 1, 50, 180, 0x1234, i16::MAX];
    for &pan in &samples {
        for &tilt in &samples {
            let v = PanTiltValue { pan, tilt };
            assert_eq!(PanTiltValue::from_bytes(&v.to_bytes()), v);
        }
    }
}

#[test]
fn zoom_nibbles_round_trip() {
    for value in (0u32..=0xffff).step_by(7).chain([0xffff].into_iter()) {
        let value = value as u16;
        let req = visca::zoom_command(value);
        let bytes = req.as_bytes();
        let mut frame = vec![0x90u8, 0x50];
        frame.extend_from_slice(&bytes[4..8]);
        frame.push(0xff);
        assert_eq!(decode_zoom(reply(&frame)).unwrap(), value);
    }
}

#[test]
fn zoom_command_bytes() {
    let req = visca::zoom_command(0x01bc);
    assert_eq!(req.as_bytes(), &[0x81, 0x01, 0x04, 0x47, 0x00, 0x01, 0x0b, 0x0c, 0xff][..]);
    let req = visca::zoom_command(0xffff);
    assert_eq!(req.as_bytes(), &[0x81, 0x01, 0x04, 0x47, 0x0f, 0x0f, 0x0f, 0x0f, 0xff][..]);
}

#[test]
fn power_command_bytes() {
    assert_eq!(power_command(PowerValue::On).as_bytes(), &[0x81, 0x01, 0x04, 0x00, 0x02, 0xff][..]);
    assert_eq!(power_command(PowerValue::Off).as_bytes(), &[0x81, 0x01, 0x04, 0x00, 0x03, 0xff][..]);
}

#[test]
fn power_value_codes() {
    assert_eq!(PowerValue::from_u8(0x02), Some(PowerValue::On));
    assert_eq!(PowerValue::from_u8(0x03), Some(PowerValue::Off));
    assert_eq!(PowerValue::from_u8(0x04), None);
    assert_eq!(PowerValue::On.code(), 0x02);
    assert_eq!(PowerValue::Off.code(), 0x03);
}

#[test]
fn relative_position_command_bytes() {
    let req = pan_tilt_command(Positioning::Relative, PanTiltValue { pan: -2, tilt: 16 });
    assert_eq!(
        req.as_bytes(),
        &[0x81, 0x01, 0x06, 0x03, 0x01, 0x00, 0x0f, 0x0f, 0x0f, 0x0e, 0x00, 0x00, 0x01, 0x00, 0xff][..]
    );
}

#[test]
fn jog_command_bytes() {
    let cases = [
        (Direction::Up, 0x03, 0x01),
        (Direction::Down, 0x03, 0x02),
        (Direction::Left, 0x01, 0x03),
        (Direction::Right, 0x02, 0x03),
        (Direction::UpLeft, 0x01, 0x01),
        (Direction::UpRight, 0x02, 0x01),
        (Direction::DownLeft, 0x01, 0x02),
        (Direction::DownRight, 0x02, 0x02),
        (Direction::Stop, 0x03, 0x03),
    ];
    for (d, pan, tilt) in cases {
        assert_eq!(
            jog_command(d).as_bytes(),
            &[0x81, 0x01, 0x06, 0x01, 0x01, 0x01, pan, tilt, 0xff][..]
        );
    }
}

#[test]
fn preset_command_masks_the_slot() {
    assert_eq!(preset_command(PresetOp::Reset, 3).as_bytes(), &[0x81, 0x01, 0x04, 0x3f, 0x00, 0x03, 0xff][..]);
    assert_eq!(preset_command(PresetOp::Store, 5).as_bytes(), &[0x81, 0x01, 0x04, 0x3f, 0x01, 0x05, 0xff][..]);
    assert_eq!(preset_command(PresetOp::Recall, 0x1f).as_bytes(), &[0x81, 0x01, 0x04, 0x3f, 0x02, 0x0f, 0xff][..]);
}

#[test]
fn empty_reply_check() {
    assert!(check_empty_reply(reply(&[0x90, 0x51, 0xff])).is_ok());
    assert!(matches!(check_empty_reply(reply(&[0x90, 0x51, 0x00, 0xff])), Err(Error::InvalidReply)));
    assert!(matches!(check_empty_reply(reply(&[0x90, 0x41, 0xff])), Err(Error::InvalidReply)));
    assert!(matches!(check_empty_reply(reply(&[0x90, 0x61, 0x02, 0xff])), Err(Error::InvalidReply)));
    assert!(matches!(check_empty_reply(reply(&[0x90, 0x31, 0xff])), Err(Error::InvalidReply)));
}

#[test]
fn power_decoding() {
    assert_eq!(decode_power(reply(&[0x90, 0x50, 0x02, 0xff])).unwrap(), PowerValue::On);
    assert_eq!(decode_power(reply(&[0x90, 0x50, 0x03, 0xff])).unwrap(), PowerValue::Off);
    assert!(matches!(decode_power(reply(&[0x90, 0x50, 0x04, 0xff])), Err(Error::InvalidReply)));
    assert!(matches!(decode_power(reply(&[0x90, 0x50, 0x02, 0x02, 0xff])), Err(Error::InvalidReply)));
    assert!(matches!(decode_power(reply(&[0x90, 0x41, 0xff])), Err(Error::InvalidReply)));
}

#[test]
fn zoom_decoding_needs_four_bytes() {
    assert_eq!(decode_zoom(reply(&[0x90, 0x50, 0x00, 0x01, 0x0b, 0x0c, 0xff])).unwrap(), 0x01bc);
    assert!(matches!(decode_zoom(reply(&[0x90, 0x50, 0x01, 0x0b, 0x0c, 0xff])), Err(Error::InvalidReply)));
}

#[test]
fn pan_tilt_decoding_needs_eight_bytes() {
    let ok = reply(&[0x90, 0x50, 0x00, 0x00, 0x0b, 0x04, 0x00, 0x00, 0x03, 0x02, 0xff]);
    assert_eq!(decode_pan_tilt(ok).unwrap(), PanTiltValue { pan: 180, tilt: 50 });
    let short = reply(&[0x90, 0x50, 0x00, 0x00, 0x0b, 0x04, 0x00, 0x00, 0x03, 0xff]);
    assert!(matches!(decode_pan_tilt(short), Err(Error::InvalidReply)));
}
