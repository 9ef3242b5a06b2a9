use visca::{
    check_empty_reply, decode_pan_tilt, decode_power, decode_zoom, pan_tilt_command,
    power_inquiry, zoom_command, Action, Error, ErrorKind, PanTiltValue, Positioning, PowerValue,
    Reply, Request, Session,
};

/// Runs one request against replies that arrive as `reads`, one read each,
/// the way a channel would hand them out. Returns the outcome, the bytes
/// written and the number of reads made.
fn exchange(req: &Request, reads: &[&[u8]]) -> (Result<Reply, Error>, Vec<u8>, usize) {
    let mut session = Session::new();
    let written = session.begin(req).to_vec();
    let mut n = 0;
    loop {
        match session.advance() {
            Action::Read(room) => {
                let data = reads.get(n).expect("the session read more than was sent");
                assert!(data.len() <= room);
                session.receive(data);
                n += 1;
            }
            Action::Finished(result) => return (result, written, n),
        }
    }
}

#[test]
fn ack_then_completion_returns_the_payload() {
    let req = power_inquiry();
    let (r, _, reads) = exchange(&req, &[&[0x90, 0x41, 0xff], &[0x90, 0x51, 0x07, 0xff]]);
    assert_eq!(r.unwrap().payload(), &[0x07][..]);
    assert_eq!(reads, 2);
}

#[test]
fn completion_alone_returns_the_payload() {
    let req = power_inquiry();
    let (r, _, reads) = exchange(&req, &[&[0x90, 0x50, 0x07, 0xff]]);
    assert_eq!(r.unwrap().payload(), &[0x07][..]);
    assert_eq!(reads, 1);
}

#[test]
fn error_first_fails_without_second_read() {
    let req = power_inquiry();
    let (r, _, reads) = exchange(&req, &[&[0x90, 0x60, 0x03, 0xff], &[0x90, 0x51, 0xff]]);
    assert!(matches!(r, Err(Error::Camera(ErrorKind::FullBuffer))));
    assert_eq!(reads, 1);
}

#[test]
fn ack_then_error_fails_with_the_code() {
    let req = power_inquiry();
    let (r, _, reads) = exchange(&req, &[&[0x90, 0x41, 0xff], &[0x90, 0x61, 0x41, 0xff]]);
    assert!(matches!(r, Err(Error::Camera(ErrorKind::NotExecutable))));
    assert_eq!(reads, 2);
}

#[test]
fn ack_and_completion_in_one_read() {
    let req = power_inquiry();
    let (r, _, reads) = exchange(&req, &[&[0x90, 0x41, 0xff, 0x90, 0x51, 0xff]]);
    assert_eq!(r.unwrap().payload(), &[][..]);
    assert_eq!(reads, 1);
}

#[test]
fn second_ack_is_a_protocol_error() {
    let req = power_inquiry();
    let (r, _, _) = exchange(&req, &[&[0x90, 0x41, 0xff], &[0x90, 0x42, 0xff]]);
    assert!(matches!(r, Err(Error::InvalidReply)));
}

#[test]
fn unknown_reply_type_is_a_protocol_error() {
    let req = power_inquiry();
    let (r, _, _) = exchange(&req, &[&[0x90, 0x71, 0xff]]);
    assert!(matches!(r, Err(Error::InvalidReply)));
}

#[test]
fn noise_fills_the_buffer() {
    let req = power_inquiry();
    let (r, _, _) = exchange(&req, &[&[0x00; 10], &[0x00; 6]]);
    assert!(matches!(r, Err(Error::ReadBufferFull)));
}

#[test]
fn leftover_bytes_serve_the_next_request() {
    let mut session = Session::new();
    let req = power_inquiry();
    session.begin(&req);
    match session.advance() {
        Action::Read(room) => assert_eq!(room, 16),
        _ => panic!("expected a read"),
    }
    session.receive(&[0x90, 0x50, 0x02, 0xff, 0x90, 0x50, 0x03, 0xff]);
    match session.advance() {
        Action::Finished(Ok(reply)) => assert_eq!(reply.payload(), &[0x02][..]),
        _ => panic!("expected a completion"),
    }
    session.begin(&req);
    match session.advance() {
        Action::Finished(Ok(reply)) => assert_eq!(reply.payload(), &[0x03][..]),
        _ => panic!("expected a completion"),
    }
}

#[test]
fn power_get_scenario() {
    let req = power_inquiry();
    let (r, written, _) = exchange(&req, &[&[0x90, 0x50, 0x02, 0xff]]);
    assert_eq!(written, vec![0x81, 0x09, 0x04, 0x00, 0xff]);
    assert_eq!(decode_power(r.unwrap()).unwrap(), PowerValue::On);
}

#[test]
fn zoom_set_scenario() {
    let req = zoom_command(0x01bc);
    let (r, written, reads) = exchange(&req, &[&[0x90, 0x41, 0xff], &[0x90, 0x51, 0xff]]);
    assert_eq!(written, vec![0x81, 0x01, 0x04, 0x47, 0x00, 0x01, 0x0b, 0x0c, 0xff]);
    assert_eq!(reads, 2);
    assert!(check_empty_reply(r.unwrap()).is_ok());
}

#[test]
fn pan_tilt_set_absolute_scenario() {
    let req = pan_tilt_command(Positioning::Absolute, PanTiltValue { pan: 180, tilt: 50 });
    let (r, written, reads) = exchange(&req, &[&[0x90, 0x60, 0x02, 0xff]]);
    assert_eq!(
        written,
        vec![0x81, 0x01, 0x06, 0x02, 0x01, 0x00, 0x00, 0x00, 0x0b, 0x04, 0x00, 0x00, 0x03, 0x02, 0xff]
    );
    assert_eq!(reads, 1);
    assert!(matches!(r, Err(Error::Camera(ErrorKind::Syntax))));
}

#[test]
fn zoom_get_scenario() {
    let req = visca::zoom_inquiry();
    let (r, written, _) = exchange(&req, &[&[0x90, 0x50, 0x00, 0x01, 0x0b, 0x0c, 0xff]]);
    assert_eq!(written, vec![0x81, 0x09, 0x04, 0x47, 0xff]);
    assert_eq!(decode_zoom(r.unwrap()).unwrap(), 444);
}

#[test]
fn pan_tilt_get_scenario() {
    let req = visca::pan_tilt_inquiry();
    let (r, written, _) = exchange(
        &req,
        &[&[0x90, 0x50, 0x0f, 0x0f, 0x0f, 0x0f, 0x00, 0x00, 0x03, 0x02, 0xff]],
    );
    assert_eq!(written, vec![0x81, 0x09, 0x06, 0x12, 0xff]);
    assert_eq!(decode_pan_tilt(r.unwrap()).unwrap(), PanTiltValue { pan: -1, tilt: 50 });
}
