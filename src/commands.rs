use vstd::prelude::*;

use crate::error::Error;
use crate::packet::{classify, request_frame, Category, MessageType, Reply, ReplyKind, Request};

verus! {

/// The address of the camera that every operation talks to.
pub const CAMERA_ADDRESS: u8 = 1;

/// A 16-bit value as four nibbles, most significant first, one per byte.
pub open spec fn nibbles(v: u16) -> Seq<u8> {
    seq![
        ((v & 0xf000) >> 12u16) as u8,
        ((v & 0x0f00) >> 8u16) as u8,
        ((v & 0x00f0) >> 4u16) as u8,
        (v & 0x000f) as u8,
    ]
}

/// The 16-bit value that four bytes give, read as nibbles, most significant
/// first; each byte is or-ed in at its nibble's place.
pub open spec fn from_nibbles(b: Seq<u8>) -> u16 {
    ((b[0] as u16) << 12u16) | ((b[1] as u16) << 8u16) | ((b[2] as u16) << 4u16) | (b[3] as u16)
}

/// Packing a 16-bit value into nibbles and reading them back gives the value.
pub proof fn lemma_nibbles_round_trip(v: u16)
    ensures
        from_nibbles(nibbles(v)) == v,
{
    let a = ((v & 0xf000) >> 12u16) as u8;
    let b = ((v & 0x0f00) >> 8u16) as u8;
    let c = ((v & 0x00f0) >> 4u16) as u8;
    let d = (v & 0x000f) as u8;
    assert(((a as u16) << 12u16) | ((b as u16) << 8u16) | ((c as u16) << 4u16) | (d as u16) == v)
        by (bit_vector)
        requires
            a == ((v & 0xf000) >> 12u16) as u8,
            b == ((v & 0x0f00) >> 8u16) as u8,
            c == ((v & 0x00f0) >> 4u16) as u8,
            d == (v & 0x000f) as u8,
    ;
}

/// The same holds of signed values, carried as their 16-bit pattern.
pub proof fn lemma_signed_nibbles_round_trip(v: i16)
    ensures
        from_nibbles(nibbles(v as u16)) as i16 == v,
{
    lemma_nibbles_round_trip(v as u16);
    assert((v as u16) as i16 == v) by (bit_vector);
}

/// Reads a 16-bit value from four nibble bytes.
fn read_nibbles(b: &[u8], at: usize) -> (r: u16)
    requires
        at + 4 <= b@.len(),
    ensures
        r == from_nibbles(b@.subrange(at as int, at + 4)),
{
    let mut val = (b[at] as u16) << 12;
    val = val | ((b[at + 1] as u16) << 8);
    val = val | ((b[at + 2] as u16) << 4);
    val = val | b[at + 3] as u16;
    val
}

/// Writes a 16-bit value as four nibble bytes.
fn write_nibbles(v: u16) -> (r: [u8; 4])
    ensures
        r@ == nibbles(v),
{
    let r = [
        ((v & 0xf000) >> 12) as u8,
        ((v & 0x0f00) >> 8) as u8,
        ((v & 0x00f0) >> 4) as u8,
        (v & 0x000f) as u8,
    ];
    assert(r@ =~= nibbles(v));
    r
}

/// A pan/tilt head position.
#[derive(Clone, Copy, Debug, PartialEq, Eq, Structural)]
pub struct PanTiltValue {
    pub pan: i16,
    pub tilt: i16,
}

/// The eight bytes that carry a pan/tilt position: the pan's nibbles, then
/// the tilt's.
pub open spec fn pan_tilt_bytes(v: PanTiltValue) -> Seq<u8> {
    nibbles(v.pan as u16) + nibbles(v.tilt as u16)
}

/// The pan/tilt position that eight bytes give.
pub open spec fn pan_tilt_of(b: Seq<u8>) -> PanTiltValue {
    PanTiltValue {
        pan: from_nibbles(b.subrange(0, 4)) as i16,
        tilt: from_nibbles(b.subrange(4, 8)) as i16,
    }
}

/// Encoding a position and decoding the bytes gives the position back.
pub proof fn lemma_pan_tilt_round_trip(v: PanTiltValue)
    ensures
        pan_tilt_of(pan_tilt_bytes(v)) == v,
{
    lemma_signed_nibbles_round_trip(v.pan);
    lemma_signed_nibbles_round_trip(v.tilt);
    assert(pan_tilt_bytes(v).subrange(0, 4) =~= nibbles(v.pan as u16));
    assert(pan_tilt_bytes(v).subrange(4, 8) =~= nibbles(v.tilt as u16));
}

impl PanTiltValue {
    pub fn from_bytes(bytes: &[u8]) -> (r: PanTiltValue)
        requires
            bytes@.len() == 8,
        ensures
            r == pan_tilt_of(bytes@),
    {
        let pan = read_nibbles(bytes, 0);
        let tilt = read_nibbles(bytes, 4);
        PanTiltValue { pan: pan as i16, tilt: tilt as i16 }
    }

    pub fn to_bytes(&self) -> (r: [u8; 8])
        ensures
            r@ == pan_tilt_bytes(*self),
    {
        let p = write_nibbles(self.pan as u16);
        let t = write_nibbles(self.tilt as u16);
        let r = [p[0], p[1], p[2], p[3], t[0], t[1], t[2], t[3]];
        assert(r@ =~= pan_tilt_bytes(*self));
        r
    }
}

/// Whether the camera is powered.
#[derive(Clone, Copy, Debug, PartialEq, Eq, Structural)]
pub enum PowerValue {
    On,
    Off,
}

impl PowerValue {
    pub open spec fn spec_code(self) -> u8 {
        match self {
            PowerValue::On => 0x02,
            PowerValue::Off => 0x03,
        }
    }

    /// The value's byte on the wire.
    pub fn code(self) -> (r: u8)
        ensures
            r == self.spec_code(),
    {
        match self {
            PowerValue::On => 0x02,
            PowerValue::Off => 0x03,
        }
    }

    pub fn from_u8(b: u8) -> (r: Option<PowerValue>)
        ensures
            r == power_of(b),
    {
        match b {
            0x02 => Some(PowerValue::On),
            0x03 => Some(PowerValue::Off),
            _ => None,
        }
    }
}

/// The power value a byte stands for, if any.
pub open spec fn power_of(b: u8) -> Option<PowerValue> {
    if b == 0x02 {
        Some(PowerValue::On)
    } else if b == 0x03 {
        Some(PowerValue::Off)
    } else {
        None
    }
}

/// The ways the pan/tilt head can be jogged, and stopping it.
#[derive(Clone, Copy, Debug, PartialEq, Eq, Structural)]
pub enum Direction {
    Up,
    Down,
    Left,
    Right,
    UpLeft,
    UpRight,
    DownLeft,
    DownRight,
    Stop,
}

/// The pan code (left 1, right 2, none 3) and tilt code (up 1, down 2,
/// none 3) of a direction.
pub open spec fn direction_codes(d: Direction) -> (u8, u8) {
    match d {
        Direction::Up => (0x03, 0x01),
        Direction::Down => (0x03, 0x02),
        Direction::Left => (0x01, 0x03),
        Direction::Right => (0x02, 0x03),
        Direction::UpLeft => (0x01, 0x01),
        Direction::UpRight => (0x02, 0x01),
        Direction::DownLeft => (0x01, 0x02),
        Direction::DownRight => (0x02, 0x02),
        Direction::Stop => (0x03, 0x03),
    }
}

/// Whether a pan/tilt position is absolute or relative to where the head is.
#[derive(Clone, Copy, Debug, PartialEq, Eq, Structural)]
pub enum Positioning {
    Absolute,
    Relative,
}

/// What to do with a preset slot.
#[derive(Clone, Copy, Debug, PartialEq, Eq, Structural)]
pub enum PresetOp {
    Reset,
    Store,
    Recall,
}

pub open spec fn preset_op_code(op: PresetOp) -> u8 {
    match op {
        PresetOp::Reset => 0x00,
        PresetOp::Store => 0x01,
        PresetOp::Recall => 0x02,
    }
}

/// A request to the camera with the given kind, category and payload.
fn camera_request(kind: MessageType, category: Category, payload: &[u8]) -> (r: Request)
    requires
        payload@.len() <= crate::packet::PAYLOAD_MAX_LEN,
    ensures
        r@ == request_frame(CAMERA_ADDRESS, kind, category, payload@),
{
    let req = Request::new().address(CAMERA_ADDRESS);
    let req = match kind {
        MessageType::Command => req.command(),
        MessageType::Inquiry => req.inquiry(),
    };
    let req = match category {
        Category::Camera1 => req.camera_1(),
        Category::PanTilter => req.pan_tilter(),
    };
    let r = req.payload(payload);
    assert(r@ =~= request_frame(CAMERA_ADDRESS, kind, category, payload@));
    r
}

/// The power inquiry.
pub fn power_inquiry() -> (r: Request)
    ensures
        r@ == request_frame(CAMERA_ADDRESS, MessageType::Inquiry, Category::Camera1, seq![0x00u8]),
{
    let payload = [0x00u8];
    let r = camera_request(MessageType::Inquiry, Category::Camera1, &payload);
    assert(payload@ =~= seq![0x00u8]);
    r
}

/// The command that switches the power on or off.
pub fn power_command(value: PowerValue) -> (r: Request)
    ensures
        r@ == request_frame(
            CAMERA_ADDRESS,
            MessageType::Command,
            Category::Camera1,
            seq![0x00u8, value.spec_code()],
        ),
{
    let payload = [0x00u8, value.code()];
    let r = camera_request(MessageType::Command, Category::Camera1, &payload);
    assert(payload@ =~= seq![0x00u8, value.spec_code()]);
    r
}

/// The zoom position inquiry.
pub fn zoom_inquiry() -> (r: Request)
    ensures
        r@ == request_frame(CAMERA_ADDRESS, MessageType::Inquiry, Category::Camera1, seq![0x47u8]),
{
    let payload = [0x47u8];
    let r = camera_request(MessageType::Inquiry, Category::Camera1, &payload);
    assert(payload@ =~= seq![0x47u8]);
    r
}

/// The command that moves the zoom to a position.
pub fn zoom_command(value: u16) -> (r: Request)
    ensures
        r@ == request_frame(
            CAMERA_ADDRESS,
            MessageType::Command,
            Category::Camera1,
            seq![0x47u8] + nibbles(value),
        ),
{
    let n = write_nibbles(value);
    let payload = [0x47u8, n[0], n[1], n[2], n[3]];
    let r = camera_request(MessageType::Command, Category::Camera1, &payload);
    assert(payload@ =~= seq![0x47u8] + nibbles(value));
    r
}

/// The pan/tilt position inquiry.
pub fn pan_tilt_inquiry() -> (r: Request)
    ensures
        r@ == request_frame(CAMERA_ADDRESS, MessageType::Inquiry, Category::PanTilter, seq![0x12u8]),
{
    let payload = [0x12u8];
    let r = camera_request(MessageType::Inquiry, Category::PanTilter, &payload);
    assert(payload@ =~= seq![0x12u8]);
    r
}

/// The mode byte of a positioning command.
pub open spec fn positioning_code(mode: Positioning) -> u8 {
    match mode {
        Positioning::Absolute => 0x02,
        Positioning::Relative => 0x03,
    }
}

/// The command that moves the head to a position, absolute or relative.
pub fn pan_tilt_command(mode: Positioning, value: PanTiltValue) -> (r: Request)
    ensures
        r@ == request_frame(
            CAMERA_ADDRESS,
            MessageType::Command,
            Category::PanTilter,
            seq![positioning_code(mode), 0x01u8, 0x00u8] + pan_tilt_bytes(value),
        ),
{
    let m: u8 = match mode {
        Positioning::Absolute => 0x02,
        Positioning::Relative => 0x03,
    };
    let v = value.to_bytes();
    let payload = [m, 0x01u8, 0x00u8, v[0], v[1], v[2], v[3], v[4], v[5], v[6], v[7]];
    let r = camera_request(MessageType::Command, Category::PanTilter, &payload);
    assert(payload@ =~= seq![positioning_code(mode), 0x01u8, 0x00u8] + pan_tilt_bytes(value));
    r
}

/// The command that jogs the head in a direction, or stops it.
pub fn jog_command(direction: Direction) -> (r: Request)
    ensures
        r@ == request_frame(
            CAMERA_ADDRESS,
            MessageType::Command,
            Category::PanTilter,
            seq![0x01u8, 0x01u8, 0x01u8, direction_codes(direction).0, direction_codes(direction).1],
        ),
{
    let (pan, tilt): (u8, u8) = match direction {
        Direction::Up => (0x03, 0x01),
        Direction::Down => (0x03, 0x02),
        Direction::Left => (0x01, 0x03),
        Direction::Right => (0x02, 0x03),
        Direction::UpLeft => (0x01, 0x01),
        Direction::UpRight => (0x02, 0x01),
        Direction::DownLeft => (0x01, 0x02),
        Direction::DownRight => (0x02, 0x02),
        Direction::Stop => (0x03, 0x03),
    };
    let payload = [0x01u8, 0x01u8, 0x01u8, pan, tilt];
    let r = camera_request(MessageType::Command, Category::PanTilter, &payload);
    assert(payload@ =~= seq![
        0x01u8,
        0x01u8,
        0x01u8,
        direction_codes(direction).0,
        direction_codes(direction).1,
    ]);
    r
}

/// The command that resets, sets or recalls a preset slot. Only the low
/// four bits of the slot number are sent.
pub fn preset_command(op: PresetOp, num: u8) -> (r: Request)
    ensures
        r@ == request_frame(
            CAMERA_ADDRESS,
            MessageType::Command,
            Category::Camera1,
            seq![0x3fu8, preset_op_code(op), num & 0x0f],
        ),
{
    let code: u8 = match op {
        PresetOp::Reset => 0x00,
        PresetOp::Store => 0x01,
        PresetOp::Recall => 0x02,
    };
    let payload = [0x3fu8, code, num & 0x0f];
    let r = camera_request(MessageType::Command, Category::Camera1, &payload);
    assert(payload@ =~= seq![0x3fu8, preset_op_code(op), num & 0x0f]);
    r
}

/// Accepts only an empty completion: what a command owes once it is done.
pub fn check_empty_reply(reply: Reply) -> (r: Result<(), Error>)
    ensures
        r is Ok <==> classify(reply@) == ReplyKind::Completion(Seq::<u8>::empty()),
        r matches Err(e) ==> e == Error::InvalidReply,
{
    if reply.is_recognized() {
        if let crate::packet::Message::Completion(p) = reply.message() {
            if p.len() == 0 {
                assert(p@ =~= Seq::<u8>::empty());
                return Ok(());
            }
        }
    }
    Err(Error::InvalidReply)
}

/// The power value in the completion of a power inquiry.
pub fn decode_power(reply: Reply) -> (r: Result<PowerValue, Error>)
    ensures
        r matches Ok(v) ==> (classify(reply@) matches ReplyKind::Completion(p) && p.len() == 1
            && power_of(p[0]) == Some(v)),
        r is Err ==> r == Err::<PowerValue, Error>(Error::InvalidReply),
        (classify(reply@) matches ReplyKind::Completion(p) && p.len() == 1 && power_of(p[0]) is Some)
            ==> r is Ok,
{
    if reply.is_recognized() {
        if let crate::packet::Message::Completion(p) = reply.message() {
            if p.len() == 1 {
                if let Some(v) = PowerValue::from_u8(p[0]) {
                    return Ok(v);
                }
            }
        }
    }
    Err(Error::InvalidReply)
}

/// The zoom position in the completion of a zoom inquiry.
pub fn decode_zoom(reply: Reply) -> (r: Result<u16, Error>)
    ensures
        r matches Ok(v) ==> (classify(reply@) matches ReplyKind::Completion(p) && p.len() == 4
            && v == from_nibbles(p)),
        r is Err ==> r == Err::<u16, Error>(Error::InvalidReply),
        (classify(reply@) matches ReplyKind::Completion(p) && p.len() == 4) ==> r is Ok,
{
    if reply.is_recognized() {
        if let crate::packet::Message::Completion(p) = reply.message() {
            if p.len() == 4 {
                let v = read_nibbles(p, 0);
                assert(p@.subrange(0, 4) =~= p@);
                return Ok(v);
            }
        }
    }
    Err(Error::InvalidReply)
}

/// The pan/tilt position in the completion of a pan/tilt inquiry.
pub fn decode_pan_tilt(reply: Reply) -> (r: Result<PanTiltValue, Error>)
    ensures
        r matches Ok(v) ==> (classify(reply@) matches ReplyKind::Completion(p) && p.len() == 8
            && v == pan_tilt_of(p)),
        r is Err ==> r == Err::<PanTiltValue, Error>(Error::InvalidReply),
        (classify(reply@) matches ReplyKind::Completion(p) && p.len() == 8) ==> r is Ok,
{
    if reply.is_recognized() {
        if let crate::packet::Message::Completion(p) = reply.message() {
            if p.len() == 8 {
                return Ok(PanTiltValue::from_bytes(p));
            }
        }
    }
    Err(Error::InvalidReply)
}

} // verus!
