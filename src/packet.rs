use vstd::prelude::*;
use vstd::slice::slice_subrange;

use crate::error::Error;

verus! {

/// Error codes that a device reports in an error reply.
#[derive(Clone, Copy, Debug, PartialEq, Eq, Structural)]
pub enum ErrorKind {
    /// The command had an invalid message length.
    MsgLength,
    /// The format or parameters of the command were invalid.
    Syntax,
    /// Too many commands are being executed already.
    FullBuffer,
    /// The command was canceled.
    Canceled,
    /// An invalid socket number was specified.
    NoSocket,
    /// The command could not be executed in the current state of the camera.
    NotExecutable,
    /// Any other code, kept as received.
    Other(u8),
}

/// The error kind that a device error code stands for.
pub open spec fn error_kind_of(b: u8) -> ErrorKind {
    if b == 0x01 {
        ErrorKind::MsgLength
    } else if b == 0x02 {
        ErrorKind::Syntax
    } else if b == 0x03 {
        ErrorKind::FullBuffer
    } else if b == 0x04 {
        ErrorKind::Canceled
    } else if b == 0x05 {
        ErrorKind::NoSocket
    } else if b == 0x41 {
        ErrorKind::NotExecutable
    } else {
        ErrorKind::Other(b)
    }
}

impl ErrorKind {
    pub fn from_u8(b: u8) -> (r: ErrorKind)
        ensures
            r == error_kind_of(b),
    {
        match b {
            0x01 => ErrorKind::MsgLength,
            0x02 => ErrorKind::Syntax,
            0x03 => ErrorKind::FullBuffer,
            0x04 => ErrorKind::Canceled,
            0x05 => ErrorKind::NoSocket,
            0x41 => ErrorKind::NotExecutable,
            _ => ErrorKind::Other(b),
        }
    }
}

impl ErrorKind {
    /// A short description of the error.
    pub fn as_str(&self) -> (r: &'static str)
        ensures
            r@ == error_text(*self),
    {
        match *self {
            ErrorKind::MsgLength => "invalid message length",
            ErrorKind::Syntax => "syntax error",
            ErrorKind::FullBuffer => "command buffer is full",
            ErrorKind::Canceled => "command was canceled",
            ErrorKind::NoSocket => "invalid socket number",
            ErrorKind::NotExecutable => "could not execute command",
            ErrorKind::Other(_) => "other camera error",
        }
    }
}

/// The description that `as_str` gives of each error kind.
pub open spec fn error_text(k: ErrorKind) -> Seq<char> {
    match k {
        ErrorKind::MsgLength => "invalid message length"@,
        ErrorKind::Syntax => "syntax error"@,
        ErrorKind::FullBuffer => "command buffer is full"@,
        ErrorKind::Canceled => "command was canceled"@,
        ErrorKind::NoSocket => "invalid socket number"@,
        ErrorKind::NotExecutable => "could not execute command"@,
        ErrorKind::Other(_) => "other camera error"@,
    }
}

/// Largest frame, terminator included.
pub const PACKET_MAX_LEN: usize = 16;

/// Largest payload of a request.
pub const PAYLOAD_MAX_LEN: usize = 12;

/// Shortest reply frame: address, type and terminator.
pub const REPLY_MIN_LEN: usize = 3;

/// The byte that ends every frame.
pub const TERMINATOR: u8 = 0xff;

/// The device subsystem a request addresses.
#[derive(Clone, Copy, Debug, PartialEq, Eq, Structural)]
pub enum Category {
    Camera1,
    PanTilter,
}

impl Category {
    pub open spec fn spec_code(self) -> u8 {
        match self {
            Category::Camera1 => 0x04,
            Category::PanTilter => 0x06,
        }
    }

    /// The category's byte on the wire.
    pub fn code(self) -> (r: u8)
        ensures
            r == self.spec_code(),
    {
        match self {
            Category::Camera1 => 0x04,
            Category::PanTilter => 0x06,
        }
    }
}

/// Whether a request changes the device's state or asks about it.
#[derive(Clone, Copy, Debug, PartialEq, Eq, Structural)]
pub enum MessageType {
    Command,
    Inquiry,
}

impl MessageType {
    pub open spec fn spec_code(self) -> u8 {
        match self {
            MessageType::Command => 0x01,
            MessageType::Inquiry => 0x09,
        }
    }

    /// The message type's byte on the wire.
    pub fn code(self) -> (r: u8)
        ensures
            r == self.spec_code(),
    {
        match self {
            MessageType::Command => 0x01,
            MessageType::Inquiry => 0x09,
        }
    }
}

/// The frame of a request: header byte with the address, message type,
/// category, payload, terminator.
pub open spec fn request_frame(
    address: u8,
    kind: MessageType,
    category: Category,
    payload: Seq<u8>,
) -> Seq<u8> {
    seq![0x80u8 | address, kind.spec_code(), category.spec_code()] + payload + seq![TERMINATOR]
}

/// `buf` with `payload` written from index 3 on and the terminator after it.
pub open spec fn with_payload(buf: Seq<u8>, payload: Seq<u8>) -> Seq<u8> {
    buf.subrange(0, 3) + payload + seq![TERMINATOR] + buf.subrange(
        payload.len() as int + 4,
        buf.len() as int,
    )
}

/// An outbound frame under construction. Its fields are set one at a time;
/// the frame is complete once the payload is set.
#[derive(Debug)]
pub struct Request {
    bytes: Vec<u8>,
    len: usize,
}

impl Request {
    #[verifier::type_invariant]
    spec fn inv(&self) -> bool {
        &&& self.bytes@.len() == PACKET_MAX_LEN
        &&& (self.len == 0 || 4 <= self.len <= PACKET_MAX_LEN)
    }

    /// All sixteen bytes of the frame buffer, whether in the frame or not.
    pub closed spec fn buffer(&self) -> Seq<u8> {
        self.bytes@
    }

    /// The length of the frame; zero until the payload is set.
    pub closed spec fn frame_len(&self) -> nat {
        self.len as nat
    }

    pub fn new() -> (r: Request)
        ensures
            r.buffer() == Seq::new(PACKET_MAX_LEN as nat, |i: int| 0u8),
            r.frame_len() == 0,
    {
        let r = Request { bytes: vec![0u8; PACKET_MAX_LEN], len: 0 };
        assert(r.bytes@ =~= Seq::new(PACKET_MAX_LEN as nat, |i: int| 0u8));
        r
    }

    /// The frame; empty until the payload is set.
    pub fn as_bytes(&self) -> (r: &[u8])
        ensures
            r@ == self@,
    {
        proof {
            use_type_invariant(self);
        }
        slice_subrange(self.bytes.as_slice(), 0, self.len)
    }

    /// Sets the device address, which must be at most 7.
    pub fn address(self, addr: u8) -> (r: Request)
        requires
            addr <= 7,
        ensures
            r.buffer() == self.buffer().update(0, 0x80u8 | addr),
            r.frame_len() == self.frame_len(),
    {
        proof {
            use_type_invariant(&self);
        }
        let Request { mut bytes, len } = self;
        bytes.set(0, 0x80 | addr);
        Request { bytes, len }
    }

    pub fn command(self) -> (r: Request)
        ensures
            r.buffer() == self.buffer().update(1, MessageType::Command.spec_code()),
            r.frame_len() == self.frame_len(),
    {
        self.msg_type(MessageType::Command)
    }

    pub fn inquiry(self) -> (r: Request)
        ensures
            r.buffer() == self.buffer().update(1, MessageType::Inquiry.spec_code()),
            r.frame_len() == self.frame_len(),
    {
        self.msg_type(MessageType::Inquiry)
    }

    pub fn camera_1(self) -> (r: Request)
        ensures
            r.buffer() == self.buffer().update(2, Category::Camera1.spec_code()),
            r.frame_len() == self.frame_len(),
    {
        self.category(Category::Camera1)
    }

    pub fn pan_tilter(self) -> (r: Request)
        ensures
            r.buffer() == self.buffer().update(2, Category::PanTilter.spec_code()),
            r.frame_len() == self.frame_len(),
    {
        self.category(Category::PanTilter)
    }

    /// Sets the payload, at most 12 bytes, and ends the frame after it.
    pub fn payload(self, payload: &[u8]) -> (r: Request)
        requires
            payload@.len() <= PAYLOAD_MAX_LEN,
        ensures
            r.buffer() == with_payload(self.buffer(), payload@),
            r.frame_len() == payload@.len() + 4,
    {
        proof {
            use_type_invariant(&self);
        }
        let Request { mut bytes, len: _ } = self;
        let n = payload.len();
        let ghost before = bytes@;
        let mut i: usize = 0;
        while i < n
            invariant
                i <= n,
                n == payload@.len(),
                n <= PAYLOAD_MAX_LEN,
                bytes@.len() == PACKET_MAX_LEN,
                forall|j: int| 0 <= j < 3 ==> bytes@[j] == before[j],
                forall|j: int| 3 <= j < 3 + i ==> bytes@[j] == payload@[j - 3],
                forall|j: int| 3 + i <= j < PACKET_MAX_LEN ==> bytes@[j] == before[j],
            decreases n - i,
        {
            bytes.set(3 + i, payload[i]);
            i += 1;
        }
        bytes.set(n + 3, TERMINATOR);
        assert(bytes@ =~= with_payload(before, payload@));
        Request { bytes, len: n + 4 }
    }

    fn msg_type(self, msg_type: MessageType) -> (r: Request)
        ensures
            r.buffer() == self.buffer().update(1, msg_type.spec_code()),
            r.frame_len() == self.frame_len(),
    {
        proof {
            use_type_invariant(&self);
        }
        let Request { mut bytes, len } = self;
        bytes.set(1, msg_type.code());
        Request { bytes, len }
    }

    fn category(self, category: Category) -> (r: Request)
        ensures
            r.buffer() == self.buffer().update(2, category.spec_code()),
            r.frame_len() == self.frame_len(),
    {
        proof {
            use_type_invariant(&self);
        }
        let Request { mut bytes, len } = self;
        bytes.set(2, category.code());
        Request { bytes, len }
    }
}

impl View for Request {
    type V = Seq<u8>;

    /// The frame: the first `frame_len` bytes of the buffer.
    open spec fn view(&self) -> Seq<u8> {
        self.buffer().subrange(0, self.frame_len() as int)
    }
}

/// What a reply frame says, as a mathematical value.
pub enum ReplyKind {
    Ack,
    Completion(Seq<u8>),
    Error(ErrorKind),
    Unrecognized,
}

/// The type nibble of a reply frame: the high four bits of its second byte.
pub open spec fn type_nibble(b: Seq<u8>) -> u8 {
    b[1] & 0xf0
}

/// A reply frame's payload: what lies between its type byte and its terminator.
pub open spec fn payload_of(b: Seq<u8>) -> Seq<u8> {
    b.subrange(2, b.len() - 1)
}

/// How a reply frame (of at least three bytes) is classified.
pub open spec fn classify(b: Seq<u8>) -> ReplyKind {
    if type_nibble(b) == 0x40 {
        ReplyKind::Ack
    } else if type_nibble(b) == 0x50 {
        ReplyKind::Completion(payload_of(b))
    } else if type_nibble(b) == 0x60 {
        ReplyKind::Error(error_kind_of(b[2]))
    } else {
        ReplyKind::Unrecognized
    }
}

/// The device address that a reply frame carries in its first byte.
pub open spec fn address_of(b: Seq<u8>) -> u8 {
    ((b[0] >> 4u8) - 8) as u8
}

/// The socket that a reply frame reports on.
pub open spec fn socket_of(b: Seq<u8>) -> u8 {
    b[1] & 0x0f
}

/// A reply frame from the device at `address` (at most 7): the address
/// byte, the type byte, the body and the terminator.
pub open spec fn reply_frame(address: u8, type_byte: u8, body: Seq<u8>) -> Seq<u8> {
    seq![((address + 8) * 16) as u8, type_byte] + body + seq![TERMINATOR]
}

/// A request frame gives back what it was built from: the address, the
/// message type, the category and the payload, and it ends in the terminator.
pub proof fn lemma_request_round_trip(
    address: u8,
    kind: MessageType,
    category: Category,
    payload: Seq<u8>,
)
    requires
        address <= 7,
        payload.len() <= PAYLOAD_MAX_LEN,
    ensures
        ({
            let f = request_frame(address, kind, category, payload);
            &&& f.len() == payload.len() + 4
            &&& f.len() <= PACKET_MAX_LEN
            &&& f[0] & 0xf8 == 0x80
            &&& f[0] & 0x07 == address
            &&& f[1] == kind.spec_code()
            &&& f[2] == category.spec_code()
            &&& f.subrange(3, f.len() - 1) == payload
            &&& f.last() == TERMINATOR
        }),
{
    let f = request_frame(address, kind, category, payload);
    assert(f.subrange(3, f.len() - 1) =~= payload);
    assert((0x80u8 | address) & 0xf8 == 0x80) by (bit_vector)
        requires
            address <= 7,
    ;
    assert((0x80u8 | address) & 0x07 == address) by (bit_vector)
        requires
            address <= 7,
    ;
}

/// A reply frame is classified by what it was built as: a completion gives
/// back its payload, an error its code's kind, an acknowledgement is an
/// acknowledgement; each gives back the address and the socket.
pub proof fn lemma_reply_round_trip(address: u8, socket: u8, payload: Seq<u8>, code: u8)
    requires
        address <= 7,
        socket <= 0x0f,
        payload.len() <= PACKET_MAX_LEN - REPLY_MIN_LEN,
    ensures
        ({
            let done = reply_frame(address, 0x50u8 | socket, payload);
            &&& REPLY_MIN_LEN <= done.len() <= PACKET_MAX_LEN
            &&& classify(done) == ReplyKind::Completion(payload)
            &&& done[0] >= 0x80 && address_of(done) == address
            &&& socket_of(done) == socket
        }),
        ({
            let ack = reply_frame(address, 0x40u8 | socket, Seq::empty());
            &&& ack.len() == REPLY_MIN_LEN
            &&& classify(ack) == ReplyKind::Ack
            &&& ack[0] >= 0x80 && address_of(ack) == address
            &&& socket_of(ack) == socket
        }),
        ({
            let err = reply_frame(address, 0x60u8 | socket, seq![code]);
            &&& err.len() == REPLY_MIN_LEN + 1
            &&& classify(err) == ReplyKind::Error(error_kind_of(code))
            &&& err[0] >= 0x80 && address_of(err) == address
            &&& socket_of(err) == socket
        }),
{
    let head = ((address + 8) * 16) as u8;
    assert(head >= 0x80 && ((head >> 4u8) - 8) as u8 == address) by (bit_vector)
        requires
            address <= 7,
            head == ((address + 8) * 16) as u8,
    ;
    assert((0x50u8 | socket) & 0xf0 == 0x50 && (0x50u8 | socket) & 0x0f == socket) by (bit_vector)
        requires
            socket <= 0x0f,
    ;
    assert((0x40u8 | socket) & 0xf0 == 0x40 && (0x40u8 | socket) & 0x0f == socket) by (bit_vector)
        requires
            socket <= 0x0f,
    ;
    assert((0x60u8 | socket) & 0xf0 == 0x60 && (0x60u8 | socket) & 0x0f == socket) by (bit_vector)
        requires
            socket <= 0x0f,
    ;
    let done = reply_frame(address, 0x50u8 | socket, payload);
    assert(payload_of(done) =~= payload);
}

/// A reply as the device sent it: one whole frame of 3 to 16 bytes.
#[derive(Debug)]
pub struct Reply {
    bytes: Vec<u8>,
}

impl View for Reply {
    type V = Seq<u8>;

    closed spec fn view(&self) -> Seq<u8> {
        self.bytes@
    }
}

/// A classified reply, whose payload borrows from the frame.
#[derive(Debug, PartialEq)]
pub enum Message<'a> {
    Ack,
    Completion(&'a [u8]),
    Error(ErrorKind),
}

impl<'a> View for Message<'a> {
    type V = ReplyKind;

    open spec fn view(&self) -> ReplyKind {
        match *self {
            Message::Ack => ReplyKind::Ack,
            Message::Completion(p) => ReplyKind::Completion(p@),
            Message::Error(k) => ReplyKind::Error(k),
        }
    }
}

impl Reply {
    /// Every reply holds one frame of 3 to 16 bytes.
    #[verifier::type_invariant]
    pub open spec fn inv(&self) -> bool {
        REPLY_MIN_LEN <= self@.len() <= PACKET_MAX_LEN
    }

    /// Takes a frame as received; one under three bytes is too short to be a reply.
    pub fn parse(slice: &[u8]) -> (r: Result<Reply, Error>)
        requires
            slice@.len() <= PACKET_MAX_LEN,
        ensures
            r is Ok <==> slice@.len() >= REPLY_MIN_LEN,
            r matches Ok(reply) ==> reply@ == slice@,
            r matches Err(e) ==> e == Error::InvalidReply,
    {
        if slice.len() < REPLY_MIN_LEN {
            return Err(Error::InvalidReply);
        }
        let mut bytes: Vec<u8> = Vec::with_capacity(slice.len());
        let mut i: usize = 0;
        while i < slice.len()
            invariant
                i <= slice@.len(),
                bytes@ == slice@.subrange(0, i as int),
            decreases slice@.len() - i,
        {
            bytes.push(slice[i]);
            i += 1;
        }
        assert(bytes@ == slice@);
        Ok(Reply { bytes })
    }

    pub fn as_bytes(&self) -> (r: &[u8])
        ensures
            r@ == self@,
    {
        self.bytes.as_slice()
    }

    /// The address of the device that sent the reply.
    pub fn address(&self) -> (r: u8)
        requires
            self@[0] >= 0x80,
        ensures
            r == address_of(self@),
    {
        proof {
            use_type_invariant(self);
        }
        let b = self.bytes[0];
        assert(b >= 0x80 ==> b >> 4u8 >= 8) by (bit_vector);
        (b >> 4) - 8
    }

    /// The command slot the device reports on.
    pub fn socket(&self) -> (r: u8)
        ensures
            r == socket_of(self@),
    {
        proof {
            use_type_invariant(self);
        }
        self.bytes[1] & 0x0f
    }

    /// Whether the reply's type nibble is one of Ack, Completion and Error.
    pub fn is_recognized(&self) -> (r: bool)
        ensures
            r <==> !(classify(self@) is Unrecognized),
    {
        proof {
            use_type_invariant(self);
        }
        let t = self.bytes[1] & 0xf0;
        t == 0x40 || t == 0x50 || t == 0x60
    }

    /// The reply classified by its type nibble.
    pub fn message(&self) -> (r: Message<'_>)
        requires
            !(classify(self@) is Unrecognized),
        ensures
            r@ == classify(self@),
    {
        proof {
            use_type_invariant(self);
        }
        let t = self.bytes[1] & 0xf0;
        if t == 0x40 {
            Message::Ack
        } else if t == 0x50 {
            Message::Completion(self.payload())
        } else {
            Message::Error(ErrorKind::from_u8(self.bytes[2]))
        }
    }

    /// The bytes between the type byte and the terminator.
    pub fn payload(&self) -> (r: &[u8])
        ensures
            r@ == payload_of(self@),
    {
        proof {
            use_type_invariant(self);
        }
        slice_subrange(self.bytes.as_slice(), 2, self.bytes.len() - 1)
    }
}

} // verus!
