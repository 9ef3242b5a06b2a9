use vstd::prelude::*;

use crate::packet::ErrorKind;

verus! {

#[verifier::external_type_specification]
#[verifier::external_body]
pub struct ExIoError(std::io::Error);

/// Everything that can go wrong while talking to a camera.
#[derive(Debug)]
pub enum Error {
    /// The serial channel failed: an I/O error, a timeout, a closed port.
    Io(std::io::Error),
    /// The device answered with an error reply.
    Camera(ErrorKind),
    /// A reply broke the protocol: too short, of an unknown type, out of
    /// sequence, or with a payload the operation does not expect.
    InvalidReply,
    /// The receive buffer filled up without a frame terminator in it.
    ReadBufferFull,
}

impl From<std::io::Error> for Error {
    fn from(e: std::io::Error) -> (r: Error)
        ensures
            r == Error::Io(e),
    {
        Error::Io(e)
    }
}

impl vstd::std_specs::convert::FromSpecImpl<std::io::Error> for Error {
    open spec fn obeys_from_spec() -> bool {
        true
    }

    open spec fn from_spec(e: std::io::Error) -> Error {
        Error::Io(e)
    }
}

/// Relies on the `Display` impl of `std::io::Error`, for the text of a
/// channel failure.
#[verifier::external_body]
fn io_error_text(e: &std::io::Error) -> (r: String) {
    e.to_string()
}

impl Error {
    /// A description of the error, for people.
    pub fn describe(&self) -> (r: String)
        ensures
            *self matches Error::Camera(k) ==> r@ == crate::packet::error_text(k),
            *self matches Error::InvalidReply ==> r@ == "invalid reply"@,
            *self matches Error::ReadBufferFull ==> r@ == "read buffer is full"@,
    {
        match self {
            Error::Io(e) => io_error_text(e),
            Error::Camera(k) => k.as_str().to_string(),
            Error::InvalidReply => "invalid reply".to_string(),
            Error::ReadBufferFull => "read buffer is full".to_string(),
        }
    }
}

} // verus!
