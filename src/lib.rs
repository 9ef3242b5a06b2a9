//! Client side of a VISCA-style serial camera-control protocol: the frame
//! codec, the stream reader that rebuilds frames from a fragmented byte
//! stream, the request/reply session, and the typed command layer.

pub mod commands;
pub mod error;
pub mod packet;
pub mod reader;
pub mod session;

pub use commands::{
    check_empty_reply, decode_pan_tilt, decode_power, decode_zoom, jog_command, pan_tilt_command,
    pan_tilt_inquiry, power_command, power_inquiry, preset_command, zoom_command, zoom_inquiry,
    Direction, PanTiltValue, Positioning, PowerValue, PresetOp,
};
pub use error::Error;
pub use packet::{Category, ErrorKind, Message, MessageType, Reply, Request};
pub use reader::{ReadStep, StreamReader};
pub use session::{Action, Phase, Session};
