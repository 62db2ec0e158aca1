//! Host-side Spinel protocol engine: the packed integer codec, the command and
//! frame codecs, HDLC-Lite framing, and the decisions of the host connection.

mod buf;
pub mod codec;
pub mod command;
pub mod error;
pub mod frame;
pub mod hdlc;
pub mod host;
pub mod packed;
pub mod property;
pub mod status;

pub use codec::HdlcCodec;
pub use command::Command;
pub use error::Error;
pub use frame::{Frame, Header};
pub use hdlc::HdlcLiteFrame;
pub use host::{HostState, Route};
pub use packed::PackedU32;
pub use property::{Property, PropertyStream};
pub use status::{ResetReason, Status};
