//! The error kinds of every layer of the library.
use crate::frame::Frame;
use crate::status::Status;
use vstd::prelude::*;

verus! {

/// Errors of the codecs, the device and the host connection.
#[derive(Clone, Debug, PartialEq)]
pub enum Error {
    /// A header octet whose flag bits are not `0b10`.
    Header(u8),
    /// A frame whose CRC does not match; holds the CRC computed over the frame.
    HdlcChecksum(u16),
    /// A frame that does not open with the delimiter; holds the first octet.
    HdlcStartDelimiter(u8),
    /// A frame that does not close with the delimiter; holds the last octet.
    HdlcEndDelimiter(u8),
    /// The host connection could not take a request.
    HostConnectionSend,
    /// The host connection closed before it replied.
    HostConnectionRecv(String),
    /// A command identifier that this library does not know.
    Command(u32),
    /// A transport failure.
    Io(String),
    /// A property identifier that this library does not know.
    Property(u32),
    /// A packed integer that does not end within three octets.
    PackedU32ByteCount,
    /// A packet too short for what it must hold; holds its length.
    PacketLength(usize),
    /// The serial port could not be configured.
    SerialConfig,
    /// The device reported a status other than success.
    Status(Status),
    /// The device answered with a frame that the request did not call for.
    UnexpectedResponse(Frame),
}

} // verus!
