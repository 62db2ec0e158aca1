//! Spinel frames: one header octet (flag, instance and transaction
//! identifiers), then a command.
use crate::command::{
    command_bytes, command_decodable, command_decoded, lemma_command_round_trip, Command,
    CommandView,
};
use crate::error::Error;
use crate::packed::{packed_count, packed_value, PackedU32};
use crate::property::Property;
use crate::status::{status_of_code, Status};
use vstd::prelude::*;

verus! {

/// The flag that the two high bits of every header hold.
pub const HEADER_FLAG: u8 = 0b10;

/// The header of a Spinel frame. Its instance identifier is below 4 and its
/// transaction identifier below 16.
#[derive(Clone, Copy, Debug, PartialEq, Eq, Structural)]
pub struct Header {
    flag: u8,
    iid: u8,
    tid: u8,
}

/// The header octet of the header with instance `iid` and transaction `tid`.
pub open spec fn header_byte(iid: u8, tid: u8) -> u8 {
    (HEADER_FLAG * 64 + iid * 16 + tid) as u8
}

impl Header {
    #[verifier::type_invariant]
    spec fn inv(&self) -> bool {
        &&& self.flag == HEADER_FLAG
        &&& self.iid <= 3
        &&& self.tid <= 15
    }

    /// The instance identifier.
    pub closed spec fn spec_iid(&self) -> u8 {
        self.iid
    }

    /// The transaction identifier.
    pub closed spec fn spec_tid(&self) -> u8 {
        self.tid
    }

    /// Create a header with an Instance Identifier (IID) and a Transaction
    /// Identifier (TID).
    pub fn new(iid: u8, tid: u8) -> (r: Header)
        requires
            iid <= 3,
            tid <= 15,
        ensures
            r.spec_iid() == iid,
            r.spec_tid() == tid,
    {
        Header { flag: HEADER_FLAG, iid, tid }
    }

    /// The Instance Identifier (IID).
    pub fn iid(&self) -> (r: u8)
        ensures
            r == self.spec_iid(),
            r <= 3,
    {
        proof {
            use_type_invariant(self);
        }
        self.iid
    }

    /// The Transaction Identifier (TID).
    pub fn tid(&self) -> (r: u8)
        ensures
            r == self.spec_tid(),
            r <= 15,
    {
        proof {
            use_type_invariant(self);
        }
        self.tid
    }

    /// The header octet.
    pub fn to_byte(&self) -> (r: u8)
        ensures
            r == header_byte(self.spec_iid(), self.spec_tid()),
    {
        proof {
            use_type_invariant(self);
        }
        HEADER_FLAG * 64 + self.iid * 16 + self.tid
    }

    /// The header that the octet `value` holds; fails with [`Error::Header`]
    /// unless its two high bits are the flag.
    pub fn try_from(value: u8) -> (r: Result<Header, Error>)
        ensures
            value / 64 == HEADER_FLAG <==> r is Ok,
            r matches Ok(h) ==> h.spec_iid() == (value / 16) % 4 && h.spec_tid() == value % 16,
            r matches Err(e) ==> e == Error::Header(value),
    {
        let flag = value / 64;
        let iid = (value / 16) % 4;
        let tid = value % 16;
        if flag != HEADER_FLAG {
            return Err(Error::Header(value));
        }
        Ok(Header { flag, iid, tid })
    }
}

/// A header's octet gives the header back.
pub proof fn lemma_header_round_trip(iid: u8, tid: u8)
    requires
        iid <= 3,
        tid <= 15,
    ensures
        header_byte(iid, tid) / 64 == HEADER_FLAG,
        (header_byte(iid, tid) / 16) % 4 == iid,
        header_byte(iid, tid) % 16 == tid,
{
}

impl From<Header> for u8 {
    fn from(header: Header) -> (r: u8) {
        header.to_byte()
    }
}

impl vstd::std_specs::convert::FromSpecImpl<Header> for u8 {
    open spec fn obeys_from_spec() -> bool {
        true
    }

    open spec fn from_spec(header: Header) -> u8 {
        header_byte(header.spec_iid(), header.spec_tid())
    }
}

/// A Spinel frame: a header and a command.
#[derive(Debug, PartialEq)]
pub struct Frame {
    pub header: Header,
    pub command: Command,
}

/// What a [`Frame`] holds.
pub struct FrameView {
    pub iid: u8,
    pub tid: u8,
    pub command: CommandView,
}

impl View for Frame {
    type V = FrameView;

    open spec fn view(&self) -> FrameView {
        FrameView {
            iid: self.header.spec_iid(),
            tid: self.header.spec_tid(),
            command: self.command@,
        }
    }
}

/// The encoding of a frame.
pub open spec fn frame_bytes(f: FrameView) -> Seq<u8> {
    seq![header_byte(f.iid, f.tid)] + command_bytes(f.command)
}

/// The result of decoding `b` as a frame.
pub open spec fn frame_decoded(b: Seq<u8>) -> Result<FrameView, Error> {
    if b.len() < 2 {
        Err(Error::PacketLength(b.len() as usize))
    } else if b[0] / 64 != HEADER_FLAG {
        Err(Error::Header(b[0]))
    } else {
        match command_decoded(b.skip(1)) {
            Ok(c) => Ok(FrameView { iid: ((b[0] / 16) % 4) as u8, tid: (b[0] % 16) as u8, command: c }),
            Err(e) => Err(e),
        }
    }
}

/// The view of a decoding result.
pub open spec fn frame_result_view(r: Result<Frame, Error>) -> Result<FrameView, Error> {
    match r {
        Ok(f) => Ok(f@),
        Err(e) => Err(e),
    }
}

/// A frame that decoding can give back: identifiers in range and a command
/// that is not a set.
pub open spec fn frame_decodable(f: FrameView) -> bool {
    &&& f.iid <= 3
    &&& f.tid <= 15
    &&& command_decodable(f.command)
}

/// The status that the `LastStatus` value `payload` reports, if it holds a
/// packed integer that is a status code.
pub open spec fn payload_status(payload: Seq<u8>) -> Option<Status> {
    if packed_count(payload) > 0 {
        status_of_code(packed_value(payload))
    } else {
        None
    }
}

/// The status that a frame reports: a `LastStatus` value holding a status code.
pub open spec fn frame_status(c: CommandView) -> Option<Status> {
    match c {
        CommandView::ValueIs(Property::LastStatus, payload) => payload_status(payload),
        _ => None,
    }
}

/// Decoding the encoding of a decodable frame gives the frame back.
pub proof fn lemma_frame_round_trip(f: FrameView)
    requires
        frame_decodable(f),
    ensures
        frame_decoded(frame_bytes(f)) == Ok::<FrameView, Error>(f),
{
    let b = frame_bytes(f);
    lemma_command_round_trip(f.command);
    lemma_header_round_trip(f.iid, f.tid);
    assert(b.skip(1) == command_bytes(f.command));
    crate::packed::lemma_packed_round_trip(0, Seq::empty());
}

impl Clone for Frame {
    fn clone(&self) -> (r: Frame)
        ensures
            r@ == self@,
            r.header == self.header,
    {
        Frame { header: self.header, command: self.command.clone() }
    }
}

impl Frame {
    /// Create a frame from a header and a command.
    pub fn new(header: Header, command: Command) -> (r: Frame)
        ensures
            r.header == header,
            r.command == command,
    {
        Frame { header, command }
    }

    /// Encode the frame and append it to `buffer`.
    pub fn encode(self, buffer: &mut Vec<u8>) -> (r: Result<(), Error>)
        ensures
            r is Ok,
            final(buffer)@ == old(buffer)@ + frame_bytes(self@),
    {
        let header_byte = self.header.to_byte();
        buffer.push(header_byte);
        let ghost mid = buffer@;
        let r = self.command.encode(buffer);
        assert(buffer@ == mid + command_bytes(self@.command));
        r
    }

    /// Decode a frame from `buffer`.
    pub fn decode(buffer: &[u8]) -> (r: Result<Frame, Error>)
        ensures
            frame_result_view(r) == frame_decoded(buffer@),
    {
        if buffer.len() < 2 {
            return Err(Error::PacketLength(buffer.len()));
        }
        let header = Header::try_from(buffer[0])?;
        let rest = &buffer[1..buffer.len()];
        assert(rest@ == buffer@.skip(1));
        let command = Command::decode(rest)?;
        Ok(Frame { header, command })
    }

    /// A copy of the header.
    pub fn header(&self) -> (r: Header)
        ensures
            r == self.header,
    {
        self.header
    }

    /// A copy of the command.
    pub fn command(&self) -> (r: Command)
        ensures
            r@ == self.command@,
    {
        self.command.clone()
    }

    /// The status that the frame reports, if it is a `LastStatus` value whose
    /// packed integer is a status code.
    pub fn last_status(&self) -> (r: Option<Status>)
        ensures
            r == frame_status(self.command@),
    {
        match &self.command {
            Command::PropertyValueIs(Property::LastStatus, value) => {
                let (code, count) = PackedU32::decode(value.as_slice());
                if count == 0 || code > 24 {
                    return None;
                }
                match Status::try_from(code as u8) {
                    Ok(status) => Some(status),
                    Err(_) => None,
                }
            },
            _ => None,
        }
    }
}

} // verus!
