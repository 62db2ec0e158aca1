//! Spinel commands: a packed command identifier, then for the property
//! commands a packed property identifier and, for some, a payload.
use crate::buf::{push_all, tail_vec};
use crate::error::Error;
use crate::packed::{packed_bytes, packed_count, packed_len_of, packed_value, PackedU32};
use crate::property::{lemma_property_id, property_decoded, property_id, Property};
use vstd::prelude::*;

verus! {

/// Wire identifier of [`Command::Noop`].
pub const CMD_NOOP: u32 = 0x00;

/// Wire identifier of [`Command::Reset`].
pub const CMD_RESET: u32 = 0x01;

/// Wire identifier of [`Command::PropertyValueGet`].
pub const CMD_PROP_VALUE_GET: u32 = 0x02;

/// Wire identifier of [`Command::PropertyValueSet`].
pub const CMD_PROP_VALUE_SET: u32 = 0x03;

/// Wire identifier of [`Command::PropertyValueIs`].
pub const CMD_PROP_VALUE_IS: u32 = 0x06;

/// A Spinel command.
#[derive(Debug, PartialEq)]
pub enum Command {
    /// No operation: the device answers with a success status. Used to check
    /// that the device is alive.
    Noop,
    /// Reset the device; it announces the reason for the reset when it is back.
    Reset,
    /// Ask for the value of a property.
    PropertyValueGet(Property),
    /// Set the value of a property (sent, never decoded).
    PropertyValueSet(Property, Vec<u8>),
    /// The value of a property: the answer to a get, or a notification.
    PropertyValueIs(Property, Vec<u8>),
}

/// What a [`Command`] holds, with its payload as a sequence.
pub enum CommandView {
    Noop,
    Reset,
    ValueGet(Property),
    ValueSet(Property, Seq<u8>),
    ValueIs(Property, Seq<u8>),
}

impl View for Command {
    type V = CommandView;

    open spec fn view(&self) -> CommandView {
        match self {
            Command::Noop => CommandView::Noop,
            Command::Reset => CommandView::Reset,
            Command::PropertyValueGet(p) => CommandView::ValueGet(*p),
            Command::PropertyValueSet(p, v) => CommandView::ValueSet(*p, v@),
            Command::PropertyValueIs(p, v) => CommandView::ValueIs(*p, v@),
        }
    }
}

/// The wire identifier of a command.
pub open spec fn command_id(c: CommandView) -> u32 {
    match c {
        CommandView::Noop => CMD_NOOP,
        CommandView::Reset => CMD_RESET,
        CommandView::ValueGet(_) => CMD_PROP_VALUE_GET,
        CommandView::ValueSet(_, _) => CMD_PROP_VALUE_SET,
        CommandView::ValueIs(_, _) => CMD_PROP_VALUE_IS,
    }
}

/// The length of what follows the command identifier on the wire.
pub open spec fn command_payload_len(c: CommandView) -> nat {
    match c {
        CommandView::Noop | CommandView::Reset => 0,
        CommandView::ValueGet(p) => packed_len_of(property_id(p) as nat),
        CommandView::ValueSet(p, v) | CommandView::ValueIs(p, v) => packed_len_of(property_id(p) as nat)
            + v.len(),
    }
}

/// The encoding of a command.
pub open spec fn command_bytes(c: CommandView) -> Seq<u8> {
    match c {
        CommandView::Noop | CommandView::Reset => packed_bytes(command_id(c) as nat),
        CommandView::ValueGet(p) => packed_bytes(command_id(c) as nat) + packed_bytes(
            property_id(p) as nat,
        ),
        CommandView::ValueSet(p, v) | CommandView::ValueIs(p, v) => packed_bytes(command_id(c) as nat)
            + packed_bytes(property_id(p) as nat) + v,
    }
}

/// The result of decoding `b` as a command. A value is the rest of the buffer
/// after its property identifier; a get ignores what follows its identifier.
pub open spec fn command_decoded(b: Seq<u8>) -> Result<CommandView, Error> {
    if b.len() == 0 {
        Err(Error::PacketLength(0))
    } else if packed_count(b) == 0 {
        Err(Error::PackedU32ByteCount)
    } else {
        let id = packed_value(b);
        let rest = b.skip(packed_count(b) as int);
        if id == CMD_NOOP {
            Ok(CommandView::Noop)
        } else if id == CMD_RESET {
            Ok(CommandView::Reset)
        } else if id == CMD_PROP_VALUE_GET {
            match property_decoded(rest) {
                Ok(p) => Ok(CommandView::ValueGet(p)),
                Err(e) => Err(e),
            }
        } else if id == CMD_PROP_VALUE_IS {
            match property_decoded(rest) {
                Ok(p) => Ok(CommandView::ValueIs(p, rest.skip(packed_count(rest) as int))),
                Err(e) => Err(e),
            }
        } else {
            Err(Error::Command(id as u32))
        }
    }
}

/// The view of a decoding result.
pub open spec fn command_result_view(r: Result<Command, Error>) -> Result<CommandView, Error> {
    match r {
        Ok(c) => Ok(c@),
        Err(e) => Err(e),
    }
}

/// A command that can be decoded: every command but a set.
pub open spec fn command_decodable(c: CommandView) -> bool {
    !(c is ValueSet)
}

/// Decoding the encoding of a decodable command gives the command back.
pub proof fn lemma_command_round_trip(c: CommandView)
    requires
        command_decodable(c),
    ensures
        command_decoded(command_bytes(c)) == Ok::<CommandView, Error>(c),
        command_bytes(c).len() == packed_len_of(command_id(c) as nat) + command_payload_len(c),
{
    let b = command_bytes(c);
    let id = command_id(c) as nat;
    crate::packed::lemma_packed_round_trip(id, b.skip(1));
    assert(packed_bytes(id).len() == 1);
    assert(b == packed_bytes(id) + b.skip(1));
    let rest = b.skip(1);
    match c {
        CommandView::ValueGet(p) => {
            lemma_property_id(p);
            crate::packed::lemma_packed_round_trip(property_id(p) as nat, Seq::empty());
            assert(rest == packed_bytes(property_id(p) as nat) + Seq::<u8>::empty());
        },
        CommandView::ValueIs(p, v) => {
            lemma_property_id(p);
            crate::packed::lemma_packed_round_trip(property_id(p) as nat, v);
            assert(rest == packed_bytes(property_id(p) as nat) + v);
            assert(rest.skip(1) == v);
        },
        _ => {},
    }
}

impl Clone for Command {
    fn clone(&self) -> (r: Command)
        ensures
            r@ == self@,
    {
        match self {
            Command::Noop => Command::Noop,
            Command::Reset => Command::Reset,
            Command::PropertyValueGet(p) => Command::PropertyValueGet(*p),
            Command::PropertyValueSet(p, v) => {
                let mut w: Vec<u8> = Vec::new();
                push_all(&mut w, v.as_slice());
                Command::PropertyValueSet(*p, w)
            },
            Command::PropertyValueIs(p, v) => {
                let mut w: Vec<u8> = Vec::new();
                push_all(&mut w, v.as_slice());
                Command::PropertyValueIs(*p, w)
            },
        }
    }
}

impl Default for Command {
    fn default() -> (r: Command)
        ensures
            r@ == CommandView::Noop,
    {
        Command::Noop
    }
}

/// A packed integer that has not ended after three octets is refused, whether
/// it stands for a command or for a property.
pub proof fn lemma_extension_refused(b: Seq<u8>)
    requires
        b.len() >= 3,
        b[0] >= 128,
        b[1] >= 128,
        b[2] >= 128,
    ensures
        packed_count(b) == 0,
        command_decoded(b) == Err::<CommandView, Error>(Error::PackedU32ByteCount),
        property_decoded(b) == Err::<Property, Error>(Error::PackedU32ByteCount),
{
}

impl Command {
    /// The command's wire identifier.
    pub fn id(&self) -> (r: u32)
        ensures
            r == command_id(self@),
    {
        match self {
            Command::Noop => CMD_NOOP,
            Command::Reset => CMD_RESET,
            Command::PropertyValueGet(_) => CMD_PROP_VALUE_GET,
            Command::PropertyValueSet(_, _) => CMD_PROP_VALUE_SET,
            Command::PropertyValueIs(_, _) => CMD_PROP_VALUE_IS,
        }
    }

    /// The number of octets of the packed command identifier.
    pub fn packed_len(&self) -> (r: usize)
        ensures
            r == packed_len_of(command_id(self@) as nat),
    {
        PackedU32::packed_len(self.id())
    }

    /// The number of octets that follow the command identifier: the packed
    /// property identifier and the value, if any.
    pub fn payload_len(&self) -> (r: usize)
        requires
            command_payload_len(self@) <= usize::MAX,
        ensures
            r == command_payload_len(self@),
    {
        match self {
            Command::Noop => 0,
            Command::Reset => 0,
            Command::PropertyValueGet(prop) => prop.packed_len(),
            Command::PropertyValueSet(prop, value) => prop.packed_len() + value.len(),
            Command::PropertyValueIs(prop, value) => prop.packed_len() + value.len(),
        }
    }

    /// The number of octets of the whole encoded command.
    pub fn total_packed_len(&self) -> (r: usize)
        requires
            packed_len_of(command_id(self@) as nat) + command_payload_len(self@) <= usize::MAX,
        ensures
            r == command_bytes(self@).len(),
    {
        proof {
            lemma_encoded_len(self@);
        }
        self.packed_len() + self.payload_len()
    }

    /// Encode the command and append it to `buffer`.
    pub fn encode(self, buffer: &mut Vec<u8>) -> (r: Result<(), Error>)
        ensures
            r is Ok,
            final(buffer)@ == old(buffer)@ + command_bytes(self@),
    {
        let id = self.id();
        match self {
            Command::Noop | Command::Reset => {
                PackedU32::write_to_buffer(id, buffer);
            },
            Command::PropertyValueGet(prop) => {
                Self::write_to_buffer_with_property(id, prop, buffer);
            },
            Command::PropertyValueSet(prop, value) | Command::PropertyValueIs(prop, value) => {
                Self::write_to_buffer_with_property(id, prop, buffer);
                push_all(buffer, value.as_slice());
            },
        }
        Ok(())
    }

    /// Append the packed command and property identifiers to `buffer`,
    /// returning the number of octets written.
    fn write_to_buffer_with_property(cmd: u32, prop: Property, buffer: &mut Vec<u8>) -> (r: usize)
        requires
            cmd < 128,
        ensures
            final(buffer)@ == old(buffer)@ + packed_bytes(cmd as nat) + packed_bytes(
                property_id(prop) as nat,
            ),
            r == 2,
    {
        proof {
            lemma_property_id(prop);
        }
        let cmd_count = PackedU32::write_to_buffer(cmd, buffer);
        let prop_count = PackedU32::write_to_buffer(prop.id(), buffer);
        cmd_count + prop_count
    }

    /// Decode a command from `buffer`.
    pub fn decode(buffer: &[u8]) -> (r: Result<Command, Error>)
        ensures
            command_result_view(r) == command_decoded(buffer@),
    {
        if buffer.len() == 0 {
            return Err(Error::PacketLength(0));
        }
        let (id, cmd_id_len) = PackedU32::decode(buffer);
        if cmd_id_len == 0 {
            return Err(Error::PackedU32ByteCount);
        }
        let payload = &buffer[cmd_id_len..buffer.len()];
        assert(payload@ == buffer@.skip(cmd_id_len as int));
        match id {
            CMD_NOOP => Ok(Command::Noop),
            CMD_RESET => Ok(Command::Reset),
            CMD_PROP_VALUE_GET => {
                let prop = Property::from_bytes(payload)?;
                Ok(Command::PropertyValueGet(prop))
            },
            CMD_PROP_VALUE_IS => {
                let prop = Property::from_bytes(payload)?;
                let (_, prop_len) = PackedU32::decode(payload);
                let value = tail_vec(payload, prop_len);
                Ok(Command::PropertyValueIs(prop, value))
            },
            _ => Err(Error::Command(id)),
        }
    }
}

/// The encoding of a command is its identifier's octets and then its payload's.
pub proof fn lemma_encoded_len(c: CommandView)
    ensures
        command_bytes(c).len() == packed_len_of(command_id(c) as nat) + command_payload_len(c),
{
    match c {
        CommandView::ValueGet(p) | CommandView::ValueSet(p, _) | CommandView::ValueIs(p, _) => {
            lemma_property_id(p);
        },
        _ => {},
    }
}

} // verus!
