//! The Spinel properties that this library knows, and their wire identifiers.
use crate::error::Error;
use crate::packed::{packed_count, packed_len_of, packed_value, PackedU32};
use vstd::prelude::*;

verus! {

/// The stream properties: data that the device pushes asynchronously.
#[derive(Clone, Copy, Debug, PartialEq, Eq, Structural)]
pub enum PropertyStream {
    /// Human-readable debugging output from the device.
    Debug,
    /// Data packets to and from the currently attached network.
    Net,
    /// Network packets that bypass link-layer security.
    NetInsecure,
    /// Log lines from the device.
    Log,
}

/// Spinel properties.
#[derive(Clone, Copy, Debug, PartialEq, Eq, Structural)]
pub enum Property {
    /// The status of the last operation, or after start-up the reason for the reset.
    LastStatus,
    /// The protocol version information.
    ProtocolVersion,
    /// A string that describes the firmware running on the device.
    NcpVersion,
    /// The network protocol of the device.
    InterfaceType,
    /// A stream of data that the device emits asynchronously.
    Stream(PropertyStream),
}

/// The wire identifier of a property.
pub open spec fn property_id(p: Property) -> u32 {
    match p {
        Property::LastStatus => 0x00,
        Property::ProtocolVersion => 0x01,
        Property::NcpVersion => 0x02,
        Property::InterfaceType => 0x03,
        Property::Stream(PropertyStream::Debug) => 0x70,
        Property::Stream(PropertyStream::Net) => 0x71,
        Property::Stream(PropertyStream::NetInsecure) => 0x73,
        Property::Stream(PropertyStream::Log) => 0x74,
    }
}

/// The property whose wire identifier is `id`, if this library knows it.
pub open spec fn property_of_id(id: nat) -> Option<Property> {
    if id == 0x00 {
        Some(Property::LastStatus)
    } else if id == 0x01 {
        Some(Property::ProtocolVersion)
    } else if id == 0x02 {
        Some(Property::NcpVersion)
    } else if id == 0x03 {
        Some(Property::InterfaceType)
    } else if id == 0x70 {
        Some(Property::Stream(PropertyStream::Debug))
    } else if id == 0x71 {
        Some(Property::Stream(PropertyStream::Net))
    } else if id == 0x73 {
        Some(Property::Stream(PropertyStream::NetInsecure))
    } else if id == 0x74 {
        Some(Property::Stream(PropertyStream::Log))
    } else {
        None
    }
}

/// The result of reading a packed property identifier at the front of `b`.
pub open spec fn property_decoded(b: Seq<u8>) -> Result<Property, Error> {
    if packed_count(b) == 0 {
        Err(Error::PackedU32ByteCount)
    } else {
        match property_of_id(packed_value(b)) {
            Some(p) => Ok(p),
            None => Err(Error::Property(packed_value(b) as u32)),
        }
    }
}

/// Each known property is found again from its identifier.
pub proof fn lemma_property_id(p: Property)
    ensures
        property_of_id(property_id(p) as nat) == Some(p),
        property_id(p) < 128,
{
}

impl Property {
    /// The wire identifier of the property.
    pub fn id(&self) -> (r: u32)
        ensures
            r == property_id(*self),
    {
        match self {
            Property::LastStatus => 0x00,
            Property::ProtocolVersion => 0x01,
            Property::NcpVersion => 0x02,
            Property::InterfaceType => 0x03,
            Property::Stream(stream) => match stream {
                PropertyStream::Debug => 0x70,
                PropertyStream::Net => 0x71,
                PropertyStream::NetInsecure => 0x73,
                PropertyStream::Log => 0x74,
            },
        }
    }

    /// The number of octets of the packed identifier.
    pub fn packed_len(&self) -> (r: usize)
        ensures
            r == packed_len_of(property_id(*self) as nat),
            r == 1,
    {
        PackedU32::packed_len(self.id())
    }

    /// The property whose wire identifier is `id`.
    pub fn try_from(id: u32) -> (r: Result<Property, Error>)
        ensures
            match property_of_id(id as nat) {
                Some(p) => r == Ok::<Property, Error>(p),
                None => r == Err::<Property, Error>(Error::Property(id)),
            },
    {
        match id {
            0x00 => Ok(Property::LastStatus),
            0x01 => Ok(Property::ProtocolVersion),
            0x02 => Ok(Property::NcpVersion),
            0x03 => Ok(Property::InterfaceType),
            0x70 => Ok(Property::Stream(PropertyStream::Debug)),
            0x71 => Ok(Property::Stream(PropertyStream::Net)),
            0x73 => Ok(Property::Stream(PropertyStream::NetInsecure)),
            0x74 => Ok(Property::Stream(PropertyStream::Log)),
            _ => Err(Error::Property(id)),
        }
    }

    /// The property whose packed identifier stands at the front of `bytes`.
    pub fn from_bytes(bytes: &[u8]) -> (r: Result<Property, Error>)
        ensures
            r == property_decoded(bytes@),
    {
        let (id, count) = PackedU32::decode(bytes);
        if count == 0 {
            return Err(Error::PackedU32ByteCount);
        }
        Property::try_from(id)
    }
}

} // verus!
