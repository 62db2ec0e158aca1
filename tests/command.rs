use spinel::{Command, Error, Property, PropertyStream};

struct TestCmdArrayItem {
    cmd: Command,
    len: usize,
    bytes: &'static [u8],
}

fn test_cmd_array() -> [TestCmdArrayItem; 3] {
    [
        TestCmdArrayItem { cmd: Command::Noop, len: 1, bytes: &[0x00] },
        TestCmdArrayItem { cmd: Command::Reset, len: 1, bytes: &[0x01] },
        TestCmdArrayItem {
            cmd: Command::PropertyValueGet(Property::LastStatus),
            len: 2,
            bytes: &[0x02, 0x00],
        },
    ]
}

#[test]
fn try_from_cmd_all_commands() {
    for item in test_cmd_array().iter() {
        let mut bytes = Vec::new();
        item.cmd.clone().encode(&mut bytes).unwrap();
        assert_eq!(bytes.len(), item.len);
        assert_eq!(bytes, item.bytes.to_vec());
    }
}

#[test]
fn payload_len() {
    for item in test_cmd_array().iter() {
        println!("Command: {:?}", item.cmd);
        assert_eq!(item.cmd.total_packed_len(), item.len);
    }
}

#[test]
fn decode_all_commands() {
    for item in test_cmd_array().iter() {
        let cmd = Command::decode(item.bytes).unwrap();
        assert_eq!(cmd, item.cmd);
    }
}

#[test]
fn decode_fails_on_empty_buffer() {
    let cmd = Command::decode(&[]);
    assert_eq!(cmd, Err(Error::PacketLength(0)));
}

#[test]
fn decode_fails_on_unknown_command() {
    let cmd = Command::decode(&[0xFF, 0xFF, 0x7F]);
    assert_eq!(cmd, Err(Error::Command(2_097_151)));
}

#[test]
fn decode_fails_on_unknown_property() {
    let cmd = Command::decode(&[0x02, 0x05]);
    assert_eq!(cmd, Err(Error::Property(5)));
}

#[test]
fn decode_fails_on_unterminated_identifiers() {
    assert_eq!(Command::decode(&[0xFF, 0xFF, 0xFF, 0x7F]), Err(Error::PackedU32ByteCount));
    assert_eq!(Command::decode(&[0x80]), Err(Error::PackedU32ByteCount));
    assert_eq!(Command::decode(&[0x06]), Err(Error::PackedU32ByteCount));
}

#[test]
fn set_is_encoded_but_not_decoded() {
    let mut bytes = Vec::new();
    Command::PropertyValueSet(Property::Stream(PropertyStream::Net), vec![0xAA, 0xBB])
        .encode(&mut bytes)
        .unwrap();
    assert_eq!(bytes, vec![0x03, 0x71, 0xAA, 0xBB]);
    assert_eq!(Command::decode(&bytes), Err(Error::Command(3)));
}

#[test]
fn property_value_is_round_trip() {
    let cmd = Command::PropertyValueIs(Property::Stream(PropertyStream::Log), vec![1, 2, 3]);
    assert_eq!(cmd.id(), 6);
    assert_eq!(cmd.packed_len(), 1);
    assert_eq!(cmd.payload_len(), 4);
    let mut bytes = Vec::new();
    cmd.clone().encode(&mut bytes).unwrap();
    assert_eq!(bytes, vec![0x06, 0x74, 1, 2, 3]);
    assert_eq!(Command::decode(&bytes), Ok(cmd));
}

#[test]
fn property_ids() {
    let all = [
        (Property::LastStatus, 0x00),
        (Property::ProtocolVersion, 0x01),
        (Property::NcpVersion, 0x02),
        (Property::InterfaceType, 0x03),
        (Property::Stream(PropertyStream::Debug), 0x70),
        (Property::Stream(PropertyStream::Net), 0x71),
        (Property::Stream(PropertyStream::NetInsecure), 0x73),
        (Property::Stream(PropertyStream::Log), 0x74),
    ];
    for (prop, id) in all.iter() {
        assert_eq!(prop.id(), *id);
        assert_eq!(prop.packed_len(), 1);
        assert_eq!(Property::try_from(*id), Ok(*prop));
        assert_eq!(Property::from_bytes(&[*id as u8]), Ok(*prop));
    }
    assert_eq!(Property::try_from(0x72), Err(Error::Property(0x72)));
}
