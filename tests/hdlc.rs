use rand::distributions::Uniform;
use rand::Rng;
use spinel::{Command, Error, Frame, HdlcLiteFrame, Header, Property, PropertyStream};

const TEST_DESYNC_STR: [u8; 24] = [
    0xc2, 0x5a, 0xa7, 0xaf, 0x97, 0xb1, 0x54, 0x99, 0x2b, 0xf5, 0x06, 0xe5, 0x7b, 0x5d, 0xdc,
    0x8d, 0x24, 0x81, 0x3f, 0x7e, 0x7e, 0x80, 0x06, 0x73,
];

const TEST_REQ_NOOP_ARRAY: [u8; 6] = [0x7e, 0x81, 0x00, 0x53, 0x9a, 0x7e];
const TEST_REQ_NCP_VERSION_ARRAY: [u8; 7] = [0x7e, 0x81, 0x02, 0x02, 0x5e, 0x80, 0x7e];

const TEST_RESP_NCP_VERSION_ARRAY: [u8; 91] = [
    0x7e, 0x81, 0x06, 0x02, 0x4f, 0x50, 0x45, 0x4e, 0x54, 0x48, 0x52, 0x45, 0x41, 0x44, 0x2f,
    0x74, 0x68, 0x72, 0x65, 0x61, 0x64, 0x2d, 0x72, 0x65, 0x66, 0x65, 0x72, 0x65, 0x6e, 0x63,
    0x65, 0x2d, 0x32, 0x30, 0x32, 0x33, 0x30, 0x37, 0x30, 0x36, 0x2d, 0x33, 0x38, 0x30, 0x2d,
    0x67, 0x62, 0x39, 0x64, 0x63, 0x64, 0x62, 0x63, 0x61, 0x34, 0x3b, 0x20, 0x4e, 0x52, 0x46,
    0x35, 0x32, 0x38, 0x34, 0x30, 0x3b, 0x20, 0x4d, 0x61, 0x72, 0x20, 0x20, 0x31, 0x20, 0x32,
    0x30, 0x32, 0x34, 0x20, 0x31, 0x36, 0x3a, 0x31, 0x32, 0x3a, 0x32, 0x38, 0x00, 0x05, 0xc4,
    0x7e,
];
const TEST_RESP_NCP_VERSION_STR: &str =
    "OPENTHREAD/thread-reference-20230706-380-gb9dcdbca4; NRF52840; Mar  1 2024 16:12:28\0";

const TEST_HDLC_DECODE_STREAM: [u8; 96] = [
    0x7e, 0x80, 0x06, 0x73, 0x54, 0x00, 0x60, 0x00, 0x00, 0x00, 0x00, 0x2c, 0x7d, 0x31, 0xff,
    0xfe, 0x80, 0x00, 0x00, 0x00, 0x00, 0x00, 0x00, 0xb4, 0x0f, 0x00, 0xb3, 0x98, 0x60, 0x22,
    0x52, 0xff, 0x02, 0x00, 0x00, 0x00, 0x00, 0x00, 0x00, 0x00, 0x00, 0x00, 0x00, 0x00, 0x00,
    0x00, 0x02, 0x4d, 0x4c, 0x4d, 0x4c, 0x00, 0x2c, 0x1a, 0x25, 0x00, 0x15, 0x10, 0x00, 0x00,
    0x00, 0x00, 0x00, 0x00, 0x00, 0x01, 0x65, 0x7d, 0x5d, 0x91, 0xac, 0x2d, 0x26, 0x35, 0x78,
    0x62, 0x34, 0x7d, 0x31, 0xce, 0xb6, 0x0a, 0x4c, 0x88, 0x41, 0xd8, 0xfa, 0xe3, 0xd6, 0x03,
    0xab, 0xae, 0x3a, 0x68, 0xb3, 0x7e,
];

#[test]
fn find_frame_delimiter() {
    let mut rng = rand::thread_rng();
    let range = Uniform::new(0, 255);

    let mut test_vector: Vec<u8> = (0..512)
        .map(|_| rng.sample(&range))
        .map(|b| if b == 0x7E { b + 1 } else { b })
        .collect();

    let random_index = rng.gen_range(0..test_vector.len());
    test_vector[random_index] = 0x7E;

    let index = HdlcLiteFrame::find_frame_delimiter(&test_vector);
    assert_eq!(index, Some(random_index));
}

#[test]
fn finds_frame_in_misaligned_buffer() {
    let bytes = [0x09, 0x27, 0x7e, 0x81, 0x00, 0x53, 0x9a, 0x7e, 0x11, 0x23];
    let result = HdlcLiteFrame::find_frame(&bytes);
    assert_eq!(result, Some((2, 7)));
}

#[test]
fn errors_on_incorrect_checksum() {
    let mut bytes = TEST_REQ_NOOP_ARRAY.to_vec();
    let test = bytes.get_mut(4).unwrap();
    *test = 0x00;

    assert_eq!(HdlcLiteFrame::decode(&bytes), Err(Error::HdlcChecksum(0x9A53)));
}

#[test]
fn errors_on_missing_delimiter() {
    let bytes = [0x7E, 0x7D, 0x11, 0x13, 0xF8, 0x7E];
    let missing_start = bytes[1..].to_vec();
    let test = HdlcLiteFrame::decode(&missing_start);
    assert_eq!(test, Err(Error::HdlcStartDelimiter(0x7D)));

    let missing_end = bytes[..5].to_vec();
    let test = HdlcLiteFrame::decode(&missing_end);
    assert_eq!(test, Err(Error::HdlcEndDelimiter(0xF8)));
}

#[test]
fn requires_escape() {
    let escape_bytes = [0x7E, 0x7D, 0x11, 0x13, 0xF8];
    for byte in escape_bytes.iter() {
        let escape = HdlcLiteFrame::requires_escape(*byte);
        assert_eq!(escape, true);
    }
}

#[test]
fn find_frame_returns_none_on_desync() {
    let frame = HdlcLiteFrame::find_frame(&TEST_DESYNC_STR);
    assert_eq!(frame, None);
}

#[test]
fn encode_noop() {
    let header = Header::new(0x00, 0x01);
    let cmd = Command::Noop;
    let spinel_frame = Frame::new(header, cmd);
    let hdlc_frame = HdlcLiteFrame::new(spinel_frame);

    let mut buffer = Vec::with_capacity(32);
    hdlc_frame.encode(&mut buffer).unwrap();
    assert_eq!(buffer, TEST_REQ_NOOP_ARRAY.to_vec());
}

#[test]
fn decode_noop() {
    let frame = HdlcLiteFrame::decode(&TEST_REQ_NOOP_ARRAY);
    let expected = Frame::new(Header::new(0x00, 0x01), Command::Noop);
    assert_eq!(frame, Ok(HdlcLiteFrame::new(expected)));
}

#[test]
fn encode_property_get_ncp_version() {
    let header = Header::new(0x00, 0x01);
    let cmd = Command::PropertyValueGet(Property::NcpVersion);
    let spinel_frame = Frame::new(header, cmd);

    let hdlc_frame = HdlcLiteFrame::new(spinel_frame);
    let mut buffer = Vec::with_capacity(4096);
    hdlc_frame.encode(&mut buffer).unwrap();
    println!("{buffer:02x?}");
    assert_eq!(buffer, TEST_REQ_NCP_VERSION_ARRAY.to_vec());
}

#[test]
fn decode_property_get_ncp_version() {
    let frame = HdlcLiteFrame::decode(&TEST_REQ_NCP_VERSION_ARRAY);
    let expected = HdlcLiteFrame::new(Frame::new(
        Header::new(0x00, 0x01),
        Command::PropertyValueGet(Property::NcpVersion),
    ));
    assert_eq!(frame, Ok(expected));
}

#[test]
fn decode_ncp_version_property_is() {
    let frame = HdlcLiteFrame::decode(&TEST_RESP_NCP_VERSION_ARRAY);
    let expected = HdlcLiteFrame::new(Frame::new(
        Header::new(0x00, 0x01),
        Command::PropertyValueIs(
            Property::NcpVersion,
            TEST_RESP_NCP_VERSION_STR.as_bytes().to_vec(),
        ),
    ));
    assert_eq!(frame, Ok(expected));
}

#[test]
fn encode_ncp_version_property_is() {
    let header = Header::new(0x00, 0x01);
    let cmd = Command::PropertyValueIs(
        Property::NcpVersion,
        TEST_RESP_NCP_VERSION_STR.as_bytes().to_vec(),
    );
    let spinel_frame = Frame::new(header, cmd);
    let hdlc_frame = HdlcLiteFrame::new(spinel_frame);
    let mut buffer = Vec::with_capacity(4096);
    hdlc_frame.encode(&mut buffer).unwrap();
    assert_eq!(buffer, TEST_RESP_NCP_VERSION_ARRAY.to_vec());
}

#[test]
fn decode_stream() {
    println!("bytes: {:02x?}", &TEST_HDLC_DECODE_STREAM[..]);
    let frame = HdlcLiteFrame::decode(&TEST_HDLC_DECODE_STREAM);
    assert!(frame.is_ok());
}

#[test]
fn decode_stream_is_a_net_insecure_value() {
    let frame = HdlcLiteFrame::decode(&TEST_HDLC_DECODE_STREAM).unwrap().into_inner();
    assert_eq!(frame.header().tid(), 0);
    match frame.command() {
        Command::PropertyValueIs(Property::Stream(PropertyStream::NetInsecure), value) => {
            assert_eq!(value[0], 0x54);
            assert!(value.contains(&0x11));
            assert!(value.contains(&0x7D));
        }
        other => panic!("unexpected command {:?}", other),
    }
}

#[test]
fn escaped_octets_round_trip() {
    let frame = Frame::new(
        Header::new(0x02, 0x0F),
        Command::PropertyValueIs(
            Property::Stream(PropertyStream::Net),
            vec![0x7E, 0x7D, 0x11, 0x13, 0xF8, 0x5E, 0x00],
        ),
    );
    let mut buffer = Vec::new();
    HdlcLiteFrame::new(frame.clone()).encode(&mut buffer).unwrap();
    assert_eq!(buffer[0], 0x7E);
    assert_eq!(*buffer.last().unwrap(), 0x7E);
    assert!(buffer[1..buffer.len() - 1].iter().all(|&b| b != 0x7E));
    assert_eq!(
        &buffer[1..14],
        &[0xAF, 0x06, 0x71, 0x7D, 0x5E, 0x7D, 0x5D, 0x7D, 0x31, 0x7D, 0x33, 0x7D, 0xD8]
    );
    assert_eq!(HdlcLiteFrame::decode(&buffer).unwrap().into_inner(), frame);
}

#[test]
fn every_single_bit_flip_is_caught_by_the_checksum() {
    let frames = [TEST_REQ_NOOP_ARRAY.to_vec(), TEST_REQ_NCP_VERSION_ARRAY.to_vec()];
    for intact in frames.iter() {
        for index in 1..intact.len() - 1 {
            for bit in 0..8 {
                let mut bytes = intact.clone();
                bytes[index] ^= 1 << bit;
                match HdlcLiteFrame::decode(&bytes) {
                    Err(Error::HdlcChecksum(_)) => {}
                    other => panic!("flip of bit {bit} at {index} gave {:?}", other),
                }
            }
        }
    }
}

#[test]
fn resynchronises_behind_garbage() {
    let garbage = [0x01, 0x02, 0x7D, 0x33];
    let mut encoded = Vec::new();
    HdlcLiteFrame::new(Frame::new(Header::new(0, 3), Command::Reset))
        .encode(&mut encoded)
        .unwrap();
    let mut bytes = garbage.to_vec();
    bytes.extend_from_slice(&encoded);
    bytes.extend_from_slice(&[0x55, 0x7E, 0x44]);
    assert_eq!(
        HdlcLiteFrame::find_frame(&bytes),
        Some((garbage.len(), garbage.len() + encoded.len() - 1))
    );
}

#[test]
fn repeated_delimiters_share_a_boundary() {
    let bytes = [0x7E, 0x7E, 0x7E, 0x81, 0x00, 0x53, 0x9A, 0x7E];
    assert_eq!(HdlcLiteFrame::find_frame(&bytes), Some((2, 7)));
    assert_eq!(HdlcLiteFrame::find_frame(&[0x7E, 0x7E, 0x7E]), None);
    assert_eq!(HdlcLiteFrame::find_frame_delimiter(&[0x01, 0x02]), None);
}

#[test]
fn short_packets_are_refused() {
    assert_eq!(HdlcLiteFrame::decode(&[]), Err(Error::PacketLength(0)));
    assert_eq!(HdlcLiteFrame::decode(&[0x7E]), Err(Error::PacketLength(1)));
    assert_eq!(HdlcLiteFrame::decode(&[0x7E, 0x81, 0x7E]), Err(Error::PacketLength(1)));
    assert_eq!(HdlcLiteFrame::decode_packet(&[0x81], 0), Err(Error::PacketLength(1)));
}

#[test]
fn decode_packet_checks_the_given_checksum() {
    let packet = [0x81, 0x00, 0x53, 0x9A];
    assert_eq!(
        HdlcLiteFrame::decode_packet(&packet, 0x9A53),
        Ok(HdlcLiteFrame::new(Frame::new(Header::new(0, 1), Command::Noop)))
    );
    assert_eq!(HdlcLiteFrame::decode_packet(&packet, 0x1234), Err(Error::HdlcChecksum(0x1234)));
}

#[test]
fn encode_with_checksum_escapes_the_checksum() {
    let mut buffer = Vec::new();
    HdlcLiteFrame::encode_with_checksum(&[0x81, 0x00], 0x117E, &mut buffer);
    assert_eq!(buffer, vec![0x7E, 0x81, 0x00, 0x7D, 0x5E, 0x7D, 0x31, 0x7E]);
}
