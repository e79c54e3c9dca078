use hlk_ld6002::aggregate::Data;
use hlk_ld6002::checksum::checksum;
use hlk_ld6002::message::MessageBody;
use hlk_ld6002::protocol::{
    ChecksumKind, Frame, FrameConfig, FrameData, FrameHeader, LdError, MessageType,
};
use hlk_ld6002::stream::{MessageStream, StreamMode};

type Error = LdError<()>;

const LENIENT_LENGTH: FrameConfig = FrameConfig { strict_length: false, check_header_checksum: false };
const STRICT_LENGTH: FrameConfig = FrameConfig { strict_length: true, check_header_checksum: false };

fn words(ws: &[u32]) -> Vec<u8> {
    let mut out = Vec::new();
    for w in ws {
        out.extend_from_slice(&w.to_le_bytes());
    }
    out
}

fn header_bytes(id: u16, length: u16, code: u16) -> Vec<u8> {
    let mut h = Vec::new();
    h.extend_from_slice(&id.to_be_bytes());
    h.extend_from_slice(&length.to_be_bytes());
    h.extend_from_slice(&code.to_be_bytes());
    h.push(checksum(&h));
    h
}

fn wire(code: u16, payload: &[u8]) -> Vec<u8> {
    let mut f = vec![0x01];
    f.extend(header_bytes(1, payload.len() as u16, code));
    f.extend_from_slice(payload);
    f.push(checksum(payload));
    f
}

fn body_of(ty: MessageType, payload: &[u8]) -> Result<MessageBody, Error> {
    let header = FrameHeader { id: 0, length: payload.len() as u16, ty };
    Frame::new(header, payload).body()
}

#[test]
fn checksum_is_complement_of_xor() {
    assert_eq!(checksum(&[]), 0xff);
    assert_eq!(checksum(&[0xff]), 0x00);
    assert_eq!(checksum(&[0x00, 0x00, 0x20, 0x40]), 0x9f);
    assert_eq!(checksum(&[0x12, 0x34]), !(0x12u8 ^ 0x34));
}

#[test]
fn checksum_twice_is_identical() {
    let data = [3u8, 200, 17, 0, 99];
    assert_eq!(checksum(&data), checksum(&data));
}

#[test]
fn message_type_codes() {
    assert_eq!(MessageType::from_code::<()>(0x0a13), Ok(MessageType::Phase));
    assert_eq!(MessageType::from_code::<()>(0x0a14), Ok(MessageType::Respiratory));
    assert_eq!(MessageType::from_code::<()>(0x0a15), Ok(MessageType::Heartbeat));
    assert_eq!(MessageType::from_code::<()>(0x0a16), Ok(MessageType::Distance));
    assert_eq!(MessageType::from_code::<()>(0x0a17), Err(LdError::InvalidMessageType(0x0a17)));
    assert_eq!(MessageType::from_code::<()>(0), Err(LdError::InvalidMessageType(0)));
    assert_eq!(MessageType::Distance.code(), 0x0a16);
}

#[test]
fn message_type_read_from_bytes() {
    assert_eq!(MessageType::read::<()>(&[0x0a, 0x15]), Ok(MessageType::Heartbeat));
    assert_eq!(MessageType::read::<()>(&[0x0a]), Err(LdError::Eof));
    assert_eq!(MessageType::read::<()>(&[0x15, 0x0a]), Err(LdError::InvalidMessageType(0x150a)));
}

#[test]
fn expected_lengths() {
    assert_eq!(MessageType::Phase.expected_length(), 12);
    assert_eq!(MessageType::Respiratory.expected_length(), 4);
    assert_eq!(MessageType::Heartbeat.expected_length(), 4);
    assert_eq!(MessageType::Distance.expected_length(), 8);
}

#[test]
fn header_fields_are_big_endian() {
    let h = FrameHeader::read::<()>(&[0x12, 0x34, 0x00, 0x04, 0x0a, 0x14, 0x00], false).unwrap();
    assert_eq!(h, FrameHeader { id: 0x1234, length: 4, ty: MessageType::Respiratory });
    assert_eq!(FrameHeader::read::<()>(&[0x12, 0x34, 0x00, 0x04, 0x0a, 0x14], false), Err(LdError::Eof));
    assert_eq!(
        FrameHeader::read::<()>(&[0, 1, 0, 4, 0x0b, 0x14, 0], false),
        Err(LdError::InvalidMessageType(0x0b14))
    );
}

#[test]
fn header_checksum_only_when_enabled() {
    let bytes = [0x00, 0x01, 0x00, 0x04, 0x0a, 0x14, 0x00];
    assert!(FrameHeader::read::<()>(&bytes, false).is_ok());
    let expected = checksum(&bytes[..6]);
    assert_eq!(
        FrameHeader::read::<()>(&bytes, true),
        Err(LdError::InvalidChecksum { kind: ChecksumKind::Header, got: expected, expected: 0 })
    );
    let good = header_bytes(1, 4, 0x0a14);
    assert!(FrameHeader::read::<()>(&good, true).is_ok());
}

#[test]
fn frame_data_length() {
    let d: FrameData<16> = FrameData::from_slice(&[1, 2, 3]);
    assert_eq!(d.len(), 3);
    assert_eq!(d.as_slice(), &[1, 2, 3]);
    assert_eq!(d.to_vec(), vec![1, 2, 3]);
}

#[test]
fn body_phase_three_floats() {
    let bits = [1.5f32.to_bits(), (-0.25f32).to_bits(), 3.0f32.to_bits()];
    assert_eq!(body_of(MessageType::Phase, &words(&bits)), Ok(MessageBody::Phase(bits)));
}

#[test]
fn body_respiratory_and_heartbeat() {
    let bits = 14.5f32.to_bits();
    assert_eq!(body_of(MessageType::Respiratory, &words(&[bits])), Ok(MessageBody::Respiratory(bits)));
    assert_eq!(body_of(MessageType::Heartbeat, &words(&[bits])), Ok(MessageBody::Heartbeat(bits)));
}

#[test]
fn body_distance_present() {
    let bits = 3.5f32.to_bits();
    assert_eq!(body_of(MessageType::Distance, &words(&[1, bits])), Ok(MessageBody::Distance(Some(bits))));
}

#[test]
fn body_distance_not_flagged_is_zero() {
    for x in [0u32, 7.0f32.to_bits(), u32::MAX] {
        assert_eq!(
            body_of(MessageType::Distance, &words(&[0, x])),
            Ok(MessageBody::Distance(Some(0.0f32.to_bits())))
        );
    }
    assert_eq!(body_of(MessageType::Distance, &words(&[2, 9])), Ok(MessageBody::Distance(Some(0))));
}

#[test]
fn body_distance_short_is_absent() {
    assert_eq!(body_of(MessageType::Distance, &[9, 9, 9, 9]), Ok(MessageBody::Distance(None)));
}

#[test]
fn body_other_pairs_fail() {
    assert_eq!(
        body_of(MessageType::Respiratory, &[0; 8]),
        Err(LdError::InvalidDataLength { expected: 4, got: 8, ty: MessageType::Respiratory })
    );
    assert_eq!(
        body_of(MessageType::Phase, &[0; 4]),
        Err(LdError::InvalidDataLength { expected: 12, got: 4, ty: MessageType::Phase })
    );
    assert_eq!(
        body_of(MessageType::Distance, &[]),
        Err(LdError::InvalidDataLength { expected: 8, got: 0, ty: MessageType::Distance })
    );
}

#[test]
fn well_formed_frame_is_read() {
    let payload = words(&[2.5f32.to_bits()]);
    let bytes = wire(0x0a14, &payload);
    let (r, used) = Frame::read::<()>(&bytes, STRICT_LENGTH);
    let frame = r.unwrap();
    assert_eq!(used, bytes.len());
    assert_eq!(frame.header(), FrameHeader { id: 1, length: 4, ty: MessageType::Respiratory });
    assert_eq!(frame.data().as_slice(), &payload[..]);
}

#[test]
fn flipped_payload_bit_fails_checksum() {
    let payload = words(&[2.5f32.to_bits()]);
    let good = wire(0x0a14, &payload);
    for i in 0..4 {
        for bit in 0..8 {
            let mut bad = good.clone();
            bad[8 + i] ^= 1 << bit;
            let (r, used) = Frame::read::<()>(&bad, STRICT_LENGTH);
            assert_eq!(used, bad.len());
            match r {
                Err(LdError::InvalidChecksum { kind: ChecksumKind::Body, got, expected }) => {
                    assert_eq!(got, checksum(&bad[8..12]));
                    assert_eq!(expected, checksum(&payload));
                }
                other => panic!("unexpected outcome {:?}", other),
            }
        }
    }
}

#[test]
fn garbage_before_frame_is_skipped() {
    let payload = words(&[60.0f32.to_bits()]);
    let frame = wire(0x0a15, &payload);
    for n in [0usize, 1, 1000] {
        let mut bytes: Vec<u8> = (0..n).map(|i| if i % 7 == 1 { 0xaa } else { (i % 256) as u8 | 0x80 }).collect();
        bytes.extend_from_slice(&frame);
        let (r, used) = Frame::read::<()>(&bytes, STRICT_LENGTH);
        assert_eq!(used, n + frame.len());
        assert_eq!(r.unwrap().body::<()>(), Ok(MessageBody::Heartbeat(60.0f32.to_bits())));
    }
}

#[test]
fn oversized_length_rejected_before_payload() {
    let mut bytes = vec![0x01];
    bytes.extend(header_bytes(1, 17, 0x0a13));
    let (r, used) = Frame::read::<()>(&bytes, LENIENT_LENGTH);
    assert_eq!(r.unwrap_err(), LdError::InvalidDataLength { expected: 12, got: 17, ty: MessageType::Phase });
    assert_eq!(used, 8);
}

#[test]
fn respiratory_with_eight_bytes_rejected() {
    let bytes = wire(0x0a14, &[0; 8]);
    let expected: Error = LdError::InvalidDataLength { got: 8, expected: 4, ty: MessageType::Respiratory };
    let (r, used) = Frame::read::<()>(&bytes, STRICT_LENGTH);
    assert_eq!(r.unwrap_err(), expected);
    assert_eq!(used, 8);
    let (r, _) = Frame::read::<()>(&bytes, LENIENT_LENGTH);
    assert_eq!(r.unwrap().body::<()>(), Err(expected));
}

#[test]
fn incomplete_frame_is_eof() {
    let bytes = wire(0x0a14, &[0; 4]);
    for cut in 0..bytes.len() {
        let (r, used) = Frame::read::<()>(&bytes[..cut], STRICT_LENGTH);
        assert_eq!(r.unwrap_err(), LdError::Eof);
        assert_eq!(used, 0);
    }
    let (r, used) = Frame::read::<()>(&[5, 6, 7], STRICT_LENGTH);
    assert_eq!(r.unwrap_err(), LdError::Eof);
    assert_eq!(used, 3);
}

#[test]
fn aggregate_filters_implausible_values() {
    let mut data = Data::default();
    data.update(MessageBody::Respiratory((-1.0f32).to_bits()));
    assert_eq!(data.respiratory, 0);
    data.update(MessageBody::Respiratory(12.0f32.to_bits()));
    assert_eq!(f32::from_bits(data.respiratory), 12.0);
    data.update(MessageBody::Distance(Some(2.0f32.to_bits())));
    data.update(MessageBody::Distance(Some(0.0f32.to_bits())));
    assert_eq!(f32::from_bits(data.distance), 2.0);
    data.update(MessageBody::Distance(None));
    assert_eq!(f32::from_bits(data.distance), 2.0);
    data.update(MessageBody::Heartbeat(f32::NAN.to_bits()));
    data.update(MessageBody::Heartbeat((-0.0f32).to_bits()));
    assert_eq!(data.heartbeat, 0);
    data.update(MessageBody::Heartbeat(72.0f32.to_bits()));
    assert_eq!(f32::from_bits(data.heartbeat), 72.0);
    data.update(MessageBody::Phase([1, 2, 3]));
    assert_eq!(data, Data { respiratory: 12.0f32.to_bits(), distance: 2.0f32.to_bits(), heartbeat: 72.0f32.to_bits() });
}

#[test]
fn end_to_end_respiratory() {
    let mut bytes = vec![0x01, 0x00, 0x01, 0x00, 0x04, 0x0a, 0x14, 0x00];
    let payload = 2.5f32.to_le_bytes();
    bytes.extend_from_slice(&payload);
    bytes.push(checksum(&payload));
    let mut stream = MessageStream::new(STRICT_LENGTH, StreamMode::Strict);
    let mut data = Data::new();
    let mut messages = Vec::new();
    for b in bytes {
        stream.push(b);
        while let Some(m) = stream.next_message::<()>() {
            messages.push(m);
        }
    }
    assert_eq!(messages, vec![Ok(MessageBody::Respiratory(2.5f32.to_bits()))]);
    data.update(messages[0].clone().unwrap());
    assert_eq!(f32::from_bits(data.respiratory), 2.5);
}

#[test]
fn strict_stream_reports_bad_frames() {
    let mut bytes = wire(0x0a99, &[0; 4]);
    bytes.extend(wire(0x0a15, &words(&[80.0f32.to_bits()])));
    let mut stream = MessageStream::new(STRICT_LENGTH, StreamMode::Strict);
    for b in &bytes {
        stream.push(*b);
    }
    assert_eq!(stream.next_message::<()>(), Some(Err(LdError::InvalidMessageType(0x0a99))));
    assert_eq!(stream.next_message::<()>(), Some(Ok(MessageBody::Heartbeat(80.0f32.to_bits()))));
    assert_eq!(stream.next_message::<()>(), None);
}

#[test]
fn lenient_stream_skips_bad_frames() {
    let mut bytes = vec![0xff, 0x33];
    let mut bad = wire(0x0a15, &words(&[1]));
    let last = bad.len() - 1;
    bad[last] ^= 0x01;
    bytes.extend(bad);
    bytes.extend(wire(0x0a16, &[0; 4]));
    let mut stream = MessageStream::new(LENIENT_LENGTH, StreamMode::Lenient);
    for b in &bytes {
        stream.push(*b);
    }
    assert_eq!(stream.next_message::<()>(), Some(Ok(MessageBody::Distance(None))));
    assert_eq!(stream.next_message::<()>(), None);
}

#[test]
fn stream_read_returns_frame() {
    let mut stream = MessageStream::new(STRICT_LENGTH, StreamMode::Strict);
    for b in wire(0x0a13, &words(&[1, 2, 3])) {
        stream.push(b);
    }
    let frame = stream.read::<()>().unwrap();
    assert_eq!(frame.body::<()>(), Ok(MessageBody::Phase([1, 2, 3])));
    assert_eq!(stream.read::<()>().unwrap_err(), LdError::Eof);
}

#[test]
fn frame_data_read_checks_declared_length() {
    let header = FrameHeader { id: 0, length: 4, ty: MessageType::Heartbeat };
    let d: FrameData<16> = FrameData::read::<()>(&[1, 2, 3, 4, 5], &header, true).unwrap();
    assert_eq!(d.as_slice(), &[1, 2, 3, 4]);
    assert_eq!(FrameData::<16>::read::<()>(&[1, 2, 3], &header, true).unwrap_err(), LdError::Eof);
    let long = FrameHeader { id: 0, length: 20, ty: MessageType::Heartbeat };
    assert_eq!(
        FrameData::<16>::read::<()>(&[0; 32], &long, false).unwrap_err(),
        LdError::InvalidDataLength { expected: 4, got: 20, ty: MessageType::Heartbeat }
    );
    let distance4 = FrameHeader { id: 0, length: 4, ty: MessageType::Distance };
    assert!(FrameData::<16>::read::<()>(&[0; 4], &distance4, false).is_ok());
    assert_eq!(
        FrameData::<16>::read::<()>(&[0; 4], &distance4, true).unwrap_err(),
        LdError::InvalidDataLength { expected: 8, got: 4, ty: MessageType::Distance }
    );
}

#[test]
fn stream_waits_for_whole_frame() {
    let bytes = wire(0x0a16, &words(&[1, 1.25f32.to_bits()]));
    let mut stream = MessageStream::new(STRICT_LENGTH, StreamMode::Strict);
    for (i, b) in bytes.iter().enumerate() {
        stream.push(*b);
        let m = stream.next_message::<()>();
        if i + 1 < bytes.len() {
            assert_eq!(m, None);
        } else {
            assert_eq!(m, Some(Ok(MessageBody::Distance(Some(1.25f32.to_bits())))));
        }
    }
}

#[test]
fn lenient_stream_drops_undecodable_bodies() {
    let mut bytes = wire(0x0a13, &[0; 4]);
    bytes.extend(wire(0x0a14, &words(&[16.0f32.to_bits()])));
    let mut stream = MessageStream::new(LENIENT_LENGTH, StreamMode::Lenient);
    for b in &bytes {
        stream.push(*b);
    }
    assert_eq!(stream.next_message::<()>(), Some(Ok(MessageBody::Respiratory(16.0f32.to_bits()))));
}
