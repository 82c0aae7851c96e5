use mavlink::dialects::common::{MavAutopilot, MavModeFlag, MavState, MavType, HEARTBEAT_DATA};
use mavlink::dialects::common::MavMessage;
use mavlink::Message;
use supervisor::codec::{encode_frame, take_frame, MavHeader, MavMessageCodec, MAV_STX_V2};

#[test]
fn heartbeat_frame_bytes() {
    let header = MavHeader { sequence: 1, system_id: 255, component_id: 0 };
    let payload = vec![0, 0, 0, 0, 18, 8, 0, 0, 3];
    let mut dst = Vec::new();
    encode_frame(header, 0, &payload, 50, &mut dst);
    // CRC-16/MCRF4XX over the header, payload and extra CRC byte is 0xE3E8
    assert_eq!(
        dst,
        vec![0xFD, 9, 0, 0, 1, 255, 0, 0, 0, 0, 0, 0, 0, 0, 18, 8, 0, 0, 3, 0xE8, 0xE3]
    );
}

#[test]
fn frame_round_trip_and_checksum() {
    let header = MavHeader { sequence: 7, system_id: 1, component_id: 1 };
    let payload = vec![1, 2, 3];
    let mut stream = vec![0x11, 0x22];
    encode_frame(header, 300, &payload, 0x7b, &mut stream);
    stream.push(0x99);
    let frame = take_frame(&mut stream).unwrap();
    assert_eq!(frame.header, header);
    assert_eq!(frame.msgid, 300);
    assert_eq!(frame.payload, payload);
    assert_eq!(frame.crc, 0xAE59);
    assert!(frame.crc_matches(0x7b));
    assert!(!frame.crc_matches(0x7c));
    assert_eq!(stream, vec![0x99]);
}

#[test]
fn incomplete_frame_stays_and_garbage_is_dropped() {
    let mut stream = vec![1, 2, MAV_STX_V2, 5, 0, 0, 0];
    assert!(take_frame(&mut stream).is_none());
    assert_eq!(stream, vec![MAV_STX_V2, 5, 0, 0, 0]);
    let mut no_marker = vec![1, 2, 3];
    assert!(take_frame(&mut no_marker).is_none());
    assert_eq!(no_marker, vec![1, 2, 3]);
}

#[test]
fn signed_frame_consumes_signature() {
    let mut stream = vec![MAV_STX_V2, 1, 0x01, 0, 0, 0, 0, 0, 0, 0, 42, 0xAA, 0xBB];
    stream.extend(vec![0u8; 13]);
    stream.push(0x55);
    let frame = take_frame(&mut stream).unwrap();
    assert_eq!(frame.incompat_flags, 1);
    assert_eq!(frame.payload, vec![42]);
    assert_eq!(frame.crc, 0xBBAA);
    assert_eq!(stream, vec![0x55]);
}

#[test]
fn codec_for_any_message_type() {
    let _codec: MavMessageCodec<u32> = MavMessageCodec::new();
}

#[test]
fn mavlink_message_round_trip() {
    let mut codec: MavMessageCodec<MavMessage> = MavMessageCodec::new();
    let message = MavMessage::default_message_from_id(0).unwrap();
    let header = MavHeader { sequence: 9, system_id: 255, component_id: 0 };
    let mut stream = vec![0x00];
    codec.encode(header, &message, &mut stream);
    // the leading byte, then a frame of twelve bytes around the payload
    assert!(stream.len() > 13);
    assert_eq!(stream[1], MAV_STX_V2);
    assert_eq!(stream.len(), 13 + stream[2] as usize);
    let (decoded_header, decoded) = codec.decode(&mut stream).unwrap().unwrap();
    assert_eq!(decoded_header, header);
    assert_eq!(decoded.message_id(), 0);
    assert!(stream.is_empty());
}

#[test]
fn mavlink_frame_with_bad_checksum_is_skipped() {
    let mut codec: MavMessageCodec<MavMessage> = MavMessageCodec::new();
    let message = MavMessage::default_message_from_id(0).unwrap();
    let mut stream = Vec::new();
    codec.encode(MavHeader { sequence: 0, system_id: 1, component_id: 1 }, &message, &mut stream);
    let last = stream.len() - 1;
    stream[last] ^= 0xff;
    assert!(codec.decode(&mut stream).unwrap().is_none());
    assert!(stream.is_empty());
}

#[test]
fn decoded_message_is_the_encoded_one() {
    let mut codec: MavMessageCodec<MavMessage> = MavMessageCodec::new();
    let message = MavMessage::HEARTBEAT(HEARTBEAT_DATA {
        custom_mode: 7,
        mavtype: MavType::MAV_TYPE_QUADROTOR,
        autopilot: MavAutopilot::MAV_AUTOPILOT_PX4,
        base_mode: MavModeFlag::MAV_MODE_FLAG_SAFETY_ARMED,
        system_status: MavState::MAV_STATE_ACTIVE,
        mavlink_version: 3,
    });
    let header = MavHeader { sequence: 3, system_id: 1, component_id: 1 };
    let mut stream = Vec::new();
    codec.encode(header, &message, &mut stream);
    stream.extend_from_slice(&[1, 2]);
    let (decoded_header, decoded) = codec.decode(&mut stream).unwrap().unwrap();
    assert_eq!(decoded_header, header);
    assert_eq!(decoded, message);
    assert_eq!(stream, vec![1, 2]);
}

#[test]
fn unknown_message_is_a_parser_error() {
    let mut codec: MavMessageCodec<MavMessage> = MavMessageCodec::new();
    let msgid = 0x00AB_CDEF;
    let extra = <MavMessage as Message>::extra_crc(msgid);
    let mut stream = Vec::new();
    encode_frame(MavHeader { sequence: 0, system_id: 1, component_id: 1 }, msgid, &vec![1, 2, 3], extra, &mut stream);
    assert!(codec.decode(&mut stream).is_err());
    assert!(stream.is_empty());
}
