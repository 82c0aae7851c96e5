use supervisor::xbee::check_pin_modes;
use supervisor::xbee::{
    check_baud_rate, check_outputs, check_pin_mode, check_scs_mode, decode_ip, decode_link_margin,
    decode_mac, decode_pin_states, output_masks, retry_decision, unused_frame_id, Codec, Command,
    Error, Pin, PinMode, Retry,
};

#[test]
fn encode_remote_at_command_frame() {
    let mut codec = Codec;
    let mut dst = vec![0xAA];
    let command = Command { frame_id: 7, queue: false, at_command: [b'B', b'D'], data: Some(vec![0, 0, 0x96, 0]) };
    codec.encode(command, &mut dst).unwrap();
    assert_eq!(dst, vec![0xAA, 0x42, 0x42, 0, 0, 0, 0, 0x02, 0, 7, 0x02, b'B', b'D', 0, 0, 0x96, 0]);
    let mut dst = Vec::new();
    let command = Command { frame_id: 0, queue: true, at_command: [b'D', b'4'], data: None };
    codec.encode(command, &mut dst).unwrap();
    assert_eq!(dst, vec![0x42, 0x42, 0, 0, 0, 0, 0x02, 0, 0, 0x00, b'D', b'4']);
}

#[test]
fn decode_ok_response() {
    let mut codec = Codec;
    let mut src = vec![0x42, 0x42, 0, 0, 0, 0, 0x82, 0, 5, b'M', b'Y', 0, 192, 168, 1, 10];
    let response = codec.decode(&mut src).unwrap().unwrap();
    assert_eq!(response.frame_id, 5);
    assert_eq!(response.data, vec![192, 168, 1, 10]);
    assert!(src.is_empty());
}

#[test]
fn decode_header_xor() {
    // the two header words only need to XOR to 0x4242
    let mut codec = Codec;
    let mut src = vec![0x00, 0x00, 0x42, 0x42, 0, 0, 0x82, 0, 9, b'L', b'M', 0];
    let response = codec.decode(&mut src).unwrap().unwrap();
    assert_eq!(response.frame_id, 9);
    assert!(response.data.is_empty());
}

#[test]
fn decode_incomplete_corrupt_and_remote_error() {
    let mut codec = Codec;
    let mut short = vec![0x42, 0x42, 0, 0];
    assert!(codec.decode(&mut short).unwrap().is_none());
    assert_eq!(short.len(), 4);
    let mut bad_header = vec![0x42, 0x43, 0, 0, 0, 0, 0x82, 0, 1, b'M', b'Y', 0, 1];
    assert_eq!(codec.decode(&mut bad_header).unwrap_err(), Error::CorruptResponse);
    assert_eq!(bad_header, vec![0, 0, 0x82, 0, 1, b'M', b'Y', 0, 1]);
    let mut bad_type = vec![0x42, 0x42, 0, 0, 0, 0, 0x02, 0, 1, b'M', b'Y', 0];
    assert_eq!(codec.decode(&mut bad_type).unwrap_err(), Error::CorruptResponse);
    assert_eq!(bad_type, vec![0, 1, b'M', b'Y', 0]);
    let mut remote = vec![0x42, 0x42, 0, 0, 0, 0, 0x82, 0, 3, b'D', b'9', 4];
    assert_eq!(codec.decode(&mut remote).unwrap_err(), Error::RemoteError { frame_id: 3, status: 4 });
    assert!(remote.is_empty());
}

#[test]
fn pin_indices_and_commands() {
    assert_eq!(Pin::try_from(0).unwrap(), Pin::DIO0);
    assert_eq!(Pin::try_from(13).unwrap(), Pin::DIN);
    assert_eq!(Pin::try_from(14).unwrap(), Pin::DOUT);
    assert_eq!(Pin::try_from(15).unwrap_err(), Error::DecodeError);
    assert_eq!(Pin::DIO7.at_command(), [b'D', b'7']);
    assert_eq!(Pin::DIO12.at_command(), [b'P', b'2']);
    assert_eq!(Pin::DOUT.at_command(), [b'P', b'4']);
    assert_eq!(Pin::DIO11.index(), 11);
    assert_eq!(PinMode::OutputDefaultLow.code(), 4);
    assert_eq!(PinMode::Input.code(), 3);
}

#[test]
fn pin_states_from_sample() {
    // one sample set, pins 4, 11 and 12 enabled, 4 and 12 high
    let value = vec![1, 0x18, 0x10, 0, 0x10, 0x10];
    let states = decode_pin_states(&value).unwrap();
    assert_eq!(states, vec![(Pin::DIO4, true), (Pin::DIO11, false), (Pin::DIO12, true)]);
}

#[test]
fn pin_states_rejected() {
    assert_eq!(decode_pin_states(&vec![1, 0, 1]).unwrap_err(), Error::DecodeError);
    assert_eq!(decode_pin_states(&vec![1, 0, 0, 0, 0, 0]).unwrap_err(), Error::DecodeError);
    assert_eq!(decode_pin_states(&vec![1, 0, 1, 0, 0]).unwrap_err(), Error::DecodeError);
    // bit 15 names no pin
    assert_eq!(decode_pin_states(&vec![1, 0x80, 0x01, 0, 0xFF, 0xFF]).unwrap_err(), Error::DecodeError);
}

#[test]
fn output_masks_last_entry_wins() {
    let config = [(Pin::DIO4, true), (Pin::DIO11, false), (Pin::DIO4, false), (Pin::DIO12, true)];
    let (om, io) = output_masks(&config);
    assert_eq!(om, (1 << 4) | (1 << 11) | (1 << 12));
    assert_eq!(io, 1 << 12);
}

#[test]
fn outputs_checked_against_read_back() {
    let states = vec![(Pin::DIO4, true), (Pin::DIO11, false)];
    assert!(check_outputs(&[(Pin::DIO4, true)], &states).is_ok());
    assert_eq!(check_outputs(&[(Pin::DIO11, true)], &states).unwrap_err(), Error::RequestFailed);
    assert_eq!(check_outputs(&[(Pin::DIO12, true)], &states).unwrap_err(), Error::RequestFailed);
}

#[test]
fn frame_ids() {
    assert_eq!(unused_frame_id(&vec![]), Some(1));
    assert_eq!(unused_frame_id(&vec![1, 2, 4]), Some(3));
    let all: Vec<u8> = (1..=254).collect();
    assert_eq!(unused_frame_id(&all), None);
}

#[test]
fn response_values() {
    assert_eq!(decode_ip(&vec![10, 0, 0, 7]).unwrap(), [10, 0, 0, 7]);
    assert_eq!(decode_ip(&vec![10, 0, 0]).unwrap_err(), Error::DecodeError);
    assert_eq!(decode_mac(&vec![0x00, 0x13], &vec![0xA2, 0x00, 0x41, 0x5B]).unwrap(), [0x00, 0x13, 0xA2, 0x00, 0x41, 0x5B]);
    assert_eq!(decode_mac(&vec![0x13], &vec![0xA2, 0x00, 0x41, 0x5B]).unwrap_err(), Error::DecodeError);
    assert_eq!(decode_link_margin(&vec![42, 1]).unwrap(), 42);
    assert_eq!(decode_link_margin(&vec![]).unwrap_err(), Error::DecodeError);
    assert!(check_scs_mode(true, &vec![1]).is_ok());
    assert_eq!(check_scs_mode(false, &vec![1]).unwrap_err(), Error::RequestFailed);
    assert_eq!(check_scs_mode(true, &vec![1, 1]).unwrap_err(), Error::RequestFailed);
    assert_eq!(check_baud_rate(&vec![0, 0x0E, 0x10, 0x00]).unwrap(), 921600);
    assert_eq!(check_baud_rate(&vec![0x0E, 0x10, 0x00]).unwrap_err(), Error::RequestFailed);
    assert!(check_pin_mode(PinMode::Alternate, &vec![1]).is_ok());
    assert_eq!(check_pin_mode(PinMode::Alternate, &vec![]).unwrap_err(), Error::RequestFailed);
    assert_eq!(check_pin_mode(PinMode::Disable, &vec![1]).unwrap_err(), Error::RequestFailed);
}

#[test]
fn retries() {
    assert_eq!(retry_decision(100, 3), Retry::Wait);
    assert_eq!(retry_decision(301, 3), Retry::Resend { remaining: 2 });
    assert_eq!(retry_decision(301, 0), Retry::GiveUp);
}

#[test]
fn pin_modes_read_back_all_match() {
    let modes = [(Pin::DIO0, PinMode::Alternate), (Pin::DIO1, PinMode::Input)];
    assert!(check_pin_modes(&modes, &vec![vec![1], vec![3]]).is_ok());
    assert_eq!(check_pin_modes(&modes, &vec![vec![1], vec![4]]).unwrap_err(), Error::RequestFailed);
    assert_eq!(check_pin_modes(&modes, &vec![vec![1], vec![]]).unwrap_err(), Error::RequestFailed);
    assert_eq!(check_pin_modes(&modes, &vec![vec![1]]).unwrap_err(), Error::RequestFailed);
    assert!(check_pin_modes(&[], &vec![]).is_ok());
}
