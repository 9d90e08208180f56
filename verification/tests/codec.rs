//! Wire codec tests: exact layouts, round trips at and near the
//! field-width limits, and rejection of malformed buffers.

use ftp_core::codec::{decode_command, decode_file_info, decode_file_packet, decode_response,
    decode_response_file, decode_udp_config, encode_command, encode_file_info,
    encode_file_packet, encode_response, encode_response_file, encode_udp_config,
    COMMAND_PACKET_LEN, FILE_INFO_PACKET_LEN, FILE_PACKET_LEN, RESPONSE_FILE_PACKET_LEN,
    RESPONSE_PACKET_LEN, UDP_CONFIG_PACKET_LEN};
use ftp_core::packet::{CommandPacket, FileInfoPacket, FilePacket, ResponseFilePacket,
    ResponsePacket, UdpConfigPacket};
use ftp_core::proto::{CommandId, FtpError, FtpStatusCode};

#[test]
fn packet_lens_are_fixed() {
    assert_eq!(COMMAND_PACKET_LEN, 1);
    assert_eq!(UDP_CONFIG_PACKET_LEN, 8);
    assert_eq!(FILE_INFO_PACKET_LEN, 48);
    assert_eq!(RESPONSE_PACKET_LEN, 151);
    assert_eq!(FILE_PACKET_LEN, 1041);
    assert_eq!(RESPONSE_FILE_PACKET_LEN, 9);
}

#[test]
fn command_round_trip_all_variants() {
    for cmd in [CommandId::Exit, CommandId::Get, CommandId::Put] {
        let p = CommandPacket::new(cmd);
        let bytes = encode_command(&p);
        assert_eq!(bytes.len(), COMMAND_PACKET_LEN);
        let back = decode_command(&bytes).unwrap();
        assert_eq!(back, p);
    }
}

#[test]
fn command_exact_layout() {
    assert_eq!(encode_command(&CommandPacket::new(CommandId::Exit)), vec![0]);
    assert_eq!(encode_command(&CommandPacket::new(CommandId::Get)), vec![1]);
    assert_eq!(encode_command(&CommandPacket::new(CommandId::Put)), vec![2]);
}

#[test]
fn command_rejects_bad_discriminant_and_length() {
    assert_eq!(decode_command(&[3]), Err(FtpError::MalformedPacket));
    assert_eq!(decode_command(&[]), Err(FtpError::MalformedPacket));
    assert_eq!(decode_command(&[0, 0]), Err(FtpError::MalformedPacket));
}

#[test]
fn udp_config_round_trip() {
    let p = UdpConfigPacket { packet_size: 1024 };
    let bytes = encode_udp_config(&p);
    assert_eq!(bytes, vec![0, 4, 0, 0, 0, 0, 0, 0]);
    assert_eq!(decode_udp_config(&bytes).unwrap(), p);
    assert_eq!(decode_udp_config(&[1, 2, 3]), Err(FtpError::MalformedPacket));
}

#[test]
fn file_info_round_trip_plain() {
    let p = FileInfoPacket::new(2500, b"myphoto.jpg".to_vec()).unwrap();
    let bytes = encode_file_info(&p).unwrap();
    assert_eq!(bytes.len(), FILE_INFO_PACKET_LEN);
    assert_eq!(&bytes[0..8], &[196, 9, 0, 0, 0, 0, 0, 0]);
    assert_eq!(&bytes[8..19], b"myphoto.jpg");
    assert!(bytes[19..48].iter().all(|b| *b == 0));
    let back = decode_file_info(&bytes).unwrap();
    assert_eq!(back.size, 2500);
    assert_eq!(back.name, b"myphoto.jpg".to_vec());
}

#[test]
fn file_info_round_trip_name_at_limit() {
    let name = vec![b'a'; 40];
    let p = FileInfoPacket::new(u64::MAX, name.clone()).unwrap();
    let bytes = encode_file_info(&p).unwrap();
    let back = decode_file_info(&bytes).unwrap();
    assert_eq!(back.size, u64::MAX);
    assert_eq!(back.name, name);
}

#[test]
fn file_info_round_trip_name_below_limit() {
    let name = vec![b'b'; 39];
    let p = FileInfoPacket::new(7, name.clone()).unwrap();
    let bytes = encode_file_info(&p).unwrap();
    let back = decode_file_info(&bytes).unwrap();
    assert_eq!(back.size, 7);
    assert_eq!(back.name, name);
}

#[test]
fn file_info_round_trip_empty_name() {
    let p = FileInfoPacket::new(0, Vec::new()).unwrap();
    let bytes = encode_file_info(&p).unwrap();
    let back = decode_file_info(&bytes).unwrap();
    assert_eq!(back.size, 0);
    assert_eq!(back.name, Vec::<u8>::new());
}

#[test]
fn file_info_rejects_over_long_name() {
    assert_eq!(
        FileInfoPacket::new(1, vec![b'x'; 41]).unwrap_err(),
        FtpError::MalformedPacket
    );
    let bad = FileInfoPacket { size: 1, name: vec![b'x'; 41] };
    assert_eq!(encode_file_info(&bad).unwrap_err(), FtpError::MalformedPacket);
}

#[test]
fn file_info_rejects_zero_terminated_name() {
    let bad = FileInfoPacket { size: 1, name: vec![b'x', 0] };
    assert_eq!(encode_file_info(&bad).unwrap_err(), FtpError::MalformedPacket);
}

#[test]
fn file_info_rejects_wrong_length() {
    assert_eq!(decode_file_info(&[0; 47]), Err(FtpError::MalformedPacket));
    assert_eq!(decode_file_info(&[0; 49]), Err(FtpError::MalformedPacket));
}

#[test]
fn file_info_interior_zero_survives() {
    let name = vec![b'a', 0, b'b'];
    let p = FileInfoPacket::new(3, name.clone()).unwrap();
    let bytes = encode_file_info(&p).unwrap();
    assert_eq!(decode_file_info(&bytes).unwrap().name, name);
}

#[test]
fn response_round_trip_okay_empty() {
    let p = ResponsePacket::okay();
    let bytes = encode_response(&p).unwrap();
    assert_eq!(bytes.len(), RESPONSE_PACKET_LEN);
    assert_eq!(bytes[0], 0);
    assert!(bytes[1..].iter().all(|b| *b == 0));
    let back = decode_response(&bytes).unwrap();
    assert_eq!(back.status, FtpStatusCode::Okay);
    assert_eq!(back.message, Vec::<u8>::new());
}

#[test]
fn response_round_trip_message_at_limit() {
    let message = vec![b'm'; 150];
    let p = ResponsePacket::error(message.clone()).unwrap();
    let bytes = encode_response(&p).unwrap();
    assert_eq!(bytes[0], 1);
    let back = decode_response(&bytes).unwrap();
    assert_eq!(back.status, FtpStatusCode::Error);
    assert_eq!(back.message, message);
}

#[test]
fn response_round_trip_message_below_limit() {
    let message = vec![b'n'; 149];
    let p = ResponsePacket::error(message.clone()).unwrap();
    let bytes = encode_response(&p).unwrap();
    let back = decode_response(&bytes).unwrap();
    assert_eq!(back.message, message);
}

#[test]
fn response_rejects_over_long_message() {
    assert_eq!(
        ResponsePacket::error(vec![b'm'; 151]).unwrap_err(),
        FtpError::MalformedPacket
    );
}

#[test]
fn response_rejects_bad_discriminant() {
    let mut bytes = vec![0u8; RESPONSE_PACKET_LEN];
    bytes[0] = 2;
    assert_eq!(decode_response(&bytes), Err(FtpError::MalformedPacket));
}

#[test]
fn file_packet_round_trip_full() {
    let mut data = vec![0u8; 1024];
    for (i, b) in data.iter_mut().enumerate() {
        *b = (i % 251) as u8;
    }
    let p = FilePacket { index: 3, is_last: false, data_size: 1024, data: data.clone() };
    let bytes = encode_file_packet(&p).unwrap();
    assert_eq!(bytes.len(), FILE_PACKET_LEN);
    assert_eq!(&bytes[0..8], &[3, 0, 0, 0, 0, 0, 0, 0]);
    assert_eq!(bytes[8], 0);
    assert_eq!(&bytes[9..17], &[0, 4, 0, 0, 0, 0, 0, 0]);
    assert_eq!(&bytes[17..], &data[..]);
    let back = decode_file_packet(&bytes).unwrap();
    assert_eq!(back.index, 3);
    assert!(!back.is_last);
    assert_eq!(back.data_size, 1024);
    assert_eq!(back.data, data);
}

#[test]
fn file_packet_round_trip_short_last() {
    let mut data = vec![0u8; 1024];
    data[0] = 9;
    let p = FilePacket { index: 7, is_last: true, data_size: 1, data: data.clone() };
    let bytes = encode_file_packet(&p).unwrap();
    assert_eq!(bytes[8], 1);
    let back = decode_file_packet(&bytes).unwrap();
    assert_eq!(back.index, 7);
    assert!(back.is_last);
    assert_eq!(back.data_size, 1);
    assert_eq!(back.data, data);
}

#[test]
fn file_packet_rejects_bad_buffer_or_fields() {
    let bad = FilePacket { index: 0, is_last: false, data_size: 1, data: vec![0; 1023] };
    assert_eq!(encode_file_packet(&bad).unwrap_err(), FtpError::MalformedPacket);
    let bad = FilePacket { index: 0, is_last: false, data_size: 1025, data: vec![0; 1024] };
    assert_eq!(encode_file_packet(&bad).unwrap_err(), FtpError::MalformedPacket);

    assert_eq!(decode_file_packet(&[0; 1040]), Err(FtpError::MalformedPacket));
    let mut bytes = vec![0u8; FILE_PACKET_LEN];
    bytes[8] = 2;
    assert_eq!(decode_file_packet(&bytes), Err(FtpError::MalformedPacket));
    let mut bytes = vec![0u8; FILE_PACKET_LEN];
    bytes[9] = 1;
    bytes[10] = 4;
    assert_eq!(decode_file_packet(&bytes), Err(FtpError::MalformedPacket));
}

#[test]
fn response_file_round_trip() {
    let p = ResponseFilePacket { status: FtpStatusCode::Okay, index: 5 };
    let bytes = encode_response_file(&p);
    assert_eq!(bytes, vec![0, 5, 0, 0, 0, 0, 0, 0, 0]);
    assert_eq!(decode_response_file(&bytes).unwrap(), p);

    let p = ResponseFilePacket { status: FtpStatusCode::Error, index: u64::MAX };
    let bytes = encode_response_file(&p);
    assert_eq!(decode_response_file(&bytes).unwrap(), p);
}

#[test]
fn response_file_rejects_bad_buffers() {
    assert_eq!(decode_response_file(&[0; 8]), Err(FtpError::MalformedPacket));
    assert_eq!(
        decode_response_file(&[2, 0, 0, 0, 0, 0, 0, 0, 0]),
        Err(FtpError::MalformedPacket)
    );
}
