use rcon::{
    max_packet_size_bytes, min_packet_size_bytes, packet_type_to_int, str_to_packet_type, Packet,
    PacketError, PacketType,
};

fn frame_of(size: u32, id: i32, typ: i32, body: &[u8]) -> Vec<u8> {
    let mut v = Vec::new();
    v.extend_from_slice(&size.to_le_bytes());
    v.extend_from_slice(&id.to_le_bytes());
    v.extend_from_slice(&typ.to_le_bytes());
    v.extend_from_slice(body);
    v.extend_from_slice(&[0, 0]);
    v
}

#[test]
fn frame_bounds() {
    assert_eq!(min_packet_size_bytes(), 10);
    assert_eq!(max_packet_size_bytes(), 4106);
}

#[test]
fn type_codes() {
    assert_eq!(packet_type_to_int(PacketType::ServerDataAuth), 3);
    assert_eq!(packet_type_to_int(PacketType::ServerDataAuthResponse), 2);
    assert_eq!(packet_type_to_int(PacketType::ServerDataExecCommand), 2);
    assert_eq!(packet_type_to_int(PacketType::ServerDataResponseValue), 0);
}

#[test]
fn type_names() {
    assert_eq!(str_to_packet_type("SERVER_DATA_AUTH"), Ok(PacketType::ServerDataAuth));
    assert_eq!(
        str_to_packet_type("SERVER_DATA_AUTH_RESPONSE"),
        Ok(PacketType::ServerDataAuthResponse)
    );
    assert_eq!(
        str_to_packet_type("SERVER_DATA_EXEC_COMMAND"),
        Ok(PacketType::ServerDataExecCommand)
    );
    assert_eq!(
        str_to_packet_type("SERVER_DATA_RESPONSE_VALUE"),
        Ok(PacketType::ServerDataResponseValue)
    );
}

#[test]
fn type_names_are_exact() {
    assert_eq!(str_to_packet_type("server_data_auth"), Err(PacketError::UnrecognizedPacketType));
    assert_eq!(str_to_packet_type("SERVER_DATA_AUTH "), Err(PacketError::UnrecognizedPacketType));
    assert_eq!(str_to_packet_type(""), Err(PacketError::UnrecognizedPacketType));
    assert_eq!(str_to_packet_type("SERVER_DATA"), Err(PacketError::UnrecognizedPacketType));
}

#[test]
fn exec_command_status_frame() {
    let p = Packet::new(PacketType::ServerDataExecCommand, 1, "status".to_string()).unwrap();
    assert_eq!(p.size, 16);
    assert_eq!(p.id, 1);
    assert_eq!(p.typ, 2);
    assert_eq!(p.body, b"status".to_vec());
    let bytes = Packet::to_bytes(p).unwrap();
    assert_eq!(
        bytes,
        vec![16, 0, 0, 0, 1, 0, 0, 0, 2, 0, 0, 0, b's', b't', b'a', b't', b'u', b's', 0, 0]
    );
    assert_eq!(bytes.len(), 20);
}

#[test]
fn body_of_largest_size_is_accepted() {
    let p = Packet::new(PacketType::ServerDataExecCommand, 7, "a".repeat(4096)).unwrap();
    assert_eq!(p.size, 4106);
    assert_eq!(p.body.len(), 4096);
}

#[test]
fn body_over_largest_size_is_refused() {
    let r = Packet::new(PacketType::ServerDataExecCommand, 7, "a".repeat(4097));
    assert_eq!(r, Err(PacketError::BodyTooLarge));
}

#[test]
fn body_of_4087_bytes_is_accepted() {
    let p = Packet::new(PacketType::ServerDataAuth, 0, "x".repeat(4087)).unwrap();
    assert_eq!(p.size, 4097);
}

#[test]
fn body_size_counts_utf8_bytes() {
    let p = Packet::new(PacketType::ServerDataAuth, 0, "é".to_string()).unwrap();
    assert_eq!(p.body, vec![0xc3, 0xa9]);
    assert_eq!(p.size, 12);
    let r = Packet::new(PacketType::ServerDataAuth, 0, "é".repeat(2049));
    assert_eq!(r, Err(PacketError::BodyTooLarge));
}

#[test]
fn empty_body_frame() {
    let p = Packet::new(PacketType::ServerDataAuth, -1, String::new()).unwrap();
    assert_eq!(p.size, 10);
    let bytes = Packet::to_bytes(p).unwrap();
    assert_eq!(bytes, vec![10, 0, 0, 0, 255, 255, 255, 255, 3, 0, 0, 0, 0, 0]);
}

#[test]
fn auth_response_and_exec_command_share_type_field() {
    let a = Packet::new(PacketType::ServerDataAuthResponse, 5, "x".to_string()).unwrap();
    let e = Packet::new(PacketType::ServerDataExecCommand, 5, "x".to_string()).unwrap();
    let ab = Packet::to_bytes(a).unwrap();
    let eb = Packet::to_bytes(e).unwrap();
    assert_eq!(ab[8..12], [2, 0, 0, 0]);
    assert_eq!(ab, eb);
    let d = Packet::from_bytes(ab).unwrap();
    assert_eq!(d.typ, 2);
}

#[test]
fn decode_one_below_min_is_invalid_length() {
    assert_eq!(Packet::from_bytes(vec![0; 9]), Err(PacketError::InvalidLength));
    assert_eq!(Packet::from_bytes(Vec::new()), Err(PacketError::InvalidLength));
}

#[test]
fn decode_at_min_is_truncated() {
    assert_eq!(Packet::from_bytes(vec![0; 10]), Err(PacketError::Truncated));
    assert_eq!(Packet::from_bytes(vec![0; 13]), Err(PacketError::Truncated));
}

#[test]
fn decode_empty_body() {
    let p = Packet::from_bytes(vec![10, 0, 0, 0, 4, 0, 0, 0, 0, 0, 0, 0, 9, 9]).unwrap();
    assert_eq!(p.size, 10);
    assert_eq!(p.id, 4);
    assert_eq!(p.typ, 0);
    assert!(p.body.is_empty());
}

#[test]
fn decode_over_max_is_invalid_length() {
    assert_eq!(Packet::from_bytes(vec![0; 4107]), Err(PacketError::InvalidLength));
    assert!(Packet::from_bytes(vec![0; 4106]).is_ok());
}

#[test]
fn decode_keeps_size_field_unchecked() {
    let p = Packet::from_bytes(frame_of(999, 3, 0, b"ok")).unwrap();
    assert_eq!(p.size, 999);
    assert_eq!(p.body, b"ok".to_vec());
}

#[test]
fn decode_reads_fields_little_endian() {
    let p = Packet::from_bytes(frame_of(0x0403_0201, -2, i32::MIN, b"hi")).unwrap();
    assert_eq!(p.size, 0x0403_0201);
    assert_eq!(p.id, -2);
    assert_eq!(p.typ, i32::MIN);
    assert_eq!(p.body, b"hi".to_vec());
}

#[test]
fn round_trip_keeps_fields() {
    let p = Packet::new(PacketType::ServerDataResponseValue, -123456, "hello world".to_string())
        .unwrap();
    let q = Packet::from_bytes(Packet::to_bytes(p.clone()).unwrap()).unwrap();
    assert_eq!(p, q);
}

#[test]
fn round_trip_of_any_fields() {
    let p = Packet { size: u32::MAX, id: i32::MAX, typ: -1, body: vec![0, 255, 7] };
    let q = Packet::from_bytes(Packet::to_bytes(p.clone()).unwrap()).unwrap();
    assert_eq!(p, q);
}

#[test]
fn round_trip_of_longest_fitting_body() {
    let p = Packet::new(PacketType::ServerDataExecCommand, 9, "z".repeat(4092)).unwrap();
    let q = Packet::from_bytes(Packet::to_bytes(p.clone()).unwrap()).unwrap();
    assert_eq!(p, q);
}

#[test]
fn frame_of_4093_byte_body_exceeds_max() {
    let p = Packet::new(PacketType::ServerDataExecCommand, 9, "z".repeat(4093)).unwrap();
    let bytes = Packet::to_bytes(p).unwrap();
    assert_eq!(bytes.len(), 4107);
    assert_eq!(Packet::from_bytes(bytes), Err(PacketError::InvalidLength));
}

#[test]
fn encode_refuses_body_over_largest_size() {
    let p = Packet { size: 0, id: 0, typ: 0, body: vec![1; 4097] };
    assert_eq!(Packet::to_bytes(p), Err(PacketError::BodyTooLarge));
    let q = Packet { size: 0, id: 0, typ: 0, body: vec![1; 4096] };
    assert_eq!(Packet::to_bytes(q).unwrap().len(), 4110);
}
