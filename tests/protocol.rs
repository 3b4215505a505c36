use mcping::{decode_varint, Header, QueryState, ServerStatus, StatusError, VarIntRead};

#[test]
fn varint_round_trip_and_length() {
    let cases: [(i32, usize); 7] = [
        (0, 1),
        (1, 1),
        (127, 1),
        (128, 2),
        (255, 2),
        (2097151, 3),
        (2147483647, 5),
    ];
    for (v, n) in cases {
        let bytes = ServerStatus::encode(v);
        assert_eq!(bytes.len(), n, "length of the encoding of {}", v);
        assert_eq!(
            decode_varint(&bytes),
            VarIntRead::Value { value: v as u32, len: n }
        );
    }
}

#[test]
fn varint_length_boundaries() {
    assert_eq!(ServerStatus::encode(16383).len(), 2);
    assert_eq!(ServerStatus::encode(16384).len(), 3);
    assert_eq!(ServerStatus::encode(2097152).len(), 4);
    assert_eq!(ServerStatus::encode(268435455).len(), 4);
    assert_eq!(ServerStatus::encode(268435456).len(), 5);
}

#[test]
fn varint_exact_bytes() {
    assert_eq!(ServerStatus::encode(0), vec![0x00]);
    assert_eq!(ServerStatus::encode(127), vec![0x7F]);
    assert_eq!(ServerStatus::encode(128), vec![0x80, 0x01]);
    assert_eq!(ServerStatus::encode(300), vec![0xAC, 0x02]);
    assert_eq!(ServerStatus::encode(25565), vec![0xDD, 0xC7, 0x01]);
    assert_eq!(
        ServerStatus::encode(2147483647),
        vec![0xFF, 0xFF, 0xFF, 0xFF, 0x07]
    );
}

#[test]
fn varint_decode_six_continuation_bytes_is_malformed() {
    assert_eq!(decode_varint(&[0x80; 6]), VarIntRead::Malformed);
    assert_eq!(decode_varint(&[0xFF; 8]), VarIntRead::Malformed);
    let mut terminated = vec![0x80u8; 5];
    terminated.push(0x01);
    assert_eq!(decode_varint(&terminated), VarIntRead::Malformed);
}

#[test]
fn varint_decode_needs_more_bytes() {
    assert_eq!(decode_varint(&[]), VarIntRead::Incomplete);
    assert_eq!(decode_varint(&[0x80; 5]), VarIntRead::Incomplete);
    assert_eq!(decode_varint(&[0xAC]), VarIntRead::Incomplete);
}

#[test]
fn varint_decode_stops_at_first_terminator() {
    assert_eq!(
        decode_varint(&[0xAC, 0x02, 0x05]),
        VarIntRead::Value { value: 300, len: 2 }
    );
}

#[test]
fn varint_decode_keeps_low_32_bits() {
    assert_eq!(
        decode_varint(&[0xFF, 0xFF, 0xFF, 0xFF, 0x7F]),
        VarIntRead::Value { value: 0xFFFF_FFFF, len: 5 }
    );
}

#[test]
fn pack_data_prefixes_length() {
    assert_eq!(ServerStatus::pack_data(&[]), vec![0x00]);
    assert_eq!(ServerStatus::pack_data(b"abc"), vec![3, b'a', b'b', b'c']);
    let data = vec![7u8; 200];
    let packed = ServerStatus::pack_data(&data);
    let prefix = ServerStatus::encode(200);
    assert_eq!(packed.len(), prefix.len() + data.len());
    assert_eq!(&packed[..prefix.len()], &prefix[..]);
    assert_eq!(&packed[..2], &[0xC8, 0x01]);
    assert_eq!(&packed[2..], &data[..]);
}

#[test]
fn handshake_for_hypixel() {
    let server = ServerStatus::new("mc.hypixel.net", 25565, None, None);
    let packet = server.status_packet();
    let host = b"mc.hypixel.net";
    let mut body = vec![0x00, 0x00, host.len() as u8];
    body.extend_from_slice(host);
    body.extend_from_slice(&[0x63, 0xDD, 0x01]);
    let mut expected = vec![body.len() as u8];
    expected.extend_from_slice(&body);
    expected.extend_from_slice(&[0x01, 0x00]);
    assert_eq!(packet, expected);
    assert_eq!(packet[0], 20);
    assert_eq!(&packet[1..4], &[0x00, 0x00, 14]);
    assert_eq!(&packet[4..18], host);
    assert_eq!(&packet[18..21], &[0x63, 0xDD, 0x01]);
    assert_eq!(&packet[21..], &[0x01, 0x00]);
}

#[test]
fn long_host_gets_two_byte_lengths() {
    let host = "a".repeat(300);
    let server = ServerStatus::new(&host, 1, None, None);
    let packet = server.status_packet();
    // body: id, version, 2-byte host length, host, port, next state
    let body_len = 2 + 2 + 300 + 3;
    assert_eq!(packet.len(), 2 + body_len + 2);
    assert_eq!(&packet[..2], &ServerStatus::encode(body_len as i32)[..]);
    assert_eq!(&packet[2..6], &[0x00, 0x00, 0xAC, 0x02]);
    assert_eq!(&packet[306..309], &[0x00, 0x01, 0x01]);
    assert_eq!(&packet[309..], &[0x01, 0x00]);
}

#[test]
fn header_ready() {
    let buf = [0x05, 0x00, 0x03, b'{', b'}', b' '];
    assert_eq!(
        ServerStatus::read_header(&buf, 10),
        Ok(Header::Ready { json_len: 3, header_len: 3 })
    );
    let buf = [0xAC, 0x02, 0x00, 0xAC, 0x02];
    assert_eq!(
        ServerStatus::read_header(&buf, 300),
        Ok(Header::Ready { json_len: 300, header_len: 5 })
    );
}

#[test]
fn header_too_large() {
    let buf = [0xAC, 0x02, 0x00, 0xAD, 0x02];
    assert_eq!(
        ServerStatus::read_header(&buf, 300),
        Err(StatusError::ResponseTooLarge)
    );
    let buf = [0x05, 0x00, 0x02];
    assert_eq!(
        ServerStatus::read_header(&buf, 1),
        Err(StatusError::ResponseTooLarge)
    );
}

#[test]
fn header_incomplete_and_malformed() {
    assert_eq!(ServerStatus::read_header(&[], 10), Ok(Header::Incomplete));
    assert_eq!(ServerStatus::read_header(&[0x05, 0x00], 10), Ok(Header::Incomplete));
    assert_eq!(
        ServerStatus::read_header(&[0x05, 0x00, 0x80], 10),
        Ok(Header::Incomplete)
    );
    assert_eq!(
        ServerStatus::read_header(&[0x05, 0x80, 0x80, 0x80, 0x80, 0x80, 0x80], 10),
        Err(StatusError::ProtocolMalformed)
    );
}

#[test]
fn new_uses_defaults() {
    let s = ServerStatus::new("localhost", 25565, None, None);
    assert_eq!(s.host, "localhost");
    assert_eq!(s.port, 25565);
    assert_eq!(s.timeout_ms, 5000);
    assert_eq!(s.max_size, 10 * 1048576);
    assert!(matches!(s.status, QueryState::NotQueried));
    let s = ServerStatus::new("localhost", 1, Some(250), Some(1));
    assert_eq!(s.timeout_ms, 250);
    assert_eq!(s.max_size, 1);
}

#[test]
fn store_response_checks_size() {
    let mut s = ServerStatus::new("localhost", 25565, None, Some(2));
    assert_eq!(s.store_response(vec![1, 2, 3]), Err(StatusError::ResponseTooLarge));
    assert!(matches!(s.status, QueryState::NotQueried));
    assert_eq!(s.store_response(vec![1, 2]), Ok(()));
    assert!(matches!(&s.status, QueryState::Queried(raw) if raw == &vec![1, 2]));
}
