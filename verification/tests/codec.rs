use adbgadget::proto::{
    decode_header, CommandType, Message, MsgAccumulator, ProtoError, ADB_VERSION, MAXDATA,
};

fn wire_bytes(msg: Message) -> Vec<u8> {
    let (mut header, mut payload) = msg.to_bytes();
    header.append(&mut payload);
    header
}

#[test]
fn cnxn_header_bytes_are_exact() {
    let msg = Message::connect(ADB_VERSION, MAXDATA, b"device:RIIR:Rewrite it in Rust\0").unwrap();
    let (header, payload) = msg.to_bytes();
    let expected: Vec<u8> = vec![
        0x43, 0x4e, 0x58, 0x4e, // CNXN
        0x01, 0x00, 0x00, 0x01, // version
        0x00, 0x00, 0x04, 0x00, // maxdata
        0x1f, 0x00, 0x00, 0x00, // payload length 31
        0x00, 0x00, 0x00, 0x00, // crc written as zero
        0xbc, 0xb1, 0xa7, 0xb1, // CNXN with every bit flipped
    ];
    assert_eq!(header, expected);
    assert_eq!(payload, b"device:RIIR:Rewrite it in Rust\0".to_vec());
}

#[test]
fn magic_is_command_xor_all_ones() {
    let cmds = vec![
        CommandType::Connect { version: 1, maxdata: 2 },
        CommandType::Stls { ty: 1, version: 1 },
        CommandType::Auth { ty: 1, zero: 0 },
        CommandType::Open { local_id: 1, zero: 0 },
        CommandType::Ready { local_id: 1, remote_id: 2 },
        CommandType::Write { local_id: 1, remote_id: 2 },
        CommandType::Close { local_id: 1, remote_id: 2 },
    ];
    for cmd in cmds {
        assert_eq!(cmd.magic(), cmd.code() ^ 0xffff_ffff);
        let msg = Message::mk_msg(cmd, Vec::new()).unwrap();
        let (header, _) = msg.to_bytes();
        let magic_word = u32::from_le_bytes([header[20], header[21], header[22], header[23]]);
        assert_eq!(magic_word, cmd.code() ^ 0xffff_ffff);
    }
}

#[test]
fn decode_inverts_encode() {
    let payload = b"hello, peer".to_vec();
    let msg = Message::write(3, 1, payload.clone()).unwrap();
    let meta = msg.meta;
    let (header, data) = msg.to_bytes();
    let decoded = decode_header(&header).unwrap();
    assert_eq!(decoded, meta);
    assert!(matches!(decoded.cmd, CommandType::Write { local_id: 3, remote_id: 1 }));
    assert_eq!(decoded.len as usize, data.len());
    assert_eq!(decoded.crc, 0);
    assert_eq!(data, payload);
}

#[test]
fn decode_rejects_unknown_command() {
    let mut header = vec![0u8; 24];
    header[0] = 0xde;
    header[1] = 0xad;
    assert_eq!(
        decode_header(&header),
        Err(ProtoError::UnknownCommand { code: 0x0000adde })
    );
}

#[test]
fn payload_at_maxdata_is_accepted() {
    let payload = vec![0x61u8; MAXDATA as usize];
    let msg = Message::write(3, 1, payload).unwrap();
    assert_eq!(msg.meta.len, MAXDATA);
}

#[test]
fn payload_over_maxdata_is_refused_at_encode() {
    let payload = vec![0x61u8; MAXDATA as usize + 1];
    assert_eq!(Message::write(3, 1, payload).unwrap_err(), ProtoError::PayloadTooLong);
    let payload = vec![0x61u8; MAXDATA as usize + 1];
    assert_eq!(
        Message::connect(ADB_VERSION, MAXDATA, &payload).unwrap_err(),
        ProtoError::PayloadTooLong
    );
}

#[test]
fn accumulator_round_trips_messages_back_to_back() {
    let m1 = Message::write(3, 1, b"first".to_vec()).unwrap();
    let m2 = Message::ready(3, 1);
    let m3 = Message::close(3, 1);
    let mut bytes = wire_bytes(m1);
    bytes.extend_from_slice(&wire_bytes(m2));
    bytes.extend_from_slice(&wire_bytes(m3));

    let mut acc = MsgAccumulator::new();
    acc.push(&bytes);
    let got1 = acc.next_msg().unwrap().unwrap();
    assert!(matches!(got1.meta.cmd, CommandType::Write { local_id: 3, remote_id: 1 }));
    assert_eq!(got1.data, b"first".to_vec());
    let got2 = acc.next_msg().unwrap().unwrap();
    assert!(matches!(got2.meta.cmd, CommandType::Ready { local_id: 3, remote_id: 1 }));
    let got3 = acc.next_msg().unwrap().unwrap();
    assert!(matches!(got3.meta.cmd, CommandType::Close { local_id: 3, remote_id: 1 }));
    assert!(acc.next_msg().unwrap().is_none());
}

#[test]
fn accumulator_handles_partial_and_empty_reads() {
    let msg = Message::write(4, 2, b"chunked".to_vec()).unwrap();
    let bytes = wire_bytes(msg);
    let mut acc = MsgAccumulator::new();
    // a zero-byte read is FunctionFS's idle signal, not end of stream
    acc.push(&[]);
    assert!(acc.next_msg().unwrap().is_none());
    // deliver one byte per read: no message until the last byte lands
    for (i, b) in bytes.iter().enumerate() {
        acc.push(&[*b]);
        if i + 1 < bytes.len() {
            assert!(acc.next_msg().unwrap().is_none());
        }
    }
    let got = acc.next_msg().unwrap().unwrap();
    assert_eq!(got.data, b"chunked".to_vec());
    assert!(acc.next_msg().unwrap().is_none());
}

#[test]
fn oversize_inbound_length_is_refused_and_reading_goes_on() {
    // a hostile header declaring MAXDATA+1 bytes of payload
    let mut bytes = {
        let (mut header, _) = Message::ready(3, 1).to_bytes();
        let oversize = (MAXDATA + 1).to_le_bytes();
        header[12] = oversize[0];
        header[13] = oversize[1];
        header[14] = oversize[2];
        header[15] = oversize[3];
        header
    };
    let msg = Message::write(5, 9, b"after".to_vec()).unwrap();
    bytes.extend_from_slice(&wire_bytes(msg));
    let mut acc = MsgAccumulator::new();
    acc.push(&bytes);
    assert_eq!(acc.next_msg().unwrap_err(), ProtoError::PayloadTooLong);
    // the offending header is consumed; nothing is buffered for its
    // declared payload, and the next message parses
    let got = acc.next_msg().unwrap().unwrap();
    assert_eq!(got.data, b"after".to_vec());
    assert!(acc.next_msg().unwrap().is_none());
}

#[test]
fn unknown_header_is_reported_and_reading_goes_on() {
    let mut bytes = vec![0xffu8; 24]; // no such command id
    let msg = Message::write(5, 9, b"after".to_vec()).unwrap();
    bytes.extend_from_slice(&wire_bytes(msg));
    let mut acc = MsgAccumulator::new();
    acc.push(&bytes);
    assert_eq!(
        acc.next_msg().unwrap_err(),
        ProtoError::UnknownCommand { code: 0xffff_ffff }
    );
    // the bad header is consumed; the next message parses
    let got = acc.next_msg().unwrap().unwrap();
    assert_eq!(got.data, b"after".to_vec());
}
