use bytes::BytesMut;
use capmeter::codec::ChunkedDecoder;
use capmeter::device::{
    body_checksum, check_body, dispatch, plan_body, read_header, receive_outcome, BodyPlan, ChunkHeader, Dispatch, Mux,
    ReceiveOutcome, BUFFER_SIZE,
};
use capmeter::frame::encode_frame;
use capmeter::protocol::{DEFAULT_MTU, HEADER_LENGTH};

#[test]
fn flushed_chunk_is_the_encoded_frame() {
    let mut mux = Mux::new();
    let mut send = mux.send_chunk(0x0203);
    assert!(send.is_empty());
    send.put_slice(b"abc");
    send.put_slice(b"de");
    assert_eq!(send.len(), 5);
    let sent = send.flush();
    assert_eq!(sent, encode_frame(0x0203, b"abcde"));
    assert!(send.is_empty());
    // the next chunk goes to the same port
    send.put_slice(b"x");
    assert_eq!(send.finish(), encode_frame(0x0203, b"x"));
}

#[test]
fn device_chunk_decodes_on_host() {
    let mut mux = Mux::new();
    let mut send = mux.send_chunk(5);
    send.put_slice(&[1, 2, 3, 4, 5, 6, 7, 8, 9]);
    let sent = send.finish();
    let mut src = BytesMut::from(&sent[..]);
    let chunk = ChunkedDecoder::new().decode(&mut src).unwrap().unwrap();
    assert_eq!(chunk.port, 5);
    assert_eq!(chunk.data, vec![1, 2, 3, 4, 5, 6, 7, 8, 9]);
}

#[test]
fn truncate_clear_and_capacity() {
    let mut mux = Mux::new();
    let mut send = mux.send_chunk(1);
    send.put_slice(&[7; 10]);
    send.truncate(20);
    assert_eq!(send.len(), 10);
    send.truncate(4);
    assert_eq!(send.len(), 4);
    assert_eq!(send.remaining(), BUFFER_SIZE - 4);
    assert!(!send.is_full());
    send.clear();
    assert!(send.is_empty());
    send.put_slice(&vec![0; DEFAULT_MTU]);
    assert!(send.is_full());
    assert_eq!(send.flush().len(), HEADER_LENGTH + DEFAULT_MTU);
}

#[test]
fn writer_sends_full_chunk_before_writing_more() {
    let mut mux = Mux::new();
    let mut writer = mux.writer(2);
    let first = vec![1u8; DEFAULT_MTU];
    let (n, sent) = writer.write(&first);
    assert_eq!(n, DEFAULT_MTU);
    assert!(sent.is_none());
    let (n, sent) = writer.write(b"more");
    assert_eq!(n, 4);
    assert_eq!(sent.unwrap(), encode_frame(2, &first));
    assert_eq!(writer.flush(), encode_frame(2, b"more"));
}

#[test]
fn received_header_fields() {
    let h = read_header(&[0x01, 0x02, 0x00, 0x05, 0xab, 0xcd]);
    assert_eq!(h, ChunkHeader { port: 0x0102, chunk_length: 5, checksum: 0xabcd });
}

#[test]
fn oversized_payload_is_skipped() {
    let fits = ChunkHeader { port: 1, chunk_length: BUFFER_SIZE as u16, checksum: 0 };
    assert_eq!(plan_body(&fits), BodyPlan::Read { length: BUFFER_SIZE });
    let too_big = ChunkHeader { port: 1, chunk_length: BUFFER_SIZE as u16 + 1, checksum: 0 };
    assert_eq!(plan_body(&too_big), BodyPlan::Skip { length: BUFFER_SIZE + 1 });
}

#[test]
fn body_checksum_verification() {
    let f = encode_frame(4, b"payload");
    let h = read_header(&f[..HEADER_LENGTH]);
    assert!(check_body(&h, &f[HEADER_LENGTH..]));
    assert!(!check_body(&h, b"pAyload"));
    let wrong = ChunkHeader { checksum: h.checksum ^ 1, ..h };
    assert!(!check_body(&wrong, &f[HEADER_LENGTH..]));
}

#[test]
fn receive_step_outcomes() {
    let mux = Mux::new();
    let f = encode_frame(3, b"abc");
    let mut input = f.clone();
    input.extend_from_slice(&[9, 9]);

    // nothing readable
    let (outcome, consumed) = mux.poll_receive(false, &input);
    assert!(matches!(outcome, ReceiveOutcome::Pending));
    assert_eq!(consumed, 0);

    // a valid chunk is received, taking header and payload
    match mux.poll_receive(true, &input) {
        (ReceiveOutcome::Chunk { port, data }, consumed) => {
            assert_eq!(port, 3);
            assert_eq!(data, b"abc".to_vec());
            assert_eq!(consumed, HEADER_LENGTH + 3);
        }
        other => panic!("unexpected {:?}", other),
    }

    // a bad checksum is ignored, with both checksums, but the chunk is taken whole
    let mut bad = f.clone();
    bad[5] ^= 1;
    let remote = u16::from_be_bytes([bad[4], bad[5]]);
    let local = u16::from_be_bytes([f[4], f[5]]);
    let (outcome, consumed) = mux.poll_receive(true, &bad);
    match outcome {
        ReceiveOutcome::Ignored { port, local_checksum, remote_checksum } => {
            assert_eq!(port, 3);
            assert_eq!(local_checksum, local);
            assert_eq!(remote_checksum, remote);
        }
        other => panic!("unexpected {:?}", other),
    }
    assert_eq!(consumed, HEADER_LENGTH + 3);

    // a chunk too large for the buffer is skipped whole
    let len = (BUFFER_SIZE + 1) as u16;
    let mut big = vec![0, 1, (len >> 8) as u8, len as u8, 0, 0];
    big.extend(vec![7u8; BUFFER_SIZE + 1]);
    big.push(42);
    let (outcome, consumed) = mux.poll_receive(true, &big);
    match outcome {
        ReceiveOutcome::Skipped { port, length } => {
            assert_eq!(port, 1);
            assert_eq!(length, len);
        }
        other => panic!("unexpected {:?}", other),
    }
    assert_eq!(consumed, HEADER_LENGTH + BUFFER_SIZE + 1);
}

#[test]
fn computed_body_checksum() {
    // the checksum of port 0, empty payload, as the host computes it
    let h = ChunkHeader { port: 0, chunk_length: 0, checksum: 0 };
    let f = encode_frame(0, b"");
    assert_eq!(body_checksum(&h, b""), u16::from_be_bytes([f[4], f[5]]));
    let h = ChunkHeader { port: 4, chunk_length: 7, checksum: 0 };
    let f = encode_frame(4, b"payload");
    assert_eq!(body_checksum(&h, b"payload"), u16::from_be_bytes([f[4], f[5]]));
    assert_ne!(body_checksum(&h, b"pAyload"), u16::from_be_bytes([f[4], f[5]]));
}

#[test]
fn outcome_follows_computed_checksum() {
    let h = ChunkHeader { port: 9, chunk_length: 2, checksum: 0x1234 };
    match receive_outcome(&h, 0x1234, &[5, 6]) {
        ReceiveOutcome::Chunk { port, data } => {
            assert_eq!(port, 9);
            assert_eq!(data, vec![5, 6]);
        }
        other => panic!("unexpected {:?}", other),
    }
    match receive_outcome(&h, 0x1235, &[5, 6]) {
        ReceiveOutcome::Ignored { port, local_checksum, remote_checksum } => {
            assert_eq!(port, 9);
            assert_eq!(local_checksum, 0x1235);
            assert_eq!(remote_checksum, 0x1234);
        }
        other => panic!("unexpected {:?}", other),
    }
}

#[test]
fn received_chunks_are_routed_by_port() {
    let chunk = ReceiveOutcome::Chunk { port: 1, data: vec![4, 2] };
    match dispatch(chunk, 1) {
        Dispatch::Decode { data } => assert_eq!(data, vec![4, 2]),
        other => panic!("unexpected {:?}", other),
    }
    let chunk = ReceiveOutcome::Chunk { port: 2, data: vec![4, 2] };
    assert!(matches!(dispatch(chunk, 1), Dispatch::UnexpectedPort { port: 2 }));
    assert!(matches!(dispatch(ReceiveOutcome::Pending, 1), Dispatch::Pending));
    let ignored = ReceiveOutcome::Ignored { port: 1, local_checksum: 1, remote_checksum: 2 };
    assert!(matches!(dispatch(ignored, 1), Dispatch::Pending));
}
