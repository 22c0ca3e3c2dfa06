use bytes::BytesMut;
use capmeter::codec::{Chunk, ChunkedCodec, ChunkedDecoder, ChunkedEncoder};
use capmeter::frame::{compute_frame_checksum, encode_frame, encode_header, u16_from_be, u16_to_be};
use capmeter::mux::MuxError;

fn crc16_usb(bytes: &[u8]) -> u16 {
    crc::Crc::<u16>::new(&crc::CRC_16_USB).checksum(bytes)
}

#[test]
fn big_endian_helpers() {
    assert_eq!(u16_to_be(0x1234), (0x12, 0x34));
    assert_eq!(u16_from_be(0x12, 0x34), 0x1234);
    assert_eq!(encode_header(1, 2, 0xabcd), vec![0, 1, 0, 2, 0xab, 0xcd]);
}

#[test]
fn checksum_is_crc16_usb_of_header_and_payload() {
    // the catalogue's check value of CRC-16/USB
    assert_eq!(crc16_usb(b"123456789"), 0xb4c8);
    let c = compute_frame_checksum(0x0102, &[0xaa, 0xbb]);
    assert_eq!(c, crc16_usb(&[0x01, 0x02, 0x00, 0x02, 0x00, 0x00, 0xaa, 0xbb]));
    assert_ne!(c, 0);
}

#[test]
fn frame_layout() {
    let f = encode_frame(0x0102, &[0xaa]);
    let c = crc16_usb(&[0x01, 0x02, 0x00, 0x01, 0x00, 0x00, 0xaa]);
    assert_eq!(f, vec![0x01, 0x02, 0x00, 0x01, (c >> 8) as u8, c as u8, 0xaa]);
}

#[test]
fn decodes_complete_frame_and_leaves_rest() {
    let mut src = BytesMut::new();
    src.extend_from_slice(&encode_frame(7, b"hello"));
    src.extend_from_slice(&[1, 2, 3]);
    let mut decoder = ChunkedDecoder::default();
    let chunk = decoder.decode(&mut src).unwrap().unwrap();
    assert_eq!(chunk.port, 7);
    assert_eq!(chunk.data, b"hello".to_vec());
    assert_eq!(&src[..], &[1, 2, 3]);
}

#[test]
fn decodes_frame_arriving_in_pieces() {
    let f = encode_frame(3, &[10, 20, 30, 40]);
    for k in 0..f.len() {
        let mut decoder = ChunkedDecoder::new();
        let mut src = BytesMut::from(&f[..k]);
        assert!(decoder.decode(&mut src).unwrap().is_none());
        src.extend_from_slice(&f[k..]);
        let chunk = decoder.decode(&mut src).unwrap().unwrap();
        assert_eq!(chunk.port, 3);
        assert_eq!(chunk.data, vec![10, 20, 30, 40]);
        assert!(src.is_empty());
    }
}

#[test]
fn short_input_is_left_alone() {
    let mut decoder = ChunkedDecoder::new();
    let mut src = BytesMut::from(&[0u8, 1, 0][..]);
    assert!(decoder.decode(&mut src).unwrap().is_none());
    assert_eq!(&src[..], &[0, 1, 0]);
}

#[test]
fn bad_checksum_is_reported_and_consumed() {
    let mut f = encode_frame(9, &[1, 2, 3]);
    let good = u16_from_be(f[4], f[5]);
    f[4] ^= 0xff;
    let remote = u16_from_be(f[4], f[5]);
    let mut src = BytesMut::from(&f[..]);
    src.extend_from_slice(&encode_frame(9, &[4]));
    let mut decoder = ChunkedDecoder::new();
    match decoder.decode(&mut src) {
        Err(MuxError::InvalidChunkChecksum { port, local_checksum, remote_checksum }) => {
            assert_eq!(port, 9);
            assert_eq!(local_checksum, good);
            assert_eq!(remote_checksum, remote);
        }
        other => panic!("unexpected {:?}", other),
    }
    // the decoder is ready for the next chunk
    let chunk = decoder.decode(&mut src).unwrap().unwrap();
    assert_eq!(chunk.data, vec![4]);
}

#[test]
fn empty_chunk_decodes() {
    let mut src = BytesMut::from(&encode_frame(0xffff, &[])[..]);
    let chunk = ChunkedDecoder::new().decode(&mut src).unwrap().unwrap();
    assert_eq!(chunk.port, 0xffff);
    assert!(chunk.data.is_empty());
}

#[test]
fn encoder_writes_padded_payload_and_checksum() {
    let mut dst = BytesMut::new();
    let mut encoder = ChunkedEncoder::default();
    encoder.encode(Chunk { port: 1, data: vec![9] }, &mut dst).unwrap();
    let c = crc16_usb(&[0, 1, 0, 1, 0, 0, 9]);
    assert_eq!(&dst[..], &[9, 0, 0, 0, (c >> 8) as u8, c as u8]);
}

#[test]
fn encoder_sets_checksum_at_buffer_offset_four() {
    let mut dst = BytesMut::from(&[0xee; 8][..]);
    ChunkedEncoder::new().encode(Chunk { port: 2, data: vec![] }, &mut dst).unwrap();
    let c = crc16_usb(&[0, 2, 0, 0, 0, 0]);
    assert_eq!(dst.len(), 14);
    assert_eq!(&dst[4..6], &[(c >> 8) as u8, c as u8]);
    assert_eq!(&dst[8..], &[0; 6]);
}

#[test]
fn empty_chunk_on_port_zero_round_trips() {
    let mut codec = ChunkedCodec::default();
    let mut buf = BytesMut::new();
    codec.encode(Chunk { port: 0, data: vec![] }, &mut buf).unwrap();
    let chunk = codec.decode(&mut buf).unwrap().unwrap();
    assert_eq!(chunk.port, 0);
    assert!(chunk.data.is_empty());
}

#[test]
fn chunks_decode_in_the_order_sent() {
    let chunks: Vec<(u16, Vec<u8>)> = vec![(1, vec![1]), (2, vec![]), (1, vec![2, 3]), (9, vec![0; 300])];
    let mut src = BytesMut::new();
    for (port, data) in &chunks {
        src.extend_from_slice(&encode_frame(*port, data));
    }
    src.extend_from_slice(&[0xaa, 0xbb]);
    let mut decoder = ChunkedDecoder::new();
    for (port, data) in &chunks {
        let chunk = decoder.decode(&mut src).unwrap().unwrap();
        assert_eq!(chunk.port, *port);
        assert_eq!(&chunk.data, data);
    }
    assert!(decoder.decode(&mut src).unwrap().is_none());
    assert_eq!(&src[..], &[0xaa, 0xbb]);
}
