use std::io::ErrorKind;

use bytes::Bytes;
use capmeter::mux::{Mux, MuxError, Routes};
use capmeter::protocol::DEFAULT_MTU;
use capmeter::stream::{ChunkPoll, FillStep, ReadBuffer, WriteBuffer};

#[test]
fn a_port_opens_once() {
    let mut mux = Mux::new();
    assert!(mux.open_port(3).is_ok());
    assert!(mux.open_port(4).is_ok());
    match mux.open_port(3) {
        Err(MuxError::PortAlreadyInUse { port }) => assert_eq!(port, 3),
        other => panic!("unexpected {:?}", other),
    }
}

#[test]
fn mtu_defaults_and_set_mtu_keeps_it() {
    let mux = Mux::new();
    assert_eq!(mux.mtu(), DEFAULT_MTU);
    mux.set_mtu(1000);
    assert_eq!(mux.mtu(), DEFAULT_MTU);
}

#[test]
fn io_error_kinds() {
    let checksum = MuxError::InvalidChunkChecksum { port: 1, local_checksum: 2, remote_checksum: 3 };
    assert_eq!(checksum.io_error_kind(), ErrorKind::InvalidData);
    assert_eq!(MuxError::ChunkTooLarge { chunk_length: 9 }.io_error_kind(), ErrorKind::Unsupported);
    assert_eq!(MuxError::PortAlreadyInUse { port: 1 }.io_error_kind(), ErrorKind::AddrInUse);
    assert_eq!(MuxError::ChannelClosed { port: 1 }.io_error_kind(), ErrorKind::BrokenPipe);
    let serial = tokio_serial::Error::new(tokio_serial::ErrorKind::NoDevice, "gone");
    assert_eq!(MuxError::Serial(serial).io_error_kind(), ErrorKind::ResourceBusy);
    let serial = tokio_serial::Error::new(tokio_serial::ErrorKind::InvalidInput, "bad");
    assert_eq!(MuxError::Serial(serial).io_error_kind(), ErrorKind::InvalidInput);
    let serial = tokio_serial::Error::new(tokio_serial::ErrorKind::Unknown, "?");
    assert_eq!(MuxError::Serial(serial).io_error_kind(), ErrorKind::Other);
    let serial = tokio_serial::Error::new(tokio_serial::ErrorKind::Io(ErrorKind::TimedOut), "t");
    assert_eq!(MuxError::Serial(serial).io_error_kind(), ErrorKind::TimedOut);
    let io = std::io::Error::new(ErrorKind::Interrupted, "i");
    assert_eq!(MuxError::Io(io).io_error_kind(), ErrorKind::Interrupted);
    assert_eq!(MuxError::Postcard(postcard::Error::DeserializeUnexpectedEnd).io_error_kind(), ErrorKind::InvalidData);
}

#[test]
fn write_buffer_takes_up_to_mtu() {
    let mut w = WriteBuffer::new(4);
    assert!(w.is_empty());
    assert_eq!(w.write(b"ab"), 2);
    assert_eq!(w.write(b"cdef"), 2);
    assert!(w.is_full());
    assert_eq!(w.write(b"g"), 0);
    assert_eq!(&w.take()[..], b"abcd");
    assert!(w.is_empty());
    assert_eq!(w.write(b"efgh"), 4);
    assert_eq!(w.mtu(), 4);
}

#[test]
fn read_buffer_serves_bytes_in_order() {
    let mut r = ReadBuffer::new();
    assert!(r.is_empty());
    r.fill(Bytes::from_static(b"hello"));
    assert_eq!(r.read_len(3), 3);
    assert_eq!(&r.available()[..3], b"hel");
    r.consume(3);
    assert_eq!(r.read_len(10), 2);
    assert_eq!(&r.available()[..], b"lo");
    r.consume(2);
    assert!(r.is_empty());
    r.fill(Bytes::new());
    assert!(r.is_empty());
}

#[test]
fn chunks_are_routed_by_port() {
    let mut routes: Routes<&'static str> = Routes::new();
    assert_eq!(routes.route(1), None);
    routes.register(1, "one");
    routes.register(2, "two");
    assert_eq!(routes.route(1), Some(&"one"));
    routes.register(1, "uno");
    assert_eq!(routes.route(1), Some(&"uno"));
    routes.forget(1);
    assert_eq!(routes.route(1), None);
    assert_eq!(routes.route(2), Some(&"two"));
}

#[test]
fn a_waiting_read_skips_empty_chunks_and_stops_at_the_end() {
    let mut r = ReadBuffer::new();
    assert!(matches!(r.on_poll::<u8>(ChunkPoll::Pending), FillStep::Pending));
    assert!(r.is_empty());
    assert!(matches!(r.on_poll::<u8>(ChunkPoll::Data(Bytes::new())), FillStep::PollAgain));
    assert!(r.is_empty());
    assert!(matches!(r.on_poll::<u8>(ChunkPoll::Failed(7)), FillStep::Failed(7)));
    assert!(r.is_empty());
    assert!(matches!(r.on_poll::<u8>(ChunkPoll::End), FillStep::Ready));
    assert!(r.is_empty());
    assert!(matches!(
        r.on_poll::<u8>(ChunkPoll::Data(Bytes::from_static(b"abc"))),
        FillStep::Ready
    ));
    assert_eq!(&r.available()[..], b"abc");
}
