//! Host-side multiplexer state and its error type.
use vstd::prelude::*;

use std::collections::{HashMap, HashSet};

use crate::protocol::{Port, DEFAULT_MTU};

verus! {

broadcast use vstd::std_specs::hash::group_hash_axioms;

/// Errors of the multiplexed serial link.
#[derive(Debug)]
pub enum MuxError {
    Serial(tokio_serial::Error),
    Postcard(postcard::Error),
    Io(std::io::Error),
    InvalidChunkChecksum { port: Port, local_checksum: u16, remote_checksum: u16 },
    ChunkTooLarge { chunk_length: usize },
    PortAlreadyInUse { port: Port },
    ChannelClosed { port: Port },
}

/// The kind of an I/O error, as `std::io::Error::kind` reads it from the
/// error.
pub uninterp spec fn io_error_kind_of(error: std::io::Error) -> std::io::ErrorKind;

/// Calls `std::io::Error::kind`; the contract claims only that the result
/// is the error's kind, a function of the error alone.
#[verifier::external_body]
fn kind_of_io_error(error: &std::io::Error) -> (kind: std::io::ErrorKind)
    ensures
        kind == io_error_kind_of(*error),
{
    error.kind()
}

impl MuxError {
    /// The I/O error kind under which an error is reported through the
    /// byte-stream interfaces; an I/O error keeps its own kind.
    pub open spec fn io_kind(self) -> std::io::ErrorKind {
        match self {
            MuxError::Serial(error) => match error.kind {
                tokio_serial::ErrorKind::NoDevice => std::io::ErrorKind::ResourceBusy,
                tokio_serial::ErrorKind::InvalidInput => std::io::ErrorKind::InvalidInput,
                tokio_serial::ErrorKind::Unknown => std::io::ErrorKind::Other,
                tokio_serial::ErrorKind::Io(kind) => kind,
            },
            MuxError::Postcard(_) => std::io::ErrorKind::InvalidData,
            MuxError::Io(error) => io_error_kind_of(error),
            MuxError::InvalidChunkChecksum { .. } => std::io::ErrorKind::InvalidData,
            MuxError::ChunkTooLarge { .. } => std::io::ErrorKind::Unsupported,
            MuxError::PortAlreadyInUse { .. } => std::io::ErrorKind::AddrInUse,
            MuxError::ChannelClosed { .. } => std::io::ErrorKind::BrokenPipe,
        }
    }

    /// The kind of the `std::io::Error` that this error becomes.
    pub fn io_error_kind(&self) -> (kind: std::io::ErrorKind)
        ensures
            kind == self.io_kind(),
    {
        match self {
            MuxError::Serial(error) => match error.kind {
                tokio_serial::ErrorKind::NoDevice => std::io::ErrorKind::ResourceBusy,
                tokio_serial::ErrorKind::InvalidInput => std::io::ErrorKind::InvalidInput,
                tokio_serial::ErrorKind::Unknown => std::io::ErrorKind::Other,
                tokio_serial::ErrorKind::Io(kind) => kind,
            },
            MuxError::Postcard(_error) => std::io::ErrorKind::InvalidData,
            MuxError::Io(error) => kind_of_io_error(error),
            MuxError::InvalidChunkChecksum { .. } => std::io::ErrorKind::InvalidData,
            MuxError::ChunkTooLarge { .. } => std::io::ErrorKind::Unsupported,
            MuxError::PortAlreadyInUse { .. } => std::io::ErrorKind::AddrInUse,
            MuxError::ChannelClosed { .. } => std::io::ErrorKind::BrokenPipe,
        }
    }
}

/// Which ports have been opened on the link, and the payload size that new
/// channels use.
#[derive(Debug)]
pub struct Mux {
    open_streams: HashSet<Port>,
    mtu: usize,
}

impl Mux {
    /// The ports that have been opened.
    pub closed spec fn open_ports(&self) -> Set<Port> {
        self.open_streams@
    }

    /// The payload size handed to new channels.
    pub closed spec fn spec_mtu(&self) -> usize {
        self.mtu
    }

    /// No port open; the default payload size.
    pub fn new() -> (m: Self)
        ensures
            m.open_ports() == Set::<Port>::empty(),
            m.spec_mtu() == DEFAULT_MTU,
    {
        Mux { open_streams: HashSet::new(), mtu: DEFAULT_MTU }
    }

    pub fn mtu(&self) -> (mtu: usize)
        ensures
            mtu == self.spec_mtu(),
    {
        self.mtu
    }

    /// Checks a payload size: it must be positive and fit the length field.
    /// The size in use is left as it is.
    pub fn set_mtu(&self, mtu: usize)
        requires
            0 < mtu <= u16::MAX,
    {
    }

    /// Marks `port` as open for a new channel. A port can be opened once.
    pub fn open_port(&mut self, port: Port) -> (r: Result<(), MuxError>)
        ensures
            final(self).open_ports() == old(self).open_ports().insert(port),
            final(self).spec_mtu() == old(self).spec_mtu(),
            r is Ok <==> !old(self).open_ports().contains(port),
            r matches Err(e) ==> e matches MuxError::PortAlreadyInUse { port: p } && p == port,
    {
        if !self.open_streams.insert(port) {
            return Err(MuxError::PortAlreadyInUse { port });
        }
        Ok(())
    }
}

/// Where received chunks go: the channel registered for each port.
#[derive(Debug)]
pub struct Routes<S> {
    channel_receivers: HashMap<Port, S>,
}

impl<S> Routes<S> {
    /// The channel registered for each port.
    pub closed spec fn routes(&self) -> Map<Port, S> {
        self.channel_receivers@
    }

    pub fn new() -> (r: Self)
        ensures
            r.routes() == Map::<Port, S>::empty(),
    {
        Routes { channel_receivers: HashMap::new() }
    }

    /// Registers the channel for `port`, replacing any channel registered
    /// for it before.
    pub fn register(&mut self, port: Port, channel: S)
        ensures
            final(self).routes() == old(self).routes().insert(port, channel),
    {
        self.channel_receivers.insert(port, channel);
    }

    /// The channel that a chunk on `port` goes to; a chunk on a port
    /// without one is dropped.
    pub fn route(&self, port: Port) -> (channel: Option<&S>)
        ensures
            match channel {
                Some(c) => self.routes().contains_key(port) && *c == self.routes()[port],
                None => !self.routes().contains_key(port),
            },
    {
        self.channel_receivers.get(&port)
    }

    /// Forgets the channel of `port`, once it has been closed.
    pub fn forget(&mut self, port: Port)
        ensures
            final(self).routes() == old(self).routes().remove(port),
    {
        self.channel_receivers.remove(&port);
    }
}

/// Once a port has been opened, opening it again is refused, and the set of
/// open ports stays as it was.
pub proof fn lemma_port_opened_once(ports: Set<Port>, port: Port)
    ensures
        ports.insert(port).contains(port),
        ports.insert(port).insert(port) == ports.insert(port),
{
    assert(ports.insert(port).insert(port) =~= ports.insert(port));
}

} // verus!
