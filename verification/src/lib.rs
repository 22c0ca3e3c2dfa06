//! Verified core of a small capacitance meter: the device protocol types,
//! the chunk framing used on the serial link, the buffering behind the
//! byte-stream adapters, and the decision logic of client and firmware.
pub mod outside;
pub mod protocol;

pub mod buffers;
pub mod checksum;
pub mod codec;
pub mod frame;
pub mod mux;
pub mod stream;

pub mod control;
pub mod debug_led;
pub mod device;
pub mod global;
pub mod measure;
pub mod serial;
pub mod time;

pub mod client;
pub mod si;
