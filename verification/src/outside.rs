//! Outside types that the library holds or hands on.
use vstd::prelude::*;

verus! {

/// `std::io::ErrorKind`, declared with its variants visible: verified code
/// names the kinds under which errors are reported.
#[verifier::external_type_specification]
pub struct ExIoErrorKind(std::io::ErrorKind);

/// `tokio_serial::ErrorKind` (`serialport::ErrorKind`), declared with its
/// variants visible: verified code tells them apart.
#[verifier::external_type_specification]
pub struct ExSerialErrorKind(tokio_serial::ErrorKind);

/// `tokio_serial::Error` (`serialport::Error`), declared with its public
/// fields visible: verified code reads its kind.
#[verifier::external_type_specification]
pub struct ExSerialError(tokio_serial::Error);

/// `std::io::Error`, carried through opaquely.
#[verifier::external_type_specification]
#[verifier::external_body]
pub struct ExIoError(std::io::Error);

/// `postcard::Error`, carried through opaquely.
#[verifier::external_type_specification]
#[verifier::external_body]
pub struct ExPostcardError(postcard::Error);

/// `bytes::BytesMut`, seen through `buffers::buffer_contents`.
#[verifier::external_type_specification]
#[verifier::external_body]
pub struct ExBytesMut(bytes::BytesMut);

/// `bytes::Bytes`, seen through `buffers::bytes_contents`.
#[verifier::external_type_specification]
#[verifier::external_body]
pub struct ExBytes(bytes::Bytes);

/// `nusb::Error`, carried through opaquely.
#[verifier::external_type_specification]
#[verifier::external_body]
pub struct ExUsbError(nusb::Error);

/// `nusb::transfer::TransferError`, carried through opaquely.
#[verifier::external_type_specification]
#[verifier::external_body]
pub struct ExUsbTransferError(nusb::transfer::TransferError);

} // verus!
