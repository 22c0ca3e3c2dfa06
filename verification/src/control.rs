//! How the device answers USB control requests: it serves vendor requests
//! number 0 addressed to its own interface, and leaves all others to the
//! USB stack.
use vstd::prelude::*;

verus! {

/// The type field of a control request.
#[derive(Clone, Copy, Debug, PartialEq, Eq, Structural)]
pub enum RequestType {
    Standard,
    Class,
    Vendor,
    Reserved,
}

/// The recipient field of a control request.
#[derive(Clone, Copy, Debug, PartialEq, Eq, Structural)]
pub enum Recipient {
    Device,
    Interface,
    Endpoint,
    Other,
    Reserved,
}

/// The fields of a control request's setup packet.
#[derive(Clone, Copy, Debug, PartialEq, Eq, Structural)]
pub struct ControlRequest {
    pub request_type: RequestType,
    pub recipient: Recipient,
    pub request: u8,
    pub value: u16,
    pub index: u16,
    pub length: u16,
}

/// What to do with a control request.
#[derive(Clone, Copy, Debug, PartialEq, Eq, Structural)]
pub enum ControlPlan {
    /// Not addressed to this handler; the USB stack deals with it.
    NotForUs,
    /// Addressed to this handler but not understood: reject it.
    Reject,
    /// Request 0: for an IN transfer, send the latest measurement; for an
    /// OUT transfer, queue the command it carries.
    Handle,
}

/// The answer to a handled request.
#[derive(Clone, Copy, Debug, PartialEq, Eq, Structural)]
pub enum ControlResponse {
    Accepted,
    Rejected,
}

/// The device's handler of control requests on its vendor interface.
#[derive(Clone, Copy, Debug, PartialEq, Eq, Structural)]
pub struct ControlHandler {
    /// Number of the vendor interface.
    pub interface: u8,
}

impl ControlHandler {
    /// Whether a request is addressed to this handler.
    pub open spec fn accepts(&self, request: ControlRequest) -> bool {
        &&& request.request_type == RequestType::Vendor
        &&& request.recipient == Recipient::Interface
        &&& request.index == self.interface as u16
        &&& request.request == 0
    }

    pub fn filter_request(&self, request: &ControlRequest) -> (accept: bool)
        ensures
            accept == self.accepts(*request),
    {
        request.request_type == RequestType::Vendor && request.recipient == Recipient::Interface
            && request.index == self.interface as u16 && request.request == 0
    }

    /// The plan for a request, for either direction.
    pub fn plan(&self, request: &ControlRequest) -> (plan: ControlPlan)
        ensures
            !self.accepts(*request) ==> plan == ControlPlan::NotForUs,
            self.accepts(*request) ==> plan == ControlPlan::Handle,
    {
        if self.filter_request(request) {
            match request.request {
                0 => ControlPlan::Handle,
                _ => ControlPlan::Reject,
            }
        } else {
            ControlPlan::NotForUs
        }
    }
}

/// The answer to a handled IN request: accepted when the measurement could
/// be serialized into the reply buffer.
pub fn in_response(serialized: bool) -> (r: ControlResponse)
    ensures
        r == (if serialized {
            ControlResponse::Accepted
        } else {
            ControlResponse::Rejected
        }),
{
    if serialized {
        ControlResponse::Accepted
    } else {
        ControlResponse::Rejected
    }
}

/// The answer to a handled OUT request: accepted when its data was a
/// command and the command could be queued for the measuring loop.
pub fn out_response(parsed: bool, queued: bool) -> (r: ControlResponse)
    ensures
        r == (if parsed && queued {
            ControlResponse::Accepted
        } else {
            ControlResponse::Rejected
        }),
{
    if parsed && queued {
        ControlResponse::Accepted
    } else {
        ControlResponse::Rejected
    }
}

/// Reply buffer size that the host asks for when reading a measurement.
pub const MEASUREMENT_REPLY_LENGTH: u16 = 256;

/// The request with which the host reads the latest measurement.
pub fn measurement_request() -> (r: ControlRequest)
    ensures
        r == (ControlRequest {
            request_type: RequestType::Vendor,
            recipient: Recipient::Interface,
            request: 0,
            value: 0,
            index: 0,
            length: MEASUREMENT_REPLY_LENGTH,
        }),
{
    ControlRequest {
        request_type: RequestType::Vendor,
        recipient: Recipient::Interface,
        request: 0,
        value: 0,
        index: 0,
        length: MEASUREMENT_REPLY_LENGTH,
    }
}

/// The request with which the host sends a command of `length` bytes.
pub fn command_request(length: u16) -> (r: ControlRequest)
    ensures
        r == (ControlRequest {
            request_type: RequestType::Vendor,
            recipient: Recipient::Interface,
            request: 0,
            value: 0,
            index: 0,
            length,
        }),
{
    ControlRequest {
        request_type: RequestType::Vendor,
        recipient: Recipient::Interface,
        request: 0,
        value: 0,
        index: 0,
        length,
    }
}

/// The host's requests are handled by the device's handler on its first
/// interface.
pub proof fn lemma_host_requests_handled(length: u16)
    ensures
        (ControlHandler { interface: 0 }).accepts(
            ControlRequest {
                request_type: RequestType::Vendor,
                recipient: Recipient::Interface,
                request: 0,
                value: 0,
                index: 0,
                length,
            },
        ),
{
}

} // verus!
