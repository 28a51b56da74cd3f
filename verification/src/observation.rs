//! What the authority reports outward: protocol errors and metadata changes
//! stripped of ids and values, and the flow-control events of the bounded
//! observation channel.
use vstd::prelude::*;

verus! {

/// A protocol error a client was sent, without the resource it named.
#[derive(Clone, Copy, Debug, PartialEq, Eq, Structural)]
pub struct XAuthorityProtocolErrorObservation {
    pub code: u8,
    pub sequence: u16,
    pub minor_code: u16,
    pub major_code: u8,
}

/// Evidence that metadata changed: ids and value bytes stay inside the
/// frontend; only the established property name and a byte length leave.
#[derive(Clone, Debug, PartialEq, Eq)]
pub struct XAuthorityMetadataObservation {
    pub property_name: String,
    pub byte_len: usize,
}

/// What happened on the bounded observation channel.
#[derive(Clone, Copy, Debug, PartialEq, Eq, Structural)]
pub enum XAuthorityBackpressureTelemetryKind {
    Wait,
    Resume,
    Shutdown,
    TransportFailure,
}

/// Why waiting on a full observation channel ended without delivery.
#[derive(Clone, Copy, Debug, PartialEq, Eq, Structural)]
pub enum XAuthorityBackpressureFailure {
    Cancelled,
    Disconnected,
}

/// An informational comparison of retired layout facts with the current
/// allocation state; it grants no permission or protocol mode.
#[derive(Clone, Copy, Debug, PartialEq, Eq, Structural)]
pub enum XPresentLayoutComparisonResult {
    Matched,
    Rejected,
}

} // verus!
