use vstd::prelude::*;

pub mod addr;
pub mod errors;
pub mod exact;
pub mod stream;
pub mod wire;

verus! {

/// Marker type for the TCP realization of the transport contract.
///
/// The socket plumbing itself is asynchronous I/O; this type anchors the
/// TCP transport so that listeners and streams produced by it share one
/// address and error vocabulary.
pub struct TcpProtocol;

} // verus!
