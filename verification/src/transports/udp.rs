use vstd::prelude::*;
use crate::error::{ErrorKind, TransportError};
use crate::providers::UdpProvider;
use crate::tools::Tool;
use crate::transports::common::{socket_address, spec_address};

verus! {

/// Sends one JSON datagram to a provider and reads one datagram back.
pub struct UdpTransport;

impl UdpTransport {
    /// A UDP transport.
    pub fn new() -> (r: UdpTransport) {
        UdpTransport
    }

    /// The tools found on registration: a UDP provider declares none.
    pub fn register_tool_provider(&self) -> (r: Vec<Tool>)
        ensures
            r@.len() == 0,
    {
        Vec::new()
    }

    /// The address of the provider.
    pub fn address(prov: &UdpProvider) -> (r: String)
        ensures
            r@ == spec_address(prov.host@, prov.port),
    {
        socket_address(prov.host.as_str(), prov.port)
    }

    /// The refusal to stream: datagrams carry one reply.
    pub fn call_tool_stream(&self) -> (r: TransportError)
        ensures
            r.kind == ErrorKind::StreamingUnsupported,
            r.message@ == "Streaming not suitable for UDP - use TCP or WebSocket"@,
    {
        TransportError::new(ErrorKind::StreamingUnsupported, "Streaming not suitable for UDP - use TCP or WebSocket")
    }
}

} // verus!
