//! Addresses as plain values, and the well-known rendezvous endpoint.

use vstd::prelude::*;

verus! {

/// An IP address, by its octets in network order.
#[derive(Clone, Copy, Debug, PartialEq, Eq)]
pub enum IpAddress {
    V4([u8; 4]),
    V6([u8; 16]),
}

/// An IP address together with a port.
#[derive(Clone, Copy, Debug, PartialEq, Eq)]
pub struct Endpoint {
    pub ip: IpAddress,
    pub port: u16,
}

/// The multicast group on which heartbeats are sent and heard: 239.2.2.2.
pub const MULTICAST_ADDRESS: [u8; 4] = [239, 2, 2, 2];

/// The UDP port on which heartbeats are sent and heard.
pub const MULTICAST_PORT: u16 = 8888;

/// The rendezvous endpoint: the multicast group and its port.
pub open spec fn spec_multicast_socket() -> Endpoint {
    Endpoint { ip: IpAddress::V4(MULTICAST_ADDRESS), port: MULTICAST_PORT }
}

/// The rendezvous endpoint: the multicast group and its port.
#[verifier::when_used_as_spec(spec_multicast_socket)]
pub fn multicast_socket() -> (socket: Endpoint)
    ensures
        socket == spec_multicast_socket(),
{
    Endpoint { ip: IpAddress::V4(MULTICAST_ADDRESS), port: MULTICAST_PORT }
}

impl Endpoint {
    /// The endpoint at the same address with another port.
    pub open spec fn spec_with_port(self, port: u16) -> Endpoint {
        Endpoint { ip: self.ip, port }
    }

    /// The endpoint at the same address with another port.
    #[verifier::when_used_as_spec(spec_with_port)]
    pub fn with_port(self, port: u16) -> (endpoint: Endpoint)
        ensures
            endpoint == self.spec_with_port(port),
    {
        Endpoint { ip: self.ip, port }
    }
}

} // verus!
