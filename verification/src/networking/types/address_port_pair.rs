//! The identity of a connection: its two ends and the protocol between them.

use crate::networking::types::ip_address::IpAddress;
use crate::networking::types::protocol::Protocol;
use vstd::prelude::*;

verus! {

/// Two address:port ends and the protocol carried between them. The ends
/// keep the order in which they were observed: the pair with its ends
/// exchanged is another pair.
#[derive(Clone, Copy, Debug, PartialEq, Eq, Structural, Hash)]
pub struct AddressPortPair {
    /// Network layer IPv4 or IPv6 address of the first end.
    pub address1: IpAddress,
    /// Transport layer port number of the first end, where the protocol has ports.
    pub port1: Option<u16>,
    /// Network layer IPv4 or IPv6 address of the second end.
    pub address2: IpAddress,
    /// Transport layer port number of the second end, where the protocol has ports.
    pub port2: Option<u16>,
    /// Protocol carried between the two ends.
    pub protocol: Protocol,
}

impl AddressPortPair {
    /// The pair made of the given ends and protocol.
    pub fn new(
        address1: IpAddress,
        port1: Option<u16>,
        address2: IpAddress,
        port2: Option<u16>,
        protocol: Protocol,
    ) -> (pair: Self)
        ensures
            pair == (AddressPortPair { address1, port1, address2, port2, protocol }),
    {
        AddressPortPair { address1, port1, address2, port2, protocol }
    }

    /// Whether the ports agree with the protocol: both ends have one where
    /// the protocol has ports, neither has one where it has none.
    pub open spec fn consistent(self) -> bool {
        &&& self.port1 is Some <==> self.protocol.has_ports()
        &&& self.port2 is Some <==> self.protocol.has_ports()
    }

    /// Tells whether the ports agree with the protocol.
    pub fn is_consistent(&self) -> (consistent: bool)
        ensures
            consistent == self.consistent(),
    {
        let ports = self.protocol.uses_ports();
        self.port1.is_some() == ports && self.port2.is_some() == ports
    }
}

} // verus!
