//! One observation of traffic on a connection, as the capture layer hands
//! it over.

use crate::networking::types::address_port_pair::AddressPortPair;
use crate::networking::types::ip_address::IpAddress;
use crate::networking::types::protocol::Protocol;
use vstd::prelude::*;

verus! {

/// Which way the observed traffic went between the two ends of its pair.
#[derive(Clone, Copy, Debug, PartialEq, Eq, Structural, Hash)]
pub enum TrafficDirection {
    /// From the first end to the second.
    Outgoing,
    /// From the second end to the first.
    Incoming,
}

/// Why an observation is not taken in.
#[derive(Clone, Copy, Debug, PartialEq, Eq, Structural, Hash)]
pub enum EventError {
    /// The protocol has ports and an end comes without one.
    MissingPort,
    /// The protocol has no ports and an end comes with one.
    UnexpectedPort,
}

/// One observation: a number of packets and bytes seen at some time between
/// two ends.
#[derive(Debug)]
pub struct ConnectionEvent {
    /// Address of the first end.
    pub address1: IpAddress,
    /// Port of the first end.
    pub port1: Option<u16>,
    /// Address of the second end.
    pub address2: IpAddress,
    /// Port of the second end.
    pub port2: Option<u16>,
    /// Protocol carried between the ends.
    pub protocol: Protocol,
    /// Way the traffic went.
    pub direction: TrafficDirection,
    /// Number of bytes observed.
    pub bytes: u64,
    /// Number of packets observed.
    pub packets: u64,
    /// Time of the observation.
    pub timestamp: u64,
    /// Name of the upper layer service, as far as the capture layer knows it.
    pub service: Option<String>,
}

/// An observation as the contracts speak of it.
pub struct EventView {
    pub key: AddressPortPair,
    pub direction: TrafficDirection,
    pub bytes: nat,
    pub packets: nat,
    pub timestamp: nat,
    pub service: Option<Seq<char>>,
}

impl View for ConnectionEvent {
    type V = EventView;

    open spec fn view(&self) -> EventView {
        EventView {
            key: AddressPortPair {
                address1: self.address1,
                port1: self.port1,
                address2: self.address2,
                port2: self.port2,
                protocol: self.protocol,
            },
            direction: self.direction,
            bytes: self.bytes as nat,
            packets: self.packets as nat,
            timestamp: self.timestamp as nat,
            service: match self.service {
                Some(name) => Some(name@),
                None => None,
            },
        }
    }
}

impl EventView {
    /// Whether the observation may enter the table: its ports agree with
    /// its protocol.
    pub open spec fn well_formed(self) -> bool {
        self.key.consistent()
    }
}

impl ConnectionEvent {
    /// The pair that the observation belongs to.
    pub fn key(&self) -> (key: AddressPortPair)
        ensures
            key == self@.key,
    {
        AddressPortPair::new(self.address1, self.port1, self.address2, self.port2, self.protocol)
    }

    /// Checks the observation at the boundary: it passes if and only if its
    /// ports agree with its protocol. An end without a port under a protocol
    /// with ports is a missing port; an end with a port under a protocol
    /// without ports is an unexpected one.
    pub fn validate(&self) -> (checked: Result<(), EventError>)
        ensures
            checked is Ok <==> self@.well_formed(),
            checked == Err::<(), EventError>(EventError::MissingPort) <==> self.protocol.has_ports()
                && (self.port1 is None || self.port2 is None),
            checked == Err::<(), EventError>(EventError::UnexpectedPort)
                <==> !self.protocol.has_ports() && (self.port1 is Some || self.port2 is Some),
    {
        if self.protocol.uses_ports() {
            if self.port1.is_none() || self.port2.is_none() {
                return Err(EventError::MissingPort);
            }
        } else if self.port1.is_some() || self.port2.is_some() {
            return Err(EventError::UnexpectedPort);
        }
        Ok(())
    }
}

} // verus!
