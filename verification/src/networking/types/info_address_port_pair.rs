//! What has been observed on one connection so far.

use crate::networking::types::connection_event::{ConnectionEvent, EventView, TrafficDirection};
use crate::networking::types::data_representation::DataRepr;
use crate::networking::types::service::Service;
use vstd::prelude::*;

verus! {

/// Running totals of the traffic of one address:port pair.
#[derive(Debug)]
pub struct InfoAddressPortPair {
    /// Bytes sent from the first end to the second.
    pub transmitted_bytes: u64,
    /// Packets sent from the first end to the second.
    pub transmitted_packets: u64,
    /// Bytes sent from the second end to the first.
    pub received_bytes: u64,
    /// Packets sent from the second end to the first.
    pub received_packets: u64,
    /// Earliest time at which traffic of the pair was observed.
    pub initial_timestamp: u64,
    /// Latest time at which traffic of the pair was observed.
    pub final_timestamp: u64,
    /// Upper layer service, as far as it is known.
    pub service: Service,
}

/// Running totals as the contracts speak of them: unbounded counters.
pub struct InfoView {
    pub transmitted_bytes: nat,
    pub transmitted_packets: nat,
    pub received_bytes: nat,
    pub received_packets: nat,
    pub initial_timestamp: nat,
    pub final_timestamp: nat,
    pub service: Option<Seq<char>>,
}

impl View for InfoAddressPortPair {
    type V = InfoView;

    open spec fn view(&self) -> InfoView {
        InfoView {
            transmitted_bytes: self.transmitted_bytes as nat,
            transmitted_packets: self.transmitted_packets as nat,
            received_bytes: self.received_bytes as nat,
            received_packets: self.received_packets as nat,
            initial_timestamp: self.initial_timestamp as nat,
            final_timestamp: self.final_timestamp as nat,
            service: self.service@,
        }
    }
}

/// The part of an amount that counts for the given direction.
pub open spec fn share(wanted: TrafficDirection, event: EventView, amount: nat) -> nat {
    if event.direction == wanted {
        amount
    } else {
        0
    }
}

impl InfoView {
    /// Totals of a pair of which nothing but the given observation is known.
    pub open spec fn started(event: EventView) -> InfoView {
        InfoView {
            transmitted_bytes: share(TrafficDirection::Outgoing, event, event.bytes),
            transmitted_packets: share(TrafficDirection::Outgoing, event, event.packets),
            received_bytes: share(TrafficDirection::Incoming, event, event.bytes),
            received_packets: share(TrafficDirection::Incoming, event, event.packets),
            initial_timestamp: event.timestamp,
            final_timestamp: event.timestamp,
            service: event.service,
        }
    }

    /// Totals after one more observation: its bytes and packets are added
    /// to the counters of its direction, the two times widen to hold its
    /// time, and its service replaces the old one if it names one.
    pub open spec fn absorbed(self, event: EventView) -> InfoView {
        InfoView {
            transmitted_bytes: self.transmitted_bytes + share(
                TrafficDirection::Outgoing,
                event,
                event.bytes,
            ),
            transmitted_packets: self.transmitted_packets + share(
                TrafficDirection::Outgoing,
                event,
                event.packets,
            ),
            received_bytes: self.received_bytes + share(
                TrafficDirection::Incoming,
                event,
                event.bytes,
            ),
            received_packets: self.received_packets + share(
                TrafficDirection::Incoming,
                event,
                event.packets,
            ),
            initial_timestamp: if event.timestamp < self.initial_timestamp {
                event.timestamp
            } else {
                self.initial_timestamp
            },
            final_timestamp: if event.timestamp > self.final_timestamp {
                event.timestamp
            } else {
                self.final_timestamp
            },
            service: if event.service is Some {
                event.service
            } else {
                self.service
            },
        }
    }

    /// Whether every counter is still within its 64 bits.
    pub open spec fn fits(self) -> bool {
        &&& self.transmitted_bytes <= u64::MAX
        &&& self.transmitted_packets <= u64::MAX
        &&& self.received_bytes <= u64::MAX
        &&& self.received_packets <= u64::MAX
    }

    /// Bytes in both directions.
    pub open spec fn total_bytes(self) -> nat {
        self.transmitted_bytes + self.received_bytes
    }

    /// Packets in both directions.
    pub open spec fn total_packets(self) -> nat {
        self.transmitted_packets + self.received_packets
    }

    /// Traffic in both directions, in the given quantity.
    pub open spec fn total(self, data_repr: DataRepr) -> nat {
        match data_repr {
            DataRepr::Packets => self.total_packets(),
            DataRepr::Bytes => self.total_bytes(),
        }
    }
}

impl Clone for InfoAddressPortPair {
    fn clone(&self) -> (copy: Self)
        ensures
            copy == *self,
    {
        InfoAddressPortPair {
            transmitted_bytes: self.transmitted_bytes,
            transmitted_packets: self.transmitted_packets,
            received_bytes: self.received_bytes,
            received_packets: self.received_packets,
            initial_timestamp: self.initial_timestamp,
            final_timestamp: self.final_timestamp,
            service: self.service.clone(),
        }
    }
}

impl InfoAddressPortPair {
    /// Totals of a pair first seen in the given observation.
    pub fn start(event: &ConnectionEvent) -> (info: Self)
        ensures
            info@ == InfoView::started(event@),
    {
        let outgoing = event.direction == TrafficDirection::Outgoing;
        InfoAddressPortPair {
            transmitted_bytes: if outgoing {
                event.bytes
            } else {
                0
            },
            transmitted_packets: if outgoing {
                event.packets
            } else {
                0
            },
            received_bytes: if outgoing {
                0
            } else {
                event.bytes
            },
            received_packets: if outgoing {
                0
            } else {
                event.packets
            },
            initial_timestamp: event.timestamp,
            final_timestamp: event.timestamp,
            service: match &event.service {
                Some(name) => Service::Name(name.clone()),
                None => Service::Unknown,
            },
        }
    }

    /// Tells whether the counters can take the observation in without
    /// leaving their 64 bits.
    pub fn can_absorb(&self, event: &ConnectionEvent) -> (fits: bool)
        ensures
            fits == self@.absorbed(event@).fits(),
    {
        match event.direction {
            TrafficDirection::Outgoing => event.bytes <= u64::MAX - self.transmitted_bytes
                && event.packets <= u64::MAX - self.transmitted_packets,
            TrafficDirection::Incoming => event.bytes <= u64::MAX - self.received_bytes
                && event.packets <= u64::MAX - self.received_packets,
        }
    }

    /// Takes one more observation of the pair in.
    pub fn absorb(&mut self, event: &ConnectionEvent)
        requires
            old(self)@.absorbed(event@).fits(),
        ensures
            final(self)@ == old(self)@.absorbed(event@),
    {
        match event.direction {
            TrafficDirection::Outgoing => {
                self.transmitted_bytes = self.transmitted_bytes + event.bytes;
                self.transmitted_packets = self.transmitted_packets + event.packets;
            },
            TrafficDirection::Incoming => {
                self.received_bytes = self.received_bytes + event.bytes;
                self.received_packets = self.received_packets + event.packets;
            },
        }
        if event.timestamp < self.initial_timestamp {
            self.initial_timestamp = event.timestamp;
        }
        if event.timestamp > self.final_timestamp {
            self.final_timestamp = event.timestamp;
        }
        match &event.service {
            Some(name) => {
                self.service = Service::Name(name.clone());
            },
            None => {},
        }
    }

    /// Traffic of the pair in both directions, in the given quantity.
    pub fn transmitted_data(&self, data_repr: DataRepr) -> (amount: u128)
        ensures
            amount == self@.total(data_repr),
    {
        match data_repr {
            DataRepr::Packets => self.transmitted_packets as u128 + self.received_packets as u128,
            DataRepr::Bytes => self.transmitted_bytes as u128 + self.received_bytes as u128,
        }
    }
}

} // verus!
