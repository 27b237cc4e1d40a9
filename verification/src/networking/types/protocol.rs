use vstd::prelude::*;

verus! {

/// Protocol carried between the two ends of a connection.
#[derive(Clone, Copy, Debug, PartialEq, Eq, Structural, Hash)]
pub enum Protocol {
    /// Transmission Control Protocol
    TCP,
    /// User Datagram Protocol
    UDP,
    /// Internet Control Message Protocol
    ICMP,
}

impl Protocol {
    /// Whether the protocol addresses its ends by port numbers.
    pub open spec fn has_ports(self) -> bool {
        self != Protocol::ICMP
    }

    /// The protocol's canonical name.
    pub open spec fn name(self) -> Seq<char> {
        match self {
            Protocol::TCP => seq!['T', 'C', 'P'],
            Protocol::UDP => seq!['U', 'D', 'P'],
            Protocol::ICMP => seq!['I', 'C', 'M', 'P'],
        }
    }

    /// Position of the protocol in the order TCP, UDP, ICMP.
    pub open spec fn rank(self) -> nat {
        match self {
            Protocol::TCP => 0,
            Protocol::UDP => 1,
            Protocol::ICMP => 2,
        }
    }

    /// Tells whether the protocol addresses its ends by port numbers.
    pub fn uses_ports(self) -> (ports: bool)
        ensures
            ports == self.has_ports(),
    {
        match self {
            Protocol::TCP | Protocol::UDP => true,
            Protocol::ICMP => false,
        }
    }

    /// The protocol's canonical name as a string.
    pub fn to_text(self) -> (text: String)
        ensures
            text@ == self.name(),
    {
        proof {
            reveal_strlit("TCP");
            reveal_strlit("UDP");
            reveal_strlit("ICMP");
        }
        let text = match self {
            Protocol::TCP => String::from_str("TCP"),
            Protocol::UDP => String::from_str("UDP"),
            Protocol::ICMP => String::from_str("ICMP"),
        };
        assert(text@ =~= self.name());
        text
    }
}

} // verus!
