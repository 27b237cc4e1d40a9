use vstd::prelude::*;

verus! {

/// Traffic attributed to a host: the totals of the connections that share
/// it.
#[derive(Clone, Copy, Debug, Default, PartialEq, Eq, Structural, Hash)]
pub struct DataInfoHost {
    /// Bytes exchanged with the host.
    pub bytes: u128,
    /// Packets exchanged with the host.
    pub packets: u128,
}

impl DataInfoHost {
    /// Whether the sum of the two stays within 128 bits.
    pub open spec fn fits_with(self, other: DataInfoHost) -> bool {
        self.bytes + other.bytes <= u128::MAX && self.packets + other.packets <= u128::MAX
    }

    /// The sum of the two, where it fits.
    pub open spec fn plus(self, other: DataInfoHost) -> DataInfoHost {
        DataInfoHost {
            bytes: (self.bytes + other.bytes) as u128,
            packets: (self.packets + other.packets) as u128,
        }
    }

    /// The sum of the two, or nothing where a sum leaves its 128 bits.
    pub fn merged(&self, other: &DataInfoHost) -> (sum: Option<DataInfoHost>)
        ensures
            sum is Some <==> self.fits_with(*other),
            sum matches Some(total) ==> total == self.plus(*other),
    {
        match (self.bytes.checked_add(other.bytes), self.packets.checked_add(other.packets)) {
            (Some(bytes), Some(packets)) => Some(DataInfoHost { bytes, packets }),
            _ => None,
        }
    }
}

} // verus!
