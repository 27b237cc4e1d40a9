use vstd::prelude::*;

verus! {

/// The autonomous system that operates a host.
#[derive(Debug, Default, PartialEq, Eq, Hash)]
pub struct Asn {
    /// Number of the autonomous system, as text.
    pub code: String,
    /// Name of the organisation that runs it.
    pub name: String,
}

/// An autonomous system as the contracts speak of it.
pub struct AsnView {
    pub code: Seq<char>,
    pub name: Seq<char>,
}

impl View for Asn {
    type V = AsnView;

    open spec fn view(&self) -> AsnView {
        AsnView { code: self.code@, name: self.name@ }
    }
}

impl AsnView {
    /// What stands for an autonomous system that is not known: no number
    /// and no name.
    pub open spec fn unknown() -> AsnView {
        AsnView { code: Seq::empty(), name: Seq::empty() }
    }
}

impl Clone for Asn {
    fn clone(&self) -> (copy: Self)
        ensures
            copy == *self,
    {
        Asn { code: self.code.clone(), name: self.name.clone() }
    }
}

impl Asn {
    /// What stands for an autonomous system that is not known.
    pub fn unknown() -> (asn: Asn)
        ensures
            asn@ == AsnView::unknown(),
    {
        Asn { code: String::new(), name: String::new() }
    }

    /// Tells whether the two are the same autonomous system.
    pub fn same_as(&self, other: &Asn) -> (same: bool)
        ensures
            same == (self@ == other@),
    {
        self.code == other.code && self.name == other.name
    }
}

} // verus!
