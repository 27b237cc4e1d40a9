//! The texts by which the rows of the report are filtered.

use vstd::prelude::*;

verus! {

/// The field of a row that a filter text is held against.
#[derive(Clone, Copy, Debug, PartialEq, Eq, Structural, Hash)]
pub enum FilterInputType {
    /// Address of the first end.
    AddressSrc,
    /// Port of the first end.
    PortSrc,
    /// Address of the second end.
    AddressDst,
    /// Port of the second end.
    PortDst,
    /// Protocol.
    Proto,
    /// Upper layer service.
    Service,
    /// Country of the host at either end.
    Country,
}

/// One filter text for each field that can be filtered. An empty text
/// filters nothing.
#[derive(Debug, Default)]
pub struct SearchParameters {
    /// Filter on the address of the first end.
    pub address_src: String,
    /// Filter on the port of the first end.
    pub port_src: String,
    /// Filter on the address of the second end.
    pub address_dst: String,
    /// Filter on the port of the second end.
    pub port_dst: String,
    /// Filter on the protocol.
    pub proto: String,
    /// Filter on the service.
    pub service: String,
    /// Filter on the country.
    pub country: String,
}

/// The filter texts as the contracts speak of them.
pub struct SearchView {
    pub address_src: Seq<char>,
    pub port_src: Seq<char>,
    pub address_dst: Seq<char>,
    pub port_dst: Seq<char>,
    pub proto: Seq<char>,
    pub service: Seq<char>,
    pub country: Seq<char>,
}

impl View for SearchParameters {
    type V = SearchView;

    open spec fn view(&self) -> SearchView {
        SearchView {
            address_src: self.address_src@,
            port_src: self.port_src@,
            address_dst: self.address_dst@,
            port_dst: self.port_dst@,
            proto: self.proto@,
            service: self.service@,
            country: self.country@,
        }
    }
}

impl FilterInputType {
    /// The filter text given for this field.
    pub open spec fn value_in(self, parameters: SearchView) -> Seq<char> {
        match self {
            FilterInputType::AddressSrc => parameters.address_src,
            FilterInputType::PortSrc => parameters.port_src,
            FilterInputType::AddressDst => parameters.address_dst,
            FilterInputType::PortDst => parameters.port_dst,
            FilterInputType::Proto => parameters.proto,
            FilterInputType::Service => parameters.service,
            FilterInputType::Country => parameters.country,
        }
    }

    /// The filter text given for this field.
    pub fn current_value<'a>(&self, parameters: &'a SearchParameters) -> (value: &'a String)
        ensures
            value@ == self.value_in(parameters@),
    {
        match self {
            FilterInputType::AddressSrc => &parameters.address_src,
            FilterInputType::PortSrc => &parameters.port_src,
            FilterInputType::AddressDst => &parameters.address_dst,
            FilterInputType::PortDst => &parameters.port_dst,
            FilterInputType::Proto => &parameters.proto,
            FilterInputType::Service => &parameters.service,
            FilterInputType::Country => &parameters.country,
        }
    }
}

} // verus!
