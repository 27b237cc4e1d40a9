//! Hosts: what is known of the machine behind an address.

use crate::countries::types::country::Country;
use crate::networking::types::asn::{Asn, AsnView};
use crate::networking::types::data_info_host::DataInfoHost;
use crate::networking::types::ip_address::IpAddress;
use vstd::prelude::*;

verus! {

/// Struct to represent a network host
#[derive(Debug, Default, PartialEq, Eq, Hash)]
pub struct Host {
    /// Hostname (domain). Obtained from the reverse DNS.
    pub domain: String,
    /// Autonomous System which operates the host
    pub asn: Asn,
    /// Country
    pub country: Country,
}

/// A host as the contracts speak of it.
pub struct HostView {
    pub domain: Seq<char>,
    pub asn: AsnView,
    pub country: Country,
}

impl View for Host {
    type V = HostView;

    open spec fn view(&self) -> HostView {
        HostView { domain: self.domain@, asn: self.asn@, country: self.country }
    }
}

/// Struct to represent a network host for representation in the thumbnail
///
/// This is necessary to remove possible duplicates in the thumbnail host list
#[derive(Debug, PartialEq)]
pub struct ThumbnailHost {
    /// Country
    pub country: Country,
    /// Text describing the host in the thumbnail
    pub text: String,
}

/// A thumbnail as the contracts speak of it.
pub struct ThumbnailView {
    pub country: Country,
    pub text: Seq<char>,
}

impl View for ThumbnailHost {
    type V = ThumbnailView;

    open spec fn view(&self) -> ThumbnailView {
        ThumbnailView { country: self.country, text: self.text@ }
    }
}

/// The result of resolving one address, on its way to the cache of hosts.
#[derive(Debug)]
pub struct HostMessage {
    /// The host found for the address.
    pub host: Host,
    /// Traffic attributed to the host with this message.
    pub data_info_host: DataInfoHost,
    /// The address that was resolved.
    pub address_to_lookup: IpAddress,
    /// The name that the reverse lookup gave, or the address as text where
    /// it gave none.
    pub rdns: String,
}

/// A message as the contracts speak of it.
pub struct HostMessageView {
    pub host: HostView,
    pub data_info_host: DataInfoHost,
    pub address_to_lookup: IpAddress,
    pub rdns: Seq<char>,
}

impl View for HostMessage {
    type V = HostMessageView;

    open spec fn view(&self) -> HostMessageView {
        HostMessageView {
            host: self.host@,
            data_info_host: self.data_info_host,
            address_to_lookup: self.address_to_lookup,
            rdns: self.rdns@,
        }
    }
}

impl HostView {
    /// How the host shows in the thumbnail: its country, and the name of
    /// its autonomous system, or its domain where that name is empty.
    pub open spec fn thumbnail(self) -> ThumbnailView {
        ThumbnailView {
            country: self.country,
            text: if self.asn.name.len() > 0 {
                self.asn.name
            } else {
                self.domain
            },
        }
    }
}

impl Clone for Host {
    fn clone(&self) -> (copy: Self)
        ensures
            copy == *self,
    {
        Host { domain: self.domain.clone(), asn: self.asn.clone(), country: self.country }
    }
}

impl Clone for HostMessage {
    fn clone(&self) -> (copy: Self)
        ensures
            copy == *self,
    {
        HostMessage {
            host: self.host.clone(),
            data_info_host: self.data_info_host,
            address_to_lookup: self.address_to_lookup,
            rdns: self.rdns.clone(),
        }
    }
}

impl Host {
    /// Tells whether the two are the same host: same domain, same
    /// autonomous system, same country.
    pub fn same_as(&self, other: &Host) -> (same: bool)
        ensures
            same == (self@ == other@),
    {
        self.domain == other.domain && self.asn.same_as(&other.asn) && self.country
            == other.country
    }

    /// How the host shows in the thumbnail.
    pub fn thumbnail(&self) -> (thumbnail: ThumbnailHost)
        ensures
            thumbnail@ == self@.thumbnail(),
    {
        let text = if self.asn.name.as_str().is_empty() {
            self.domain.clone()
        } else {
            self.asn.name.clone()
        };
        ThumbnailHost { country: self.country, text }
    }
}

impl ThumbnailHost {
    /// Tells whether the two show alike: same country, same text.
    pub fn same_as(&self, other: &ThumbnailHost) -> (same: bool)
        ensures
            same == (self@ == other@),
    {
        self.country == other.country && self.text == other.text
    }
}

} // verus!
