//! The cache of hosts: the host found for each resolved address, the
//! traffic attributed to each host, and the thumbnails that show the hosts.

use crate::assoc::{assoc, lemma_assoc_at, lemma_assoc_domain, lemma_assoc_push, lemma_assoc_update};
use crate::networking::types::data_info_host::DataInfoHost;
use crate::networking::types::host::{
    Host, HostMessage, HostMessageView, HostView, ThumbnailHost, ThumbnailView,
};
use crate::networking::types::ip_address::IpAddress;
use vstd::prelude::*;

verus! {

/// What became of a message that was handed to the cache.
#[derive(Clone, Copy, Debug, PartialEq, Eq, Structural, Hash)]
pub enum ApplyOutcome {
    /// The host and its traffic were taken in.
    Applied,
    /// The address of the message was resolved before: nothing changed.
    Duplicate,
    /// The traffic of the host would leave its 128 bits: nothing changed.
    Overflow,
}

/// An address and the host found for it.
struct ResolvedAddress {
    address: IpAddress,
    host: Host,
}

/// A host and the traffic attributed to it.
struct HostTotals {
    host: Host,
    data: DataInfoHost,
}

/// The cache of hosts.
pub struct HostEnrichmentCache {
    resolved: Vec<ResolvedAddress>,
    totals: Vec<HostTotals>,
}

/// The cache as the contracts speak of it.
pub struct CacheView {
    /// The host found for each resolved address.
    pub hosts: Map<IpAddress, HostView>,
    /// The traffic attributed to each host.
    pub totals: Map<HostView, DataInfoHost>,
}

impl CacheView {
    /// The cache that holds nothing.
    pub open spec fn empty() -> CacheView {
        CacheView { hosts: Map::empty(), totals: Map::empty() }
    }

    /// Whether the address has been resolved.
    pub open spec fn holds(self, address: IpAddress) -> bool {
        self.hosts.contains_key(address)
    }

    /// The traffic attributed to the host so far; none for a host that the
    /// cache has not seen.
    pub open spec fn total_of(self, host: HostView) -> DataInfoHost {
        if self.totals.contains_key(host) {
            self.totals[host]
        } else {
            DataInfoHost { bytes: 0, packets: 0 }
        }
    }

    /// Whether the traffic of the message, added to that of its host,
    /// would leave its 128 bits.
    pub open spec fn overflows(self, message: HostMessageView) -> bool {
        !self.total_of(message.host).fits_with(message.data_info_host)
    }

    /// The cache with the message taken in: its address has its host, and
    /// the traffic of the message is added to that of the host.
    pub open spec fn applied(self, message: HostMessageView) -> CacheView {
        CacheView {
            hosts: self.hosts.insert(message.address_to_lookup, message.host),
            totals: self.totals.insert(
                message.host,
                self.total_of(message.host).plus(message.data_info_host),
            ),
        }
    }

    /// The cache after the message was handed to it: a message for an
    /// address that is resolved already, or one whose traffic does not
    /// fit, changes nothing; any other is taken in.
    pub open spec fn delivered(self, message: HostMessageView) -> CacheView {
        if self.holds(message.address_to_lookup) || self.overflows(message) {
            self
        } else {
            self.applied(message)
        }
    }
}

/// Whether the thumbnails show the hosts: each host shows in one of them,
/// each of them shows a host, and no two of them are alike.
pub open spec fn shows(thumbnails: Seq<ThumbnailView>, hosts: Map<IpAddress, HostView>) -> bool {
    &&& thumbnails.no_duplicates()
    &&& forall|thumbnail: ThumbnailView|
        thumbnails.contains(thumbnail) <==> exists|address: IpAddress|
            hosts.contains_key(address) && (#[trigger] hosts[address]).thumbnail() == thumbnail
}

/// The thumbnails as the contracts speak of them, in order.
pub open spec fn thumbnail_views(thumbnails: Seq<ThumbnailHost>) -> Seq<ThumbnailView> {
    Seq::new(thumbnails.len(), |i: int| thumbnails[i]@)
}

/// The addresses of the entries, in order.
spec fn addresses_of(resolved: Seq<ResolvedAddress>) -> Seq<IpAddress> {
    Seq::new(resolved.len(), |i: int| resolved[i].address)
}

/// The hosts found for the addresses, in order.
spec fn found_of(resolved: Seq<ResolvedAddress>) -> Seq<HostView> {
    Seq::new(resolved.len(), |i: int| resolved[i].host@)
}

/// The hosts that have traffic, in order.
spec fn hosts_of(totals: Seq<HostTotals>) -> Seq<HostView> {
    Seq::new(totals.len(), |i: int| totals[i].host@)
}

/// The traffic of the hosts, in order.
spec fn data_of(totals: Seq<HostTotals>) -> Seq<DataInfoHost> {
    Seq::new(totals.len(), |i: int| totals[i].data)
}

impl View for HostEnrichmentCache {
    type V = CacheView;

    closed spec fn view(&self) -> CacheView {
        CacheView {
            hosts: assoc(addresses_of(self.resolved@), found_of(self.resolved@)),
            totals: assoc(hosts_of(self.totals@), data_of(self.totals@)),
        }
    }
}

impl HostEnrichmentCache {
    /// What holds of every cache: no address and no host stands in it
    /// twice.
    pub closed spec fn wf(&self) -> bool {
        &&& addresses_of(self.resolved@).no_duplicates()
        &&& hosts_of(self.totals@).no_duplicates()
    }

    /// The cache that holds nothing.
    pub fn new() -> (cache: Self)
        ensures
            cache.wf(),
            cache@ == CacheView::empty(),
    {
        let cache = HostEnrichmentCache { resolved: Vec::new(), totals: Vec::new() };
        assert(cache@.hosts =~= Map::<IpAddress, HostView>::empty());
        assert(cache@.totals =~= Map::<HostView, DataInfoHost>::empty());
        cache
    }

    /// Where among the resolved addresses the address stands, if it does.
    fn address_position(&self, address: IpAddress) -> (found: Option<usize>)
        requires
            self.wf(),
        ensures
            match found {
                Some(at) => at < self.resolved@.len() && self.resolved@[at as int].address
                    == address && self@.holds(address) && self@.hosts[address]
                    == self.resolved@[at as int].host@,
                None => !self@.holds(address),
            },
    {
        let mut i: usize = 0;
        while i < self.resolved.len()
            invariant
                i <= self.resolved.len(),
                self.wf(),
                forall|j: int| 0 <= j < i ==> self.resolved@[j].address != address,
            decreases self.resolved.len() - i,
        {
            if self.resolved[i].address == address {
                proof {
                    assert(addresses_of(self.resolved@)[i as int] == address);
                    lemma_assoc_at(addresses_of(self.resolved@), found_of(self.resolved@), i as int);
                }
                return Some(i);
            }
            i += 1;
        }
        assert forall|j: int| 0 <= j < addresses_of(self.resolved@).len() implies addresses_of(
            self.resolved@,
        )[j] != address by {
            assert(self.resolved@[j].address != address);
        }
        None
    }

    /// Where among the hosts with traffic the host stands, if it does.
    fn host_position(&self, host: &Host) -> (found: Option<usize>)
        requires
            self.wf(),
        ensures
            match found {
                Some(at) => at < self.totals@.len() && self.totals@[at as int].host@ == host@
                    && self@.totals.contains_key(host@) && self@.totals[host@]
                    == self.totals@[at as int].data,
                None => !self@.totals.contains_key(host@),
            },
    {
        let mut i: usize = 0;
        while i < self.totals.len()
            invariant
                i <= self.totals.len(),
                self.wf(),
                forall|j: int| 0 <= j < i ==> self.totals@[j].host@ != host@,
            decreases self.totals.len() - i,
        {
            if self.totals[i].host.same_as(host) {
                proof {
                    assert(hosts_of(self.totals@)[i as int] == host@);
                    lemma_assoc_at(hosts_of(self.totals@), data_of(self.totals@), i as int);
                }
                return Some(i);
            }
            i += 1;
        }
        assert forall|j: int| 0 <= j < hosts_of(self.totals@).len() implies hosts_of(
            self.totals@,
        )[j] != host@ by {
            assert(self.totals@[j].host@ != host@);
        }
        None
    }

    /// The host found for the address, if the address has been resolved.
    pub fn host_of(&self, address: IpAddress) -> (found: Option<&Host>)
        requires
            self.wf(),
        ensures
            found is Some <==> self@.holds(address),
            found matches Some(host) ==> host@ == self@.hosts[address],
    {
        match self.address_position(address) {
            Some(at) => Some(&self.resolved[at].host),
            None => None,
        }
    }

    /// The traffic attributed to the host so far.
    pub fn data_of(&self, host: &Host) -> (data: DataInfoHost)
        requires
            self.wf(),
        ensures
            data == self@.total_of(host@),
    {
        match self.host_position(host) {
            Some(at) => self.totals[at].data,
            None => DataInfoHost { bytes: 0, packets: 0 },
        }
    }

    /// Number of resolved addresses.
    pub fn len(&self) -> (count: usize)
        requires
            self.wf(),
        ensures
            count == self@.hosts.dom().len(),
    {
        proof {
            lemma_assoc_domain(addresses_of(self.resolved@), found_of(self.resolved@));
            addresses_of(self.resolved@).unique_seq_to_set();
        }
        self.resolved.len()
    }

    /// Takes a message in. The message for an address that is resolved
    /// already is a duplicate: whatever it says, nothing changes. The
    /// message whose traffic, added to that of its host, would leave its
    /// 128 bits changes nothing either. Any other message gives its
    /// address its host and adds its traffic to that of the host.
    pub fn apply(&mut self, message: &HostMessage) -> (outcome: ApplyOutcome)
        requires
            old(self).wf(),
        ensures
            final(self).wf(),
            final(self)@ == old(self)@.delivered(message@),
            outcome == ApplyOutcome::Duplicate <==> old(self)@.holds(message.address_to_lookup),
            outcome == ApplyOutcome::Overflow <==> !old(self)@.holds(message.address_to_lookup)
                && old(self)@.overflows(message@),
    {
        let address = message.address_to_lookup;
        if self.address_position(address).is_some() {
            return ApplyOutcome::Duplicate;
        }
        match self.host_position(&message.host) {
            Some(at) => {
                let sum = match self.totals[at].data.merged(&message.data_info_host) {
                    Some(sum) => sum,
                    None => {
                        return ApplyOutcome::Overflow;
                    },
                };
                proof {
                    lemma_assoc_update(
                        hosts_of(self.totals@),
                        data_of(self.totals@),
                        at as int,
                        sum,
                    );
                }
                let entry = HostTotals { host: message.host.clone(), data: sum };
                self.totals.set(at, entry);
                assert(hosts_of(self.totals@) =~= hosts_of(old(self).totals@));
                assert(data_of(self.totals@) =~= data_of(old(self).totals@).update(at as int, sum));
            },
            None => {
                proof {
                    lemma_assoc_push(
                        hosts_of(self.totals@),
                        data_of(self.totals@),
                        message.host@,
                        message.data_info_host,
                    );
                }
                let entry = HostTotals { host: message.host.clone(), data: message.data_info_host };
                self.totals.push(entry);
                assert(hosts_of(self.totals@) =~= hosts_of(old(self).totals@).push(message.host@));
                assert(data_of(self.totals@) =~= data_of(old(self).totals@).push(
                    message.data_info_host,
                ));
            },
        }
        proof {
            lemma_assoc_push(
                addresses_of(self.resolved@),
                found_of(self.resolved@),
                address,
                message.host@,
            );
        }
        self.resolved.push(ResolvedAddress { address, host: message.host.clone() });
        assert(addresses_of(self.resolved@) =~= addresses_of(old(self).resolved@).push(address));
        assert(found_of(self.resolved@) =~= found_of(old(self).resolved@).push(message.host@));
        ApplyOutcome::Applied
    }

    /// The thumbnails of the hosts, made anew from the hosts of the cache:
    /// one for each way in which a host shows.
    pub fn thumbnails(&self) -> (thumbnails: Vec<ThumbnailHost>)
        requires
            self.wf(),
        ensures
            shows(thumbnail_views(thumbnails@), self@.hosts),
            thumbnails.len() <= self@.hosts.dom().len(),
    {
        proof {
            lemma_assoc_domain(addresses_of(self.resolved@), found_of(self.resolved@));
            addresses_of(self.resolved@).unique_seq_to_set();
        }
        let mut thumbnails: Vec<ThumbnailHost> = Vec::new();
        let mut i: usize = 0;
        while i < self.resolved.len()
            invariant
                i <= self.resolved.len(),
                thumbnails.len() <= i,
                thumbnail_views(thumbnails@).no_duplicates(),
                forall|thumbnail: ThumbnailView|
                    thumbnail_views(thumbnails@).contains(thumbnail) <==> exists|j: int|
                        0 <= j < i && (#[trigger] self.resolved@[j]).host@.thumbnail() == thumbnail,
            decreases self.resolved.len() - i,
        {
            let candidate = self.resolved[i].host.thumbnail();
            let ghost before = thumbnail_views(thumbnails@);
            let mut known = false;
            let mut k: usize = 0;
            while k < thumbnails.len()
                invariant
                    k <= thumbnails.len(),
                    known <==> exists|j: int| 0 <= j < k && thumbnails@[j]@ == candidate@,
                decreases thumbnails.len() - k,
            {
                if thumbnails[k].same_as(&candidate) {
                    known = true;
                }
                k += 1;
            }
            proof {
                if known {
                    let j = choose|j: int| 0 <= j < thumbnails@.len() && thumbnails@[j]@ == candidate@;
                    assert(before[j] == candidate@);
                } else {
                    assert forall|j: int| 0 <= j < before.len() implies before[j] != candidate@ by {
                        assert(thumbnails@[j]@ != candidate@);
                    }
                }
                assert(known == before.contains(candidate@));
            }
            if !known {
                thumbnails.push(candidate);
                proof {
                    let after = thumbnail_views(thumbnails@);
                    assert(after =~= before.push(candidate@));
                    assert forall|a: int, b: int|
                        0 <= a < after.len() && 0 <= b < after.len() && a != b implies after[a]
                        != after[b] by {
                        if a < before.len() {
                            assert(before[a] == after[a]);
                        }
                        if b < before.len() {
                            assert(before[b] == after[b]);
                        }
                    }
                }
            }
            proof {
                let after = thumbnail_views(thumbnails@);
                assert forall|thumbnail: ThumbnailView|
                    after.contains(thumbnail) <==> exists|j: int|
                        0 <= j < i + 1 && (#[trigger] self.resolved@[j]).host@.thumbnail()
                            == thumbnail by {
                    if after.contains(thumbnail) {
                        if before.contains(thumbnail) {
                            let j = choose|j: int|
                                0 <= j < i && (#[trigger] self.resolved@[j]).host@.thumbnail()
                                    == thumbnail;
                            assert(0 <= j < i + 1);
                        } else {
                            let at = choose|at: int| 0 <= at < after.len() && after[at] == thumbnail;
                            if at < before.len() {
                                assert(before[at] == thumbnail);
                            }
                            assert(thumbnail == candidate@);
                            assert(self.resolved@[i as int].host@.thumbnail() == thumbnail);
                        }
                    }
                    if exists|j: int|
                        0 <= j < i + 1 && (#[trigger] self.resolved@[j]).host@.thumbnail()
                            == thumbnail {
                        let j = choose|j: int|
                            0 <= j < i + 1 && (#[trigger] self.resolved@[j]).host@.thumbnail()
                                == thumbnail;
                        if j < i {
                            assert(before.contains(thumbnail));
                            let at = choose|at: int|
                                0 <= at < before.len() && before[at] == thumbnail;
                            assert(after[at] == thumbnail);
                        } else {
                            assert(thumbnail == candidate@);
                            if known {
                                let at = choose|at: int|
                                    0 <= at < before.len() && before[at] == thumbnail;
                                assert(after[at] == thumbnail);
                            } else {
                                assert(after[after.len() - 1] == thumbnail);
                            }
                        }
                    }
                }
            }
            i += 1;
        }
        proof {
            let views = thumbnail_views(thumbnails@);
            let addresses = addresses_of(self.resolved@);
            let found = found_of(self.resolved@);
            assert forall|thumbnail: ThumbnailView|
                views.contains(thumbnail) <==> exists|address: IpAddress|
                    self@.hosts.contains_key(address) && (#[trigger] self@.hosts[address]).thumbnail()
                        == thumbnail by {
                if views.contains(thumbnail) {
                    let j = choose|j: int|
                        0 <= j < self.resolved@.len() && (
                        #[trigger] self.resolved@[j]).host@.thumbnail() == thumbnail;
                    lemma_assoc_at(addresses, found, j);
                    assert(self@.hosts.contains_key(addresses[j]));
                    assert(self@.hosts[addresses[j]].thumbnail() == thumbnail);
                }
                if exists|address: IpAddress|
                    self@.hosts.contains_key(address) && (#[trigger] self@.hosts[address]).thumbnail()
                        == thumbnail {
                    let address = choose|address: IpAddress|
                        self@.hosts.contains_key(address) && (
                        #[trigger] self@.hosts[address]).thumbnail() == thumbnail;
                    let j = addresses.index_of(address);
                    assert(addresses[j] == address);
                    lemma_assoc_at(addresses, found, j);
                    assert(self.resolved@[j].host@.thumbnail() == thumbnail);
                }
            }
        }
        thumbnails
    }

    /// Forgets every host.
    pub fn reset(&mut self)
        ensures
            final(self).wf(),
            final(self)@ == CacheView::empty(),
    {
        self.resolved.clear();
        self.totals.clear();
        assert(self@.hosts =~= Map::<IpAddress, HostView>::empty());
        assert(self@.totals =~= Map::<HostView, DataInfoHost>::empty());
    }
}

/// A message that is delivered again changes nothing, whatever was
/// delivered in between: the traffic of its host is not counted twice.
pub proof fn lemma_redelivery_changes_nothing(
    cache: CacheView,
    message: HostMessageView,
    between: Seq<HostMessageView>,
)
    ensures
        cache.delivered(message).delivered(message) == cache.delivered(message),
        delivered_all(cache.delivered(message), between).delivered(message) == delivered_all(
            cache.delivered(message),
            between,
        ),
{
    let first = cache.delivered(message);
    if first.holds(message.address_to_lookup) {
        lemma_resolved_stays_resolved(first, between, message.address_to_lookup);
    } else {
        lemma_traffic_only_grows(first, between, message.host);
    }
}

/// The cache after the messages, delivered one after the other.
pub open spec fn delivered_all(cache: CacheView, messages: Seq<HostMessageView>) -> CacheView
    decreases messages.len(),
{
    if messages.len() == 0 {
        cache
    } else {
        delivered_all(cache, messages.drop_last()).delivered(messages.last())
    }
}

/// An address that is resolved stays resolved, with the host that was
/// found for it first, whatever is delivered afterwards.
pub proof fn lemma_resolved_stays_resolved(
    cache: CacheView,
    messages: Seq<HostMessageView>,
    address: IpAddress,
)
    requires
        cache.holds(address),
    ensures
        delivered_all(cache, messages).holds(address),
        delivered_all(cache, messages).hosts[address] == cache.hosts[address],
    decreases messages.len(),
{
    if messages.len() > 0 {
        lemma_resolved_stays_resolved(cache, messages.drop_last(), address);
    }
}

/// The traffic attributed to a host never shrinks, whatever is delivered.
pub proof fn lemma_traffic_only_grows(
    cache: CacheView,
    messages: Seq<HostMessageView>,
    host: HostView,
)
    ensures
        delivered_all(cache, messages).total_of(host).bytes >= cache.total_of(host).bytes,
        delivered_all(cache, messages).total_of(host).packets >= cache.total_of(host).packets,
    decreases messages.len(),
{
    if messages.len() > 0 {
        lemma_traffic_only_grows(cache, messages.drop_last(), host);
    }
}

/// Hosts that show alike share one thumbnail: where two resolved addresses
/// have hosts with the same country and the same text, exactly one of the
/// thumbnails shows them.
pub proof fn lemma_alike_hosts_show_once(
    thumbnails: Seq<ThumbnailView>,
    hosts: Map<IpAddress, HostView>,
    first: IpAddress,
    second: IpAddress,
)
    requires
        shows(thumbnails, hosts),
        hosts.contains_key(first),
        hosts.contains_key(second),
        hosts[first].thumbnail() == hosts[second].thumbnail(),
    ensures
        exists|i: int|
            0 <= i < thumbnails.len() && #[trigger] thumbnails[i] == hosts[first].thumbnail()
                && thumbnails[i] == hosts[second].thumbnail() && forall|j: int|
                0 <= j < thumbnails.len() && #[trigger] thumbnails[j] == hosts[first].thumbnail()
                    ==> j == i,
{
    let shown = hosts[first].thumbnail();
    assert(thumbnails.contains(shown));
    let i = choose|i: int| 0 <= i < thumbnails.len() && thumbnails[i] == shown;
    assert(thumbnails[i] == shown);
}

} // verus!
