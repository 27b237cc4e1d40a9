//! Scheduling of host lookups: at most one lookup for each address in each
//! generation, and at most one message for each lookup.
//!
//! The lookup itself is done elsewhere. The service hands out a ticket for
//! each lookup that is to be started and turns what the lookup found into
//! the message for the cache of hosts.

use crate::assoc::{assoc, lemma_assoc_at, lemma_assoc_push, lemma_assoc_update};
use crate::countries::types::country::Country;
use crate::networking::types::asn::{Asn, AsnView};
use crate::networking::types::data_info_host::DataInfoHost;
use crate::networking::types::host::{Host, HostMessage, HostMessageView, HostView};
use crate::networking::types::ip_address::IpAddress;
use vstd::prelude::*;

verus! {

/// How far the lookup of an address has come.
#[derive(Clone, Copy, Debug, PartialEq, Eq, Structural, Hash)]
pub enum LookupState {
    /// A ticket was handed out and no message has been made yet.
    Pending,
    /// The message has been made.
    Completed,
}

/// The right to look one address up, in the generation in which it was
/// requested.
#[derive(Clone, Copy, Debug, PartialEq, Eq, Structural, Hash)]
pub struct LookupTicket {
    /// The address to look up.
    pub address: IpAddress,
    /// The generation of the service when the lookup was requested.
    pub generation: u64,
}

/// What a lookup found.
#[derive(Debug)]
pub struct Resolution {
    /// Name from the reverse lookup; empty where there is none.
    pub domain: String,
    /// Autonomous system of the address.
    pub asn: Asn,
    /// Country of the address.
    pub country: Country,
}

/// What a lookup found, as the contracts speak of it.
pub struct ResolutionView {
    pub domain: Seq<char>,
    pub asn: AsnView,
    pub country: Country,
}

impl View for Resolution {
    type V = ResolutionView;

    open spec fn view(&self) -> ResolutionView {
        ResolutionView { domain: self.domain@, asn: self.asn@, country: self.country }
    }
}

/// One address that the service knows, and how far its lookup has come.
#[derive(Clone, Copy)]
struct Lookup {
    address: IpAddress,
    state: LookupState,
}

/// The service that schedules lookups.
pub struct HostResolutionService {
    generation: u64,
    lookups: Vec<Lookup>,
}

/// The service as the contracts speak of it.
pub struct ResolverView {
    /// Number of the generation; a reset starts the next one.
    pub generation: nat,
    /// The addresses requested in this generation, each with the state of
    /// its lookup.
    pub lookups: Map<IpAddress, LookupState>,
}

/// The generation that follows `generation`; after the last one that 64
/// bits can number, the first again.
pub open spec fn next_generation(generation: nat) -> nat {
    if generation < u64::MAX {
        generation + 1
    } else {
        0
    }
}

/// The host made of what a lookup found. The domain of the host is the
/// name that was found or, where the lookup failed or found no name, the
/// address as text. A failed lookup gives the unknown autonomous system
/// and the unknown country.
pub open spec fn host_for(address: IpAddress, resolution: Option<ResolutionView>) -> HostView {
    match resolution {
        Some(found) => HostView {
            domain: if found.domain.len() > 0 {
                found.domain
            } else {
                address.text()
            },
            asn: found.asn,
            country: found.country,
        },
        None => HostView {
            domain: address.text(),
            asn: AsnView::unknown(),
            country: Country::unknown_code(),
        },
    }
}

/// The message for the cache of hosts: the host made of what the lookup
/// found, the traffic attributed to it, the address, and the domain of the
/// host once more as the name from the reverse lookup.
pub open spec fn message_for(
    address: IpAddress,
    resolution: Option<ResolutionView>,
    traffic: DataInfoHost,
) -> HostMessageView {
    HostMessageView {
        host: host_for(address, resolution),
        data_info_host: traffic,
        address_to_lookup: address,
        rdns: host_for(address, resolution).domain,
    }
}

impl ResolverView {
    /// Whether the address was requested in this generation.
    pub open spec fn knows(self, address: IpAddress) -> bool {
        self.lookups.contains_key(address)
    }

    /// Whether a request for the address starts a lookup: it does for an
    /// address that was not requested in this generation.
    pub open spec fn starts(self, address: IpAddress) -> bool {
        !self.knows(address)
    }

    /// The service after a request for the address: a lookup that starts
    /// is pending; a request for a known address changes nothing.
    pub open spec fn requested(self, address: IpAddress) -> ResolverView {
        if self.knows(address) {
            self
        } else {
            ResolverView {
                generation: self.generation,
                lookups: self.lookups.insert(address, LookupState::Pending),
            }
        }
    }

    /// Whether the result of the ticket's lookup is taken: the ticket is of
    /// this generation and the lookup of its address is pending.
    pub open spec fn accepts(self, ticket: LookupTicket) -> bool {
        &&& ticket.generation == self.generation
        &&& self.knows(ticket.address)
        &&& self.lookups[ticket.address] == LookupState::Pending
    }

    /// The service after the result of the ticket's lookup came in: a
    /// result that is taken completes the lookup; any other changes
    /// nothing.
    pub open spec fn completed(self, ticket: LookupTicket) -> ResolverView {
        if self.accepts(ticket) {
            ResolverView {
                generation: self.generation,
                lookups: self.lookups.insert(ticket.address, LookupState::Completed),
            }
        } else {
            self
        }
    }

    /// The service after a reset: the next generation, with no address
    /// known.
    pub open spec fn renewed(self) -> ResolverView {
        ResolverView { generation: next_generation(self.generation), lookups: Map::empty() }
    }
}

/// The addresses of the lookups, in order.
spec fn addresses_of(lookups: Seq<Lookup>) -> Seq<IpAddress> {
    Seq::new(lookups.len(), |i: int| lookups[i].address)
}

/// The states of the lookups, in order.
spec fn states_of(lookups: Seq<Lookup>) -> Seq<LookupState> {
    Seq::new(lookups.len(), |i: int| lookups[i].state)
}

impl View for HostResolutionService {
    type V = ResolverView;

    closed spec fn view(&self) -> ResolverView {
        ResolverView {
            generation: self.generation as nat,
            lookups: assoc(addresses_of(self.lookups@), states_of(self.lookups@)),
        }
    }
}

impl HostResolutionService {
    /// What holds of every service: no address stands in it twice.
    pub closed spec fn wf(&self) -> bool {
        addresses_of(self.lookups@).no_duplicates()
    }

    /// The service in its first generation, with no address known.
    pub fn new() -> (service: Self)
        ensures
            service.wf(),
            service@ == (ResolverView { generation: 0, lookups: Map::empty() }),
    {
        let service = HostResolutionService { generation: 0, lookups: Vec::new() };
        assert(service@.lookups =~= Map::<IpAddress, LookupState>::empty());
        service
    }

    /// The number of the current generation.
    pub fn generation(&self) -> (generation: u64)
        ensures
            generation == self@.generation,
    {
        self.generation
    }

    /// Where among the lookups the address stands, if it does.
    fn position(&self, address: IpAddress) -> (found: Option<usize>)
        ensures
            match found {
                Some(at) => at < self.lookups@.len() && self.lookups@[at as int].address == address,
                None => !addresses_of(self.lookups@).contains(address),
            },
    {
        let mut i: usize = 0;
        while i < self.lookups.len()
            invariant
                i <= self.lookups.len(),
                forall|j: int| 0 <= j < i ==> self.lookups@[j].address != address,
            decreases self.lookups.len() - i,
        {
            if self.lookups[i].address == address {
                return Some(i);
            }
            i += 1;
        }
        assert forall|j: int| 0 <= j < addresses_of(self.lookups@).len() implies addresses_of(
            self.lookups@,
        )[j] != address by {
            assert(self.lookups@[j].address != address);
        }
        None
    }

    /// How far the lookup of the address has come, if the address was
    /// requested in this generation.
    pub fn state_of(&self, address: IpAddress) -> (state: Option<LookupState>)
        requires
            self.wf(),
        ensures
            state is Some <==> self@.knows(address),
            state matches Some(found) ==> found == self@.lookups[address],
    {
        match self.position(address) {
            Some(at) => {
                proof {
                    assert(addresses_of(self.lookups@)[at as int] == address);
                    lemma_assoc_at(addresses_of(self.lookups@), states_of(self.lookups@), at as int);
                }
                Some(self.lookups[at].state)
            },
            None => None,
        }
    }

    /// Asks for the address to be resolved. For an address that was not
    /// requested in this generation the result is the ticket of the lookup
    /// to start, and the lookup is pending from now on. For any other
    /// address nothing happens and there is no ticket.
    pub fn request(&mut self, address: IpAddress) -> (ticket: Option<LookupTicket>)
        requires
            old(self).wf(),
        ensures
            final(self).wf(),
            final(self)@ == old(self)@.requested(address),
            ticket is Some <==> old(self)@.starts(address),
            ticket matches Some(issued) ==> issued.address == address && issued.generation
                == old(self)@.generation,
    {
        match self.position(address) {
            Some(at) => {
                proof {
                    assert(addresses_of(self.lookups@)[at as int] == address);
                    lemma_assoc_at(addresses_of(self.lookups@), states_of(self.lookups@), at as int);
                }
                None
            },
            None => {
                proof {
                    lemma_assoc_push(
                        addresses_of(self.lookups@),
                        states_of(self.lookups@),
                        address,
                        LookupState::Pending,
                    );
                }
                self.lookups.push(Lookup { address, state: LookupState::Pending });
                assert(addresses_of(self.lookups@) =~= addresses_of(old(self).lookups@).push(
                    address,
                ));
                assert(states_of(self.lookups@) =~= states_of(old(self).lookups@).push(
                    LookupState::Pending,
                ));
                Some(LookupTicket { address, generation: self.generation })
            },
        }
    }

    /// Takes in what the lookup of a ticket ended with: what it found, or
    /// nothing where it failed. Where the ticket is of this generation and
    /// its lookup is pending, the lookup is completed and the result is
    /// the message for the cache of hosts. The result of a ticket of
    /// another generation, or of a lookup that is not pending, is dropped:
    /// nothing changes and there is no message.
    pub fn complete(
        &mut self,
        ticket: LookupTicket,
        resolution: Option<Resolution>,
        traffic: DataInfoHost,
    ) -> (message: Option<HostMessage>)
        requires
            old(self).wf(),
        ensures
            final(self).wf(),
            final(self)@ == old(self)@.completed(ticket),
            message is Some <==> old(self)@.accepts(ticket),
            message matches Some(made) ==> made@ == message_for(
                ticket.address,
                match resolution {
                    Some(found) => Some(found@),
                    None => None,
                },
                traffic,
            ),
    {
        if ticket.generation != self.generation {
            return None;
        }
        let at = match self.position(ticket.address) {
            Some(at) => at,
            None => {
                return None;
            },
        };
        proof {
            assert(addresses_of(self.lookups@)[at as int] == ticket.address);
            lemma_assoc_at(addresses_of(self.lookups@), states_of(self.lookups@), at as int);
        }
        if self.lookups[at].state != LookupState::Pending {
            return None;
        }
        proof {
            lemma_assoc_update(
                addresses_of(self.lookups@),
                states_of(self.lookups@),
                at as int,
                LookupState::Completed,
            );
        }
        self.lookups.set(at, Lookup { address: ticket.address, state: LookupState::Completed });
        assert(addresses_of(self.lookups@) =~= addresses_of(old(self).lookups@));
        assert(states_of(self.lookups@) =~= states_of(old(self).lookups@).update(
            at as int,
            LookupState::Completed,
        ));
        let host = match resolution {
            Some(found) => {
                let domain = if found.domain.as_str().is_empty() {
                    ticket.address.to_text()
                } else {
                    found.domain
                };
                Host { domain, asn: found.asn, country: found.country }
            },
            None => Host {
                domain: ticket.address.to_text(),
                asn: Asn::unknown(),
                country: Country::unknown(),
            },
        };
        let rdns = host.domain.clone();
        Some(
            HostMessage {
                host,
                data_info_host: traffic,
                address_to_lookup: ticket.address,
                rdns,
            },
        )
    }

    /// Starts the next generation: no address is known any more, and the
    /// tickets of the generation that ends are no longer taken.
    pub fn reset(&mut self)
        ensures
            final(self).wf(),
            final(self)@ == old(self)@.renewed(),
    {
        self.generation = if self.generation < u64::MAX {
            self.generation + 1
        } else {
            0
        };
        self.lookups.clear();
        assert(self@.lookups =~= Map::<IpAddress, LookupState>::empty());
    }
}

/// One thing that happens to the service between two resets.
pub enum Step {
    /// The address is requested.
    Request(IpAddress),
    /// The result of the ticket's lookup comes in.
    Complete(LookupTicket),
}

/// The service after the step.
pub open spec fn stepped(service: ResolverView, step: Step) -> ResolverView {
    match step {
        Step::Request(address) => service.requested(address),
        Step::Complete(ticket) => service.completed(ticket),
    }
}

/// The service after the steps, taken one after the other.
pub open spec fn stepped_all(service: ResolverView, steps: Seq<Step>) -> ResolverView
    decreases steps.len(),
{
    if steps.len() == 0 {
        service
    } else {
        stepped(stepped_all(service, steps.drop_last()), steps.last())
    }
}

/// Whether the step starts a lookup of the address.
pub open spec fn starts_lookup(service: ResolverView, step: Step, address: IpAddress) -> bool {
    step == Step::Request(address) && service.starts(address)
}

/// Whether the step makes a message for the address.
pub open spec fn makes_message(service: ResolverView, step: Step, address: IpAddress) -> bool {
    step matches Step::Complete(ticket) && ticket.address == address && service.accepts(ticket)
}

/// Number of lookups of the address that the steps start.
pub open spec fn lookups_started(service: ResolverView, steps: Seq<Step>, address: IpAddress) -> nat
    decreases steps.len(),
{
    if steps.len() == 0 {
        0
    } else if starts_lookup(stepped_all(service, steps.drop_last()), steps.last(), address) {
        lookups_started(service, steps.drop_last(), address) + 1
    } else {
        lookups_started(service, steps.drop_last(), address)
    }
}

/// Number of messages for the address that the steps make.
pub open spec fn messages_made(service: ResolverView, steps: Seq<Step>, address: IpAddress) -> nat
    decreases steps.len(),
{
    if steps.len() == 0 {
        0
    } else if makes_message(stepped_all(service, steps.drop_last()), steps.last(), address) {
        messages_made(service, steps.drop_last(), address) + 1
    } else {
        messages_made(service, steps.drop_last(), address)
    }
}

/// However requests and results follow each other within one generation,
/// an address that was not known before is looked up once if it is
/// requested at all, however often, and never otherwise; an address that
/// was known before is not looked up again. At most one message is made
/// for the address, and none before its lookup was started or after its
/// lookup was completed.
pub proof fn lemma_one_lookup_one_message(
    service: ResolverView,
    steps: Seq<Step>,
    address: IpAddress,
)
    ensures
        lookups_started(service, steps, address) == if service.starts(address) && exists|i: int|
            0 <= i < steps.len() && #[trigger] steps[i] == Step::Request(address) {
            1nat
        } else {
            0nat
        },
        messages_made(service, steps, address) <= 1,
        messages_made(service, steps, address) == 1 ==> stepped_all(service, steps).knows(address)
            && stepped_all(service, steps).lookups[address] == LookupState::Completed,
        service.knows(address) && service.lookups[address] == LookupState::Completed
            ==> messages_made(service, steps, address) == 0,
        !service.knows(address) ==> messages_made(service, steps, address) <= lookups_started(
            service,
            steps,
            address,
        ),
        stepped_all(service, steps).generation == service.generation,
        stepped_all(service, steps).knows(address) <==> service.knows(address) || lookups_started(
            service,
            steps,
            address,
        ) == 1,
        service.knows(address) && service.lookups[address] == LookupState::Completed
            ==> stepped_all(service, steps).knows(address) && stepped_all(
            service,
            steps,
        ).lookups[address] == LookupState::Completed,
    decreases steps.len(),
{
    if steps.len() > 0 {
        let before = steps.drop_last();
        lemma_one_lookup_one_message(service, before, address);
        if exists|i: int| 0 <= i < before.len() && #[trigger] before[i] == Step::Request(address) {
            let i = choose|i: int|
                0 <= i < before.len() && #[trigger] before[i] == Step::Request(address);
            assert(steps[i] == Step::Request(address));
        }
        if exists|i: int| 0 <= i < steps.len() && #[trigger] steps[i] == Step::Request(address) {
            let i = choose|i: int|
                0 <= i < steps.len() && #[trigger] steps[i] == Step::Request(address);
            if i < before.len() {
                assert(before[i] == Step::Request(address));
            } else {
                assert(steps.last() == Step::Request(address));
            }
        }
        if steps.last() == Step::Request(address) {
            assert(steps[steps.len() - 1] == Step::Request(address));
        }
    }
}

/// A result that comes in after a reset under a ticket from before it is
/// dropped as long as the generation differs from the ticket's; right
/// after the reset it does.
pub proof fn lemma_stale_results_are_dropped(service: ResolverView, ticket: LookupTicket)
    requires
        service.generation <= u64::MAX,
    ensures
        ticket.generation != service.generation ==> !service.accepts(ticket)
            && service.completed(ticket) == service,
        ticket.generation == service.generation ==> !service.renewed().accepts(ticket),
        !service.renewed().knows(ticket.address),
{
}

} // verus!
