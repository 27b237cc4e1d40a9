//! The way of a lookup's result into the cache of hosts.

use crate::networking::host_cache::{ApplyOutcome, CacheView, HostEnrichmentCache};
use crate::networking::host_resolution::{
    message_for, HostResolutionService, LookupTicket, Resolution,
};
use crate::networking::types::data_info_host::DataInfoHost;
use vstd::prelude::*;

verus! {

/// Takes what the lookup of a ticket ended with through the service into
/// the cache. A result that the service drops, because its ticket is of
/// another generation or its lookup is not pending, never reaches the
/// cache. Any other result completes its lookup, and its message is handed
/// to the cache at once; the outcome tells what the cache made of it.
pub fn take_in(
    service: &mut HostResolutionService,
    cache: &mut HostEnrichmentCache,
    ticket: LookupTicket,
    resolution: Option<Resolution>,
    traffic: DataInfoHost,
) -> (outcome: Option<ApplyOutcome>)
    requires
        old(service).wf(),
        old(cache).wf(),
    ensures
        final(service).wf(),
        final(cache).wf(),
        final(service)@ == old(service)@.completed(ticket),
        outcome is Some <==> old(service)@.accepts(ticket),
        outcome is None ==> final(cache)@ == old(cache)@,
        outcome matches Some(applied) ==> {
            let message = message_for(
                ticket.address,
                match resolution {
                    Some(found) => Some(found@),
                    None => None,
                },
                traffic,
            );
            &&& final(cache)@ == old(cache)@.delivered(message)
            &&& applied == ApplyOutcome::Duplicate <==> old(cache)@.holds(ticket.address)
            &&& applied == ApplyOutcome::Overflow <==> !old(cache)@.holds(ticket.address)
                && old(cache)@.overflows(message)
        },
{
    match service.complete(ticket, resolution, traffic) {
        Some(message) => Some(cache.apply(&message)),
        None => None,
    }
}

/// Starts over: the service enters its next generation and the cache
/// forgets every host, so that no result of the generation that ends is
/// taken in afterwards.
pub fn start_over(service: &mut HostResolutionService, cache: &mut HostEnrichmentCache)
    ensures
        final(service).wf(),
        final(cache).wf(),
        final(service)@ == old(service)@.renewed(),
        final(cache)@ == CacheView::empty(),
{
    service.reset();
    cache.reset();
}

} // verus!
