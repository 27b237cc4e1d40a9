use traffic_report::countries::types::country::Country;
use traffic_report::networking::enrichment::{start_over, take_in};
use traffic_report::networking::host_cache::{ApplyOutcome, HostEnrichmentCache};
use traffic_report::networking::host_resolution::{
    HostResolutionService, LookupState, LookupTicket, Resolution,
};
use traffic_report::networking::types::asn::Asn;
use traffic_report::networking::types::data_info_host::DataInfoHost;
use traffic_report::networking::types::host::{Host, HostMessage, ThumbnailHost};
use traffic_report::networking::types::ip_address::IpAddress;

fn address(last_octet: u8) -> IpAddress {
    IpAddress::from_octets(93, 184, 216, last_octet)
}

fn country(code: &str) -> Country {
    let mut letters = code.chars();
    Country { first: letters.next().unwrap(), second: letters.next().unwrap() }
}

fn host(domain: &str, asn_name: &str, code: &str) -> Host {
    Host {
        domain: String::from(domain),
        asn: Asn { code: String::from("15133"), name: String::from(asn_name) },
        country: country(code),
    }
}

fn message(last_octet: u8, host: Host, bytes: u128) -> HostMessage {
    HostMessage {
        rdns: host.domain.clone(),
        host,
        data_info_host: DataInfoHost { bytes, packets: 1 },
        address_to_lookup: address(last_octet),
    }
}

fn found(domain: &str) -> Resolution {
    Resolution {
        domain: String::from(domain),
        asn: Asn { code: String::from("15133"), name: String::from("EDGECAST") },
        country: country("US"),
    }
}

#[test]
fn unknown_country_is_zz() {
    assert_eq!(Country::unknown(), country("ZZ"));
    assert_eq!(Country::default(), Country::unknown());
    assert_eq!(Country::unknown().to_text(), "ZZ");
    assert_eq!(country("IT").to_text(), "IT");
}

#[test]
fn unknown_asn_is_empty() {
    assert_eq!(Asn::unknown(), Asn { code: String::new(), name: String::new() });
    assert!(Asn::unknown().same_as(&Asn::default()));
    assert!(!Asn::unknown().same_as(&Asn { code: String::from("1"), name: String::new() }));
    assert!(!Asn::unknown().same_as(&Asn { code: String::new(), name: String::from("x") }));
}

#[test]
fn traffic_merges_until_it_leaves_its_bits() {
    let some = DataInfoHost { bytes: 10, packets: 2 };
    let more = DataInfoHost { bytes: 5, packets: 1 };
    assert_eq!(some.merged(&more), Some(DataInfoHost { bytes: 15, packets: 3 }));
    let full = DataInfoHost { bytes: u128::MAX, packets: 0 };
    assert_eq!(full.merged(&more), None);
    assert_eq!(full.merged(&DataInfoHost { bytes: 0, packets: 7 }), Some(DataInfoHost {
        bytes: u128::MAX,
        packets: 7,
    }));
    assert_eq!(DataInfoHost { bytes: 0, packets: u128::MAX }.merged(&more), None);
}

#[test]
fn hosts_are_the_same_when_all_parts_are() {
    let one = host("example.com", "EDGECAST", "US");
    assert!(one.same_as(&one.clone()));
    assert!(!one.same_as(&host("example.org", "EDGECAST", "US")));
    assert!(!one.same_as(&host("example.com", "OTHER", "US")));
    assert!(!one.same_as(&host("example.com", "EDGECAST", "DE")));
}

#[test]
fn thumbnail_shows_the_asn_name_or_else_the_domain() {
    let named = host("example.com", "EDGECAST", "US").thumbnail();
    assert_eq!(named, ThumbnailHost { country: country("US"), text: String::from("EDGECAST") });
    let plain = host("example.com", "", "US").thumbnail();
    assert_eq!(plain, ThumbnailHost { country: country("US"), text: String::from("example.com") });
    assert!(named.same_as(&host("other.net", "EDGECAST", "US").thumbnail()));
    assert!(!named.same_as(&plain));
    assert!(!named.same_as(&host("example.com", "EDGECAST", "DE").thumbnail()));
}

#[test]
fn first_request_starts_a_lookup() {
    let mut service = HostResolutionService::new();
    assert_eq!(service.generation(), 0);
    assert_eq!(service.state_of(address(1)), None);
    let ticket = service.request(address(1));
    assert_eq!(ticket, Some(LookupTicket { address: address(1), generation: 0 }));
    assert_eq!(service.state_of(address(1)), Some(LookupState::Pending));
}

#[test]
fn many_requests_for_one_address_start_one_lookup() {
    let mut service = HostResolutionService::new();
    let mut tickets = 0;
    for _ in 0..50 {
        if service.request(address(1)).is_some() {
            tickets += 1;
        }
        service.request(address(2));
    }
    assert_eq!(tickets, 1);
    assert_eq!(service.state_of(address(1)), Some(LookupState::Pending));
    assert_eq!(service.state_of(address(2)), Some(LookupState::Pending));
}

#[test]
fn one_lookup_makes_one_message() {
    let mut service = HostResolutionService::new();
    let ticket = service.request(address(1)).unwrap();
    let traffic = DataInfoHost { bytes: 400, packets: 3 };
    let made = service.complete(ticket, Some(found("example.com")), traffic).unwrap();
    assert_eq!(made.address_to_lookup, address(1));
    assert_eq!(made.host, host("example.com", "EDGECAST", "US"));
    assert_eq!(made.rdns, "example.com");
    assert_eq!(made.data_info_host, traffic);
    assert_eq!(service.state_of(address(1)), Some(LookupState::Completed));
    assert!(service.complete(ticket, Some(found("example.com")), traffic).is_none());
    assert!(service.request(address(1)).is_none());
    assert_eq!(service.state_of(address(1)), Some(LookupState::Completed));
}

#[test]
fn failed_lookup_gives_the_address_as_domain() {
    let mut service = HostResolutionService::new();
    let ticket = service.request(address(34)).unwrap();
    let made = service.complete(ticket, None, DataInfoHost::default()).unwrap();
    assert_eq!(made.host.domain, "93.184.216.34");
    assert_eq!(made.rdns, "93.184.216.34");
    assert_eq!(made.host.asn, Asn::unknown());
    assert_eq!(made.host.country, Country::unknown());
    assert_eq!(made.address_to_lookup, address(34));
}

#[test]
fn lookup_without_a_name_gives_the_address_as_domain() {
    let mut service = HostResolutionService::new();
    let ticket = service.request(IpAddress::V6(1)).unwrap();
    let made = service.complete(ticket, Some(found("")), DataInfoHost::default()).unwrap();
    assert_eq!(made.host.domain, "::1");
    assert_eq!(made.rdns, "::1");
    assert_eq!(made.host.asn.name, "EDGECAST");
    assert_eq!(made.host.country, country("US"));
}

#[test]
fn result_without_a_request_is_dropped() {
    let mut service = HostResolutionService::new();
    let forged = LookupTicket { address: address(1), generation: 0 };
    assert!(service.complete(forged, None, DataInfoHost::default()).is_none());
    assert_eq!(service.state_of(address(1)), None);
}

#[test]
fn reset_starts_the_next_generation() {
    let mut service = HostResolutionService::new();
    let stale = service.request(address(1)).unwrap();
    service.reset();
    assert_eq!(service.generation(), 1);
    assert_eq!(service.state_of(address(1)), None);
    assert!(service.complete(stale, None, DataInfoHost::default()).is_none());
    assert_eq!(service.state_of(address(1)), None);
    let fresh = service.request(address(1)).unwrap();
    assert_eq!(fresh, LookupTicket { address: address(1), generation: 1 });
    assert!(service.complete(stale, None, DataInfoHost::default()).is_none());
    assert_eq!(service.state_of(address(1)), Some(LookupState::Pending));
    assert!(service.complete(fresh, None, DataInfoHost::default()).is_some());
}

#[test]
fn new_cache_is_empty() {
    let cache = HostEnrichmentCache::new();
    assert_eq!(cache.len(), 0);
    assert!(cache.host_of(address(1)).is_none());
    assert!(cache.thumbnails().is_empty());
    assert_eq!(cache.data_of(&host("a", "b", "US")), DataInfoHost { bytes: 0, packets: 0 });
}

#[test]
fn applied_message_gives_the_address_its_host() {
    let mut cache = HostEnrichmentCache::new();
    let one = host("example.com", "EDGECAST", "US");
    assert_eq!(cache.apply(&message(1, one.clone(), 400)), ApplyOutcome::Applied);
    assert_eq!(cache.len(), 1);
    assert_eq!(cache.host_of(address(1)), Some(&one));
    assert!(cache.host_of(address(2)).is_none());
    assert_eq!(cache.data_of(&one), DataInfoHost { bytes: 400, packets: 1 });
}

#[test]
fn traffic_of_addresses_with_one_host_adds_up() {
    let mut cache = HostEnrichmentCache::new();
    let one = host("example.com", "EDGECAST", "US");
    let other = host("example.org", "EDGECAST", "US");
    assert_eq!(cache.apply(&message(1, one.clone(), 400)), ApplyOutcome::Applied);
    assert_eq!(cache.apply(&message(2, one.clone(), 100)), ApplyOutcome::Applied);
    assert_eq!(cache.apply(&message(3, other.clone(), 7)), ApplyOutcome::Applied);
    assert_eq!(cache.data_of(&one), DataInfoHost { bytes: 500, packets: 2 });
    assert_eq!(cache.data_of(&other), DataInfoHost { bytes: 7, packets: 1 });
    assert_eq!(cache.len(), 3);
}

#[test]
fn redelivered_message_is_not_counted_twice() {
    let mut cache = HostEnrichmentCache::new();
    let one = host("example.com", "EDGECAST", "US");
    let sent = message(1, one.clone(), 400);
    assert_eq!(cache.apply(&sent), ApplyOutcome::Applied);
    assert_eq!(cache.apply(&sent), ApplyOutcome::Duplicate);
    assert_eq!(cache.apply(&message(2, one.clone(), 1)), ApplyOutcome::Applied);
    assert_eq!(cache.apply(&sent.clone()), ApplyOutcome::Duplicate);
    assert_eq!(cache.data_of(&one), DataInfoHost { bytes: 401, packets: 2 });
    assert_eq!(cache.len(), 2);
}

#[test]
fn second_message_for_an_address_does_not_replace_its_host() {
    let mut cache = HostEnrichmentCache::new();
    let one = host("example.com", "EDGECAST", "US");
    let other = host("example.org", "OTHER", "DE");
    cache.apply(&message(1, one.clone(), 400));
    assert_eq!(cache.apply(&message(1, other.clone(), 9)), ApplyOutcome::Duplicate);
    assert_eq!(cache.host_of(address(1)), Some(&one));
    assert_eq!(cache.data_of(&other), DataInfoHost { bytes: 0, packets: 0 });
}

#[test]
fn traffic_overflow_is_refused_and_changes_nothing() {
    let mut cache = HostEnrichmentCache::new();
    let one = host("example.com", "EDGECAST", "US");
    assert_eq!(cache.apply(&message(1, one.clone(), u128::MAX)), ApplyOutcome::Applied);
    assert_eq!(cache.apply(&message(2, one.clone(), 1)), ApplyOutcome::Overflow);
    assert!(cache.host_of(address(2)).is_none());
    assert_eq!(cache.data_of(&one), DataInfoHost { bytes: u128::MAX, packets: 1 });
    assert_eq!(cache.apply(&message(2, one.clone(), 0)), ApplyOutcome::Applied);
    assert_eq!(cache.data_of(&one), DataInfoHost { bytes: u128::MAX, packets: 2 });
}

#[test]
fn hosts_that_show_alike_share_one_thumbnail() {
    let mut cache = HostEnrichmentCache::new();
    cache.apply(&message(1, host("a.example.com", "EDGECAST", "US"), 1));
    cache.apply(&message(2, host("b.example.com", "EDGECAST", "US"), 1));
    let thumbnails = cache.thumbnails();
    assert_eq!(
        thumbnails,
        vec![ThumbnailHost { country: country("US"), text: String::from("EDGECAST") }]
    );
}

#[test]
fn each_way_of_showing_has_one_thumbnail() {
    let mut cache = HostEnrichmentCache::new();
    cache.apply(&message(1, host("a.example.com", "EDGECAST", "US"), 1));
    cache.apply(&message(2, host("plain.example", "", "DE"), 1));
    cache.apply(&message(3, host("b.example.com", "EDGECAST", "US"), 1));
    cache.apply(&message(4, host("c.example.com", "EDGECAST", "DE"), 1));
    cache.apply(&message(5, host("plain.example", "", "DE"), 1));
    let thumbnails = cache.thumbnails();
    assert_eq!(thumbnails.len(), 3);
    for expected in [
        ThumbnailHost { country: country("US"), text: String::from("EDGECAST") },
        ThumbnailHost { country: country("DE"), text: String::from("plain.example") },
        ThumbnailHost { country: country("DE"), text: String::from("EDGECAST") },
    ] {
        assert_eq!(thumbnails.iter().filter(|shown| **shown == expected).count(), 1);
    }
}

#[test]
fn cache_reset_forgets_every_host() {
    let mut cache = HostEnrichmentCache::new();
    let one = host("example.com", "EDGECAST", "US");
    let sent = message(1, one.clone(), 400);
    cache.apply(&sent);
    cache.reset();
    assert_eq!(cache.len(), 0);
    assert!(cache.host_of(address(1)).is_none());
    assert!(cache.thumbnails().is_empty());
    assert_eq!(cache.data_of(&one), DataInfoHost::default());
    assert_eq!(cache.apply(&sent), ApplyOutcome::Applied);
    assert_eq!(cache.data_of(&one), DataInfoHost { bytes: 400, packets: 1 });
}

#[test]
fn result_goes_through_the_service_into_the_cache() {
    let mut service = HostResolutionService::new();
    let mut cache = HostEnrichmentCache::new();
    let ticket = service.request(address(1)).unwrap();
    let traffic = DataInfoHost { bytes: 400, packets: 3 };
    let outcome = take_in(&mut service, &mut cache, ticket, Some(found("example.com")), traffic);
    assert_eq!(outcome, Some(ApplyOutcome::Applied));
    assert_eq!(service.state_of(address(1)), Some(LookupState::Completed));
    assert_eq!(cache.host_of(address(1)), Some(&host("example.com", "EDGECAST", "US")));
    assert_eq!(cache.data_of(&host("example.com", "EDGECAST", "US")), traffic);
    let again = take_in(&mut service, &mut cache, ticket, Some(found("example.com")), traffic);
    assert_eq!(again, None);
    assert_eq!(cache.data_of(&host("example.com", "EDGECAST", "US")), traffic);
    assert_eq!(cache.len(), 1);
}

#[test]
fn result_from_before_a_reset_never_reaches_the_cache() {
    let mut service = HostResolutionService::new();
    let mut cache = HostEnrichmentCache::new();
    let kept = service.request(address(1)).unwrap();
    let stale = service.request(address(2)).unwrap();
    take_in(&mut service, &mut cache, kept, None, DataInfoHost::default());
    start_over(&mut service, &mut cache);
    assert_eq!(service.generation(), 1);
    assert_eq!(cache.len(), 0);
    assert_eq!(take_in(&mut service, &mut cache, stale, None, DataInfoHost::default()), None);
    assert_eq!(take_in(&mut service, &mut cache, kept, None, DataInfoHost::default()), None);
    assert_eq!(cache.len(), 0);
    assert_eq!(service.state_of(address(2)), None);
    let fresh = service.request(address(2)).unwrap();
    assert_eq!(
        take_in(&mut service, &mut cache, fresh, None, DataInfoHost::default()),
        Some(ApplyOutcome::Applied)
    );
    assert_eq!(cache.host_of(address(2)).unwrap().domain, "93.184.216.2");
}

#[test]
fn result_for_a_resolved_address_is_a_duplicate() {
    let mut service = HostResolutionService::new();
    let mut cache = HostEnrichmentCache::new();
    cache.apply(&message(1, host("example.com", "EDGECAST", "US"), 5));
    let ticket = service.request(address(1)).unwrap();
    let outcome = take_in(&mut service, &mut cache, ticket, None, DataInfoHost::default());
    assert_eq!(outcome, Some(ApplyOutcome::Duplicate));
    assert_eq!(cache.host_of(address(1)), Some(&host("example.com", "EDGECAST", "US")));
}
