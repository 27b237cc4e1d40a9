use traffic_report::networking::aggregation_table::{AggregationTable, RecordError};
use traffic_report::networking::types::address_port_pair::AddressPortPair;
use traffic_report::networking::types::connection_event::{
    ConnectionEvent, EventError, TrafficDirection,
};
use traffic_report::networking::types::data_representation::DataRepr;
use traffic_report::networking::types::info_address_port_pair::InfoAddressPortPair;
use traffic_report::networking::types::ip_address::IpAddress;
use traffic_report::networking::types::protocol::Protocol;
use traffic_report::networking::types::service::Service;

fn tcp_event(last_octet: u8, bytes: u64, timestamp: u64) -> ConnectionEvent {
    ConnectionEvent {
        address1: IpAddress::from_octets(10, 0, 0, 1),
        port1: Some(443),
        address2: IpAddress::from_octets(10, 0, 0, last_octet),
        port2: Some(51000),
        protocol: Protocol::TCP,
        direction: TrafficDirection::Outgoing,
        bytes,
        packets: 1,
        timestamp,
        service: None,
    }
}

fn icmp_event() -> ConnectionEvent {
    ConnectionEvent {
        address1: IpAddress::from_octets(10, 0, 0, 1),
        port1: None,
        address2: IpAddress::from_octets(10, 0, 0, 9),
        port2: None,
        protocol: Protocol::ICMP,
        direction: TrafficDirection::Incoming,
        bytes: 84,
        packets: 1,
        timestamp: 1,
        service: None,
    }
}

#[test]
fn new_table_is_empty() {
    let table = AggregationTable::new();
    assert!(table.is_empty());
    assert_eq!(table.len(), 0);
    assert!(table.snapshot().is_empty());
    assert!(table.get(&tcp_event(2, 1, 1).key()).is_none());
}

#[test]
fn event_key_is_made_of_its_ends_and_protocol() {
    let event = tcp_event(2, 1, 1);
    assert_eq!(
        event.key(),
        AddressPortPair::new(
            IpAddress::from_octets(10, 0, 0, 1),
            Some(443),
            IpAddress::from_octets(10, 0, 0, 2),
            Some(51000),
            Protocol::TCP,
        )
    );
}

#[test]
fn three_events_of_one_pair_add_up() {
    let mut table = AggregationTable::new();
    assert_eq!(table.record(&tcp_event(2, 100, 10)), Ok(true));
    assert_eq!(table.record(&tcp_event(2, 250, 20)), Ok(false));
    assert_eq!(table.record(&tcp_event(2, 50, 30)), Ok(false));
    assert_eq!(table.len(), 1);
    let snapshot = table.snapshot();
    assert_eq!(snapshot.len(), 1);
    assert_eq!(snapshot[0].key, tcp_event(2, 0, 0).key());
    assert_eq!(snapshot[0].info.transmitted_bytes, 400);
    assert_eq!(snapshot[0].info.transmitted_packets, 3);
    assert_eq!(snapshot[0].info.received_bytes, 0);
    assert_eq!(snapshot[0].info.transmitted_data(DataRepr::Bytes), 400);
    assert_eq!(snapshot[0].info.transmitted_data(DataRepr::Packets), 3);
    assert_eq!(snapshot[0].info.initial_timestamp, 10);
    assert_eq!(snapshot[0].info.final_timestamp, 30);
}

#[test]
fn events_of_other_pairs_in_between_change_nothing() {
    let mut alone = AggregationTable::new();
    let mut mixed = AggregationTable::new();
    for bytes in [100, 250, 50] {
        alone.record(&tcp_event(2, bytes, 1)).unwrap();
        mixed.record(&tcp_event(3, 7, 1)).unwrap();
        mixed.record(&tcp_event(2, bytes, 1)).unwrap();
        mixed.record(&tcp_event(4, 9, 1)).unwrap();
    }
    let key = tcp_event(2, 0, 0).key();
    let expected = alone.get(&key).unwrap();
    let found = mixed.get(&key).unwrap();
    assert_eq!(found.transmitted_bytes, 400);
    assert_eq!(found.transmitted_bytes, expected.transmitted_bytes);
    assert_eq!(found.transmitted_packets, expected.transmitted_packets);
    assert_eq!(mixed.len(), 3);
    assert_eq!(mixed.get(&tcp_event(3, 0, 0).key()).unwrap().transmitted_bytes, 21);
    assert_eq!(mixed.get(&tcp_event(4, 0, 0).key()).unwrap().transmitted_bytes, 27);
}

#[test]
fn directions_are_counted_apart() {
    let mut table = AggregationTable::new();
    let mut back = tcp_event(2, 30, 5);
    back.direction = TrafficDirection::Incoming;
    back.packets = 4;
    table.record(&tcp_event(2, 100, 1)).unwrap();
    table.record(&back).unwrap();
    let info = table.get(&back.key()).unwrap();
    assert_eq!(info.transmitted_bytes, 100);
    assert_eq!(info.transmitted_packets, 1);
    assert_eq!(info.received_bytes, 30);
    assert_eq!(info.received_packets, 4);
    assert_eq!(info.transmitted_data(DataRepr::Bytes), 130);
    assert_eq!(info.transmitted_data(DataRepr::Packets), 5);
}

#[test]
fn exchanged_ends_are_another_connection() {
    let mut table = AggregationTable::new();
    let forth = tcp_event(2, 100, 1);
    let back = ConnectionEvent {
        address1: forth.address2,
        port1: forth.port2,
        address2: forth.address1,
        port2: forth.port1,
        ..tcp_event(2, 40, 2)
    };
    assert_eq!(table.record(&forth), Ok(true));
    assert_eq!(table.record(&back), Ok(true));
    assert_eq!(table.len(), 2);
    assert_eq!(table.get(&forth.key()).unwrap().transmitted_bytes, 100);
    assert_eq!(table.get(&back.key()).unwrap().transmitted_bytes, 40);
}

#[test]
fn snapshot_keeps_the_order_of_first_sight() {
    let mut table = AggregationTable::new();
    for last_octet in [5, 3, 5, 9, 3] {
        table.record(&tcp_event(last_octet, 1, 1)).unwrap();
    }
    let keys: Vec<AddressPortPair> = table.snapshot().iter().map(|entry| entry.key).collect();
    assert_eq!(
        keys,
        vec![tcp_event(5, 0, 0).key(), tcp_event(3, 0, 0).key(), tcp_event(9, 0, 0).key()]
    );
    assert!(table.contains(&tcp_event(9, 0, 0).key()));
    assert!(!table.contains(&tcp_event(8, 0, 0).key()));
}

#[test]
fn snapshot_is_a_copy() {
    let mut table = AggregationTable::new();
    table.record(&tcp_event(2, 100, 1)).unwrap();
    let snapshot = table.snapshot();
    table.record(&tcp_event(2, 100, 2)).unwrap();
    assert_eq!(snapshot[0].info.transmitted_bytes, 100);
    assert_eq!(table.snapshot()[0].info.transmitted_bytes, 200);
}

#[test]
fn times_widen_to_hold_every_observation() {
    let mut table = AggregationTable::new();
    for timestamp in [20, 10, 30, 25] {
        table.record(&tcp_event(2, 1, timestamp)).unwrap();
    }
    let info = table.get(&tcp_event(2, 0, 0).key()).unwrap();
    assert_eq!(info.initial_timestamp, 10);
    assert_eq!(info.final_timestamp, 30);
}

#[test]
fn service_is_kept_until_a_new_one_is_named() {
    let mut table = AggregationTable::new();
    let key = tcp_event(2, 0, 0).key();
    table.record(&tcp_event(2, 1, 1)).unwrap();
    assert_eq!(table.get(&key).unwrap().service, Service::Unknown);
    let mut named = tcp_event(2, 1, 2);
    named.service = Some(String::from("https"));
    table.record(&named).unwrap();
    assert_eq!(table.get(&key).unwrap().service, Service::Name(String::from("https")));
    table.record(&tcp_event(2, 1, 3)).unwrap();
    assert_eq!(table.get(&key).unwrap().service, Service::Name(String::from("https")));
    named.service = Some(String::from("http"));
    table.record(&named).unwrap();
    assert_eq!(table.get(&key).unwrap().service, Service::Name(String::from("http")));
}

#[test]
fn counter_overflow_is_refused_and_changes_nothing() {
    let mut table = AggregationTable::new();
    assert_eq!(table.record(&tcp_event(2, u64::MAX - 5, 1)), Ok(true));
    assert_eq!(table.record(&tcp_event(2, 6, 9)), Err(RecordError::CounterOverflow));
    let info = table.get(&tcp_event(2, 0, 0).key()).unwrap();
    assert_eq!(info.transmitted_bytes, u64::MAX - 5);
    assert_eq!(info.transmitted_packets, 1);
    assert_eq!(info.final_timestamp, 1);
    assert_eq!(table.record(&tcp_event(2, 5, 9)), Ok(false));
    assert_eq!(table.get(&tcp_event(2, 0, 0).key()).unwrap().transmitted_bytes, u64::MAX);
}

#[test]
fn packet_counter_overflow_is_refused() {
    let mut table = AggregationTable::new();
    let mut event = tcp_event(2, 1, 1);
    event.direction = TrafficDirection::Incoming;
    event.packets = u64::MAX;
    assert_eq!(table.ingest(&event), Ok(true));
    event.packets = 1;
    assert_eq!(table.ingest(&event), Err(RecordError::CounterOverflow));
    event.direction = TrafficDirection::Outgoing;
    assert_eq!(table.ingest(&event), Ok(false));
}

#[test]
fn validate_accepts_consistent_events() {
    assert_eq!(tcp_event(2, 1, 1).validate(), Ok(()));
    assert_eq!(icmp_event().validate(), Ok(()));
}

#[test]
fn validate_reports_a_missing_port() {
    let mut event = tcp_event(2, 1, 1);
    event.port1 = None;
    assert_eq!(event.validate(), Err(EventError::MissingPort));
    let mut event = tcp_event(2, 1, 1);
    event.protocol = Protocol::UDP;
    event.port2 = None;
    assert_eq!(event.validate(), Err(EventError::MissingPort));
}

#[test]
fn validate_reports_an_unexpected_port() {
    let mut event = icmp_event();
    event.port2 = Some(7);
    assert_eq!(event.validate(), Err(EventError::UnexpectedPort));
    let mut event = tcp_event(2, 1, 1);
    event.protocol = Protocol::ICMP;
    assert_eq!(event.validate(), Err(EventError::UnexpectedPort));
}

#[test]
fn malformed_events_never_reach_the_table() {
    let mut table = AggregationTable::new();
    let mut event = tcp_event(2, 1, 1);
    event.port2 = None;
    assert_eq!(table.ingest(&event), Err(RecordError::Malformed(EventError::MissingPort)));
    let mut event = icmp_event();
    event.port1 = Some(1);
    assert_eq!(table.ingest(&event), Err(RecordError::Malformed(EventError::UnexpectedPort)));
    assert!(table.is_empty());
    assert_eq!(table.ingest(&icmp_event()), Ok(true));
    assert_eq!(table.len(), 1);
}

#[test]
fn reset_forgets_every_connection() {
    let mut table = AggregationTable::new();
    table.record(&tcp_event(2, 1, 1)).unwrap();
    table.record(&tcp_event(3, 1, 1)).unwrap();
    table.reset();
    assert!(table.is_empty());
    assert!(table.get(&tcp_event(2, 0, 0).key()).is_none());
    assert_eq!(table.record(&tcp_event(2, 8, 1)), Ok(true));
    assert_eq!(table.get(&tcp_event(2, 0, 0).key()).unwrap().transmitted_bytes, 8);
}

#[test]
fn totals_start_from_the_first_observation() {
    let mut event = icmp_event();
    event.service = Some(String::from("ping"));
    let info = InfoAddressPortPair::start(&event);
    assert_eq!(info.transmitted_bytes, 0);
    assert_eq!(info.transmitted_packets, 0);
    assert_eq!(info.received_bytes, 84);
    assert_eq!(info.received_packets, 1);
    assert_eq!(info.initial_timestamp, 1);
    assert_eq!(info.final_timestamp, 1);
    assert_eq!(info.service, Service::Name(String::from("ping")));
    assert!(info.can_absorb(&event));
    let copy = info.clone();
    assert_eq!(copy.received_bytes, 84);
    assert_eq!(copy.service, info.service);
}

#[test]
fn absorb_adds_to_the_counters_of_the_direction() {
    let mut info = InfoAddressPortPair::start(&tcp_event(2, 10, 5));
    let mut back = tcp_event(2, 3, 2);
    back.direction = TrafficDirection::Incoming;
    assert!(info.can_absorb(&back));
    info.absorb(&back);
    assert_eq!(info.transmitted_bytes, 10);
    assert_eq!(info.received_bytes, 3);
    assert_eq!(info.initial_timestamp, 2);
    assert_eq!(info.final_timestamp, 5);
    back.bytes = u64::MAX - 2;
    assert!(!info.can_absorb(&back));
    back.bytes = u64::MAX - 3;
    assert!(info.can_absorb(&back));
}
