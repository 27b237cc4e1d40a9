pub mod address_port_pair;
pub mod asn;
pub mod connection_event;
pub mod data_info_host;
pub mod data_representation;
pub mod host;
pub mod info_address_port_pair;
pub mod ip_address;
pub mod protocol;
pub mod service;
