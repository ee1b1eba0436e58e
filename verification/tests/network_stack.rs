//! Tests of the example network workload: packet storage, protocol
//! tables, and the assembled stack's pipelines.

use tinysched::network::ethernet::{EthernetProtocol, MacAddr};
use tinysched::network::ipv4::{IPv4Addr, IPv4Protocol};
use tinysched::network::module_traits::{AsyncNetIOModule, AsyncProtocolModule};
use tinysched::network::packet::{FixedPacketBuffer, NetworkPacket, PacketFrag};
use tinysched::network::protocol::{
    bytes_eq, NetworkProtocolMng, ProtocolHeaderType, ProtocolMetaData,
    ProtocolResValue,
};
use tinysched::network::stack::NetworkStack;
use tinysched::network::subres::SubInfo;

#[test]
fn header_type_codes_are_the_conventional_ones() {
    assert_eq!(ProtocolHeaderType::Ethernet.code(), 1);
    assert_eq!(ProtocolHeaderType::ARP.code(), 0xaa);
    assert_eq!(ProtocolHeaderType::IPv4.code(), 0x0800);
    assert_eq!(ProtocolHeaderType::IPv6.code(), 0x86DD);
    assert_eq!(ProtocolHeaderType::UDP.code(), 17);
    assert_eq!(ProtocolHeaderType::TCP.code(), 6);
    assert_eq!(ProtocolHeaderType::ICMPv4.code(), 0xa4);
    assert_eq!(ProtocolHeaderType::ICMPv6.code(), 0xa6);
    assert_eq!(ProtocolHeaderType::Unspecified.code(), 0);
    assert_eq!(ProtocolHeaderType::Socket.code(), 0);
}

#[test]
fn byte_slices_compare_by_content() {
    assert!(bytes_eq(&[1, 2, 3], &[1, 2, 3]));
    assert!(!bytes_eq(&[1, 2, 3], &[1, 2, 4]));
    assert!(!bytes_eq(&[1, 2], &[1, 2, 3]));
    assert!(bytes_eq(&[], &[]));
}

#[test]
fn protocol_values_match_by_tag_and_payload() {
    let a = ProtocolResValue { t: ProtocolHeaderType::UDP, v: Some(vec![1, 2]) };
    let b = ProtocolResValue { t: ProtocolHeaderType::UDP, v: Some(vec![1, 2]) };
    let c = ProtocolResValue { t: ProtocolHeaderType::UDP, v: Some(vec![1, 3]) };
    let d = ProtocolResValue { t: ProtocolHeaderType::TCP, v: Some(vec![1, 2]) };
    let e = ProtocolResValue { t: ProtocolHeaderType::UDP, v: None };
    assert!(a.matches(&b));
    assert!(!a.matches(&c));
    assert!(!a.matches(&d));
    assert!(!a.matches(&e));
    assert!(e.matches(&e));
}

#[test]
fn metadata_carries_the_protocol_tag() {
    let mut m = ProtocolMetaData::new();
    assert_eq!(m.get_pt(), ProtocolHeaderType::Unspecified);
    m.set_pt(ProtocolHeaderType::TCP);
    assert_eq!(m.get_pt(), ProtocolHeaderType::TCP);
}

#[test]
fn protocol_table_binds_each_key_once() {
    let mut m: NetworkProtocolMng<u64, u32> =
        NetworkProtocolMng::new(ProtocolHeaderType::Unspecified);
    assert!(!m.contains_key(&5));
    assert!(m.lookup(&5).is_none());
    assert!(m.insert_vacant(5, 50).is_ok());
    assert!(m.insert_vacant(5, 51).is_err());
    assert!(m.insert_vacant(6, 60).is_ok());
    assert!(m.contains_key(&5));
    assert_eq!(m.lookup(&5), Some(&50));
    assert_eq!(m.lookup(&6), Some(&60));
    assert!(m.lookup(&7).is_none());
}

#[test]
fn packet_buffer_write_cursor_semantics() {
    let mut b = FixedPacketBuffer::new(8);
    assert_eq!(b.data_len(), 0);
    assert_eq!(b.free_space(), 8);
    assert!(b.push_data(&[1, 2, 3]).is_ok());
    // The cursor does not move on a write; only reset touches it.
    assert_eq!(b.data_len(), 0);
    assert!(b.push_data(&[9; 9]).is_err());
    assert!(b.borrow_excerpt(0, 0).is_ok());
    assert!(b.borrow_excerpt(0, 1).is_err());
    b.reset();
    assert_eq!(b.data_len(), 0);

    let mut empty = FixedPacketBuffer::new(0);
    // With no capacity even an empty write is refused.
    assert!(empty.push_data(&[]).is_err());
}

#[test]
fn packet_frag_reports_capacity_misses() {
    let mut f = PacketFrag::new(4);
    assert_eq!(f.data_len(), 0);
    assert!(f.push_data(&[1, 2, 3, 4]).is_ok());
    assert!(f.push_data(&[1, 2, 3, 4, 5]).is_err());
}

#[test]
fn network_packet_opens_fragments_as_needed() {
    let mut p = NetworkPacket::new();
    assert_eq!(p.data_len(), 0);
    assert!(p.push_data(&[1, 2, 3]).is_ok());
    assert!(p.push_data(&[4; 1514]).is_ok());
    // Larger than any fragment can hold.
    assert!(p.push_data(&[5; 1515]).is_err());
    // The write cursor of each fragment stays put, so the total stays 0.
    assert_eq!(p.data_len(), 0);
}

#[test]
fn ethernet_learns_each_mac_once() {
    let mut eth = EthernetProtocol::new();
    let mac = MacAddr { mac: [0, 0x10, 0, 0, 0xaa, 0xbb] };
    assert!(eth.search_mac(&mac).is_err());
    assert!(eth.add_mac(&mac, SubInfo::Empty).is_ok());
    assert!(eth.add_mac(&mac, SubInfo::Empty).is_err());
    let found = eth.search_mac(&mac).unwrap();
    assert_eq!(found.get_mac().mac, [0, 0x10, 0, 0, 0xaa, 0xbb]);
}

#[test]
fn ipv4_table_binds_each_address_once() {
    let mut ip4 = IPv4Protocol::new();
    let ip = IPv4Addr { val: [1, 1, 1, 1, 0, 0] };
    assert!(ip4.add_ipv4(ip, None).is_ok());
    assert!(ip4.add_ipv4(ip, None).is_err());
}

#[test]
fn mac_addresses_parse_from_text() {
    let m = MacAddr::parse(b"00-10-00-00-aa-bb").unwrap();
    assert_eq!(m.mac, [0x00, 0x10, 0x00, 0x00, 0xaa, 0xbb]);
    let m = MacAddr::parse(b"0:1:2:a:B:f").unwrap();
    assert_eq!(m.mac, [0, 1, 2, 0xa, 0xb, 0xf]);
    let m = MacAddr::parse(b"00:10:00:00:AA:bb").unwrap();
    assert_eq!(m.mac, [0x00, 0x10, 0x00, 0x00, 0xaa, 0xbb]);
    // The standard number parser accepts a leading plus sign and
    // leading zeros, so the address parser does too.
    let m = MacAddr::parse(b"+1:0002:3:4:5:6").unwrap();
    assert_eq!(m.mac, [1, 2, 3, 4, 5, 6]);
}

#[test]
fn bad_mac_addresses_are_rejected() {
    // Too few or too many parts.
    assert!(MacAddr::parse(b"00-10-00-00-aa").is_none());
    assert!(MacAddr::parse(b"00-10-00-00-aa-bb-cc").is_none());
    // An empty part.
    assert!(MacAddr::parse(b"00--00-00-aa-bb").is_none());
    assert!(MacAddr::parse(b"").is_none());
    // A digit out of range and a value out of range.
    assert!(MacAddr::parse(b"00-10-0g-00-aa-bb").is_none());
    assert!(MacAddr::parse(b"00-10-1ff-00-aa-bb").is_none());
    // A sign alone is not a number.
    assert!(MacAddr::parse(b"+:1:2:3:4:5").is_none());
}

#[test]
fn stack_registration_flows() {
    let mut stk = NetworkStack::new_eth_stack();
    let mac = MacAddr { mac: [0, 0x10, 0, 0, 0xaa, 0xbb] };
    let ip = IPv4Addr { val: [1, 1, 1, 1, 0, 0] };
    // An address without a sub-address is refused.
    assert!(stk.add_ipv4(ip, None).is_err());
    // An address over an unknown MAC is refused.
    assert!(stk.add_ipv4(ip, Some(&mac)).is_err());
    assert!(stk.add_mac(&mac).is_ok());
    assert!(stk.add_mac(&mac).is_err());
    assert!(stk.add_ipv4(ip, Some(&mac)).is_ok());
    // The same address cannot be bound twice.
    assert!(stk.add_ipv4(ip, Some(&mac)).is_err());
}

#[test]
fn stack_pipelines_accept_packets() {
    let stk = NetworkStack::new_eth_stack();
    let (_p1, res_rx) = stk.rx(NetworkPacket::new());
    assert!(res_rx.is_ok());
    let (_p2, res_tx) = stk.tx(NetworkPacket::new());
    assert!(res_tx.is_ok());
}

#[test]
fn layer_decodes_hand_up_the_next_protocol() {
    let eth = EthernetProtocol::new();
    let (_p, r) = eth.sync_decode(NetworkPacket::new());
    assert_eq!(r.unwrap().get_pt(), ProtocolHeaderType::IPv4);
    let ip4 = IPv4Protocol::new();
    let (_p, r) = ip4.sync_decode(NetworkPacket::new());
    assert_eq!(r.unwrap().get_pt(), ProtocolHeaderType::UDP);
}
