use wirefish::packet::{ParsedPacket, Protocol};
use wirefish::store::{AddressField, PacketsCollection, PortField};

fn tcp_packet(source: &str, dest: &str, source_port: u16, dest_port: u16) -> ParsedPacket {
    let mut packet = ParsedPacket::new(0);
    packet.source_ip = Some(source.to_string());
    packet.dest_ip = Some(dest.to_string());
    packet.source_mac = Some("aa:aa:aa:aa:aa:aa".to_string());
    packet.dest_mac = Some("bb:bb:bb:bb:bb:bb".to_string());
    packet.source_port = Some(source_port);
    packet.dest_port = Some(dest_port);
    packet.protocols.ethernet = true;
    packet.protocols.ipv4 = true;
    packet.protocols.tcp = true;
    packet.ethernet_payload_len = Some(40);
    packet
}

fn arp_packet() -> ParsedPacket {
    let mut packet = ParsedPacket::new(0);
    packet.source_mac = Some("aa:aa:aa:aa:aa:aa".to_string());
    packet.dest_mac = Some("ff:ff:ff:ff:ff:ff".to_string());
    packet.protocols.ethernet = true;
    packet.protocols.arp = true;
    packet.ethernet_payload_len = Some(28);
    packet
}

fn filled_store() -> PacketsCollection {
    let mut store = PacketsCollection::new();
    store.insert(tcp_packet("10.0.0.1", "10.0.0.2", 50000, 80));
    store.insert(arp_packet());
    store.insert(tcp_packet("10.0.0.2", "10.0.0.1", 80, 50000));
    store.insert(tcp_packet("10.0.0.1", "10.0.0.3", 50001, 80));
    store
}

#[test]
fn new_packet_store_is_empty() {
    let store = PacketsCollection::new();
    assert_eq!(store.len(), 0);
    assert!(store.get(0).is_none());
    assert!(store.positions_by_protocol(Protocol::Tcp).is_empty());
    assert!(store.positions_by_port(PortField::Source, 80).is_none());
    assert!(store
        .positions_by_address(AddressField::SourceIp, &"10.0.0.1".to_string())
        .is_none());
}

#[test]
fn master_sequence_keeps_arrival_order() {
    let store = filled_store();
    assert_eq!(store.len(), 4);
    assert_eq!(store.get(0).unwrap().source_port, Some(50000));
    assert_eq!(store.get(1).unwrap().source_port, None);
    assert_eq!(store.get(2).unwrap().source_port, Some(80));
    assert_eq!(store.get(3).unwrap().dest_ip, Some("10.0.0.3".to_string()));
    assert!(store.get(4).is_none());
}

#[test]
fn address_indices_list_the_packets_with_that_address() {
    let store = filled_store();
    let one = "10.0.0.1".to_string();
    let two = "10.0.0.2".to_string();
    let three = "10.0.0.3".to_string();
    assert_eq!(store.positions_by_address(AddressField::SourceIp, &one), Some(&vec![0, 3]));
    assert_eq!(store.positions_by_address(AddressField::SourceIp, &two), Some(&vec![2]));
    assert_eq!(store.positions_by_address(AddressField::SourceIp, &three), None);
    assert_eq!(store.positions_by_address(AddressField::DestIp, &one), Some(&vec![2]));
    assert_eq!(store.positions_by_address(AddressField::DestIp, &two), Some(&vec![0]));
    assert_eq!(store.positions_by_address(AddressField::DestIp, &three), Some(&vec![3]));
    let mac = "aa:aa:aa:aa:aa:aa".to_string();
    assert_eq!(store.positions_by_address(AddressField::SourceMac, &mac), Some(&vec![0, 1, 2, 3]));
    assert_eq!(store.positions_by_address(AddressField::DestMac, &mac), None);
    let broadcast = "ff:ff:ff:ff:ff:ff".to_string();
    assert_eq!(store.positions_by_address(AddressField::DestMac, &broadcast), Some(&vec![1]));
}

#[test]
fn port_indices_list_the_packets_with_that_port() {
    let store = filled_store();
    assert_eq!(store.positions_by_port(PortField::Source, 50000), Some(&vec![0]));
    assert_eq!(store.positions_by_port(PortField::Source, 80), Some(&vec![2]));
    assert_eq!(store.positions_by_port(PortField::Dest, 80), Some(&vec![0, 3]));
    assert_eq!(store.positions_by_port(PortField::Dest, 50000), Some(&vec![2]));
    assert_eq!(store.positions_by_port(PortField::Dest, 443), None);
}

#[test]
fn protocol_lists_hold_each_packet_once_per_protocol() {
    let store = filled_store();
    assert_eq!(store.positions_by_protocol(Protocol::Ethernet), &vec![0, 1, 2, 3]);
    assert_eq!(store.positions_by_protocol(Protocol::Tcp), &vec![0, 2, 3]);
    assert_eq!(store.positions_by_protocol(Protocol::Ipv4), &vec![0, 2, 3]);
    assert_eq!(store.positions_by_protocol(Protocol::Arp), &vec![1]);
    let none: Vec<usize> = Vec::new();
    assert_eq!(store.positions_by_protocol(Protocol::Udp), &none);
    assert_eq!(store.positions_by_protocol(Protocol::Icmp), &none);
    assert_eq!(store.positions_by_protocol(Protocol::Icmpv6), &none);
    assert_eq!(store.positions_by_protocol(Protocol::Http), &none);
    assert_eq!(store.positions_by_protocol(Protocol::Tls), &none);
    assert_eq!(store.positions_by_protocol(Protocol::Ipv6), &none);
    assert_eq!(store.positions_by_protocol(Protocol::Dns), &none);
    assert_eq!(store.positions_by_protocol(Protocol::Malformed), &none);
    assert_eq!(store.positions_by_protocol(Protocol::Unknown), &none);
}

#[test]
fn a_packet_without_accessors_enters_no_keyed_index() {
    let mut store = PacketsCollection::new();
    let mut packet = ParsedPacket::new(0);
    packet.protocols.malformed = true;
    packet.protocols.unknown = true;
    store.insert(packet);
    assert_eq!(store.len(), 1);
    assert_eq!(store.positions_by_protocol(Protocol::Malformed), &vec![0]);
    assert_eq!(store.positions_by_protocol(Protocol::Unknown), &vec![0]);
    assert!(store.positions_by_protocol(Protocol::Ethernet).is_empty());
    assert!(store.positions_by_port(PortField::Source, 0).is_none());
    assert!(store.positions_by_address(AddressField::SourceIp, &"".to_string()).is_none());
}

#[test]
fn clear_empties_the_sequence_and_every_index() {
    let mut store = filled_store();
    store.clear();
    assert_eq!(store.len(), 0);
    assert!(store.positions_by_protocol(Protocol::Ethernet).is_empty());
    assert!(store.positions_by_protocol(Protocol::Tcp).is_empty());
    assert!(store.positions_by_port(PortField::Dest, 80).is_none());
    assert!(store
        .positions_by_address(AddressField::SourceMac, &"aa:aa:aa:aa:aa:aa".to_string())
        .is_none());
    store.insert(arp_packet());
    assert_eq!(store.positions_by_protocol(Protocol::Arp), &vec![0]);
}
