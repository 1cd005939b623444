use wirefish::aggregator::FlowAggregator;
use wirefish::flow::{get_sender_receiver, port_text, PacketExchange, SourceDestination};
use wirefish::packet::{ParsedPacket, Protocol, ProtocolFlags};

fn flow_key(a: &str, b: &str, c: &str, d: &str) -> SourceDestination {
    SourceDestination::new(a.to_string(), b.to_string(), c.to_string(), d.to_string())
}

fn tags(names: &[&str]) -> Vec<String> {
    let mut list = Vec::new();
    for name in names {
        list.push(name.to_string());
    }
    list
}

#[test]
fn port_text_is_the_decimal_notation() {
    assert_eq!(port_text(0), "0");
    assert_eq!(port_text(7), "7");
    assert_eq!(port_text(10), "10");
    assert_eq!(port_text(80), "80");
    assert_eq!(port_text(443), "443");
    assert_eq!(port_text(8080), "8080");
    assert_eq!(port_text(50001), "50001");
    assert_eq!(port_text(65535), "65535");
}

#[test]
fn protocol_flags_answer_for_each_protocol() {
    let mut flags = ProtocolFlags::none();
    assert!(!flags.contains(Protocol::Tcp));
    flags.tcp = true;
    flags.ipv4 = true;
    flags.ethernet = true;
    assert!(flags.contains(Protocol::Tcp));
    assert!(flags.contains(Protocol::Ipv4));
    assert!(flags.contains(Protocol::Ethernet));
    assert!(!flags.contains(Protocol::Udp));
    assert!(!flags.contains(Protocol::Dns));
}

#[test]
fn transmitted_bytes_add_the_ethernet_header() {
    let mut packet = ParsedPacket::new(0);
    assert_eq!(packet.transmitted_bytes(), Some(0));
    packet.ethernet_payload_len = Some(100);
    assert_eq!(packet.transmitted_bytes(), Some(114));
    packet.ethernet_payload_len = Some(0);
    assert_eq!(packet.transmitted_bytes(), Some(14));
    packet.ethernet_payload_len = Some(u64::MAX - 14);
    assert_eq!(packet.transmitted_bytes(), Some(u64::MAX));
    packet.ethernet_payload_len = Some(u64::MAX - 13);
    assert_eq!(packet.transmitted_bytes(), None);
}

#[test]
fn flow_key_uses_a_dash_for_absent_layers() {
    let packet = ParsedPacket::new(3);
    let (key, protocols) = get_sender_receiver(&packet);
    assert_eq!(key, flow_key("-", "-", "-", "-"));
    assert!(protocols.is_empty());
}

#[test]
fn flow_key_holds_addresses_and_ports() {
    let mut packet = ParsedPacket::new(0);
    packet.source_ip = Some("10.0.0.1".to_string());
    packet.dest_ip = Some("10.0.0.2".to_string());
    packet.source_port = Some(50000);
    packet.dest_port = Some(443);
    packet.protocols.ethernet = true;
    packet.protocols.ipv4 = true;
    packet.protocols.tcp = true;
    packet.protocols.tls = true;
    let (key, protocols) = get_sender_receiver(&packet);
    assert_eq!(key, flow_key("10.0.0.1", "10.0.0.2", "50000", "443"));
    assert_eq!(protocols, tags(&["TCP", "TLS"]));
}

#[test]
fn flow_tags_come_in_a_fixed_order() {
    let mut packet = ParsedPacket::new(0);
    packet.protocols.tls = true;
    packet.protocols.http = true;
    packet.protocols.dns = true;
    packet.protocols.icmpv6 = true;
    packet.protocols.icmp = true;
    packet.protocols.udp = true;
    packet.protocols.tcp = true;
    packet.protocols.arp = true;
    packet.protocols.malformed = true;
    let (_, protocols) = get_sender_receiver(&packet);
    assert_eq!(protocols, tags(&["TCP", "UDP", "ICMP", "ICMPv6", "DNS", "HTTP", "TLS"]));
}

#[test]
fn first_packet_opens_the_statistics() {
    let stats = PacketExchange::new(tags(&["TCP", "TCP", "HTTP"]), 114, 1_000);
    assert_eq!(stats.protocols(), &tags(&["TCP", "HTTP"]));
    assert_eq!(stats.total_bytes(), 114);
    assert_eq!(stats.packet_count(), 1);
    assert_eq!(stats.first_seen(), 1_000);
    assert_eq!(stats.last_seen(), 1_000);
}

#[test]
fn add_packet_accumulates() {
    let mut stats = PacketExchange::new(tags(&["TCP"]), 100, 1_000);
    stats.add_packet(tags(&["TCP", "TLS"]), 50, 2_000);
    stats.add_packet(tags(&["HTTP", "TCP"]), 25, 3_000);
    assert_eq!(stats.protocols(), &tags(&["TCP", "TLS", "HTTP"]));
    assert_eq!(stats.total_bytes(), 175);
    assert_eq!(stats.packet_count(), 3);
    assert_eq!(stats.first_seen(), 1_000);
    assert_eq!(stats.last_seen(), 3_000);
}

#[test]
fn fits_guards_the_counters() {
    let stats = PacketExchange::new(tags(&[]), u64::MAX - 10, 0);
    assert!(stats.fits(10));
    assert!(!stats.fits(11));
    assert!(stats.fits(0));
}

#[test]
fn record_creates_then_updates_a_flow() {
    let mut flows = FlowAggregator::new();
    assert!(flows.is_empty());
    let a = flow_key("10.0.0.1", "10.0.0.2", "1000", "80");
    let b = flow_key("10.0.0.3", "10.0.0.4", "53", "53");
    flows.record(a.clone(), tags(&["TCP"]), 100, 10);
    flows.record(b.clone(), tags(&["UDP", "DNS"]), 60, 20);
    flows.record(a.clone(), tags(&["TCP", "HTTP"]), 200, 30);
    assert_eq!(flows.len(), 2);
    let first = flows.get(&a).unwrap();
    assert_eq!(first.total_bytes(), 300);
    assert_eq!(first.packet_count(), 2);
    assert_eq!(first.protocols(), &tags(&["TCP", "HTTP"]));
    assert_eq!(first.first_seen(), 10);
    assert_eq!(first.last_seen(), 30);
    let second = flows.get(&b).unwrap();
    assert_eq!(second.total_bytes(), 60);
    assert_eq!(second.packet_count(), 1);
    assert_eq!(second.protocols(), &tags(&["UDP", "DNS"]));
    assert!(flows.get(&flow_key("10.0.0.2", "10.0.0.1", "80", "1000")).is_none());
    let (key, stats) = flows.flow_at(1);
    assert_eq!(key, &b);
    assert_eq!(stats.last_seen(), 20);
}

#[test]
fn total_bytes_is_the_sum_of_the_packets_of_the_flow() {
    let mut flows = FlowAggregator::new();
    let a = flow_key("a", "b", "1", "2");
    let other = flow_key("c", "d", "3", "4");
    let sizes: [u64; 5] = [14, 1514, 60, 74, 590];
    let mut expected: u64 = 0;
    for (i, size) in sizes.iter().enumerate() {
        flows.record(a.clone(), tags(&["TCP"]), *size, i as i64);
        flows.record(other.clone(), tags(&["UDP"]), 1, i as i64);
        expected += *size;
    }
    assert_eq!(expected, 2252);
    assert_eq!(flows.get(&a).unwrap().total_bytes(), 2252);
    assert_eq!(flows.get(&a).unwrap().packet_count(), 5);
    assert_eq!(flows.get(&other).unwrap().total_bytes(), 5);
}

#[test]
fn can_record_refuses_an_overflowing_total() {
    let mut flows = FlowAggregator::new();
    let a = flow_key("a", "b", "1", "2");
    assert!(flows.can_record(&a, u64::MAX));
    flows.record(a.clone(), tags(&[]), u64::MAX - 1, 0);
    assert!(flows.can_record(&a, 1));
    assert!(!flows.can_record(&a, 2));
    assert!(flows.can_record(&flow_key("x", "y", "-", "-"), u64::MAX));
}

#[test]
fn second_drain_yields_nothing() {
    let mut flows = FlowAggregator::new();
    flows.record(flow_key("a", "b", "1", "2"), tags(&["TCP"]), 100, 1);
    flows.record(flow_key("c", "d", "3", "4"), tags(&["UDP"]), 200, 2);
    let first = flows.drain();
    assert_eq!(first.len(), 2);
    assert_eq!(first.get(&flow_key("a", "b", "1", "2")).unwrap().total_bytes(), 100);
    assert!(flows.is_empty());
    let second = flows.drain();
    assert!(second.is_empty());
    assert_eq!(second.len(), 0);
    assert!(flows.is_empty());
}
