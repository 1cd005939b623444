use wirefish::aggregator::FlowAggregator;
use wirefish::error::SniffingError;
use wirefish::flow::SourceDestination;
use wirefish::packet::ParsedPacket;
use wirefish::session::{
    can_capture, capture_config, capture_packet, channel_result, get_interfaces_list,
    select_interface, start_sniffing, ChannelOutcome, Interface, SniffingInfo,
};
use wirefish::store::PacketsCollection;

fn some_interfaces() -> Vec<Interface> {
    vec![
        Interface { name: "lo".to_string(), index: 1 },
        Interface { name: "eth0".to_string(), index: 2 },
        Interface { name: "wlan0".to_string(), index: 3 },
        Interface { name: "eth0".to_string(), index: 4 },
    ]
}

fn udp_packet(payload: u64) -> ParsedPacket {
    let mut packet = ParsedPacket::new(999);
    packet.source_ip = Some("192.168.1.10".to_string());
    packet.dest_ip = Some("192.168.1.1".to_string());
    packet.source_port = Some(5353);
    packet.dest_port = Some(53);
    packet.protocols.ethernet = true;
    packet.protocols.ipv4 = true;
    packet.protocols.udp = true;
    packet.protocols.dns = true;
    packet.ethernet_payload_len = Some(payload);
    packet
}

#[test]
fn interface_names_come_in_their_order() {
    assert_eq!(
        get_interfaces_list(&some_interfaces()),
        vec!["lo".to_string(), "eth0".to_string(), "wlan0".to_string(), "eth0".to_string()]
    );
    assert!(get_interfaces_list(&Vec::new()).is_empty());
}

#[test]
fn new_session_has_no_selection() {
    let info = SniffingInfo::new();
    assert!(info.interface_name().is_none());
    assert!(info.interface().is_none());
    assert_eq!(info.counter(), 0);
}

#[test]
fn select_takes_the_first_interface_of_that_name() {
    let mut info = SniffingInfo::new();
    assert_eq!(select_interface(&mut info, &some_interfaces(), "eth0".to_string()), Ok(()));
    assert_eq!(info.interface_name(), Some(&"eth0".to_string()));
    assert_eq!(info.interface(), Some(&Interface { name: "eth0".to_string(), index: 2 }));
    assert_eq!(info.counter(), 0);
}

#[test]
fn select_of_an_unknown_name_keeps_the_selection() {
    let mut info = SniffingInfo::new();
    assert_eq!(select_interface(&mut info, &some_interfaces(), "wlan0".to_string()), Ok(()));
    assert_eq!(
        select_interface(&mut info, &some_interfaces(), "eth7".to_string()),
        Err(SniffingError::InterfaceNotFound(
            "The provided interface is inexistent".to_string()
        ))
    );
    assert_eq!(info.interface_name(), Some(&"wlan0".to_string()));
    assert_eq!(info.interface().unwrap().index, 3);
    assert_eq!(
        select_interface(&mut info, &Vec::new(), "wlan0".to_string()),
        Err(SniffingError::InterfaceNotFound(
            "The provided interface is inexistent".to_string()
        ))
    );
}

#[test]
fn select_replaces_an_earlier_selection() {
    let mut info = SniffingInfo::new();
    assert!(select_interface(&mut info, &some_interfaces(), "lo".to_string()).is_ok());
    assert!(select_interface(&mut info, &some_interfaces(), "wlan0".to_string()).is_ok());
    assert_eq!(info.interface_name(), Some(&"wlan0".to_string()));
    assert_eq!(info.interface().unwrap().index, 3);
}

#[test]
fn start_without_selection_is_refused() {
    let info = SniffingInfo::new();
    let mut packets = PacketsCollection::new();
    packets.insert(udp_packet(10));
    let result = start_sniffing(false, &info, &mut packets);
    assert_eq!(
        result,
        Err(SniffingError::StartSniffingWithoutInterfaceSelection(
            "Start sniffing without prior selection of the inteface".to_string()
        ))
    );
    assert_eq!(packets.len(), 1);
}

#[test]
fn fresh_start_clears_the_store_and_resume_keeps_it() {
    let mut info = SniffingInfo::new();
    assert!(select_interface(&mut info, &some_interfaces(), "eth0".to_string()).is_ok());
    let mut packets = PacketsCollection::new();
    packets.insert(udp_packet(10));
    packets.insert(udp_packet(20));
    let resumed = start_sniffing(true, &info, &mut packets);
    assert_eq!(resumed, Ok(Interface { name: "eth0".to_string(), index: 2 }));
    assert_eq!(packets.len(), 2);
    let fresh = start_sniffing(false, &info, &mut packets);
    assert_eq!(fresh, Ok(Interface { name: "eth0".to_string(), index: 2 }));
    assert_eq!(packets.len(), 0);
}

#[test]
fn channel_outcomes_map_to_their_errors() {
    assert_eq!(channel_result(ChannelOutcome::Ethernet), Ok(()));
    assert_eq!(
        channel_result(ChannelOutcome::Unhandled),
        Err(SniffingError::UnhandledChannelType("Unhandled channel type".to_string()))
    );
    assert_eq!(
        channel_result(ChannelOutcome::Failed),
        Err(SniffingError::FailedChannelCreation(
            "Unexpected channel creation failure".to_string()
        ))
    );
}

#[test]
fn capture_configuration_is_fixed() {
    let config = capture_config();
    assert_eq!(config.write_buffer_size, 16384);
    assert_eq!(config.read_buffer_size, 16384);
    assert_eq!(config.read_timeout_millis, None);
    assert_eq!(config.write_timeout_millis, None);
    assert!(config.layer2);
    assert_eq!(config.bpf_fd_attempts, 1000);
    assert!(config.promiscuous);
}

#[test]
fn capture_numbers_packets_and_feeds_store_and_flows() {
    let mut info = SniffingInfo::new();
    let mut packets = PacketsCollection::new();
    let mut flows = FlowAggregator::new();
    assert!(can_capture(&info, &flows, &udp_packet(100)));
    capture_packet(&mut info, &mut packets, &mut flows, udp_packet(100), 1_000);
    capture_packet(&mut info, &mut packets, &mut flows, udp_packet(200), 2_000);
    assert_eq!(info.counter(), 2);
    assert_eq!(packets.len(), 2);
    assert_eq!(packets.get(0).unwrap().id, 0);
    assert_eq!(packets.get(1).unwrap().id, 1);
    assert_eq!(packets.get(1).unwrap().ethernet_payload_len, Some(200));
    assert_eq!(flows.len(), 1);
    let key = SourceDestination::new(
        "192.168.1.10".to_string(),
        "192.168.1.1".to_string(),
        "5353".to_string(),
        "53".to_string(),
    );
    let stats = flows.get(&key).unwrap();
    assert_eq!(stats.total_bytes(), 100 + 14 + 200 + 14);
    assert_eq!(stats.packet_count(), 2);
    assert_eq!(stats.protocols(), &vec!["UDP".to_string(), "DNS".to_string()]);
    assert_eq!(stats.first_seen(), 1_000);
    assert_eq!(stats.last_seen(), 2_000);
}

#[test]
fn can_capture_refuses_what_does_not_fit() {
    let info = SniffingInfo::new();
    let mut flows = FlowAggregator::new();
    assert!(!can_capture(&info, &flows, &udp_packet(u64::MAX)));
    assert!(can_capture(&info, &flows, &udp_packet(u64::MAX - 14)));
    let mut other = SniffingInfo::new();
    let mut packets = PacketsCollection::new();
    capture_packet(&mut other, &mut packets, &mut flows, udp_packet(u64::MAX - 14 - 5), 0);
    assert!(!can_capture(&info, &flows, &udp_packet(0)));
    let mut link_less = udp_packet(0);
    link_less.ethernet_payload_len = None;
    assert!(can_capture(&info, &flows, &link_less));
}
