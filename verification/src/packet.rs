//! A decoded packet as the capture session sees it: its sequence number, the
//! addresses and ports that the frame decoder extracted, and the protocols
//! that the decoder recognised in it.

use vstd::prelude::*;

verus! {

/// Length in bytes of the header of an Ethernet frame.
pub const ETHERNET_HEADER_LENGTH: u64 = 14;

/// Which protocols the decoder recognised in a packet. Any number of them
/// may hold at once.
#[derive(Debug, Clone, Copy, PartialEq, Eq)]
pub struct ProtocolFlags {
    pub ethernet: bool,
    pub malformed: bool,
    pub unknown: bool,
    pub tcp: bool,
    pub udp: bool,
    pub icmp: bool,
    pub icmpv6: bool,
    pub http: bool,
    pub tls: bool,
    pub ipv4: bool,
    pub ipv6: bool,
    pub arp: bool,
    pub dns: bool,
}

/// A protocol by which packets are classified.
#[derive(Debug, Clone, Copy, PartialEq, Eq, Structural)]
pub enum Protocol {
    Ethernet,
    Malformed,
    Unknown,
    Tcp,
    Udp,
    Icmp,
    Icmpv6,
    Http,
    Tls,
    Ipv4,
    Ipv6,
    Arp,
    Dns,
}

impl ProtocolFlags {
    /// Whether the flag of `protocol` is set.
    pub open spec fn has(self, protocol: Protocol) -> bool {
        match protocol {
            Protocol::Ethernet => self.ethernet,
            Protocol::Malformed => self.malformed,
            Protocol::Unknown => self.unknown,
            Protocol::Tcp => self.tcp,
            Protocol::Udp => self.udp,
            Protocol::Icmp => self.icmp,
            Protocol::Icmpv6 => self.icmpv6,
            Protocol::Http => self.http,
            Protocol::Tls => self.tls,
            Protocol::Ipv4 => self.ipv4,
            Protocol::Ipv6 => self.ipv6,
            Protocol::Arp => self.arp,
            Protocol::Dns => self.dns,
        }
    }

    /// The flags of a packet in which no protocol was recognised.
    pub open spec fn cleared() -> ProtocolFlags {
        ProtocolFlags {
            ethernet: false,
            malformed: false,
            unknown: false,
            tcp: false,
            udp: false,
            icmp: false,
            icmpv6: false,
            http: false,
            tls: false,
            ipv4: false,
            ipv6: false,
            arp: false,
            dns: false,
        }
    }

    /// No protocol recognised.
    pub fn none() -> (flags: ProtocolFlags)
        ensures
            flags == ProtocolFlags::cleared(),
    {
        ProtocolFlags {
            ethernet: false,
            malformed: false,
            unknown: false,
            tcp: false,
            udp: false,
            icmp: false,
            icmpv6: false,
            http: false,
            tls: false,
            ipv4: false,
            ipv6: false,
            arp: false,
            dns: false,
        }
    }

    /// Whether the flag of `protocol` is set.
    pub fn contains(&self, protocol: Protocol) -> (set: bool)
        ensures
            set == self.has(protocol),
    {
        match protocol {
            Protocol::Ethernet => self.ethernet,
            Protocol::Malformed => self.malformed,
            Protocol::Unknown => self.unknown,
            Protocol::Tcp => self.tcp,
            Protocol::Udp => self.udp,
            Protocol::Icmp => self.icmp,
            Protocol::Icmpv6 => self.icmpv6,
            Protocol::Http => self.http,
            Protocol::Tls => self.tls,
            Protocol::Ipv4 => self.ipv4,
            Protocol::Ipv6 => self.ipv6,
            Protocol::Arp => self.arp,
            Protocol::Dns => self.dns,
        }
    }
}

/// A decoded packet. `id` is its sequence number within the session; the
/// other fields are what the frame decoder reported of the frame.
#[derive(Debug, Clone, PartialEq, Eq)]
pub struct ParsedPacket {
    pub id: u64,
    pub source_ip: Option<String>,
    pub dest_ip: Option<String>,
    pub source_mac: Option<String>,
    pub dest_mac: Option<String>,
    pub source_port: Option<u16>,
    pub dest_port: Option<u16>,
    pub protocols: ProtocolFlags,
    /// Length of the payload of the Ethernet frame, where the link layer is
    /// an Ethernet frame.
    pub ethernet_payload_len: Option<u64>,
}

/// A packet in contracts.
pub struct PacketView {
    pub id: u64,
    pub source_ip: Option<Seq<char>>,
    pub dest_ip: Option<Seq<char>>,
    pub source_mac: Option<Seq<char>>,
    pub dest_mac: Option<Seq<char>>,
    pub source_port: Option<u16>,
    pub dest_port: Option<u16>,
    pub protocols: ProtocolFlags,
    pub ethernet_payload_len: Option<u64>,
}

/// The characters of an optional string.
pub open spec fn text_of(value: Option<String>) -> Option<Seq<char>> {
    match value {
        Some(text) => Some(text@),
        None => None,
    }
}

impl View for ParsedPacket {
    type V = PacketView;

    open spec fn view(&self) -> PacketView {
        PacketView {
            id: self.id,
            source_ip: text_of(self.source_ip),
            dest_ip: text_of(self.dest_ip),
            source_mac: text_of(self.source_mac),
            dest_mac: text_of(self.dest_mac),
            source_port: self.source_port,
            dest_port: self.dest_port,
            protocols: self.protocols,
            ethernet_payload_len: self.ethernet_payload_len,
        }
    }
}

impl PacketView {
    /// A packet of which the decoder reported nothing, under the sequence
    /// number `id`.
    pub open spec fn blank(id: u64) -> PacketView {
        PacketView {
            id,
            source_ip: None,
            dest_ip: None,
            source_mac: None,
            dest_mac: None,
            source_port: None,
            dest_port: None,
            protocols: ProtocolFlags::cleared(),
            ethernet_payload_len: None,
        }
    }

    /// The same packet under the sequence number `id`.
    pub open spec fn with_id(self, id: u64) -> PacketView {
        PacketView { id, ..self }
    }

    /// The bytes that the packet adds to its flow: the Ethernet payload and
    /// the Ethernet header, or nothing where the link layer is no Ethernet
    /// frame.
    pub open spec fn transmitted_bytes(self) -> nat {
        match self.ethernet_payload_len {
            Some(len) => (len + ETHERNET_HEADER_LENGTH) as nat,
            None => 0,
        }
    }
}

impl ParsedPacket {
    /// A packet of which the decoder reported nothing, under the sequence
    /// number `id`.
    pub fn new(id: u64) -> (packet: ParsedPacket)
        ensures
            packet@ == PacketView::blank(id),
    {
        ParsedPacket {
            id,
            source_ip: None,
            dest_ip: None,
            source_mac: None,
            dest_mac: None,
            source_port: None,
            dest_port: None,
            protocols: ProtocolFlags::none(),
            ethernet_payload_len: None,
        }
    }

    /// The bytes that the packet adds to its flow, or `None` where the sum of
    /// payload and header does not fit in 64 bits.
    pub fn transmitted_bytes(&self) -> (bytes: Option<u64>)
        ensures
            bytes is Some <==> self@.transmitted_bytes() <= u64::MAX,
            bytes is Some ==> bytes->0 == self@.transmitted_bytes(),
    {
        match self.ethernet_payload_len {
            Some(len) => len.checked_add(ETHERNET_HEADER_LENGTH),
            None => Some(0),
        }
    }
}

} // verus!
