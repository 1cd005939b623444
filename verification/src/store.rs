//! The packet store: the master sequence of captured packets, in arrival
//! order, with six keyed indices and thirteen protocol lists over it. The
//! master sequence is the arena; every index holds positions in it.

use crate::keyed::{KeyedStore, StoreKey};
use crate::packet::{PacketView, ParsedPacket, Protocol};
use vstd::prelude::*;

verus! {

/// The address fields by which packets are indexed.
#[derive(Debug, Clone, Copy, PartialEq, Eq, Structural)]
pub enum AddressField {
    SourceIp,
    DestIp,
    SourceMac,
    DestMac,
}

/// The port fields by which packets are indexed.
#[derive(Debug, Clone, Copy, PartialEq, Eq, Structural)]
pub enum PortField {
    Source,
    Dest,
}

/// What selects the packets of one index entry or of one protocol list.
pub enum Selector {
    /// The packets whose address field holds the given text.
    Address(AddressField, Seq<char>),
    /// The packets whose port field holds the given number.
    Port(PortField, u16),
    /// The packets in which the protocol was recognised.
    Protocol(Protocol),
}

/// What the accessor of an address field returns for a packet.
pub open spec fn address_of(packet: PacketView, field: AddressField) -> Option<Seq<char>> {
    match field {
        AddressField::SourceIp => packet.source_ip,
        AddressField::DestIp => packet.dest_ip,
        AddressField::SourceMac => packet.source_mac,
        AddressField::DestMac => packet.dest_mac,
    }
}

/// What the accessor of a port field returns for a packet.
pub open spec fn port_of(packet: PacketView, field: PortField) -> Option<u16> {
    match field {
        PortField::Source => packet.source_port,
        PortField::Dest => packet.dest_port,
    }
}

/// Whether `selector` selects `packet`.
pub open spec fn selects(selector: Selector, packet: PacketView) -> bool {
    match selector {
        Selector::Address(field, text) => address_of(packet, field) == Some(text),
        Selector::Port(field, number) => port_of(packet, field) == Some(number),
        Selector::Protocol(protocol) => packet.protocols.has(protocol),
    }
}

/// The positions in `packets` of the packets that `selector` selects, in
/// arrival order.
pub open spec fn positions(packets: Seq<PacketView>, selector: Selector) -> Seq<int>
    decreases packets.len(),
{
    if packets.len() == 0 {
        Seq::empty()
    } else {
        let earlier = positions(packets.drop_last(), selector);
        if selects(selector, packets.last()) {
            earlier.push(packets.len() - 1)
        } else {
            earlier
        }
    }
}

/// A list of positions as mathematical integers.
pub open spec fn ints(list: Seq<usize>) -> Seq<int> {
    list.map_values(|position: usize| position as int)
}

/// What one more packet adds to the positions of a selector: its own
/// position if the selector selects it, and nothing otherwise.
pub proof fn lemma_positions_push(packets: Seq<PacketView>, packet: PacketView, selector: Selector)
    ensures
        positions(packets.push(packet), selector) == if selects(selector, packet) {
            positions(packets, selector).push(packets.len() as int)
        } else {
            positions(packets, selector)
        },
{
    assert(packets.push(packet).drop_last() =~= packets);
}

/// A position is listed for a selector if and only if the packet at that
/// position is one that the selector selects. Listed positions ascend, so
/// none is listed twice.
pub proof fn lemma_positions_membership(packets: Seq<PacketView>, selector: Selector)
    ensures
        forall|position: int|
            positions(packets, selector).contains(position) <==> (0 <= position < packets.len()
                && selects(selector, #[trigger] packets[position])),
        forall|i: int, j: int|
            0 <= i < j < positions(packets, selector).len() ==> positions(packets, selector)[i]
                < positions(packets, selector)[j],
        positions(packets, selector).no_duplicates(),
        positions(packets, selector).len() <= packets.len(),
    decreases packets.len(),
{
    let listed = positions(packets, selector);
    if packets.len() > 0 {
        let front = packets.drop_last();
        let earlier = positions(front, selector);
        lemma_positions_membership(front, selector);
        let last = packets.len() - 1;
        assert forall|i: int| 0 <= i < earlier.len() implies 0 <= #[trigger] earlier[i] < last
            && selects(selector, packets[earlier[i]]) by {
            assert(earlier.contains(earlier[i]));
            assert(selects(selector, front[earlier[i]]));
        }
        assert forall|position: int| listed.contains(position) <==> (0 <= position
            < packets.len() && selects(selector, #[trigger] packets[position])) by {
            if listed.contains(position) {
                let i = choose|i: int| 0 <= i < listed.len() && listed[i] == position;
                if i < earlier.len() {
                    assert(earlier[i] == position);
                }
            }
            if 0 <= position < packets.len() && selects(selector, packets[position]) {
                if position < last {
                    assert(selects(selector, front[position]));
                    assert(earlier.contains(position));
                    let i = choose|i: int| 0 <= i < earlier.len() && earlier[i] == position;
                    assert(listed[i] == position);
                } else {
                    assert(listed[listed.len() - 1] == position);
                }
            }
        }
        assert forall|i: int, j: int| 0 <= i < j < listed.len() implies listed[i] < listed[j] by {
            if j < earlier.len() {
                assert(earlier[i] < earlier[j]);
            } else {
                assert(listed[i] == earlier[i]);
            }
        }
    }
}

/// Packets that arrive later add positions behind those that are listed and
/// change none of them.
pub proof fn lemma_positions_prefix(
    packets: Seq<PacketView>,
    later: Seq<PacketView>,
    selector: Selector,
)
    ensures
        positions(packets, selector).is_prefix_of(positions(packets + later, selector)),
    decreases later.len(),
{
    if later.len() == 0 {
        assert(packets + later =~= packets);
    } else {
        lemma_positions_prefix(packets, later.drop_last(), selector);
        assert((packets + later).drop_last() =~= packets + later.drop_last());
    }
}

/// The positions that a keyed index lists under `key`.
pub open spec fn listed<K>(index: Map<K, Vec<usize>>, key: K) -> Seq<int> {
    if index.contains_key(key) {
        ints(index[key]@)
    } else {
        Seq::empty()
    }
}

/// Whether a keyed index lists, under every key, exactly the positions of
/// the packets that the selector of that key selects, and holds no key
/// without a packet.
pub open spec fn index_matches<K>(
    index: Map<K, Vec<usize>>,
    packets: Seq<PacketView>,
    selector: spec_fn(K) -> Selector,
) -> bool {
    forall|key: K|
        #![trigger index.contains_key(key)]
        #![trigger positions(packets, selector(key))]
        {
            &&& listed(index, key) == positions(packets, selector(key))
            &&& index.contains_key(key) ==> positions(packets, selector(key)).len() > 0
        }
}

fn note_key<K: StoreKey>(
    index: &mut KeyedStore<K, Vec<usize>>,
    key: &Option<K>,
    position: usize,
    Ghost(packets): Ghost<Seq<PacketView>>,
    Ghost(packet): Ghost<PacketView>,
    Ghost(selector): Ghost<spec_fn(K::V) -> Selector>,
)
    requires
        index_matches(old(index)@, packets, selector),
        position == packets.len(),
        forall|candidate: K::V|
            selects(#[trigger] selector(candidate), packet) <==> (*key matches Some(k) && k@
                == candidate),
    ensures
        index_matches(final(index)@, packets.push(packet), selector),
{
    proof {
        use_type_invariant(&*index);
    }
    let ghost before = index@;
    match key {
        Some(k) => {
            match index.position(k) {
                Some(i) => {
                    proof {
                        index.lemma_view();
                    }
                    let mut list = index.replace_at(i, Vec::new());
                    let ghost earlier = list@;
                    list.push(position);
                    assert(ints(list@) =~= ints(earlier).push(position as int));
                    let _ = index.replace_at(i, list);
                    assert(index@ =~= before.insert(k@, list));
                },
                None => {
                    let mut list: Vec<usize> = Vec::new();
                    list.push(position);
                    assert(ints(list@) =~= Seq::<int>::empty().push(position as int));
                    index.push_new(k.copy_key(), list);
                },
            }
        },
        None => {},
    }
    proof {
        assert forall|candidate: K::V|
            #![trigger index@.contains_key(candidate)]
            #![trigger positions(packets.push(packet), selector(candidate))]
            {
                &&& listed(index@, candidate) == positions(
                    packets.push(packet),
                    selector(candidate),
                )
                &&& index@.contains_key(candidate) ==> positions(
                    packets.push(packet),
                    selector(candidate),
                ).len() > 0
            } by {
            lemma_positions_push(packets, packet, selector(candidate));
            assert(listed(before, candidate) == positions(packets, selector(candidate)));
            assert(before.contains_key(candidate) ==> positions(packets, selector(candidate)).len()
                > 0);
        }
    }
}

fn note_protocol(
    list: &mut Vec<usize>,
    present: bool,
    position: usize,
    Ghost(packets): Ghost<Seq<PacketView>>,
    Ghost(packet): Ghost<PacketView>,
    Ghost(protocol): Ghost<Protocol>,
)
    requires
        ints(old(list)@) == positions(packets, Selector::Protocol(protocol)),
        position == packets.len(),
        present == packet.protocols.has(protocol),
    ensures
        ints(final(list)@) == positions(packets.push(packet), Selector::Protocol(protocol)),
{
    proof {
        lemma_positions_push(packets, packet, Selector::Protocol(protocol));
    }
    if present {
        let ghost earlier = list@;
        list.push(position);
        assert(ints(list@) =~= ints(earlier).push(position as int));
    }
}

/// The selector of the entry `text` of the index over `field`.
pub open spec fn address_selector(field: AddressField) -> spec_fn(Seq<char>) -> Selector {
    |text: Seq<char>| Selector::Address(field, text)
}

/// The selector of the entry `number` of the index over `field`.
pub open spec fn port_selector(field: PortField) -> spec_fn(u16) -> Selector {
    |number: u16| Selector::Port(field, number)
}

/// The captured packets with their indices.
pub struct PacketsCollection {
    packets: Vec<ParsedPacket>,
    source_ip_index: KeyedStore<String, Vec<usize>>,
    dest_ip_index: KeyedStore<String, Vec<usize>>,
    source_mac_index: KeyedStore<String, Vec<usize>>,
    dest_mac_index: KeyedStore<String, Vec<usize>>,
    source_port_index: KeyedStore<u16, Vec<usize>>,
    dest_port_index: KeyedStore<u16, Vec<usize>>,
    ethernet_packets: Vec<usize>,
    malformed_packets: Vec<usize>,
    unknown_packets: Vec<usize>,
    tcp_packets: Vec<usize>,
    udp_packets: Vec<usize>,
    icmp_packets: Vec<usize>,
    icmpv6_packets: Vec<usize>,
    http_packets: Vec<usize>,
    tls_packets: Vec<usize>,
    ipv4_packets: Vec<usize>,
    ipv6_packets: Vec<usize>,
    arp_packets: Vec<usize>,
    dns_packets: Vec<usize>,
}

impl View for PacketsCollection {
    type V = Seq<PacketView>;

    /// The master sequence: every captured packet, in arrival order.
    closed spec fn view(&self) -> Seq<PacketView> {
        self.packets@.map_values(|packet: ParsedPacket| packet@)
    }
}

impl PacketsCollection {
    /// Every index and every protocol list holds exactly the positions of
    /// the packets of the master sequence that belong in it. A store is in
    /// this state whenever executable code holds it.
    #[verifier::type_invariant]
    pub closed spec fn wf(&self) -> bool {
        &&& index_matches(self.source_ip_index@, self@, address_selector(AddressField::SourceIp))
        &&& index_matches(self.dest_ip_index@, self@, address_selector(AddressField::DestIp))
        &&& index_matches(self.source_mac_index@, self@, address_selector(AddressField::SourceMac))
        &&& index_matches(self.dest_mac_index@, self@, address_selector(AddressField::DestMac))
        &&& index_matches(self.source_port_index@, self@, port_selector(PortField::Source))
        &&& index_matches(self.dest_port_index@, self@, port_selector(PortField::Dest))
        &&& ints(self.ethernet_packets@) == positions(self@, Selector::Protocol(Protocol::Ethernet))
        &&& ints(self.malformed_packets@) == positions(self@, Selector::Protocol(Protocol::Malformed))
        &&& ints(self.unknown_packets@) == positions(self@, Selector::Protocol(Protocol::Unknown))
        &&& ints(self.tcp_packets@) == positions(self@, Selector::Protocol(Protocol::Tcp))
        &&& ints(self.udp_packets@) == positions(self@, Selector::Protocol(Protocol::Udp))
        &&& ints(self.icmp_packets@) == positions(self@, Selector::Protocol(Protocol::Icmp))
        &&& ints(self.icmpv6_packets@) == positions(self@, Selector::Protocol(Protocol::Icmpv6))
        &&& ints(self.http_packets@) == positions(self@, Selector::Protocol(Protocol::Http))
        &&& ints(self.tls_packets@) == positions(self@, Selector::Protocol(Protocol::Tls))
        &&& ints(self.ipv4_packets@) == positions(self@, Selector::Protocol(Protocol::Ipv4))
        &&& ints(self.ipv6_packets@) == positions(self@, Selector::Protocol(Protocol::Ipv6))
        &&& ints(self.arp_packets@) == positions(self@, Selector::Protocol(Protocol::Arp))
        &&& ints(self.dns_packets@) == positions(self@, Selector::Protocol(Protocol::Dns))
    }

    /// A store without packets.
    pub fn new() -> (store: PacketsCollection)
        ensures
            store@ == Seq::<PacketView>::empty(),
    {
        let packets: Vec<ParsedPacket> = Vec::new();
        let source_ip_index: KeyedStore<String, Vec<usize>> = KeyedStore::new();
        let dest_ip_index: KeyedStore<String, Vec<usize>> = KeyedStore::new();
        let source_mac_index: KeyedStore<String, Vec<usize>> = KeyedStore::new();
        let dest_mac_index: KeyedStore<String, Vec<usize>> = KeyedStore::new();
        let source_port_index: KeyedStore<u16, Vec<usize>> = KeyedStore::new();
        let dest_port_index: KeyedStore<u16, Vec<usize>> = KeyedStore::new();
        let ethernet_packets: Vec<usize> = Vec::new();
        let malformed_packets: Vec<usize> = Vec::new();
        let unknown_packets: Vec<usize> = Vec::new();
        let tcp_packets: Vec<usize> = Vec::new();
        let udp_packets: Vec<usize> = Vec::new();
        let icmp_packets: Vec<usize> = Vec::new();
        let icmpv6_packets: Vec<usize> = Vec::new();
        let http_packets: Vec<usize> = Vec::new();
        let tls_packets: Vec<usize> = Vec::new();
        let ipv4_packets: Vec<usize> = Vec::new();
        let ipv6_packets: Vec<usize> = Vec::new();
        let arp_packets: Vec<usize> = Vec::new();
        let dns_packets: Vec<usize> = Vec::new();
        proof {
            let ghost made = PacketsCollection {
                packets,
                source_ip_index,
                dest_ip_index,
                source_mac_index,
                dest_mac_index,
                source_port_index,
                dest_port_index,
                ethernet_packets,
                malformed_packets,
                unknown_packets,
                tcp_packets,
                udp_packets,
                icmp_packets,
                icmpv6_packets,
                http_packets,
                tls_packets,
                ipv4_packets,
                ipv6_packets,
                arp_packets,
                dns_packets,
            };
            assert(made@ =~= Seq::<PacketView>::empty());
            assert(ints(ethernet_packets@) =~= Seq::<int>::empty());
            assert(ints(malformed_packets@) =~= Seq::<int>::empty());
            assert(ints(unknown_packets@) =~= Seq::<int>::empty());
            assert(ints(tcp_packets@) =~= Seq::<int>::empty());
            assert(ints(udp_packets@) =~= Seq::<int>::empty());
            assert(ints(icmp_packets@) =~= Seq::<int>::empty());
            assert(ints(icmpv6_packets@) =~= Seq::<int>::empty());
            assert(ints(http_packets@) =~= Seq::<int>::empty());
            assert(ints(tls_packets@) =~= Seq::<int>::empty());
            assert(ints(ipv4_packets@) =~= Seq::<int>::empty());
            assert(ints(ipv6_packets@) =~= Seq::<int>::empty());
            assert(ints(arp_packets@) =~= Seq::<int>::empty());
            assert(ints(dns_packets@) =~= Seq::<int>::empty());
        }
        PacketsCollection {
            packets,
            source_ip_index,
            dest_ip_index,
            source_mac_index,
            dest_mac_index,
            source_port_index,
            dest_port_index,
            ethernet_packets,
            malformed_packets,
            unknown_packets,
            tcp_packets,
            udp_packets,
            icmp_packets,
            icmpv6_packets,
            http_packets,
            tls_packets,
            ipv4_packets,
            ipv6_packets,
            arp_packets,
            dns_packets,
        }
    }

    /// Empties the master sequence, every index and every protocol list.
    pub fn clear(&mut self)
        ensures
            final(self)@ == Seq::<PacketView>::empty(),
    {
        *self = PacketsCollection::new();
    }

    /// The number of packets in the master sequence.
    pub fn len(&self) -> (count: usize)
        ensures
            count == self@.len(),
    {
        self.packets.len()
    }

    /// The packet at `position` of the master sequence.
    pub fn get(&self, position: usize) -> (packet: Option<&ParsedPacket>)
        ensures
            packet is Some <==> position < self@.len(),
            packet is Some ==> packet->0@ == self@[position as int],
    {
        if position < self.packets.len() {
            Some(&self.packets[position])
        } else {
            None
        }
    }

    /// Appends `packet` to the master sequence and lists its position under
    /// each address and port that it has and under each protocol recognised
    /// in it.
    pub fn insert(&mut self, packet: ParsedPacket)
        ensures
            final(self)@ == old(self)@.push(packet@),
    {
        proof {
            use_type_invariant(&*self);
        }
        let ghost before = self@;
        let ghost view = packet@;
        let mut taken = PacketsCollection::new();
        std::mem::swap(self, &mut taken);
        let PacketsCollection {
            mut packets,
            mut source_ip_index,
            mut dest_ip_index,
            mut source_mac_index,
            mut dest_mac_index,
            mut source_port_index,
            mut dest_port_index,
            mut ethernet_packets,
            mut malformed_packets,
            mut unknown_packets,
            mut tcp_packets,
            mut udp_packets,
            mut icmp_packets,
            mut icmpv6_packets,
            mut http_packets,
            mut tls_packets,
            mut ipv4_packets,
            mut ipv6_packets,
            mut arp_packets,
            mut dns_packets,
        } = taken;
        let position = packets.len();
        note_key(
            &mut source_ip_index,
            &packet.source_ip,
            position,
            Ghost(before),
            Ghost(view),
            Ghost(address_selector(AddressField::SourceIp)),
        );
        note_key(
            &mut dest_ip_index,
            &packet.dest_ip,
            position,
            Ghost(before),
            Ghost(view),
            Ghost(address_selector(AddressField::DestIp)),
        );
        note_key(
            &mut source_mac_index,
            &packet.source_mac,
            position,
            Ghost(before),
            Ghost(view),
            Ghost(address_selector(AddressField::SourceMac)),
        );
        note_key(
            &mut dest_mac_index,
            &packet.dest_mac,
            position,
            Ghost(before),
            Ghost(view),
            Ghost(address_selector(AddressField::DestMac)),
        );
        note_key(
            &mut source_port_index,
            &packet.source_port,
            position,
            Ghost(before),
            Ghost(view),
            Ghost(port_selector(PortField::Source)),
        );
        note_key(
            &mut dest_port_index,
            &packet.dest_port,
            position,
            Ghost(before),
            Ghost(view),
            Ghost(port_selector(PortField::Dest)),
        );
        let flags = packet.protocols;
        note_protocol(
            &mut ethernet_packets,
            flags.ethernet,
            position,
            Ghost(before),
            Ghost(view),
            Ghost(Protocol::Ethernet),
        );
        note_protocol(
            &mut malformed_packets,
            flags.malformed,
            position,
            Ghost(before),
            Ghost(view),
            Ghost(Protocol::Malformed),
        );
        note_protocol(
            &mut unknown_packets,
            flags.unknown,
            position,
            Ghost(before),
            Ghost(view),
            Ghost(Protocol::Unknown),
        );
        note_protocol(
            &mut tcp_packets,
            flags.tcp,
            position,
            Ghost(before),
            Ghost(view),
            Ghost(Protocol::Tcp),
        );
        note_protocol(
            &mut udp_packets,
            flags.udp,
            position,
            Ghost(before),
            Ghost(view),
            Ghost(Protocol::Udp),
        );
        note_protocol(
            &mut icmp_packets,
            flags.icmp,
            position,
            Ghost(before),
            Ghost(view),
            Ghost(Protocol::Icmp),
        );
        note_protocol(
            &mut icmpv6_packets,
            flags.icmpv6,
            position,
            Ghost(before),
            Ghost(view),
            Ghost(Protocol::Icmpv6),
        );
        note_protocol(
            &mut http_packets,
            flags.http,
            position,
            Ghost(before),
            Ghost(view),
            Ghost(Protocol::Http),
        );
        note_protocol(
            &mut tls_packets,
            flags.tls,
            position,
            Ghost(before),
            Ghost(view),
            Ghost(Protocol::Tls),
        );
        note_protocol(
            &mut ipv4_packets,
            flags.ipv4,
            position,
            Ghost(before),
            Ghost(view),
            Ghost(Protocol::Ipv4),
        );
        note_protocol(
            &mut ipv6_packets,
            flags.ipv6,
            position,
            Ghost(before),
            Ghost(view),
            Ghost(Protocol::Ipv6),
        );
        note_protocol(
            &mut arp_packets,
            flags.arp,
            position,
            Ghost(before),
            Ghost(view),
            Ghost(Protocol::Arp),
        );
        note_protocol(
            &mut dns_packets,
            flags.dns,
            position,
            Ghost(before),
            Ghost(view),
            Ghost(Protocol::Dns),
        );
        packets.push(packet);
        proof {
            let ghost next = PacketsCollection {
                packets,
                source_ip_index,
                dest_ip_index,
                source_mac_index,
                dest_mac_index,
                source_port_index,
                dest_port_index,
                ethernet_packets,
                malformed_packets,
                unknown_packets,
                tcp_packets,
                udp_packets,
                icmp_packets,
                icmpv6_packets,
                http_packets,
                tls_packets,
                ipv4_packets,
                ipv6_packets,
                arp_packets,
                dns_packets,
            };
            assert(next@ =~= before.push(view));
        }
        *self = PacketsCollection {
            packets,
            source_ip_index,
            dest_ip_index,
            source_mac_index,
            dest_mac_index,
            source_port_index,
            dest_port_index,
            ethernet_packets,
            malformed_packets,
            unknown_packets,
            tcp_packets,
            udp_packets,
            icmp_packets,
            icmpv6_packets,
            http_packets,
            tls_packets,
            ipv4_packets,
            ipv6_packets,
            arp_packets,
            dns_packets,
        };
    }

    /// The positions of the packets whose address `field` is `address`, in
    /// arrival order; `None` where no packet has that address.
    pub fn positions_by_address(&self, field: AddressField, address: &String) -> (found: Option<
        &Vec<usize>,
    >)
        ensures
            found is Some <==> positions(self@, Selector::Address(field, address@)).len() > 0,
            found is Some ==> ints(found->0@) == positions(
                self@,
                Selector::Address(field, address@),
            ),
    {
        proof {
            use_type_invariant(self);
        }
        let index = match field {
            AddressField::SourceIp => &self.source_ip_index,
            AddressField::DestIp => &self.dest_ip_index,
            AddressField::SourceMac => &self.source_mac_index,
            AddressField::DestMac => &self.dest_mac_index,
        };
        assert(index_matches(index@, self@, address_selector(field)));
        assert(address_selector(field)(address@) == Selector::Address(field, address@));
        index.get(address)
    }

    /// The positions of the packets whose port `field` is `port`, in arrival
    /// order; `None` where no packet has that port.
    pub fn positions_by_port(&self, field: PortField, port: u16) -> (found: Option<&Vec<usize>>)
        ensures
            found is Some <==> positions(self@, Selector::Port(field, port)).len() > 0,
            found is Some ==> ints(found->0@) == positions(self@, Selector::Port(field, port)),
    {
        proof {
            use_type_invariant(self);
        }
        let index = match field {
            PortField::Source => &self.source_port_index,
            PortField::Dest => &self.dest_port_index,
        };
        assert(index_matches(index@, self@, port_selector(field)));
        assert(port_selector(field)(port) == Selector::Port(field, port));
        index.get(&port)
    }

    /// The positions of the packets in which `protocol` was recognised, in
    /// arrival order.
    pub fn positions_by_protocol(&self, protocol: Protocol) -> (found: &Vec<usize>)
        ensures
            ints(found@) == positions(self@, Selector::Protocol(protocol)),
    {
        proof {
            use_type_invariant(self);
        }
        match protocol {
            Protocol::Ethernet => &self.ethernet_packets,
            Protocol::Malformed => &self.malformed_packets,
            Protocol::Unknown => &self.unknown_packets,
            Protocol::Tcp => &self.tcp_packets,
            Protocol::Udp => &self.udp_packets,
            Protocol::Icmp => &self.icmp_packets,
            Protocol::Icmpv6 => &self.icmpv6_packets,
            Protocol::Http => &self.http_packets,
            Protocol::Tls => &self.tls_packets,
            Protocol::Ipv4 => &self.ipv4_packets,
            Protocol::Ipv6 => &self.ipv6_packets,
            Protocol::Arp => &self.arp_packets,
            Protocol::Dns => &self.dns_packets,
        }
    }
}

} // verus!
