//! Per-flow statistics: the key that identifies a flow, what is accumulated
//! for it, and the aggregator that a report generation empties.

use crate::keyed::{KeyedStore, StoreKey};
use crate::packet::{PacketView, ParsedPacket};
use vstd::prelude::*;

verus! {

/// The decimal digit `d` as a character.
pub open spec fn digit_char(d: nat) -> char {
    if d == 0 {
        '0'
    } else if d == 1 {
        '1'
    } else if d == 2 {
        '2'
    } else if d == 3 {
        '3'
    } else if d == 4 {
        '4'
    } else if d == 5 {
        '5'
    } else if d == 6 {
        '6'
    } else if d == 7 {
        '7'
    } else if d == 8 {
        '8'
    } else {
        '9'
    }
}

/// The decimal notation of `n`, without leading zeros.
pub open spec fn decimal(n: nat) -> Seq<char>
    decreases n,
{
    if n < 10 {
        seq![digit_char(n)]
    } else {
        decimal(n / 10).push(digit_char(n % 10))
    }
}

/// What stands in a flow key for a layer that the packet does not have.
pub open spec fn absent_text() -> Seq<char> {
    seq!['-']
}

/// An optional address as it stands in a flow key.
pub open spec fn address_or_absent(address: Option<Seq<char>>) -> Seq<char> {
    match address {
        Some(text) => text,
        None => absent_text(),
    }
}

/// An optional port as it stands in a flow key.
pub open spec fn port_or_absent(port: Option<u16>) -> Seq<char> {
    match port {
        Some(number) => decimal(number as nat),
        None => absent_text(),
    }
}

/// A flow key in contracts.
pub struct FlowKeyView {
    pub network_source: Seq<char>,
    pub network_destination: Seq<char>,
    pub transport_source: Seq<char>,
    pub transport_destination: Seq<char>,
}

/// The key of a directional flow: network and transport addresses of its
/// source and of its destination, `-` for a layer that is absent.
#[derive(Debug, Clone, PartialEq, Eq, Hash)]
pub struct SourceDestination {
    pub network_source: String,
    pub network_destination: String,
    pub transport_source: String,
    pub transport_destination: String,
}

impl View for SourceDestination {
    type V = FlowKeyView;

    open spec fn view(&self) -> FlowKeyView {
        FlowKeyView {
            network_source: self.network_source@,
            network_destination: self.network_destination@,
            transport_source: self.transport_source@,
            transport_destination: self.transport_destination@,
        }
    }
}

impl SourceDestination {
    /// The key made of the four given texts.
    pub fn new(
        network_source: String,
        network_destination: String,
        transport_source: String,
        transport_destination: String,
    ) -> (key: SourceDestination)
        ensures
            key@ == (FlowKeyView {
                network_source: network_source@,
                network_destination: network_destination@,
                transport_source: transport_source@,
                transport_destination: transport_destination@,
            }),
    {
        SourceDestination {
            network_source,
            network_destination,
            transport_source,
            transport_destination,
        }
    }
}

impl StoreKey for SourceDestination {
    fn same_key(&self, other: &Self) -> (same: bool) {
        self.network_source == other.network_source && self.network_destination
            == other.network_destination && self.transport_source == other.transport_source
            && self.transport_destination == other.transport_destination
    }

    fn copy_key(&self) -> (copy: Self) {
        SourceDestination {
            network_source: self.network_source.clone(),
            network_destination: self.network_destination.clone(),
            transport_source: self.transport_source.clone(),
            transport_destination: self.transport_destination.clone(),
        }
    }
}

/// The flow to which a packet belongs.
pub open spec fn flow_key_of(packet: PacketView) -> FlowKeyView {
    FlowKeyView {
        network_source: address_or_absent(packet.source_ip),
        network_destination: address_or_absent(packet.dest_ip),
        transport_source: port_or_absent(packet.source_port),
        transport_destination: port_or_absent(packet.dest_port),
    }
}

/// The protocol tags that a packet adds to its flow: the transport and
/// application protocols recognised in it, in a fixed order.
pub open spec fn flow_protocols_of(packet: PacketView) -> Seq<Seq<char>> {
    let flags = packet.protocols;
    let none = Seq::<Seq<char>>::empty();
    (if flags.tcp { seq!["TCP"@] } else { none })
    + (if flags.udp { seq!["UDP"@] } else { none })
    + (if flags.icmp { seq!["ICMP"@] } else { none })
    + (if flags.icmpv6 { seq!["ICMPv6"@] } else { none })
    + (if flags.dns { seq!["DNS"@] } else { none })
    + (if flags.http { seq!["HTTP"@] } else { none })
    + (if flags.tls { seq!["TLS"@] } else { none })
}

/// The characters of each string of a list.
pub open spec fn texts_of(list: Seq<String>) -> Seq<Seq<char>> {
    list.map_values(|text: String| text@)
}

fn digit_text(d: u16) -> (text: &'static str)
    requires
        d < 10,
    ensures
        text@ == seq![digit_char(d as nat)],
{
    proof {
        reveal_strlit("0");
        reveal_strlit("1");
        reveal_strlit("2");
        reveal_strlit("3");
        reveal_strlit("4");
        reveal_strlit("5");
        reveal_strlit("6");
        reveal_strlit("7");
        reveal_strlit("8");
        reveal_strlit("9");
    }
    let text = if d == 0 {
        "0"
    } else if d == 1 {
        "1"
    } else if d == 2 {
        "2"
    } else if d == 3 {
        "3"
    } else if d == 4 {
        "4"
    } else if d == 5 {
        "5"
    } else if d == 6 {
        "6"
    } else if d == 7 {
        "7"
    } else if d == 8 {
        "8"
    } else {
        "9"
    };
    assert(text@ =~= seq![digit_char(d as nat)]);
    text
}

/// The decimal notation of a port number.
pub fn port_text(port: u16) -> (text: String)
    ensures
        text@ == decimal(port as nat),
    decreases port,
{
    if port < 10 {
        digit_text(port).to_owned()
    } else {
        let mut text = port_text(port / 10);
        text.append(digit_text(port % 10));
        assert(text@ =~= decimal(port as nat));
        text
    }
}

fn absent() -> (text: String)
    ensures
        text@ == absent_text(),
{
    proof {
        reveal_strlit("-");
    }
    let text = "-".to_owned();
    assert(text@ =~= absent_text());
    text
}

fn address_text(address: &Option<String>) -> (text: String)
    ensures
        text@ == address_or_absent(crate::packet::text_of(*address)),
{
    match address {
        Some(known) => known.clone(),
        None => absent(),
    }
}

fn optional_port_text(port: Option<u16>) -> (text: String)
    ensures
        text@ == port_or_absent(port),
{
    match port {
        Some(number) => port_text(number),
        None => absent(),
    }
}

fn push_tag(tags: &mut Vec<String>, present: bool, name: &str)
    ensures
        texts_of(final(tags)@) == texts_of(old(tags)@) + (if present {
            seq![name@]
        } else {
            Seq::<Seq<char>>::empty()
        }),
{
    if present {
        tags.push(name.to_owned());
    }
    assert(texts_of(tags@) =~= texts_of(old(tags)@) + (if present {
        seq![name@]
    } else {
        Seq::<Seq<char>>::empty()
    }));
}

/// The flow to which `packet` belongs and the protocol tags that it adds to
/// that flow.
pub fn get_sender_receiver(packet: &ParsedPacket) -> (flow: (SourceDestination, Vec<String>))
    ensures
        flow.0@ == flow_key_of(packet@),
        texts_of(flow.1@) == flow_protocols_of(packet@),
{
    let key = SourceDestination::new(
        address_text(&packet.source_ip),
        address_text(&packet.dest_ip),
        optional_port_text(packet.source_port),
        optional_port_text(packet.dest_port),
    );
    let mut tags: Vec<String> = Vec::new();
    assert(texts_of(tags@) =~= Seq::<Seq<char>>::empty());
    push_tag(&mut tags, packet.protocols.tcp, "TCP");
    push_tag(&mut tags, packet.protocols.udp, "UDP");
    push_tag(&mut tags, packet.protocols.icmp, "ICMP");
    push_tag(&mut tags, packet.protocols.icmpv6, "ICMPv6");
    push_tag(&mut tags, packet.protocols.dns, "DNS");
    push_tag(&mut tags, packet.protocols.http, "HTTP");
    push_tag(&mut tags, packet.protocols.tls, "TLS");
    assert(texts_of(tags@) =~= flow_protocols_of(packet@));
    (key, tags)
}

/// The tags of `known` followed by each tag of `incoming` that was not there
/// yet, in the order of arrival.
pub open spec fn merge_tags(known: Seq<Seq<char>>, incoming: Seq<Seq<char>>) -> Seq<Seq<char>>
    decreases incoming.len(),
{
    if incoming.len() == 0 {
        known
    } else {
        let merged = merge_tags(known, incoming.drop_last());
        if merged.contains(incoming.last()) {
            merged
        } else {
            merged.push(incoming.last())
        }
    }
}

/// Merging adds no duplicate and yields the union of both lists.
pub proof fn lemma_merge_tags(known: Seq<Seq<char>>, incoming: Seq<Seq<char>>)
    requires
        known.no_duplicates(),
    ensures
        merge_tags(known, incoming).no_duplicates(),
        merge_tags(known, incoming).to_set() =~= known.to_set().union(incoming.to_set()),
    decreases incoming.len(),
{
    if incoming.len() > 0 {
        let front = incoming.drop_last();
        let merged = merge_tags(known, front);
        lemma_merge_tags(known, front);
        assert forall|tag: Seq<char>| incoming.to_set().contains(tag) <==> (front.to_set().contains(
            tag,
        ) || tag == incoming.last()) by {
            if incoming.contains(tag) {
                let i = choose|i: int| 0 <= i < incoming.len() && incoming[i] == tag;
                if i < front.len() {
                    assert(front[i] == tag);
                }
            }
            if front.contains(tag) {
                let i = choose|i: int| 0 <= i < front.len() && front[i] == tag;
                assert(incoming[i] == tag);
            }
            assert(incoming[incoming.len() - 1] == incoming.last());
        }
        if !merged.contains(incoming.last()) {
            let longer = merged.push(incoming.last());
            assert forall|tag: Seq<char>| longer.to_set().contains(tag) <==> (merged.to_set().contains(
                tag,
            ) || tag == incoming.last()) by {
                if longer.contains(tag) {
                    let i = choose|i: int| 0 <= i < longer.len() && longer[i] == tag;
                    if i < merged.len() {
                        assert(merged[i] == tag);
                    }
                }
                if merged.contains(tag) {
                    let i = choose|i: int| 0 <= i < merged.len() && merged[i] == tag;
                    assert(longer[i] == tag);
                }
                assert(longer[merged.len() as int] == incoming.last());
            }
        }
    }
}

/// The statistics of a flow in contracts.
pub struct FlowStatsView {
    /// The protocol tags seen on the flow, each once, in the order in which
    /// they were first seen.
    pub protocols: Seq<Seq<char>>,
    pub total_bytes: nat,
    pub packet_count: nat,
    pub first_seen: i64,
    pub last_seen: i64,
}

impl FlowStatsView {
    /// The statistics of a flow after its first packet.
    pub open spec fn first(protocols: Seq<Seq<char>>, bytes: nat, time: i64) -> FlowStatsView {
        FlowStatsView {
            protocols: merge_tags(Seq::empty(), protocols),
            total_bytes: bytes,
            packet_count: 1,
            first_seen: time,
            last_seen: time,
        }
    }

    /// The statistics of a flow after one more packet.
    pub open spec fn add(self, protocols: Seq<Seq<char>>, bytes: nat, time: i64) -> FlowStatsView {
        FlowStatsView {
            protocols: merge_tags(self.protocols, protocols),
            total_bytes: self.total_bytes + bytes,
            packet_count: self.packet_count + 1,
            first_seen: self.first_seen,
            last_seen: time,
        }
    }

    /// Whether one more packet of `bytes` bytes keeps the counters within
    /// 64 bits.
    pub open spec fn fits(self, bytes: nat) -> bool {
        self.total_bytes + bytes <= u64::MAX && self.packet_count < u64::MAX
    }
}

/// What has been accumulated for one flow. Times are milliseconds since the
/// Unix epoch.
#[derive(Debug, PartialEq, Eq)]
pub struct PacketExchange {
    protocols: Vec<String>,
    transmitted_bytes: u64,
    packet_count: u64,
    first_exchange: i64,
    last_exchange: i64,
}

impl View for PacketExchange {
    type V = FlowStatsView;

    closed spec fn view(&self) -> FlowStatsView {
        FlowStatsView {
            protocols: texts_of(self.protocols@),
            total_bytes: self.transmitted_bytes as nat,
            packet_count: self.packet_count as nat,
            first_seen: self.first_exchange,
            last_seen: self.last_exchange,
        }
    }
}

fn holds_tag(tags: &Vec<String>, tag: &String) -> (held: bool)
    ensures
        held == texts_of(tags@).contains(tag@),
{
    let mut i: usize = 0;
    while i < tags.len()
        invariant
            i <= tags.len(),
            forall|j: int| 0 <= j < i ==> texts_of(tags@)[j] != tag@,
        decreases tags.len() - i,
    {
        if tags[i] == *tag {
            assert(texts_of(tags@)[i as int] == tag@);
            return true;
        }
        i += 1;
    }
    false
}

fn merge_into(known: &mut Vec<String>, incoming: Vec<String>)
    ensures
        texts_of(final(known)@) == merge_tags(texts_of(old(known)@), texts_of(incoming@)),
{
    let ghost start = texts_of(known@);
    let ghost all = texts_of(incoming@);
    let mut i: usize = 0;
    assert(all.take(0) =~= Seq::<Seq<char>>::empty());
    while i < incoming.len()
        invariant
            i <= incoming.len(),
            all == texts_of(incoming@),
            texts_of(known@) == merge_tags(start, all.take(i as int)),
        decreases incoming.len() - i,
    {
        proof {
            assert(all.take(i + 1).drop_last() =~= all.take(i as int));
            assert(all.take(i + 1).last() == incoming@[i as int]@);
        }
        if !holds_tag(known, &incoming[i]) {
            let ghost before = texts_of(known@);
            known.push(incoming[i].clone());
            assert(texts_of(known@) =~= before.push(incoming@[i as int]@));
        }
        i += 1;
    }
    assert(all.take(incoming.len() as int) =~= all);
}

impl PacketExchange {
    /// The tags are kept once each and the flow has seen at least one
    /// packet. Statistics are in this state whenever executable code holds
    /// them.
    #[verifier::type_invariant]
    pub closed spec fn wf(&self) -> bool {
        &&& texts_of(self.protocols@).no_duplicates()
        &&& self.packet_count >= 1
    }

    /// In a well-formed value no tag occurs twice and at least one packet
    /// was counted.
    pub proof fn lemma_wf(&self)
        requires
            self.wf(),
        ensures
            self@.protocols.no_duplicates(),
            self@.packet_count >= 1,
            self@.total_bytes <= u64::MAX,
            self@.packet_count <= u64::MAX,
    {
    }

    /// The statistics of a flow of which one packet was seen.
    pub fn new(protocols: Vec<String>, transmitted_bytes: u64, exchange_time: i64) -> (stats:
        PacketExchange)
        ensures
            stats@ == FlowStatsView::first(
                texts_of(protocols@),
                transmitted_bytes as nat,
                exchange_time,
            ),
    {
        let mut tags: Vec<String> = Vec::new();
        assert(texts_of(tags@) =~= Seq::<Seq<char>>::empty());
        merge_into(&mut tags, protocols);
        proof {
            lemma_merge_tags(Seq::empty(), texts_of(protocols@));
            assert(Seq::<Seq<char>>::empty().no_duplicates());
        }
        PacketExchange {
            protocols: tags,
            transmitted_bytes,
            packet_count: 1,
            first_exchange: exchange_time,
            last_exchange: exchange_time,
        }
    }

    /// Whether one more packet of `transmitted_bytes` bytes keeps the
    /// counters within 64 bits.
    pub fn fits(&self, transmitted_bytes: u64) -> (ok: bool)
        ensures
            ok == self@.fits(transmitted_bytes as nat),
    {
        self.packet_count < u64::MAX && transmitted_bytes <= u64::MAX - self.transmitted_bytes
    }

    /// Counts one more packet: its tags join the set, its bytes the total,
    /// and its time becomes the time last seen.
    pub fn add_packet(&mut self, protocols: Vec<String>, transmitted_bytes: u64, exchange_time: i64)
        requires
            old(self)@.fits(transmitted_bytes as nat),
        ensures
            final(self)@ == old(self)@.add(
                texts_of(protocols@),
                transmitted_bytes as nat,
                exchange_time,
            ),
    {
        proof {
            use_type_invariant(&*self);
            lemma_merge_tags(texts_of(self.protocols@), texts_of(protocols@));
        }
        let mut tags: Vec<String> = Vec::new();
        assert(texts_of(tags@) =~= Seq::<Seq<char>>::empty());
        std::mem::swap(&mut self.protocols, &mut tags);
        merge_into(&mut tags, protocols);
        self.protocols = tags;
        self.transmitted_bytes = self.transmitted_bytes + transmitted_bytes;
        self.packet_count = self.packet_count + 1;
        self.last_exchange = exchange_time;
    }

    /// The protocol tags seen on the flow, each once.
    pub fn protocols(&self) -> (tags: &Vec<String>)
        ensures
            texts_of(tags@) == self@.protocols,
            texts_of(tags@).no_duplicates(),
    {
        proof {
            use_type_invariant(self);
        }
        &self.protocols
    }

    /// The bytes transmitted on the flow.
    pub fn total_bytes(&self) -> (bytes: u64)
        ensures
            bytes == self@.total_bytes,
    {
        self.transmitted_bytes
    }

    /// The number of packets seen on the flow: at least one.
    pub fn packet_count(&self) -> (count: u64)
        ensures
            count == self@.packet_count,
            count >= 1,
    {
        proof {
            use_type_invariant(self);
        }
        self.packet_count
    }

    /// When the first packet of the flow was seen.
    pub fn first_seen(&self) -> (time: i64)
        ensures
            time == self@.first_seen,
    {
        self.first_exchange
    }

    /// When the latest packet of the flow was seen.
    pub fn last_seen(&self) -> (time: i64)
        ensures
            time == self@.last_seen,
    {
        self.last_exchange
    }
}

} // verus!
