//! The flow aggregator: cumulative statistics per flow, handed out whole and
//! reset by each report generation.

use crate::flow::{
    lemma_merge_tags, texts_of, FlowKeyView, FlowStatsView, PacketExchange, SourceDestination,
};
use crate::keyed::KeyedStore;
use vstd::prelude::*;

verus! {

/// Whether a packet of `bytes` bytes can be recorded for `key` with every
/// counter staying within 64 bits.
pub open spec fn record_fits(
    flows: Map<FlowKeyView, FlowStatsView>,
    key: FlowKeyView,
    bytes: nat,
) -> bool {
    if flows.contains_key(key) {
        flows[key].fits(bytes)
    } else {
        bytes <= u64::MAX
    }
}

/// The flows after one more packet was recorded for `key`.
pub open spec fn record_spec(
    flows: Map<FlowKeyView, FlowStatsView>,
    key: FlowKeyView,
    protocols: Seq<Seq<char>>,
    bytes: nat,
    time: i64,
) -> Map<FlowKeyView, FlowStatsView> {
    if flows.contains_key(key) {
        flows.insert(key, flows[key].add(protocols, bytes, time))
    } else {
        flows.insert(key, FlowStatsView::first(protocols, bytes, time))
    }
}

/// The order of the flows after one more packet was recorded for `key`: a
/// new flow goes last.
pub open spec fn record_order(order: Seq<FlowKeyView>, key: FlowKeyView) -> Seq<FlowKeyView> {
    if order.contains(key) {
        order
    } else {
        order.push(key)
    }
}

/// Cumulative statistics of every flow seen since the aggregator was last
/// emptied.
pub struct FlowAggregator {
    flows: KeyedStore<SourceDestination, PacketExchange>,
}

impl View for FlowAggregator {
    type V = Map<FlowKeyView, FlowStatsView>;

    /// Each flow with its statistics.
    closed spec fn view(&self) -> Map<FlowKeyView, FlowStatsView> {
        Map::new(
            |key: FlowKeyView| self.flows@.contains_key(key),
            |key: FlowKeyView| self.flows@[key]@,
        )
    }
}

impl FlowAggregator {
    /// The flows in the order in which they were first seen.
    pub closed spec fn order(&self) -> Seq<FlowKeyView> {
        self.flows.order()
    }

    /// No flow occurs twice and the statistics of each are well formed. An
    /// aggregator is in this state whenever executable code holds it.
    #[verifier::type_invariant]
    pub closed spec fn wf(&self) -> bool {
        &&& self.flows.wf()
        &&& forall|i: int|
            0 <= i < self.flows.entries().len() ==> (#[trigger] self.flows.entries()[i]).wf()
    }

    /// The map holds exactly the flows of `order`, each once, with counters
    /// that fit in 64 bits and tags that occur once each.
    pub proof fn lemma_wf(&self)
        requires
            self.wf(),
        ensures
            self.order().no_duplicates(),
            self@.dom() =~= self.order().to_set(),
            self@.dom().finite(),
            self@.len() == self.order().len(),
            forall|key: FlowKeyView| #[trigger]
                self@.contains_key(key) ==> self@[key].protocols.no_duplicates()
                    && self@[key].packet_count >= 1 && self@[key].total_bytes <= u64::MAX
                    && self@[key].packet_count <= u64::MAX,
    {
        self.flows.lemma_view();
        assert(self@.dom() =~= self.flows@.dom());
        assert forall|key: FlowKeyView| #[trigger] self@.contains_key(key) implies self@[key]
            .protocols.no_duplicates() && self@[key].packet_count >= 1 && self@[key].total_bytes
            <= u64::MAX && self@[key].packet_count <= u64::MAX by {
            let i = self.flows.order().index_of(key);
            assert(0 <= i < self.flows.order().len() && self.flows.order()[i] == key);
            assert(self.flows.entries()[i].wf());
            self.flows.entries()[i].lemma_wf();
        }
    }

    /// An aggregator without flows.
    pub fn new() -> (flows: FlowAggregator)
        ensures
            flows@ == Map::<FlowKeyView, FlowStatsView>::empty(),
            flows.order() == Seq::<FlowKeyView>::empty(),
    {
        let store: KeyedStore<SourceDestination, PacketExchange> = KeyedStore::new();
        proof {
            use_type_invariant(&store);
            let ghost made = FlowAggregator { flows: store };
            assert(made@ =~= Map::<FlowKeyView, FlowStatsView>::empty());
        }
        FlowAggregator { flows: store }
    }

    /// The number of flows.
    pub fn len(&self) -> (count: usize)
        ensures
            count == self@.len(),
            count == self.order().len(),
    {
        proof {
            use_type_invariant(self);
            self.lemma_wf();
        }
        self.flows.len()
    }

    /// Whether no flow was recorded.
    pub fn is_empty(&self) -> (empty: bool)
        ensures
            empty == (self@ == Map::<FlowKeyView, FlowStatsView>::empty()),
            empty == (self.order().len() == 0),
    {
        let empty = self.flows.is_empty();
        proof {
            use_type_invariant(self);
            if empty {
                assert(self@ =~= Map::<FlowKeyView, FlowStatsView>::empty());
            } else {
                self.flows.lemma_view();
                assert(self@.contains_key(self.flows.order()[0]));
            }
        }
        empty
    }

    /// The statistics of the flow `key`, if it was seen.
    pub fn get(&self, key: &SourceDestination) -> (stats: Option<&PacketExchange>)
        ensures
            stats is Some <==> self@.contains_key(key@),
            stats is Some ==> stats->0@ == self@[key@],
    {
        proof {
            use_type_invariant(self);
        }
        let found = self.flows.position(key);
        match found {
            Some(i) => {
                proof {
                    self.flows.lemma_view();
                }
                Some(self.flows.value_at(i))
            },
            None => None,
        }
    }

    /// The flow at position `i` of the order of first appearance.
    pub fn flow_at(&self, i: usize) -> (flow: (&SourceDestination, &PacketExchange))
        requires
            i < self.order().len(),
        ensures
            flow.0@ == self.order()[i as int],
            flow.1@ == self@[self.order()[i as int]],
    {
        proof {
            use_type_invariant(self);
            self.flows.lemma_view();
        }
        (self.flows.key_at(i), self.flows.value_at(i))
    }

    /// Whether a packet of `bytes` bytes can be recorded for `key` with
    /// every counter staying within 64 bits.
    pub fn can_record(&self, key: &SourceDestination, bytes: u64) -> (ok: bool)
        ensures
            ok == record_fits(self@, key@, bytes as nat),
    {
        match self.get(key) {
            Some(stats) => stats.fits(bytes),
            None => true,
        }
    }

    /// Records one packet of the flow `key`: creates the flow on its first
    /// packet, else adds the tags, the bytes and the time to what is there.
    pub fn record(
        &mut self,
        key: SourceDestination,
        protocols: Vec<String>,
        bytes: u64,
        time: i64,
    )
        requires
            record_fits(old(self)@, key@, bytes as nat),
        ensures
            final(self)@ == record_spec(
                old(self)@,
                key@,
                texts_of(protocols@),
                bytes as nat,
                time,
            ),
            final(self).order() == record_order(old(self).order(), key@),
    {
        proof {
            use_type_invariant(&*self);
        }
        let ghost before = *self;
        let ghost tags = texts_of(protocols@);
        let mut store: KeyedStore<SourceDestination, PacketExchange> = KeyedStore::new();
        proof {
            use_type_invariant(&store);
        }
        std::mem::swap(&mut self.flows, &mut store);
        proof {
            store.lemma_view();
        }
        match store.position(&key) {
            Some(i) => {
                let placeholder = PacketExchange::new(Vec::new(), 0, time);
                let mut stats = store.replace_at(i, placeholder);
                assert(stats == before.flows.entries()[i as int]);
                stats.add_packet(protocols, bytes, time);
                proof {
                    use_type_invariant(&stats);
                }
                let _ = store.replace_at(i, stats);
                proof {
                    use_type_invariant(&store);
                    assert(store.entries() =~= before.flows.entries().update(i as int, stats));
                    assert(store@ =~= before.flows@.insert(key@, stats));
                }
            },
            None => {
                let stats = PacketExchange::new(protocols, bytes, time);
                proof {
                    use_type_invariant(&stats);
                }
                store.push_new(key, stats);
                proof {
                    use_type_invariant(&store);
                }
            },
        }
        self.flows = store;
        assert(self@ =~= record_spec(before@, key@, tags, bytes as nat, time));
    }

    /// Hands back everything that was accumulated and leaves the aggregator
    /// empty.
    pub fn drain(&mut self) -> (drained: FlowAggregator)
        ensures
            drained == *old(self),
            drained@ == old(self)@,
            drained.order() == old(self).order(),
            final(self)@ == Map::<FlowKeyView, FlowStatsView>::empty(),
            final(self).order() == Seq::<FlowKeyView>::empty(),
    {
        let mut drained = FlowAggregator::new();
        std::mem::swap(self, &mut drained);
        drained
    }
}

/// A drain that follows a drain at once hands back nothing: no flow is
/// delivered to two reports. `first` and `between` are what the first drain
/// hands back and leaves of an aggregator that held `before`; `second` and
/// `after` are what the second drain hands back and leaves.
pub proof fn lemma_second_drain_is_empty(
    before: Map<FlowKeyView, FlowStatsView>,
    first: Map<FlowKeyView, FlowStatsView>,
    between: Map<FlowKeyView, FlowStatsView>,
    second: Map<FlowKeyView, FlowStatsView>,
    after: Map<FlowKeyView, FlowStatsView>,
)
    requires
        first == before,
        between == Map::<FlowKeyView, FlowStatsView>::empty(),
        second == between,
        after == Map::<FlowKeyView, FlowStatsView>::empty(),
    ensures
        second == Map::<FlowKeyView, FlowStatsView>::empty(),
{
}

/// One recorded packet: its flow, its protocol tags, its bytes and the time
/// at which it was seen.
pub struct Observation {
    pub key: FlowKeyView,
    pub protocols: Seq<Seq<char>>,
    pub bytes: nat,
    pub time: i64,
}

/// The flows of an aggregator that was empty and then recorded
/// `observations`, one after the other.
pub open spec fn aggregate(observations: Seq<Observation>) -> Map<FlowKeyView, FlowStatsView>
    decreases observations.len(),
{
    if observations.len() == 0 {
        Map::empty()
    } else {
        let last = observations.last();
        record_spec(
            aggregate(observations.drop_last()),
            last.key,
            last.protocols,
            last.bytes,
            last.time,
        )
    }
}

/// How many of `observations` belong to the flow `key`.
pub open spec fn packets_of(observations: Seq<Observation>, key: FlowKeyView) -> nat
    decreases observations.len(),
{
    if observations.len() == 0 {
        0
    } else {
        let earlier = packets_of(observations.drop_last(), key);
        if observations.last().key == key {
            earlier + 1
        } else {
            earlier
        }
    }
}

/// The sum of the bytes of those of `observations` that belong to the flow
/// `key`.
pub open spec fn bytes_of(observations: Seq<Observation>, key: FlowKeyView) -> nat
    decreases observations.len(),
{
    if observations.len() == 0 {
        0
    } else {
        let earlier = bytes_of(observations.drop_last(), key);
        if observations.last().key == key {
            earlier + observations.last().bytes
        } else {
            earlier
        }
    }
}

/// The union of the protocol tags of those of `observations` that belong to
/// the flow `key`.
pub open spec fn tags_of(observations: Seq<Observation>, key: FlowKeyView) -> Set<Seq<char>>
    decreases observations.len(),
{
    if observations.len() == 0 {
        Set::empty()
    } else {
        let earlier = tags_of(observations.drop_last(), key);
        if observations.last().key == key {
            earlier.union(observations.last().protocols.to_set())
        } else {
            earlier
        }
    }
}

/// After any sequence of recorded packets, the aggregator holds a flow if
/// and only if one of the packets belonged to it; the flow's byte total is
/// the sum of the bytes of its packets, its packet count is their number,
/// and its protocol tags are the union of theirs, each tag once.
pub proof fn lemma_aggregate_totals(observations: Seq<Observation>, key: FlowKeyView)
    ensures
        aggregate(observations).contains_key(key) <==> packets_of(observations, key) > 0,
        aggregate(observations).contains_key(key) ==> {
            let stats = aggregate(observations)[key];
            &&& stats.total_bytes == bytes_of(observations, key)
            &&& stats.packet_count == packets_of(observations, key)
            &&& stats.protocols.to_set() =~= tags_of(observations, key)
            &&& stats.protocols.no_duplicates()
        },
    decreases observations.len(),
{
    if observations.len() > 0 {
        let earlier = observations.drop_last();
        let last = observations.last();
        lemma_aggregate_totals(earlier, key);
        if last.key == key {
            if aggregate(earlier).contains_key(key) {
                lemma_merge_tags(aggregate(earlier)[key].protocols, last.protocols);
            } else {
                lemma_merge_tags(Seq::empty(), last.protocols);
                assert(Seq::<Seq<char>>::empty().to_set() =~= Set::<Seq<char>>::empty());
                lemma_no_packets_no_tags(earlier, key);
            }
        }
    }
}

/// A flow to which no packet belonged has no protocol tag and no byte.
pub proof fn lemma_no_packets_no_tags(observations: Seq<Observation>, key: FlowKeyView)
    requires
        packets_of(observations, key) == 0,
    ensures
        tags_of(observations, key) =~= Set::<Seq<char>>::empty(),
        bytes_of(observations, key) == 0,
    decreases observations.len(),
{
    if observations.len() > 0 {
        lemma_no_packets_no_tags(observations.drop_last(), key);
    }
}

} // verus!
