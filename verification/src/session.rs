//! The session: which interface is selected, the sequence number of the next
//! packet, and the steps of the lifecycle that need no capture handle:
//! selection, the start of a capture and the capture of one packet.

use crate::aggregator::{record_fits, record_order, record_spec, FlowAggregator};
use crate::error::{
    failed_channel_text, interface_not_found_text, start_without_selection_text,
    unhandled_channel_text, ErrorView, SniffingError,
};
use crate::flow::{flow_key_of, flow_protocols_of, get_sender_receiver, FlowKeyView, FlowStatsView};
use crate::packet::{PacketView, ParsedPacket, ETHERNET_HEADER_LENGTH};
use crate::store::PacketsCollection;
use vstd::prelude::*;

verus! {

/// A network interface on which a capture can run: the name by which the
/// user selects it and the index under which the operating system knows it.
#[derive(Debug, Clone, PartialEq, Eq)]
pub struct Interface {
    pub name: String,
    pub index: u32,
}

/// An interface in contracts.
pub struct InterfaceView {
    pub name: Seq<char>,
    pub index: u32,
}

impl View for Interface {
    type V = InterfaceView;

    open spec fn view(&self) -> InterfaceView {
        InterfaceView { name: self.name@, index: self.index }
    }
}

impl Interface {
    /// A second copy of the interface.
    pub fn duplicate(&self) -> (copy: Interface)
        ensures
            copy@ == self@,
    {
        Interface { name: self.name.clone(), index: self.index }
    }
}

/// The views of a list of interfaces.
pub open spec fn interfaces_of(list: Seq<Interface>) -> Seq<InterfaceView> {
    list.map_values(|interface: Interface| interface@)
}

/// The names of the given interfaces, in their order.
pub fn get_interfaces_list(interfaces: &Vec<Interface>) -> (names: Vec<String>)
    ensures
        names.len() == interfaces.len(),
        forall|i: int| 0 <= i < names.len() ==> names@[i]@ == #[trigger] interfaces@[i].name@,
{
    let mut names: Vec<String> = Vec::new();
    let mut i: usize = 0;
    while i < interfaces.len()
        invariant
            i <= interfaces.len(),
            names.len() == i,
            forall|j: int| 0 <= j < i ==> names@[j]@ == #[trigger] interfaces@[j].name@,
        decreases interfaces.len() - i,
    {
        names.push(interfaces[i].name.clone());
        i += 1;
    }
    names
}

/// Whether the interface at `position` is the first of `interfaces` that is
/// called `name`.
pub open spec fn is_first_named(interfaces: Seq<InterfaceView>, name: Seq<char>, position: int) -> bool {
    &&& 0 <= position < interfaces.len()
    &&& interfaces[position].name == name
    &&& forall|earlier: int| 0 <= earlier < position ==> interfaces[earlier].name != name
}

/// Whether some interface of `interfaces` is called `name`.
pub open spec fn some_named(interfaces: Seq<InterfaceView>, name: Seq<char>) -> bool {
    exists|position: int| 0 <= position < interfaces.len() && interfaces[position].name == name
}

/// The session information in contracts.
pub struct SniffingInfoView {
    pub interface_name: Option<Seq<char>>,
    pub interface: Option<InterfaceView>,
    pub counter: u64,
}

/// The selected interface and the sequence number that the next captured
/// packet gets.
#[derive(Debug)]
pub struct SniffingInfo {
    interface_name: Option<String>,
    interface: Option<Interface>,
    counter: u64,
}

impl View for SniffingInfo {
    type V = SniffingInfoView;

    closed spec fn view(&self) -> SniffingInfoView {
        SniffingInfoView {
            interface_name: match self.interface_name {
                Some(name) => Some(name@),
                None => None,
            },
            interface: match self.interface {
                Some(interface) => Some(interface@),
                None => None,
            },
            counter: self.counter,
        }
    }
}

impl SniffingInfo {
    /// No interface selected, and the next packet is packet 0.
    pub fn new() -> (info: SniffingInfo)
        ensures
            info@ == (SniffingInfoView { interface_name: None, interface: None, counter: 0 }),
    {
        SniffingInfo { interface_name: None, interface: None, counter: 0 }
    }

    /// The name of the selected interface.
    pub fn interface_name(&self) -> (name: Option<&String>)
        ensures
            name is Some <==> self@.interface_name is Some,
            name is Some ==> name->0@ == self@.interface_name->0,
    {
        self.interface_name.as_ref()
    }

    /// The selected interface.
    pub fn interface(&self) -> (interface: Option<&Interface>)
        ensures
            interface is Some <==> self@.interface is Some,
            interface is Some ==> interface->0@ == self@.interface->0,
    {
        self.interface.as_ref()
    }

    /// The sequence number that the next captured packet gets.
    pub fn counter(&self) -> (counter: u64)
        ensures
            counter == self@.counter,
    {
        self.counter
    }

    /// Sets the sequence number of the next packet back to 0.
    pub fn reset_counter(&mut self)
        ensures
            final(self)@ == (SniffingInfoView { counter: 0, ..old(self)@ }),
    {
        self.counter = 0;
    }
}

/// Selects, among `interfaces`, the first one called `interface_name`, in
/// place of any earlier selection. Where none has that name the selection
/// stays as it was and the error is `InterfaceNotFound`.
pub fn select_interface(
    info: &mut SniffingInfo,
    interfaces: &Vec<Interface>,
    interface_name: String,
) -> (result: Result<(), SniffingError>)
    ensures
        result is Ok <==> some_named(interfaces_of(interfaces@), interface_name@),
        result is Ok ==> exists|position: int|
            is_first_named(interfaces_of(interfaces@), interface_name@, position) && final(info)@
                == (SniffingInfoView {
                interface_name: Some(interface_name@),
                interface: Some(#[trigger] interfaces_of(interfaces@)[position]),
                counter: old(info)@.counter,
            }),
        result is Err ==> *final(info) == *old(info) && result->Err_0@
            == ErrorView::InterfaceNotFound(interface_not_found_text()),
{
    let mut i: usize = 0;
    while i < interfaces.len()
        invariant
            i <= interfaces.len(),
            *info == *old(info),
            forall|earlier: int|
                0 <= earlier < i ==> interfaces_of(interfaces@)[earlier].name != interface_name@,
        decreases interfaces.len() - i,
    {
        if interfaces[i].name == interface_name {
            info.interface = Some(interfaces[i].duplicate());
            info.interface_name = Some(interface_name);
            assert(is_first_named(interfaces_of(interfaces@), interface_name@, i as int));
            return Ok(());
        }
        i += 1;
    }
    Err(SniffingError::interface_not_found())
}

/// The message of a start that found a selected name without its interface.
pub open spec fn start_without_interface_text() -> Seq<char> {
    "Start sniffing without prior selection of the interface"@
}

/// The packets of the store once a start was accepted: all of them after a
/// resume, none after a fresh start.
pub open spec fn store_after_start(packets: Seq<PacketView>, is_resume: bool) -> Seq<PacketView> {
    if is_resume {
        packets
    } else {
        Seq::empty()
    }
}

/// Begins a capture on the selected interface and hands that interface
/// back, for the capture channel to be opened on it. A start that is no
/// resume empties the packet store first. Without a selection nothing
/// changes and the error is `StartSniffingWithoutInterfaceSelection`.
pub fn start_sniffing(is_resume: bool, info: &SniffingInfo, packets: &mut PacketsCollection) -> (result:
    Result<Interface, SniffingError>)
    ensures
        result is Ok <==> info@.interface_name is Some && info@.interface is Some,
        result is Ok ==> result->Ok_0@ == info@.interface->0 && final(packets)@
            == store_after_start(old(packets)@, is_resume),
        result is Err ==> final(packets)@ == old(packets)@,
        info@.interface_name is None ==> result->Err_0@
            == ErrorView::StartSniffingWithoutInterfaceSelection(start_without_selection_text()),
        info@.interface_name is Some && info@.interface is None ==> result->Err_0@
            == ErrorView::StartSniffingWithoutInterfaceSelection(start_without_interface_text()),
{
    if info.interface_name.is_none() {
        return Err(SniffingError::start_without_selection());
    }
    let interface = match &info.interface {
        Some(interface) => interface.duplicate(),
        None => {
            return Err(
                SniffingError::StartSniffingWithoutInterfaceSelection(
                    "Start sniffing without prior selection of the interface".to_owned(),
                ),
            );
        },
    };
    if !is_resume {
        packets.clear();
    }
    Ok(interface)
}

/// How the attempt to open the capture channel ended.
#[derive(Debug, Clone, Copy, PartialEq, Eq, Structural)]
pub enum ChannelOutcome {
    /// A layer-2 channel was opened.
    Ethernet,
    /// A channel of another kind was opened.
    Unhandled,
    /// No channel could be opened.
    Failed,
}

/// The fixed configuration of a capture channel.
#[derive(Debug, Clone, Copy, PartialEq, Eq, Structural)]
pub struct CaptureConfig {
    pub write_buffer_size: usize,
    pub read_buffer_size: usize,
    /// No timeout where `None`.
    pub read_timeout_millis: Option<u64>,
    /// No timeout where `None`.
    pub write_timeout_millis: Option<u64>,
    /// Frames are read at the link layer.
    pub layer2: bool,
    pub bpf_fd_attempts: usize,
    pub promiscuous: bool,
}

/// The configuration with which every capture channel is opened: layer-2
/// framing, promiscuous mode, buffers of 16384 bytes and no timeout.
pub fn capture_config() -> (config: CaptureConfig)
    ensures
        config == (CaptureConfig {
            write_buffer_size: 16384,
            read_buffer_size: 16384,
            read_timeout_millis: None,
            write_timeout_millis: None,
            layer2: true,
            bpf_fd_attempts: 1000,
            promiscuous: true,
        }),
{
    CaptureConfig {
        write_buffer_size: 16384,
        read_buffer_size: 16384,
        read_timeout_millis: None,
        write_timeout_millis: None,
        layer2: true,
        bpf_fd_attempts: 1000,
        promiscuous: true,
    }
}

/// What the start of a capture returns for each way in which the opening of
/// the channel can end.
pub fn channel_result(outcome: ChannelOutcome) -> (result: Result<(), SniffingError>)
    ensures
        result is Ok <==> outcome == ChannelOutcome::Ethernet,
        outcome == ChannelOutcome::Unhandled ==> result->Err_0@ == ErrorView::UnhandledChannelType(
            unhandled_channel_text(),
        ),
        outcome == ChannelOutcome::Failed ==> result->Err_0@ == ErrorView::FailedChannelCreation(
            failed_channel_text(),
        ),
{
    match outcome {
        ChannelOutcome::Ethernet => Ok(()),
        ChannelOutcome::Unhandled => Err(SniffingError::unhandled_channel_type()),
        ChannelOutcome::Failed => Err(SniffingError::failed_channel_creation()),
    }
}

/// Whether `packet` can be captured with every counter staying within 64
/// bits: the sequence number, and the bytes and packets of its flow.
pub open spec fn capture_fits(
    info: SniffingInfoView,
    flows: Map<FlowKeyView, FlowStatsView>,
    packet: PacketView,
) -> bool {
    &&& info.counter < u64::MAX
    &&& record_fits(flows, flow_key_of(packet), packet.transmitted_bytes())
}

/// The master sequence after `packet` was captured under the sequence
/// number `counter`.
pub open spec fn store_after_capture(
    packets: Seq<PacketView>,
    counter: nat,
    packet: PacketView,
) -> Seq<PacketView> {
    packets.push(packet.with_id(counter as u64))
}

/// The master sequence after the packets of `arrivals` were captured one
/// after the other, the first of them under the sequence number `counter`.
pub open spec fn store_after_captures(
    packets: Seq<PacketView>,
    counter: nat,
    arrivals: Seq<PacketView>,
) -> Seq<PacketView>
    decreases arrivals.len(),
{
    if arrivals.len() == 0 {
        packets
    } else {
        store_after_captures(
            store_after_capture(packets, counter, arrivals[0]),
            counter + 1,
            arrivals.drop_first(),
        )
    }
}

/// Captures only append: the packets that were in the master sequence stay
/// where they were, and each arrival follows them in arrival order, under
/// the sequence number that is `counter` plus its rank among the arrivals.
pub proof fn lemma_captures_append(
    packets: Seq<PacketView>,
    counter: nat,
    arrivals: Seq<PacketView>,
)
    ensures
        store_after_captures(packets, counter, arrivals).len() == packets.len() + arrivals.len(),
        forall|i: int|
            0 <= i < packets.len() ==> #[trigger] store_after_captures(
                packets,
                counter,
                arrivals,
            )[i] == packets[i],
        forall|i: int|
            0 <= i < arrivals.len() ==> store_after_captures(packets, counter, arrivals)[packets.len()
                + i] == (#[trigger] arrivals[i]).with_id((counter + i) as u64),
    decreases arrivals.len(),
{
    if arrivals.len() > 0 {
        let first = store_after_capture(packets, counter, arrivals[0]);
        let rest = arrivals.drop_first();
        let after = store_after_captures(packets, counter, arrivals);
        lemma_captures_append(first, counter + 1, rest);
        assert forall|i: int| 0 <= i < packets.len() implies #[trigger] after[i] == packets[i] by {
            assert(first[i] == packets[i]);
        }
        assert forall|i: int| 0 <= i < arrivals.len() implies after[packets.len() + i] == (
        #[trigger] arrivals[i]).with_id((counter + i) as u64) by {
            if i == 0 {
                assert(after[packets.len() as int] == first[packets.len() as int]);
            } else {
                assert(rest[i - 1] == arrivals[i]);
                assert(after[first.len() + (i - 1)] == rest[i - 1].with_id(
                    (counter + 1 + (i - 1)) as u64,
                ));
            }
        }
    }
}

/// Whether every packet of `packets` has a sequence number below `counter`.
pub open spec fn ids_below(packets: Seq<PacketView>, counter: nat) -> bool {
    forall|i: int| 0 <= i < packets.len() ==> (#[trigger] packets[i]).id < counter
}

/// Whether the sequence numbers grow along `packets`, each greater than the
/// one before.
pub open spec fn ids_ascend(packets: Seq<PacketView>) -> bool {
    forall|i: int, j: int|
        0 <= i < j < packets.len() ==> (#[trigger] packets[i]).id < (#[trigger] packets[j]).id
}

/// Where every stored packet has a sequence number below the counter,
/// captures keep it so: each arrival gets a number greater than every
/// number in the store, the counter ends above them all, and a store whose
/// numbers grew along it still has numbers that grow along it.
pub proof fn lemma_captures_keep_ids_in_order(
    packets: Seq<PacketView>,
    counter: nat,
    arrivals: Seq<PacketView>,
)
    requires
        ids_below(packets, counter),
        counter + arrivals.len() <= u64::MAX,
    ensures
        ids_below(
            store_after_captures(packets, counter, arrivals),
            counter + arrivals.len(),
        ),
        forall|i: int, j: int|
            0 <= i < packets.len() && 0 <= j < arrivals.len() ==> (#[trigger] packets[i]).id < (
            #[trigger] store_after_captures(packets, counter, arrivals)[packets.len() + j]).id,
        ids_ascend(packets) ==> ids_ascend(store_after_captures(packets, counter, arrivals)),
{
    let after = store_after_captures(packets, counter, arrivals);
    lemma_captures_append(packets, counter, arrivals);
    assert forall|k: int| 0 <= k < after.len() implies (#[trigger] after[k]).id < counter
        + arrivals.len() by {
        if k < packets.len() {
            assert(after[k] == packets[k]);
        } else {
            let j = k - packets.len();
            assert(after[packets.len() + j] == arrivals[j].with_id((counter + j) as u64));
        }
    }
    assert forall|i: int, j: int| 0 <= i < packets.len() && 0 <= j < arrivals.len() implies (
    #[trigger] packets[i]).id < (#[trigger] after[packets.len() + j]).id by {
        assert(after[packets.len() + j] == arrivals[j].with_id((counter + j) as u64));
    }
    if ids_ascend(packets) {
        assert forall|i: int, j: int| 0 <= i < j < after.len() implies (#[trigger] after[i]).id < (
        #[trigger] after[j]).id by {
            if j < packets.len() {
                assert(after[i] == packets[i]);
                assert(after[j] == packets[j]);
            } else {
                let b = j - packets.len();
                assert(after[packets.len() + b] == arrivals[b].with_id((counter + b) as u64));
                if i < packets.len() {
                    assert(after[i] == packets[i]);
                } else {
                    let a = i - packets.len();
                    assert(after[packets.len() + a] == arrivals[a].with_id((counter + a) as u64));
                }
            }
        }
    }
}

/// Whether `packet` can be captured with every counter staying within 64
/// bits.
pub fn can_capture(info: &SniffingInfo, flows: &FlowAggregator, packet: &ParsedPacket) -> (ok: bool)
    ensures
        ok == capture_fits(info@, flows@, packet@),
{
    if info.counter == u64::MAX {
        return false;
    }
    let flow = get_sender_receiver(packet);
    match packet.transmitted_bytes() {
        Some(bytes) => flows.can_record(&flow.0, bytes),
        None => false,
    }
}

/// Captures one decoded packet at the time `now`: gives it the next
/// sequence number, appends it to the packet store and to every index and
/// list it belongs in, and records it for its flow.
pub fn capture_packet(
    info: &mut SniffingInfo,
    packets: &mut PacketsCollection,
    flows: &mut FlowAggregator,
    packet: ParsedPacket,
    now: i64,
)
    requires
        capture_fits(old(info)@, old(flows)@, packet@),
    ensures
        final(info)@ == (SniffingInfoView {
            counter: (old(info)@.counter + 1) as u64,
            ..old(info)@
        }),
        final(packets)@ == store_after_capture(
            old(packets)@,
            old(info)@.counter as nat,
            packet@,
        ),
        final(flows)@ == record_spec(
            old(flows)@,
            flow_key_of(packet@),
            flow_protocols_of(packet@),
            packet@.transmitted_bytes(),
            now,
        ),
        final(flows).order() == record_order(old(flows).order(), flow_key_of(packet@)),
        ids_below(old(packets)@, old(info)@.counter as nat) ==> ids_below(
            final(packets)@,
            final(info)@.counter as nat,
        ),
        ids_below(old(packets)@, old(info)@.counter as nat) && ids_ascend(old(packets)@)
            ==> ids_ascend(final(packets)@),
{
    let mut packet = packet;
    let ghost given = packet@;
    packet.id = info.counter;
    info.counter = info.counter + 1;
    let flow = get_sender_receiver(&packet);
    let bytes: u64 = match packet.ethernet_payload_len {
        Some(len) => len + ETHERNET_HEADER_LENGTH,
        None => 0,
    };
    assert(packet@ == given.with_id(old(info)@.counter));
    assert(flow_key_of(packet@) == flow_key_of(given));
    assert(flow_protocols_of(packet@) == flow_protocols_of(given));
    packets.insert(packet);
    flows.record(flow.0, flow.1, bytes, now);
}

} // verus!
