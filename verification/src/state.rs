//! The whole state of a capture session and its lifecycle: select, start,
//! capture, pause or stop, report. Each step says what it changes and what
//! it leaves as it was.

use crate::aggregator::{record_order, record_spec, FlowAggregator};
use crate::control::{
    capture_registered, flow_order_after_stop, flows_after_stop, info_after_stop,
    register_capture,
    registry_after_signal, stop_result, stop_sniffing, CaptureHandle, SnifferRegistry,
};
use crate::error::{
    failed_channel_text, interface_not_found_text, start_without_selection_text,
    stop_without_start_text, unhandled_channel_text, ErrorView, SniffingError,
};
use crate::flow::{flow_key_of, flow_protocols_of, FlowKeyView, FlowStatsView};
use crate::packet::{PacketView, ParsedPacket};
use crate::report::{generate_report, rows_describe, Report};
use crate::session::{
    capture_fits, capture_packet, ids_ascend, ids_below, interfaces_of, is_first_named, select_interface, some_named,
    start_sniffing, start_without_interface_text, store_after_capture, store_after_start,
    ChannelOutcome, Interface, SniffingInfo, SniffingInfoView,
};
use crate::store::PacketsCollection;
use vstd::prelude::*;

verus! {

/// Capture handles and data collected by the sniffing process. One value
/// is made when the application starts and shared by all of its actions.
pub struct SniffingState {
    pub sniffers: SnifferRegistry,
    pub exchanged_packets: FlowAggregator,
    pub info: SniffingInfo,
    pub packets: PacketsCollection,
}

impl SniffingState {
    /// The state of an application that has just started: no interface
    /// selected, no capture registered, no packet and no flow.
    pub fn new() -> (state: SniffingState)
        ensures
            state.sniffers@ == Map::<Seq<char>, CaptureHandle>::empty(),
            state.exchanged_packets@ == Map::<FlowKeyView, FlowStatsView>::empty(),
            state.exchanged_packets.order() == Seq::<FlowKeyView>::empty(),
            state.info@ == (SniffingInfoView { interface_name: None, interface: None, counter: 0 }),
            state.packets@ == Seq::<PacketView>::empty(),
    {
        SniffingState {
            sniffers: SnifferRegistry::new(),
            exchanged_packets: FlowAggregator::new(),
            info: SniffingInfo::new(),
            packets: PacketsCollection::new(),
        }
    }

    /// Selects the first of `interfaces` that is called `interface_name`.
    /// Only the selection changes, and only if such an interface exists.
    pub fn select(&mut self, interfaces: &Vec<Interface>, interface_name: String) -> (result: Result<
        (),
        SniffingError,
    >)
        ensures
            final(self).sniffers == old(self).sniffers,
            final(self).exchanged_packets == old(self).exchanged_packets,
            final(self).packets == old(self).packets,
            result is Ok <==> some_named(interfaces_of(interfaces@), interface_name@),
            result is Ok ==> exists|position: int|
                is_first_named(interfaces_of(interfaces@), interface_name@, position)
                    && final(self).info@ == (SniffingInfoView {
                    interface_name: Some(interface_name@),
                    interface: Some(#[trigger] interfaces_of(interfaces@)[position]),
                    counter: old(self).info@.counter,
                }),
            result is Err ==> final(self).info == old(self).info && result->Err_0@
                == ErrorView::InterfaceNotFound(interface_not_found_text()),
    {
        select_interface(&mut self.info, interfaces, interface_name)
    }

    /// Begins a capture on the selected interface and hands the interface
    /// back. Only the packet store can change: a start that is no resume
    /// empties it, a resume keeps it.
    pub fn start(&mut self, is_resume: bool) -> (result: Result<Interface, SniffingError>)
        ensures
            final(self).sniffers == old(self).sniffers,
            final(self).exchanged_packets == old(self).exchanged_packets,
            final(self).info == old(self).info,
            result is Ok <==> old(self).info@.interface_name is Some && old(self).info@.interface
                is Some,
            result is Ok ==> result->Ok_0@ == old(self).info@.interface->0 && final(self).packets@
                == store_after_start(old(self).packets@, is_resume),
            result is Err ==> final(self).packets@ == old(self).packets@,
            old(self).info@.interface_name is None ==> result->Err_0@
                == ErrorView::StartSniffingWithoutInterfaceSelection(
                start_without_selection_text(),
            ),
            old(self).info@.interface_name is Some && old(self).info@.interface is None
                ==> result->Err_0@ == ErrorView::StartSniffingWithoutInterfaceSelection(
                start_without_interface_text(),
            ),
    {
        start_sniffing(is_resume, &self.info, &mut self.packets)
    }

    /// Registers the handle of the capture task that was started on the
    /// interface called `interface_name`, if a layer-2 channel was opened.
    /// Only the registry can change.
    pub fn register(
        &mut self,
        interface_name: String,
        outcome: ChannelOutcome,
        handle: CaptureHandle,
    ) -> (result: Result<(), SniffingError>)
        ensures
            final(self).exchanged_packets == old(self).exchanged_packets,
            final(self).info == old(self).info,
            final(self).packets == old(self).packets,
            result is Ok <==> outcome == ChannelOutcome::Ethernet,
            result is Ok ==> final(self).sniffers@ == old(self).sniffers@.insert(
                interface_name@,
                handle,
            ),
            result is Err ==> final(self).sniffers == old(self).sniffers,
            outcome == ChannelOutcome::Unhandled ==> result->Err_0@
                == ErrorView::UnhandledChannelType(unhandled_channel_text()),
            outcome == ChannelOutcome::Failed ==> result->Err_0@
                == ErrorView::FailedChannelCreation(failed_channel_text()),
    {
        register_capture(&mut self.sniffers, interface_name, outcome, handle)
    }

    /// Captures one decoded packet at the time `now`. The registry and the
    /// selection stay as they were.
    pub fn capture(&mut self, packet: ParsedPacket, now: i64)
        requires
            capture_fits(old(self).info@, old(self).exchanged_packets@, packet@),
        ensures
            final(self).sniffers == old(self).sniffers,
            final(self).info@ == (SniffingInfoView {
                counter: (old(self).info@.counter + 1) as u64,
                ..old(self).info@
            }),
            final(self).packets@ == store_after_capture(
                old(self).packets@,
                old(self).info@.counter as nat,
                packet@,
            ),
            final(self).exchanged_packets@ == record_spec(
                old(self).exchanged_packets@,
                flow_key_of(packet@),
                flow_protocols_of(packet@),
                packet@.transmitted_bytes(),
                now,
            ),
            final(self).exchanged_packets.order() == record_order(
                old(self).exchanged_packets.order(),
                flow_key_of(packet@),
            ),
            ids_below(old(self).packets@, old(self).info@.counter as nat) ==> ids_below(
                final(self).packets@,
                final(self).info@.counter as nat,
            ),
            ids_below(old(self).packets@, old(self).info@.counter as nat) && ids_ascend(
                old(self).packets@,
            ) ==> ids_ascend(final(self).packets@),
    {
        capture_packet(&mut self.info, &mut self.packets, &mut self.exchanged_packets, packet, now)
    }

    /// Pauses (`full_stop` false) or stops (`full_stop` true) the capture on
    /// the selected interface. The packet store stays as it was either way.
    /// A pause keeps the flows and the sequence number too; a full stop
    /// discards the flows and sets the sequence number back to 0.
    pub fn pause_or_stop(&mut self, full_stop: bool) -> (result: Result<(), SniffingError>)
        ensures
            final(self).packets == old(self).packets,
            final(self).info@ == info_after_stop(old(self).info@, full_stop),
            final(self).exchanged_packets@ == flows_after_stop(
                old(self).exchanged_packets@,
                full_stop,
            ),
            final(self).exchanged_packets.order() == flow_order_after_stop(
                old(self).exchanged_packets.order(),
                full_stop,
            ),
            !capture_registered(old(self).info@, old(self).sniffers@) ==> final(self).sniffers
                == old(self).sniffers && result is Err && result->Err_0@
                == ErrorView::StopSniffingWithoutPriorStart(stop_without_start_text()),
            capture_registered(old(self).info@, old(self).sniffers@) ==> exists|
                delivered: bool,
                pending: Option<SniffingError>,
            |
                #![trigger registry_after_signal(old(self).sniffers@, old(self).info@.interface_name->0, delivered), stop_result(pending)]
                final(self).sniffers@ == registry_after_signal(
                    old(self).sniffers@,
                    old(self).info@.interface_name->0,
                    delivered,
                ) && result == stop_result(pending),
    {
        stop_sniffing(&mut self.info, &mut self.sniffers, &mut self.exchanged_packets, full_stop)
    }

    /// Takes the accumulated flows out for a report. Only the flows change:
    /// none is left.
    pub fn report(&mut self, first_generation: bool) -> (report: Report)
        ensures
            final(self).sniffers == old(self).sniffers,
            final(self).info == old(self).info,
            final(self).packets == old(self).packets,
            final(self).exchanged_packets@ == Map::<FlowKeyView, FlowStatsView>::empty(),
            final(self).exchanged_packets.order() == Seq::<FlowKeyView>::empty(),
            report.truncate == first_generation,
            report.header == first_generation,
            rows_describe(
                report.rows@,
                old(self).exchanged_packets.order(),
                old(self).exchanged_packets@,
            ),
            report.rows@.len() == old(self).exchanged_packets@.len(),
    {
        generate_report(&mut self.exchanged_packets, first_generation)
    }
}

} // verus!
