//! The controller's side of a running capture: the handle through which a
//! capture task is told to stop and through which it reports a failed read,
//! the registry of those handles, and the stop of a capture.

use crate::aggregator::FlowAggregator;
use crate::error::{reading_failed_prefix, stop_without_start_text, ErrorView, SniffingError};
use crate::flow::{FlowKeyView, FlowStatsView};
use crate::keyed::KeyedStore;
use crate::packet::PacketView;
use crate::session::{
    channel_result, ids_ascend, ids_below, lemma_captures_append,
    lemma_captures_keep_ids_in_order, store_after_captures, store_after_start, ChannelOutcome,
    SniffingInfo, SniffingInfoView,
};
use crate::store::{lemma_positions_prefix, positions, Selector};
use std::sync::mpsc::{Receiver, Sender};
use vstd::prelude::*;

verus! {

/// The sending end of a channel of the standard library. Nothing is known
/// of what it holds.
#[verifier::external_type_specification]
#[verifier::external_body]
#[verifier::reject_recursive_types(T)]
pub struct ExSender<T>(Sender<T>);

/// The receiving end of a channel of the standard library. Nothing is known
/// of what it holds.
#[verifier::external_type_specification]
#[verifier::external_body]
#[verifier::reject_recursive_types(T)]
pub struct ExReceiver<T>(Receiver<T>);

/// What the controller keeps of one capture task: the end on which it sends
/// the stop signal and the end on which it receives the task's error.
pub struct CaptureHandle {
    pub stop_signal: Sender<()>,
    pub error_signal: Receiver<SniffingError>,
}

impl CaptureHandle {
    /// The handle made of the two channel ends.
    pub fn new(stop_signal: Sender<()>, error_signal: Receiver<SniffingError>) -> (handle:
        CaptureHandle)
        ensures
            handle == (CaptureHandle { stop_signal, error_signal }),
    {
        CaptureHandle { stop_signal, error_signal }
    }
}

/// Calls `Sender::send` with the unit value on the stop end of the handle
/// and says whether the signal was accepted. Nothing is claimed of the
/// answer: it is `false` exactly when the task has dropped its receiving
/// end, which only the task decides.
#[verifier::external_body]
fn send_stop(handle: &CaptureHandle) -> (delivered: bool) {
    handle.stop_signal.send(()).is_ok()
}

/// Calls `Receiver::try_recv` on the error end of the handle and hands back
/// the error that was waiting there, if any. The call does not block.
/// Nothing is claimed of the answer: it depends on what the task has sent.
#[verifier::external_body]
fn take_error(handle: &CaptureHandle) -> (pending: Option<SniffingError>) {
    handle.error_signal.try_recv().ok()
}

/// The handles of the capture tasks, by interface name.
pub type SnifferRegistry = KeyedStore<String, CaptureHandle>;

/// Registers `handle` as the handle of the capture on the interface called
/// `interface_name`, in place of any handle registered under that name, if
/// a layer-2 channel was opened; otherwise the registry stays as it was and
/// the error says how the opening failed.
pub fn register_capture(
    sniffers: &mut SnifferRegistry,
    interface_name: String,
    outcome: ChannelOutcome,
    handle: CaptureHandle,
) -> (result: Result<(), SniffingError>)
    ensures
        result is Ok <==> outcome == ChannelOutcome::Ethernet,
        result is Ok ==> final(sniffers)@ == old(sniffers)@.insert(interface_name@, handle),
        result is Err ==> *final(sniffers) == *old(sniffers),
        outcome == ChannelOutcome::Unhandled ==> result->Err_0@ == ErrorView::UnhandledChannelType(
            crate::error::unhandled_channel_text(),
        ),
        outcome == ChannelOutcome::Failed ==> result->Err_0@ == ErrorView::FailedChannelCreation(
            crate::error::failed_channel_text(),
        ),
{
    match channel_result(outcome) {
        Ok(()) => {
            let _ = sniffers.insert(interface_name, handle);
            Ok(())
        },
        Err(error) => Err(error),
    }
}

/// What one read of the capture channel brought.
pub enum ReadOutcome {
    /// A frame was read; `stop_pending` says whether a stop signal was
    /// waiting when it arrived.
    Frame { stop_pending: bool },
    /// The read failed for the given cause.
    Failed { cause: String },
}

/// What the capture task does after a read.
pub enum TaskAction {
    /// Decode the frame, capture the packet and notify the observers.
    Capture,
    /// Report the error, if there is one, empty the stop channel and end.
    Terminate(Option<SniffingError>),
}

/// Whether the frame of a read is decoded and captured: it is when a frame
/// was read and no stop signal was pending.
pub open spec fn captures(outcome: ReadOutcome) -> bool {
    outcome matches ReadOutcome::Frame { stop_pending: false }
}

/// The next step of a capture task: a frame is captured unless a stop
/// signal is pending, in which case the task ends without an error; a
/// failed read ends the task with one `ReadingChannelFailed` error.
pub fn next_task_action(outcome: &ReadOutcome) -> (action: TaskAction)
    ensures
        action is Capture <==> captures(*outcome),
        match *outcome {
            ReadOutcome::Frame { stop_pending: false } => action is Capture,
            ReadOutcome::Frame { stop_pending: true } => action == TaskAction::Terminate(None),
            ReadOutcome::Failed { cause } => action matches TaskAction::Terminate(Some(error))
                && error@ == ErrorView::ReadingChannelFailed(reading_failed_prefix() + cause@),
        },
{
    match outcome {
        ReadOutcome::Frame { stop_pending } => {
            if *stop_pending {
                TaskAction::Terminate(None)
            } else {
                TaskAction::Capture
            }
        },
        ReadOutcome::Failed { cause } => TaskAction::Terminate(
            Some(SniffingError::reading_channel_failed(cause.as_str())),
        ),
    }
}

/// One read of a capture task, with the packet that the decoder makes of
/// the frame where one was read.
pub struct TaskRead {
    pub outcome: ReadOutcome,
    pub decoded: PacketView,
}

/// The packets that a capture task captures when its reads bring `reads`:
/// the frames read before the first read that ends the task.
pub open spec fn frames_captured(reads: Seq<TaskRead>) -> Seq<PacketView>
    decreases reads.len(),
{
    if reads.len() == 0 || !captures(reads[0].outcome) {
        Seq::empty()
    } else {
        seq![reads[0].decoded] + frames_captured(reads.drop_first())
    }
}

/// The master sequence after a capture task whose reads brought `reads`
/// has ended, the sequence number being `counter` when it began.
pub open spec fn store_after_task(
    packets: Seq<PacketView>,
    counter: nat,
    reads: Seq<TaskRead>,
) -> Seq<PacketView> {
    store_after_captures(packets, counter, frames_captured(reads))
}

/// Whatever a capture task reads, the master sequence grows by one packet
/// for each frame that was decoded, and by nothing for a failed read or for
/// a frame that arrived when a stop was pending.
pub proof fn lemma_master_sequence_length(
    packets: Seq<PacketView>,
    counter: nat,
    reads: Seq<TaskRead>,
)
    ensures
        store_after_task(packets, counter, reads).len() == packets.len() + frames_captured(
            reads,
        ).len(),
        frames_captured(reads).len() <= reads.len(),
        forall|i: int|
            0 <= i < frames_captured(reads).len() ==> captures((#[trigger] reads[i]).outcome)
                && frames_captured(reads)[i] == reads[i].decoded,
        frames_captured(reads).len() < reads.len() ==> !captures(
            reads[frames_captured(reads).len() as int].outcome,
        ),
{
    lemma_captures_append(packets, counter, frames_captured(reads));
    lemma_frames_captured(reads);
}

/// The captured frames are those of the reads before the first read that
/// captures nothing.
pub proof fn lemma_frames_captured(reads: Seq<TaskRead>)
    ensures
        frames_captured(reads).len() <= reads.len(),
        forall|i: int|
            0 <= i < frames_captured(reads).len() ==> captures((#[trigger] reads[i]).outcome)
                && frames_captured(reads)[i] == reads[i].decoded,
        frames_captured(reads).len() < reads.len() ==> !captures(
            reads[frames_captured(reads).len() as int].outcome,
        ),
    decreases reads.len(),
{
    if reads.len() > 0 && captures(reads[0].outcome) {
        let rest = reads.drop_first();
        lemma_frames_captured(rest);
        assert forall|i: int| 0 <= i < frames_captured(reads).len() implies captures(
            (#[trigger] reads[i]).outcome,
        ) && frames_captured(reads)[i] == reads[i].decoded by {
            if i > 0 {
                assert(rest[i - 1] == reads[i]);
                assert(frames_captured(reads)[i] == frames_captured(rest)[i - 1]);
            }
        }
        if frames_captured(reads).len() < reads.len() {
            assert(rest[frames_captured(rest).len() as int] == reads[frames_captured(
                reads,
            ).len() as int]);
        }
    }
}

/// A pause followed by a resume leaves the master sequence, and with it
/// every index, as it was when the capture was paused. The packets captured
/// after the resume are appended behind it in arrival order, and their
/// sequence numbers go on from the one that the pause left, each greater
/// than the one before.
pub proof fn lemma_resume_preserves_and_appends(
    info: SniffingInfoView,
    packets: Seq<PacketView>,
    arrivals: Seq<PacketView>,
    selector: Selector,
)
    requires
        info.counter + arrivals.len() <= u64::MAX,
    ensures
        store_after_start(packets, true) == packets,
        positions(store_after_start(packets, true), selector) == positions(packets, selector),
        info_after_stop(info, false) == info,
        ({
            let after = store_after_captures(
                store_after_start(packets, true),
                info_after_stop(info, false).counter as nat,
                arrivals,
            );
            &&& after.len() == packets.len() + arrivals.len()
            &&& after.subrange(0, packets.len() as int) == packets
            &&& positions(packets, selector).is_prefix_of(positions(after, selector))
            &&& forall|i: int|
                0 <= i < arrivals.len() ==> #[trigger] after[packets.len() + i] == arrivals[i].with_id(
                    (info.counter + i) as u64,
                )
            &&& forall|i: int, j: int|
                0 <= i < j < arrivals.len() ==> (#[trigger] after[packets.len() + i]).id < (
                #[trigger] after[packets.len() + j]).id
            &&& ids_below(packets, info.counter as nat) ==> {
                &&& forall|i: int, j: int|
                    0 <= i < packets.len() && 0 <= j < arrivals.len() ==> (#[trigger] packets[i]).id
                        < (#[trigger] after[packets.len() + j]).id
                &&& ids_below(after, info.counter as nat + arrivals.len())
                &&& ids_ascend(packets) ==> ids_ascend(after)
            }
        }),
{
    let after = store_after_captures(packets, info.counter as nat, arrivals);
    lemma_captures_append(packets, info.counter as nat, arrivals);
    if ids_below(packets, info.counter as nat) {
        lemma_captures_keep_ids_in_order(packets, info.counter as nat, arrivals);
    }
    assert(after.subrange(0, packets.len() as int) =~= packets);
    let later = after.subrange(packets.len() as int, after.len() as int);
    assert(after =~= packets + later);
    lemma_positions_prefix(packets, later, selector);
    assert forall|i: int| 0 <= i < arrivals.len() implies #[trigger] after[packets.len() + i]
        == arrivals[i].with_id((info.counter + i) as u64) by {
        assert(after[packets.len() + i] == (#[trigger] arrivals[i]).with_id(
            (info.counter as nat + i) as u64,
        ));
    }
}

/// In a session that begins with a start that is no resume, is paused after
/// some captures and resumed for more, the sequence numbers grow along the
/// whole master sequence, across the pause: when the capture is paused every
/// stored number is below the counter, and each packet captured after the
/// resume gets the counter's number at that time, greater than every number
/// stored before it.
pub proof fn lemma_session_ids_ascend(
    info: SniffingInfoView,
    packets: Seq<PacketView>,
    before_pause: Seq<PacketView>,
    after_resume: Seq<PacketView>,
)
    requires
        info.counter + before_pause.len() + after_resume.len() <= u64::MAX,
    ensures
        ({
            let started = store_after_start(packets, false);
            let paused = store_after_captures(started, info.counter as nat, before_pause);
            let counter = info.counter as nat + before_pause.len();
            let resumed = store_after_start(paused, true);
            let after = store_after_captures(resumed, counter, after_resume);
            &&& paused.len() == before_pause.len()
            &&& ids_below(paused, counter)
            &&& ids_ascend(paused)
            &&& resumed == paused
            &&& after.len() == before_pause.len() + after_resume.len()
            &&& after.subrange(0, paused.len() as int) == paused
            &&& forall|j: int|
                0 <= j < after_resume.len() ==> (#[trigger] after[paused.len() + j]).id == counter
                    + j
            &&& ids_below(after, counter + after_resume.len())
            &&& ids_ascend(after)
        }),
{
    let started = Seq::<PacketView>::empty();
    let first = info.counter as nat;
    let paused = store_after_captures(started, first, before_pause);
    let counter = first + before_pause.len();
    let after = store_after_captures(paused, counter, after_resume);
    lemma_captures_append(started, first, before_pause);
    lemma_captures_keep_ids_in_order(started, first, before_pause);
    lemma_captures_append(paused, counter, after_resume);
    lemma_captures_keep_ids_in_order(paused, counter, after_resume);
    assert(after.subrange(0, paused.len() as int) =~= paused);
    assert forall|j: int| 0 <= j < after_resume.len() implies (#[trigger] after[paused.len()
        + j]).id == counter + j by {
        assert(after[paused.len() + j] == after_resume[j].with_id((counter + j) as u64));
    }
}

/// A full stop discards every flow and sets the sequence number back to 0,
/// and keeps the selection. The packet store is emptied by a start that is
/// no resume and by nothing else: a start that resumes keeps it.
pub proof fn lemma_full_stop_resets(
    info: SniffingInfoView,
    flows: Map<FlowKeyView, FlowStatsView>,
    packets: Seq<PacketView>,
)
    ensures
        flows_after_stop(flows, true) == Map::<FlowKeyView, FlowStatsView>::empty(),
        info_after_stop(info, true).counter == 0,
        info_after_stop(info, true).interface_name == info.interface_name,
        info_after_stop(info, true).interface == info.interface,
        store_after_start(packets, true) == packets,
        store_after_start(packets, false) == Seq::<PacketView>::empty(),
{
}

/// The flows after a stop: none after a full stop, all of them after a
/// pause.
pub open spec fn flows_after_stop(
    flows: Map<FlowKeyView, FlowStatsView>,
    stop: bool,
) -> Map<FlowKeyView, FlowStatsView> {
    if stop {
        Map::empty()
    } else {
        flows
    }
}

/// The order of the flows after a stop: empty after a full stop, unchanged
/// after a pause.
pub open spec fn flow_order_after_stop(order: Seq<FlowKeyView>, stop: bool) -> Seq<FlowKeyView> {
    if stop {
        Seq::empty()
    } else {
        order
    }
}

/// The session information after a stop: a full stop sets the sequence
/// number back to 0, a pause changes nothing.
pub open spec fn info_after_stop(info: SniffingInfoView, stop: bool) -> SniffingInfoView {
    if stop {
        SniffingInfoView { counter: 0, ..info }
    } else {
        info
    }
}

/// Whether a capture was started on the selected interface and its handle
/// is still registered.
pub open spec fn capture_registered(
    info: SniffingInfoView,
    sniffers: Map<Seq<char>, CaptureHandle>,
) -> bool {
    info.interface_name is Some && sniffers.contains_key(info.interface_name->0)
}

/// The registry after the stop signal was sent to the task of
/// `interface_name`: a handle whose task no longer listens is removed.
pub open spec fn registry_after_signal(
    sniffers: Map<Seq<char>, CaptureHandle>,
    interface_name: Seq<char>,
    delivered: bool,
) -> Map<Seq<char>, CaptureHandle> {
    if delivered {
        sniffers
    } else {
        sniffers.remove(interface_name)
    }
}

/// The result of a stop whose signal was sent: the error that was waiting
/// on the error channel, or success where none was.
pub open spec fn stop_result(pending: Option<SniffingError>) -> Result<(), SniffingError> {
    match pending {
        Some(error) => Err(error),
        None => Ok(()),
    }
}

/// Ends the stop of the capture on `interface_name`, once the stop signal
/// was sent and the error channel was looked at. A signal that was not
/// delivered means that the task has ended, and its handle is removed. An
/// error that was waiting is the result of the stop.
pub fn conclude_stop(
    sniffers: &mut SnifferRegistry,
    interface_name: &String,
    delivered: bool,
    pending: Option<SniffingError>,
) -> (result: Result<(), SniffingError>)
    ensures
        final(sniffers)@ == registry_after_signal(old(sniffers)@, interface_name@, delivered),
        result == stop_result(pending),
{
    if !delivered {
        let _ = sniffers.remove(interface_name);
    }
    match pending {
        Some(error) => Err(error),
        None => Ok(()),
    }
}

/// Pauses (`stop` false) or stops (`stop` true) the capture on the selected
/// interface.
///
/// A full stop first discards every flow and sets the sequence number back
/// to 0, whatever follows. Without a selection, or without a handle
/// registered for the selected interface, the error is
/// `StopSniffingWithoutPriorStart` and the registry stays as it was.
/// Otherwise the stop signal is sent to the capture task and the error
/// channel is looked at once, and the call ends as [`conclude_stop`] says
/// for what the two brought.
pub fn stop_sniffing(
    info: &mut SniffingInfo,
    sniffers: &mut SnifferRegistry,
    flows: &mut FlowAggregator,
    stop: bool,
) -> (result: Result<(), SniffingError>)
    ensures
        final(info)@ == info_after_stop(old(info)@, stop),
        final(flows)@ == flows_after_stop(old(flows)@, stop),
        final(flows).order() == flow_order_after_stop(old(flows).order(), stop),
        !capture_registered(old(info)@, old(sniffers)@) ==> *final(sniffers) == *old(sniffers)
            && result is Err && result->Err_0@ == ErrorView::StopSniffingWithoutPriorStart(
            stop_without_start_text(),
        ),
        capture_registered(old(info)@, old(sniffers)@) ==> exists|
            delivered: bool,
            pending: Option<SniffingError>,
        |
            #![trigger registry_after_signal(old(sniffers)@, old(info)@.interface_name->0, delivered), stop_result(pending)]
            final(sniffers)@ == registry_after_signal(
                old(sniffers)@,
                old(info)@.interface_name->0,
                delivered,
            ) && result == stop_result(pending),
{
    if stop {
        let _ = flows.drain();
        info.reset_counter();
    }
    let name = match info.interface_name() {
        Some(name) => name.clone(),
        None => {
            return Err(SniffingError::stop_without_start());
        },
    };
    let (delivered, pending) = match sniffers.get(&name) {
        Some(handle) => (send_stop(handle), take_error(handle)),
        None => {
            return Err(SniffingError::stop_without_start());
        },
    };
    conclude_stop(sniffers, &name, delivered, pending)
}

} // verus!
