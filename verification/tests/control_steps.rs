use wirefish::aggregator::FlowAggregator;
use wirefish::control::{
    conclude_stop, next_task_action, register_capture, stop_sniffing, CaptureHandle, ReadOutcome,
    SnifferRegistry, TaskAction,
};
use wirefish::error::SniffingError;
use wirefish::flow::SourceDestination;
use wirefish::session::{select_interface, ChannelOutcome, Interface, SniffingInfo};

struct TaskEnds {
    stop: std::sync::mpsc::Receiver<()>,
    error: std::sync::mpsc::Sender<SniffingError>,
}

fn new_handle() -> (CaptureHandle, TaskEnds) {
    let (send_stop, receive_stop) = std::sync::mpsc::channel();
    let (send_error, receive_error) = std::sync::mpsc::channel();
    (CaptureHandle::new(send_stop, receive_error), TaskEnds { stop: receive_stop, error: send_error })
}

fn selected(name: &str) -> SniffingInfo {
    let mut info = SniffingInfo::new();
    let interfaces = vec![Interface { name: name.to_string(), index: 1 }];
    assert!(select_interface(&mut info, &interfaces, name.to_string()).is_ok());
    info
}

fn one_flow() -> FlowAggregator {
    let mut flows = FlowAggregator::new();
    flows.record(
        SourceDestination::new("a".to_string(), "b".to_string(), "1".to_string(), "2".to_string()),
        vec!["TCP".to_string()],
        64,
        5,
    );
    flows
}

fn stop_error() -> SniffingError {
    SniffingError::StopSniffingWithoutPriorStart(
        "Stop sniffing without prior starting of the process".to_string(),
    )
}

#[test]
fn register_needs_a_layer_two_channel() {
    let mut sniffers = SnifferRegistry::new();
    let (handle, _task) = new_handle();
    assert_eq!(
        register_capture(&mut sniffers, "eth0".to_string(), ChannelOutcome::Failed, handle),
        Err(SniffingError::FailedChannelCreation(
            "Unexpected channel creation failure".to_string()
        ))
    );
    assert!(sniffers.is_empty());
    let (handle, _task) = new_handle();
    assert_eq!(
        register_capture(&mut sniffers, "eth0".to_string(), ChannelOutcome::Unhandled, handle),
        Err(SniffingError::UnhandledChannelType("Unhandled channel type".to_string()))
    );
    assert!(sniffers.is_empty());
    let (handle, _task) = new_handle();
    assert_eq!(
        register_capture(&mut sniffers, "eth0".to_string(), ChannelOutcome::Ethernet, handle),
        Ok(())
    );
    assert_eq!(sniffers.len(), 1);
    assert!(sniffers.contains_key(&"eth0".to_string()));
}

#[test]
fn a_second_registration_replaces_the_first() {
    let mut sniffers = SnifferRegistry::new();
    let (first, first_task) = new_handle();
    let (second, second_task) = new_handle();
    assert!(register_capture(&mut sniffers, "eth0".to_string(), ChannelOutcome::Ethernet, first).is_ok());
    assert!(register_capture(&mut sniffers, "eth0".to_string(), ChannelOutcome::Ethernet, second).is_ok());
    assert_eq!(sniffers.len(), 1);
    let mut info = selected("eth0");
    let mut flows = FlowAggregator::new();
    assert_eq!(stop_sniffing(&mut info, &mut sniffers, &mut flows, false), Ok(()));
    assert!(second_task.stop.try_recv().is_ok());
    assert!(first_task.stop.try_recv().is_err());
}

#[test]
fn task_captures_a_frame_when_no_stop_is_pending() {
    assert!(matches!(
        next_task_action(&ReadOutcome::Frame { stop_pending: false }),
        TaskAction::Capture
    ));
}

#[test]
fn task_ends_quietly_when_a_stop_is_pending() {
    assert!(matches!(
        next_task_action(&ReadOutcome::Frame { stop_pending: true }),
        TaskAction::Terminate(None)
    ));
}

#[test]
fn task_ends_with_one_error_when_the_read_fails() {
    let action = next_task_action(&ReadOutcome::Failed { cause: "Network is down".to_string() });
    match action {
        TaskAction::Terminate(Some(error)) => assert_eq!(
            error,
            SniffingError::ReadingChannelFailed(
                "Reading from channel failed: Network is down".to_string()
            )
        ),
        _ => panic!("a failed read must end the task with an error"),
    }
}

#[test]
fn stop_without_selection_is_refused() {
    let mut info = SniffingInfo::new();
    let mut sniffers = SnifferRegistry::new();
    let mut flows = one_flow();
    assert_eq!(stop_sniffing(&mut info, &mut sniffers, &mut flows, false), Err(stop_error()));
    assert_eq!(flows.len(), 1);
}

#[test]
fn stop_without_a_started_capture_is_refused() {
    let mut info = selected("eth0");
    let mut sniffers = SnifferRegistry::new();
    let (handle, _task) = new_handle();
    assert!(register_capture(&mut sniffers, "wlan0".to_string(), ChannelOutcome::Ethernet, handle).is_ok());
    let mut flows = one_flow();
    assert_eq!(stop_sniffing(&mut info, &mut sniffers, &mut flows, false), Err(stop_error()));
    assert_eq!(sniffers.len(), 1);
    assert_eq!(flows.len(), 1);
}

#[test]
fn full_stop_resets_even_when_it_is_refused() {
    let mut info = SniffingInfo::new();
    let mut sniffers = SnifferRegistry::new();
    let mut flows = one_flow();
    assert_eq!(stop_sniffing(&mut info, &mut sniffers, &mut flows, true), Err(stop_error()));
    assert!(flows.is_empty());
    assert_eq!(info.counter(), 0);
}

#[test]
fn pause_signals_the_task_and_keeps_everything() {
    let mut info = selected("eth0");
    let mut sniffers = SnifferRegistry::new();
    let (handle, task) = new_handle();
    assert!(register_capture(&mut sniffers, "eth0".to_string(), ChannelOutcome::Ethernet, handle).is_ok());
    let mut flows = one_flow();
    assert_eq!(stop_sniffing(&mut info, &mut sniffers, &mut flows, false), Ok(()));
    assert!(task.stop.try_recv().is_ok());
    assert!(task.stop.try_recv().is_err());
    assert_eq!(sniffers.len(), 1);
    assert_eq!(flows.len(), 1);
    assert_eq!(info.interface_name(), Some(&"eth0".to_string()));
}

#[test]
fn stop_of_an_ended_task_removes_its_handle() {
    let mut info = selected("eth0");
    let mut sniffers = SnifferRegistry::new();
    let (handle, task) = new_handle();
    assert!(register_capture(&mut sniffers, "eth0".to_string(), ChannelOutcome::Ethernet, handle).is_ok());
    drop(task);
    let mut flows = one_flow();
    assert_eq!(stop_sniffing(&mut info, &mut sniffers, &mut flows, true), Ok(()));
    assert!(sniffers.is_empty());
    assert!(flows.is_empty());
    assert_eq!(stop_sniffing(&mut info, &mut sniffers, &mut flows, false), Err(stop_error()));
}

#[test]
fn stop_surfaces_the_error_of_a_failed_read() {
    let mut info = selected("eth0");
    let mut sniffers = SnifferRegistry::new();
    let (handle, task) = new_handle();
    assert!(register_capture(&mut sniffers, "eth0".to_string(), ChannelOutcome::Ethernet, handle).is_ok());
    let failure = SniffingError::reading_channel_failed("Network is down");
    assert!(task.error.send(failure.clone()).is_ok());
    drop(task);
    let mut flows = FlowAggregator::new();
    assert_eq!(stop_sniffing(&mut info, &mut sniffers, &mut flows, false), Err(failure));
    assert!(sniffers.is_empty());
}

#[test]
fn stop_surfaces_a_pending_error_of_a_live_task() {
    let mut info = selected("eth0");
    let mut sniffers = SnifferRegistry::new();
    let (handle, task) = new_handle();
    assert!(register_capture(&mut sniffers, "eth0".to_string(), ChannelOutcome::Ethernet, handle).is_ok());
    let failure = SniffingError::reading_channel_failed("timed out");
    assert!(task.error.send(failure.clone()).is_ok());
    let mut flows = FlowAggregator::new();
    assert_eq!(stop_sniffing(&mut info, &mut sniffers, &mut flows, false), Err(failure));
    assert_eq!(sniffers.len(), 1);
    assert_eq!(stop_sniffing(&mut info, &mut sniffers, &mut flows, false), Ok(()));
    assert!(task.stop.try_recv().is_ok());
}

#[test]
fn conclude_stop_follows_what_the_channels_brought() {
    let mut sniffers = SnifferRegistry::new();
    let (handle, _task) = new_handle();
    assert!(register_capture(&mut sniffers, "eth0".to_string(), ChannelOutcome::Ethernet, handle).is_ok());
    let name = "eth0".to_string();
    assert_eq!(conclude_stop(&mut sniffers, &name, true, None), Ok(()));
    assert_eq!(sniffers.len(), 1);
    let failure = SniffingError::reading_channel_failed("x");
    assert_eq!(conclude_stop(&mut sniffers, &name, true, Some(failure.clone())), Err(failure.clone()));
    assert_eq!(sniffers.len(), 1);
    assert_eq!(conclude_stop(&mut sniffers, &name, false, Some(failure.clone())), Err(failure));
    assert!(sniffers.is_empty());
    assert_eq!(conclude_stop(&mut sniffers, &name, false, None), Ok(()));
    assert!(sniffers.is_empty());
}
