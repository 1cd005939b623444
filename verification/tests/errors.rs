use wirefish::error::SniffingError;

#[test]
fn interface_not_found_carries_its_message() {
    let error = SniffingError::interface_not_found();
    assert_eq!(
        error,
        SniffingError::InterfaceNotFound("The provided interface is inexistent".to_string())
    );
    assert_eq!(error.description(), "The provided interface is inexistent");
}

#[test]
fn start_without_selection_carries_its_message() {
    assert_eq!(
        SniffingError::start_without_selection(),
        SniffingError::StartSniffingWithoutInterfaceSelection(
            "Start sniffing without prior selection of the inteface".to_string()
        )
    );
}

#[test]
fn channel_errors_carry_their_messages() {
    assert_eq!(
        SniffingError::unhandled_channel_type(),
        SniffingError::UnhandledChannelType("Unhandled channel type".to_string())
    );
    assert_eq!(
        SniffingError::failed_channel_creation(),
        SniffingError::FailedChannelCreation("Unexpected channel creation failure".to_string())
    );
}

#[test]
fn stop_without_start_carries_its_message() {
    assert_eq!(
        SniffingError::stop_without_start(),
        SniffingError::StopSniffingWithoutPriorStart(
            "Stop sniffing without prior starting of the process".to_string()
        )
    );
}

#[test]
fn report_failure_names_its_cause() {
    assert_eq!(
        SniffingError::report_generation_failed("Permission denied (os error 13)"),
        SniffingError::ReportGenerationFailed(
            "Report generation failed: Permission denied (os error 13)".to_string()
        )
    );
}

#[test]
fn read_failure_names_its_cause() {
    assert_eq!(
        SniffingError::reading_channel_failed("Network is down"),
        SniffingError::ReadingChannelFailed("Reading from channel failed: Network is down".to_string())
    );
}

#[test]
fn description_returns_the_message_of_every_variant() {
    let text = "why".to_string();
    let all = vec![
        SniffingError::InterfaceNotFound(text.clone()),
        SniffingError::StartSniffingWithoutInterfaceSelection(text.clone()),
        SniffingError::GetPacketsIndexNotValid(text.clone()),
        SniffingError::UnhandledChannelType(text.clone()),
        SniffingError::FailedChannelCreation(text.clone()),
        SniffingError::StopSniffingWithoutPriorStart(text.clone()),
        SniffingError::ReportGenerationFailed(text.clone()),
        SniffingError::ReadingChannelFailed(text.clone()),
        SniffingError::UnknownFilterType(text.clone()),
    ];
    assert_eq!(all.len(), 9);
    for error in &all {
        assert_eq!(error.description(), "why");
    }
}
