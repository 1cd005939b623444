//! Errors that a capture session reports to its callers.

use vstd::prelude::*;

verus! {

/// Errors that can occur during the sniffing process. Every variant carries
/// the message shown to the user.
#[derive(Debug, Clone, PartialEq, Eq)]
pub enum SniffingError {
    InterfaceNotFound(String),
    StartSniffingWithoutInterfaceSelection(String),
    GetPacketsIndexNotValid(String),
    UnhandledChannelType(String),
    FailedChannelCreation(String),
    StopSniffingWithoutPriorStart(String),
    ReportGenerationFailed(String),
    ReadingChannelFailed(String),
    UnknownFilterType(String),
}

/// What an error is in contracts: its variant and the characters of its
/// message.
pub enum ErrorView {
    InterfaceNotFound(Seq<char>),
    StartSniffingWithoutInterfaceSelection(Seq<char>),
    GetPacketsIndexNotValid(Seq<char>),
    UnhandledChannelType(Seq<char>),
    FailedChannelCreation(Seq<char>),
    StopSniffingWithoutPriorStart(Seq<char>),
    ReportGenerationFailed(Seq<char>),
    ReadingChannelFailed(Seq<char>),
    UnknownFilterType(Seq<char>),
}

impl View for SniffingError {
    type V = ErrorView;

    open spec fn view(&self) -> ErrorView {
        match self {
            SniffingError::InterfaceNotFound(m) => ErrorView::InterfaceNotFound(m@),
            SniffingError::StartSniffingWithoutInterfaceSelection(m) =>
                ErrorView::StartSniffingWithoutInterfaceSelection(m@),
            SniffingError::GetPacketsIndexNotValid(m) => ErrorView::GetPacketsIndexNotValid(m@),
            SniffingError::UnhandledChannelType(m) => ErrorView::UnhandledChannelType(m@),
            SniffingError::FailedChannelCreation(m) => ErrorView::FailedChannelCreation(m@),
            SniffingError::StopSniffingWithoutPriorStart(m) =>
                ErrorView::StopSniffingWithoutPriorStart(m@),
            SniffingError::ReportGenerationFailed(m) => ErrorView::ReportGenerationFailed(m@),
            SniffingError::ReadingChannelFailed(m) => ErrorView::ReadingChannelFailed(m@),
            SniffingError::UnknownFilterType(m) => ErrorView::UnknownFilterType(m@),
        }
    }
}

impl ErrorView {
    /// The message of the error, whatever its variant.
    pub open spec fn description(self) -> Seq<char> {
        match self {
            ErrorView::InterfaceNotFound(m) => m,
            ErrorView::StartSniffingWithoutInterfaceSelection(m) => m,
            ErrorView::GetPacketsIndexNotValid(m) => m,
            ErrorView::UnhandledChannelType(m) => m,
            ErrorView::FailedChannelCreation(m) => m,
            ErrorView::StopSniffingWithoutPriorStart(m) => m,
            ErrorView::ReportGenerationFailed(m) => m,
            ErrorView::ReadingChannelFailed(m) => m,
            ErrorView::UnknownFilterType(m) => m,
        }
    }
}

/// Message of the error raised when the requested interface does not exist.
pub open spec fn interface_not_found_text() -> Seq<char> {
    "The provided interface is inexistent"@
}

/// Message of the error raised when a capture is started before any interface
/// was selected.
pub open spec fn start_without_selection_text() -> Seq<char> {
    "Start sniffing without prior selection of the inteface"@
}

/// Message of the error raised when the opened channel is not a layer-2 one.
pub open spec fn unhandled_channel_text() -> Seq<char> {
    "Unhandled channel type"@
}

/// Message of the error raised when the capture channel cannot be opened.
pub open spec fn failed_channel_text() -> Seq<char> {
    "Unexpected channel creation failure"@
}

/// Message of the error raised when a stop is requested and no capture was
/// ever started.
pub open spec fn stop_without_start_text() -> Seq<char> {
    "Stop sniffing without prior starting of the process"@
}

/// What precedes the cause in the message of a failed report generation.
pub open spec fn report_failed_prefix() -> Seq<char> {
    "Report generation failed: "@
}

/// What precedes the cause in the message of a failed channel read.
pub open spec fn reading_failed_prefix() -> Seq<char> {
    "Reading from channel failed: "@
}

impl SniffingError {
    /// The message carried by the error.
    pub fn description(&self) -> (text: &String)
        ensures
            text@ == self@.description(),
    {
        match self {
            SniffingError::InterfaceNotFound(m) => m,
            SniffingError::StartSniffingWithoutInterfaceSelection(m) => m,
            SniffingError::GetPacketsIndexNotValid(m) => m,
            SniffingError::UnhandledChannelType(m) => m,
            SniffingError::FailedChannelCreation(m) => m,
            SniffingError::StopSniffingWithoutPriorStart(m) => m,
            SniffingError::ReportGenerationFailed(m) => m,
            SniffingError::ReadingChannelFailed(m) => m,
            SniffingError::UnknownFilterType(m) => m,
        }
    }

    /// The error of a selection that names no existing interface.
    pub fn interface_not_found() -> (error: SniffingError)
        ensures
            error@ == ErrorView::InterfaceNotFound(interface_not_found_text()),
    {
        SniffingError::InterfaceNotFound("The provided interface is inexistent".to_owned())
    }

    /// The error of a start that no selection preceded.
    pub fn start_without_selection() -> (error: SniffingError)
        ensures
            error@ == ErrorView::StartSniffingWithoutInterfaceSelection(
                start_without_selection_text(),
            ),
    {
        SniffingError::StartSniffingWithoutInterfaceSelection(
            "Start sniffing without prior selection of the inteface".to_owned(),
        )
    }

    /// The error of a capture channel that is not a layer-2 channel.
    pub fn unhandled_channel_type() -> (error: SniffingError)
        ensures
            error@ == ErrorView::UnhandledChannelType(unhandled_channel_text()),
    {
        SniffingError::UnhandledChannelType("Unhandled channel type".to_owned())
    }

    /// The error of a capture channel that could not be opened.
    pub fn failed_channel_creation() -> (error: SniffingError)
        ensures
            error@ == ErrorView::FailedChannelCreation(failed_channel_text()),
    {
        SniffingError::FailedChannelCreation("Unexpected channel creation failure".to_owned())
    }

    /// The error of a stop that no start preceded.
    pub fn stop_without_start() -> (error: SniffingError)
        ensures
            error@ == ErrorView::StopSniffingWithoutPriorStart(stop_without_start_text()),
    {
        SniffingError::StopSniffingWithoutPriorStart(
            "Stop sniffing without prior starting of the process".to_owned(),
        )
    }

    /// The error of a report that could not be written, for the given cause.
    pub fn report_generation_failed(cause: &str) -> (error: SniffingError)
        ensures
            error@ == ErrorView::ReportGenerationFailed(report_failed_prefix() + cause@),
    {
        let text = "Report generation failed: ".to_owned().concat(cause);
        SniffingError::ReportGenerationFailed(text)
    }

    /// The error of a capture channel whose read failed, for the given cause.
    pub fn reading_channel_failed(cause: &str) -> (error: SniffingError)
        ensures
            error@ == ErrorView::ReadingChannelFailed(reading_failed_prefix() + cause@),
    {
        let text = "Reading from channel failed: ".to_owned().concat(cause);
        SniffingError::ReadingChannelFailed(text)
    }
}

} // verus!
