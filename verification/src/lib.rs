//! Core of a live packet-capture session: the error taxonomy, the multi-index
//! packet store, the per-flow aggregator and the session lifecycle, each with
//! a machine-checked contract.
//!
//! - [`error`]: the errors that a session reports.
//! - [`packet`]: a decoded packet as the session sees it.
//! - [`keyed`]: the insertion-ordered map behind the indices, the flows and
//!   the registry.
//! - [`store`]: the master sequence of packets and the indices over it.
//! - [`flow`]: the key of a flow and what is accumulated for it.
//! - [`aggregator`]: the flows accumulated since the last report.
//! - [`session`]: selection, start of a capture, capture of one packet.
//! - [`control`]: capture handles, the steps of a capture task, pause and
//!   stop.
//! - [`report`]: what a report generation writes.
//! - [`state`]: the whole state with its lifecycle.

pub mod aggregator;
pub mod control;
pub mod error;
pub mod flow;
pub mod keyed;
pub mod packet;
pub mod report;
pub mod session;
pub mod state;
pub mod store;
