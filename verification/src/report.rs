//! Report generation: what is written for the flows accumulated since the
//! last report, and whether it starts a new file or continues one.

use crate::aggregator::FlowAggregator;
use crate::error::{report_failed_prefix, ErrorView, SniffingError};
use crate::flow::{texts_of, FlowKeyView, FlowStatsView};
use vstd::prelude::*;

verus! {

/// One row of a report: a flow and what was accumulated for it. Times are
/// milliseconds since the Unix epoch.
#[derive(Debug, Clone, PartialEq, Eq)]
pub struct ReportRow {
    pub network_source: String,
    pub network_destination: String,
    pub transport_source: String,
    pub transport_destination: String,
    pub protocols: Vec<String>,
    pub total_bytes: u64,
    pub first_seen: i64,
    pub last_seen: i64,
}

impl ReportRow {
    /// The flow of the row and its statistics. A row does not say how many
    /// packets the flow had: the count is that of `packet_count`.
    pub open spec fn describes(&self, key: FlowKeyView, stats: FlowStatsView) -> bool {
        &&& self.network_source@ == key.network_source
        &&& self.network_destination@ == key.network_destination
        &&& self.transport_source@ == key.transport_source
        &&& self.transport_destination@ == key.transport_destination
        &&& texts_of(self.protocols@) == stats.protocols
        &&& self.total_bytes == stats.total_bytes
        &&& self.first_seen == stats.first_seen
        &&& self.last_seen == stats.last_seen
    }
}

/// What a report generation writes.
#[derive(Debug, Clone, PartialEq, Eq)]
pub struct Report {
    /// Whether the file is created anew, losing what it held, or continued.
    pub truncate: bool,
    /// Whether a header row precedes the rows.
    pub header: bool,
    /// One row per flow, in the order in which the flows were first seen.
    pub rows: Vec<ReportRow>,
}

fn copy_texts(list: &Vec<String>) -> (copy: Vec<String>)
    ensures
        texts_of(copy@) == texts_of(list@),
{
    let mut copy: Vec<String> = Vec::new();
    let mut i: usize = 0;
    while i < list.len()
        invariant
            i <= list.len(),
            copy.len() == i,
            forall|j: int| 0 <= j < i ==> copy@[j]@ == list@[j]@,
        decreases list.len() - i,
    {
        copy.push(list[i].clone());
        i += 1;
    }
    assert(texts_of(copy@) =~= texts_of(list@));
    copy
}

/// Whether `rows` holds one row for each flow of `flows`, in their order.
pub open spec fn rows_describe(
    rows: Seq<ReportRow>,
    order: Seq<FlowKeyView>,
    flows: Map<FlowKeyView, FlowStatsView>,
) -> bool {
    &&& rows.len() == order.len()
    &&& forall|i: int|
        0 <= i < rows.len() ==> (#[trigger] rows[i]).describes(order[i], flows[order[i]])
}

/// One row for each flow of `flows`, in the order in which the flows were
/// first seen.
pub fn report_rows(flows: &FlowAggregator) -> (rows: Vec<ReportRow>)
    ensures
        rows_describe(rows@, flows.order(), flows@),
        rows@.len() == flows@.len(),
{
    let mut rows: Vec<ReportRow> = Vec::new();
    let count = flows.len();
    let mut i: usize = 0;
    while i < count
        invariant
            count == flows.order().len(),
            i <= count,
            rows.len() == i,
            forall|j: int|
                0 <= j < i ==> (#[trigger] rows@[j]).describes(
                    flows.order()[j],
                    flows@[flows.order()[j]],
                ),
        decreases count - i,
    {
        let flow = flows.flow_at(i);
        let row = ReportRow {
            network_source: flow.0.network_source.clone(),
            network_destination: flow.0.network_destination.clone(),
            transport_source: flow.0.transport_source.clone(),
            transport_destination: flow.0.transport_destination.clone(),
            protocols: copy_texts(flow.1.protocols()),
            total_bytes: flow.1.total_bytes(),
            first_seen: flow.1.first_seen(),
            last_seen: flow.1.last_seen(),
        };
        rows.push(row);
        i += 1;
    }
    rows
}

/// Takes everything out of the aggregator and says what is to be written
/// for it: a first generation creates the file anew and starts it with a
/// header row; a later one continues the file, without a header. Either way
/// the report has one row for each flow that had been accumulated, and the
/// aggregator is left empty, so that no flow is written twice.
pub fn generate_report(flows: &mut FlowAggregator, first_generation: bool) -> (report: Report)
    ensures
        final(flows)@ == Map::<FlowKeyView, FlowStatsView>::empty(),
        final(flows).order() == Seq::<FlowKeyView>::empty(),
        report.truncate == first_generation,
        report.header == first_generation,
        rows_describe(report.rows@, old(flows).order(), old(flows)@),
        report.rows@.len() == old(flows)@.len(),
{
    let drained = flows.drain();
    let rows = report_rows(&drained);
    Report { truncate: first_generation, header: first_generation, rows }
}

/// The result of a report generation, given how the writing ended: the flag
/// that the writer returned, or `ReportGenerationFailed` with the writer's
/// cause.
pub fn report_result(written: Result<bool, String>) -> (result: Result<bool, SniffingError>)
    ensures
        match written {
            Ok(flag) => result == Ok::<bool, SniffingError>(flag),
            Err(cause) => result is Err && result->Err_0@ == ErrorView::ReportGenerationFailed(
                report_failed_prefix() + cause@,
            ),
        },
{
    match written {
        Ok(flag) => Ok(flag),
        Err(cause) => Err(SniffingError::report_generation_failed(cause.as_str())),
    }
}

} // verus!
