//! Machine-readable reports printed to standard output while benchmarks complete.
pub mod json;
pub mod openmetrics;

use self::json::JsonMessageReport;
use self::openmetrics::OpenMetricsMessageReport;
use vstd::prelude::*;

verus! {

/// The machine-readable formats a run can print.
#[derive(Debug, Clone, Copy, PartialEq, Eq, Structural)]
pub enum MessageFormat {
    Json,
    OpenMetrics,
}

/// A machine-readable report in one of the formats.
#[derive(Debug, Clone, Copy, PartialEq, Eq, Structural)]
pub enum MessageReport {
    Json(JsonMessageReport),
    OpenMetrics(OpenMetricsMessageReport),
}

/// The machine-readable report for the chosen format, if one was chosen.
pub fn create_machine_report(message_format: Option<MessageFormat>) -> (r: Option<MessageReport>)
    ensures
        r == match message_format {
            Some(MessageFormat::Json) => Some(MessageReport::Json(JsonMessageReport)),
            Some(MessageFormat::OpenMetrics) => Some(MessageReport::OpenMetrics(OpenMetricsMessageReport)),
            None => None,
        },
{
    match message_format {
        Some(MessageFormat::Json) => Some(MessageReport::Json(JsonMessageReport)),
        Some(MessageFormat::OpenMetrics) => Some(MessageReport::OpenMetrics(OpenMetricsMessageReport)),
        None => None,
    }
}

} // verus!
