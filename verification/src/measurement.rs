//! How much the watch loop saves: the ratios from which the reduction of calls
//! and of payload is computed.
use vstd::prelude::*;

verus! {

/// What was measured before and after.
#[derive(Debug, Clone, Copy, PartialEq, Eq, Structural)]
pub struct MeasurementInput {
    pub task_duration_ms: u64,
    pub old_poll_interval_ms: u64,
    pub new_decision_event_count: u32,
    pub old_avg_payload_bytes: u64,
    pub new_avg_payload_bytes: u64,
}

/// A part of a whole that is not zero.
#[derive(Debug, Clone, Copy, PartialEq, Eq, Structural)]
pub struct Ratio {
    pub part: u64,
    pub whole: u64,
}

/// The ratio, unless there is nothing to compare with.
pub open spec fn ratio(part: u64, whole: u64) -> Option<Ratio> {
    if whole == 0 {
        None
    } else {
        Some(Ratio { part, whole })
    }
}

fn ratio_of(part: u64, whole: u64) -> (r: Option<Ratio>)
    ensures
        r == ratio(part, whole),
{
    if whole == 0 {
        None
    } else {
        Some(Ratio { part, whole })
    }
}

/// How often a loop with a fixed interval called during the task. Without an
/// interval it never did.
pub fn old_call_ratio(input: &MeasurementInput) -> (r: Option<Ratio>)
    ensures
        r == ratio(input.task_duration_ms, input.old_poll_interval_ms),
{
    ratio_of(input.task_duration_ms, input.old_poll_interval_ms)
}

/// The calls that are left of those before: one for each decision event. Where
/// there were none before nothing is saved.
pub fn call_ratio(input: &MeasurementInput, old_call_count: u64) -> (r: Option<Ratio>)
    ensures
        r == ratio(input.new_decision_event_count as u64, old_call_count),
{
    ratio_of(input.new_decision_event_count as u64, old_call_count)
}

/// The payload that is left of that before. Where there was none before nothing
/// is saved.
pub fn payload_ratio(input: &MeasurementInput) -> (r: Option<Ratio>)
    ensures
        r == ratio(input.new_avg_payload_bytes, input.old_avg_payload_bytes),
{
    ratio_of(input.new_avg_payload_bytes, input.old_avg_payload_bytes)
}

/// A ratio never divides by zero.
pub proof fn ratios_have_a_whole(part: u64, whole: u64)
    ensures
        ratio(part, whole) matches Some(r) ==> r.whole > 0 && r.part == part && r.whole == whole,
        ratio(part, whole) is None <==> whole == 0,
{
}

} // verus!
