//! Scheduled events: files in the events directory that start a run in a
//! chat, at once, at a given time, or on a cron schedule. Reading the
//! directory and the files is the frontend's work; what each event asks
//! for is decided here.
use vstd::prelude::*;
use vstd::string::StringExecFns;
use crate::telegram::send_file::{extension_of, path_extension};

verus! {

/// Event types supported by the watcher.
#[derive(Clone, Debug)]
pub enum ScheduledEvent {
    /// Run immediately once, then delete the file.
    Immediate { channel_id: i64, text: String },
    /// Run at a specific date-time, then delete the file.
    OneShot { channel_id: i64, text: String, at: String },
    /// Run on a cron schedule. The file is kept.
    Periodic { channel_id: i64, text: String, schedule: String, timezone: Option<String> },
}

/// Whether a file of the events directory is read: its extension is `json`.
pub open spec fn is_event_path(path: Seq<char>) -> bool {
    extension_of(path) == Some("json"@)
}

/// Whether the file at `path` is an event file.
pub fn is_event_file(path: &str) -> (r: bool)
    ensures
        r == is_event_path(path@),
{
    match path_extension(path) {
        Some(e) => {
            let json = String::from_str("json");
            e == json
        },
        None => false,
    }
}

/// A point in time: seconds since the Unix epoch and nanoseconds.
pub open spec fn instant_nanos(t: (i64, u32)) -> int {
    t.0 * 1_000_000_000 + t.1
}

/// The instant an RFC 3339 date-time stands for, if it is one.
pub uninterp spec fn rfc3339_instant(text: Seq<char>) -> Option<(i64, u32)>;

/// Whether a cron expression parses.
pub uninterp spec fn cron_expression_valid(expression: Seq<char>) -> bool;

#[verifier::external_type_specification]
#[verifier::external_body]
pub struct ExCronSchedule(cron::Schedule);

/// `chrono::DateTime::parse_from_rfc3339`, read as seconds and
/// nanoseconds since the epoch; the result is named, not described.
#[verifier::external_body]
fn parse_rfc3339(text: &str) -> (r: Option<(i64, u32)>)
    ensures
        r == rfc3339_instant(text@),
{
    match chrono::DateTime::parse_from_rfc3339(text) {
        Ok(dt) => Some((dt.timestamp(), dt.timestamp_subsec_nanos())),
        Err(_) => None,
    }
}

/// `cron::Schedule::from_str`: the schedule, when the expression parses.
#[verifier::external_body]
fn parse_cron(expression: &str) -> (r: Option<cron::Schedule>)
    ensures
        r is Some <==> cron_expression_valid(expression@),
{
    <cron::Schedule as std::str::FromStr>::from_str(expression).ok()
}

/// The next time the schedule fires from now on (in UTC), if any. It
/// depends on the clock, so nothing is stated of it.
#[verifier::external_body]
fn next_cron_fire(schedule: &cron::Schedule) -> (r: Option<(i64, u32)>) {
    schedule.upcoming(chrono::Utc).next().map(|t| (t.timestamp(), t.timestamp_subsec_nanos()))
}

/// The current time (`chrono::Utc::now`). It depends on the clock, so
/// nothing is stated of it.
#[verifier::external_body]
fn utc_now() -> (r: (i64, u32)) {
    let t = chrono::Utc::now();
    (t.timestamp(), t.timestamp_subsec_nanos())
}

/// What the watcher does with an event file.
#[derive(Debug, PartialEq, Eq)]
pub enum EventDecision {
    /// The file cannot be used (bad date-time or schedule): leave it.
    Invalid,
    /// Not due yet: leave it.
    NotDue,
    /// Start a run in the chat with the text; delete the file if asked.
    Trigger { channel_id: i64, text: String, remove_file: bool },
}

/// How far the next firing of a periodic event may be from now for it to
/// run: within 30 whole seconds, either way.
pub open spec fn within_window(next: (i64, u32), now: (i64, u32)) -> bool {
    let d = instant_nanos(next) - instant_nanos(now);
    -31_000_000_000 < d < 31_000_000_000
}

/// What the watcher does with an event, given the time read for it: the
/// date-time of a one-shot event, or the schedule's validity and next
/// firing of a periodic one.
pub open spec fn decision_for(
    event: ScheduledEvent,
    now: (i64, u32),
    at: Option<(i64, u32)>,
    schedule_valid: bool,
    next: Option<(i64, u32)>,
) -> EventDecision {
    match event {
        ScheduledEvent::Immediate { channel_id, text } =>
            EventDecision::Trigger { channel_id, text, remove_file: true },
        ScheduledEvent::OneShot { channel_id, text, .. } => match at {
            None => EventDecision::Invalid,
            Some(t) => if instant_nanos(t) <= instant_nanos(now) {
                EventDecision::Trigger { channel_id, text, remove_file: true }
            } else {
                EventDecision::NotDue
            },
        },
        ScheduledEvent::Periodic { channel_id, text, .. } => if !schedule_valid {
            EventDecision::Invalid
        } else {
            match next {
                Some(n) => if within_window(n, now) {
                    EventDecision::Trigger { channel_id, text, remove_file: false }
                } else {
                    EventDecision::NotDue
                },
                None => EventDecision::NotDue,
            }
        },
    }
}

fn nanos_between(a: (i64, u32), b: (i64, u32)) -> (r: i128)
    ensures
        r == instant_nanos(a) - instant_nanos(b),
{
    let secs: i128 = a.0 as i128 - b.0 as i128;
    assert(-0x1_0000_0000_0000_0000 <= secs <= 0x1_0000_0000_0000_0000);
    assert(-0x1_0000_0000_0000_0000 * 1_000_000_000 <= secs * 1_000_000_000 <= 0x1_0000_0000_0000_0000 * 1_000_000_000)
        by (nonlinear_arith)
        requires -0x1_0000_0000_0000_0000 <= secs <= 0x1_0000_0000_0000_0000;
    let sub: i128 = a.1 as i128 - b.1 as i128;
    secs * 1_000_000_000 + sub
}

/// Decide for an event, given the time read for it (see `decision_for`).
pub fn decide_event(
    event: ScheduledEvent,
    now: (i64, u32),
    at: Option<(i64, u32)>,
    schedule_valid: bool,
    next: Option<(i64, u32)>,
) -> (r: EventDecision)
    ensures
        r == decision_for(event, now, at, schedule_valid, next),
{
    match event {
        ScheduledEvent::Immediate { channel_id, text } =>
            EventDecision::Trigger { channel_id, text, remove_file: true },
        ScheduledEvent::OneShot { channel_id, text, .. } => match at {
            None => EventDecision::Invalid,
            Some(t) => if nanos_between(t, now) <= 0 {
                EventDecision::Trigger { channel_id, text, remove_file: true }
            } else {
                EventDecision::NotDue
            },
        },
        ScheduledEvent::Periodic { channel_id, text, .. } => if !schedule_valid {
            EventDecision::Invalid
        } else {
            match next {
                Some(n) => {
                    let d = nanos_between(n, now);
                    if -31_000_000_000 < d && d < 31_000_000_000 {
                        EventDecision::Trigger { channel_id, text, remove_file: false }
                    } else {
                        EventDecision::NotDue
                    }
                },
                None => EventDecision::NotDue,
            }
        },
    }
}

/// Read the time an event needs (its date-time, or whether its schedule
/// parses and when it fires next, and the clock) and decide for it. What
/// comes is `decision_for` on the times read; the clock is not stated, so
/// the contract holds for whatever time was read.
pub fn check_event(event: ScheduledEvent) -> (r: EventDecision)
    ensures
        event is Immediate ==> r == decision_for(event, (0, 0), None, false, None),
        event matches ScheduledEvent::OneShot { at, .. } ==> exists|now: (i64, u32)|
            r == #[trigger] decision_for(event, now, rfc3339_instant(at@), false, None),
        event matches ScheduledEvent::Periodic { schedule, .. } ==> exists|now: (i64, u32), next: Option<(i64, u32)>|
            r == #[trigger] decision_for(event, now, None, cron_expression_valid(schedule@), next),
{
    let now = utc_now();
    match &event {
        ScheduledEvent::Immediate { .. } => decide_event(event, now, None, false, None),
        ScheduledEvent::OneShot { at, .. } => {
            let t = parse_rfc3339(at.as_str());
            decide_event(event, now, t, false, None)
        },
        ScheduledEvent::Periodic { schedule, .. } => match parse_cron(schedule.as_str()) {
            None => decide_event(event, now, None, false, None),
            Some(s) => {
                let next = next_cron_fire(&s);
                decide_event(event, now, None, true, next)
            },
        },
    }
}

} // verus!
