//! Per-cycle reporting: the alert decision, the notification and console
//! text, and the assembly of one cycle's complete output.
//!
//! The caller performs the writes: it appends the log line to the audit
//! file (a failure there is fatal to the monitor), prints the console line,
//! and delivers the notification best-effort.

use vstd::prelude::*;
use crate::classify::{classify, label_str, spec_classify, spec_label, Classification};
use crate::logline::{format_log_line, seconds_string, spec_log_line, spec_seconds_seq};
use crate::measure::{CycleMeasurement, CONNECT_OFFSET, MAX_TIME_CENTIS, UNREACHABLE_STATUS};
use crate::timestamp::{spec_timestamp_seq, timestamp_string, Timestamp};

verus! {

/// What a cycle's outcome asks of the alert sink.
#[derive(Clone, Copy, Debug, PartialEq, Eq, Structural)]
pub enum AlertDecision {
    /// The request produced no HTTP response: alert that the site is down.
    Down,
    /// The request succeeded but took too long: alert that the site is slow.
    Slow,
    /// Nothing to alert.
    Quiet,
}

/// The alert policy: unreachable beats slow; a reachable site within the
/// total-time threshold raises nothing.
pub open spec fn spec_alert(status: int, total: int) -> AlertDecision {
    if status == UNREACHABLE_STATUS {
        AlertDecision::Down
    } else if total > crate::classify::TOTAL_THRESHOLD {
        AlertDecision::Slow
    } else {
        AlertDecision::Quiet
    }
}

/// Decide what to alert for one cycle's status code and total time.
pub fn decide_alert(status: u16, total: i64) -> (r: AlertDecision)
    ensures
        r == spec_alert(status as int, total as int),
{
    if status == UNREACHABLE_STATUS {
        AlertDecision::Down
    } else if total > crate::classify::TOTAL_THRESHOLD {
        AlertDecision::Slow
    } else {
        AlertDecision::Quiet
    }
}

/// A desktop notification: a title and a body, delivered fire-and-forget.
pub struct Notification {
    pub title: String,
    pub body: String,
}

/// The notification a cycle raises, if any: title and body text.
pub open spec fn spec_notification(m: CycleMeasurement, c: Classification) -> Option<
    (Seq<char>, Seq<char>),
> {
    match spec_alert(m.status_code as int, m.total_time as int) {
        AlertDecision::Down => Some(("Site Down"@, spec_label(c))),
        AlertDecision::Slow => Some(
            (
                "Site Slow"@,
                spec_label(c) + " ("@ + spec_seconds_seq(m.total_time as int) + "s)"@,
            ),
        ),
        AlertDecision::Quiet => None,
    }
}

/// Build the notification for one cycle; `None` exactly when the cycle
/// raises no alert.
pub fn notification_for(m: &CycleMeasurement, c: Classification) -> (r: Option<Notification>)
    requires
        m.wf(),
    ensures
        r matches Some(n) ==> spec_notification(*m, c) == Some((n.title@, n.body@)),
        r is None ==> spec_notification(*m, c) is None,
{
    match decide_alert(m.status_code, m.total_time) {
        AlertDecision::Down => {
            let title = String::from_str("Site Down");
            let body = String::from_str(label_str(c));
            Some(Notification { title, body })
        },
        AlertDecision::Slow => {
            let title = String::from_str("Site Slow");
            let mut body = String::from_str(label_str(c));
            body.append(" (");
            let secs = seconds_string(m.total_time);
            body.append(secs.as_str());
            body.append("s)");
            proof {
                assert(body@ =~= spec_label(c) + " ("@ + spec_seconds_seq(m.total_time as int)
                    + "s)"@);
            }
            Some(Notification { title, body })
        },
        AlertDecision::Quiet => None,
    }
}

/// The console line for one cycle: an error line when the site is
/// unreachable, a warning line when it is slow, a success line otherwise.
pub open spec fn spec_console_line(m: CycleMeasurement, c: Classification) -> Seq<char> {
    match spec_alert(m.status_code as int, m.total_time as int) {
        AlertDecision::Down => "[ERROR] ["@ + spec_timestamp_seq(m.timestamp)
            + "] Site unreachable. "@ + spec_label(c),
        AlertDecision::Slow => "[WARN] ["@ + spec_timestamp_seq(m.timestamp) + "] Slow response: "@
            + spec_seconds_seq(m.total_time as int) + "s (HTTP "@ + crate::digits::dec_digits(
            m.status_code as int,
        ) + "), "@ + spec_label(c),
        AlertDecision::Quiet => "[OK] ["@ + spec_timestamp_seq(m.timestamp) + "] OK: "@
            + spec_seconds_seq(m.total_time as int) + "s (HTTP "@ + crate::digits::dec_digits(
            m.status_code as int,
        ) + "), "@ + spec_label(c),
    }
}

/// Render the console line for one cycle.
pub fn console_line(m: &CycleMeasurement, c: Classification) -> (r: String)
    requires
        m.wf(),
    ensures
        r@ == spec_console_line(*m, c),
{
    match decide_alert(m.status_code, m.total_time) {
        AlertDecision::Down => {
            let mut r = String::from_str("[ERROR] [");
            let ts = timestamp_string(&m.timestamp);
            r.append(ts.as_str());
            r.append("] Site unreachable. ");
            r.append(label_str(c));
            proof {
                assert(r@ =~= spec_console_line(*m, c));
            }
            r
        },
        AlertDecision::Slow => {
            let mut r = String::from_str("[WARN] [");
            let ts = timestamp_string(&m.timestamp);
            r.append(ts.as_str());
            r.append("] Slow response: ");
            let secs = seconds_string(m.total_time);
            r.append(secs.as_str());
            r.append("s (HTTP ");
            let code = crate::digits::dec_string(m.status_code as u64);
            r.append(code.as_str());
            r.append("), ");
            r.append(label_str(c));
            proof {
                assert(r@ =~= spec_console_line(*m, c));
            }
            r
        },
        AlertDecision::Quiet => {
            let mut r = String::from_str("[OK] [");
            let ts = timestamp_string(&m.timestamp);
            r.append(ts.as_str());
            r.append("] OK: ");
            let secs = seconds_string(m.total_time);
            r.append(secs.as_str());
            r.append("s (HTTP ");
            let code = crate::digits::dec_string(m.status_code as u64);
            r.append(code.as_str());
            r.append("), ");
            r.append(label_str(c));
            proof {
                assert(r@ =~= spec_console_line(*m, c));
            }
            r
        },
    }
}

/// Everything one cycle produces, ready for the caller's sinks.
pub struct CycleReport {
    pub measurement: CycleMeasurement,
    pub classification: Classification,
    pub log_line: String,
    pub console: String,
    pub notification: Option<Notification>,
}

/// Evaluate one cycle from the two measured durations, the status code and
/// the completion time: derive the synthetic breakdown, classify it, and
/// render the log line, the console line and the notification.
pub fn evaluate_cycle(dns_time: i64, total_time: i64, status_code: u16, timestamp: Timestamp) -> (r:
    CycleReport)
    requires
        0 <= dns_time <= MAX_TIME_CENTIS,
        0 <= total_time <= MAX_TIME_CENTIS,
        timestamp.wf(),
    ensures
        r.measurement == CycleMeasurement::spec_new(dns_time, total_time, status_code, timestamp),
        r.measurement.wf(),
        r.classification == spec_classify(
            dns_time as int,
            dns_time + CONNECT_OFFSET,
            total_time - (dns_time + CONNECT_OFFSET),
            total_time as int,
        ),
        r.log_line@ == spec_log_line(
            timestamp,
            total_time as int,
            r.classification,
            status_code as int,
        ),
        r.console@ == spec_console_line(r.measurement, r.classification),
        r.notification matches Some(n) ==> spec_notification(r.measurement, r.classification)
            == Some((n.title@, n.body@)),
        r.notification is None ==> spec_notification(r.measurement, r.classification) is None,
{
    let m = CycleMeasurement::new(dns_time, total_time, status_code, timestamp);
    let c = classify(m.dns_time, m.connect_time, m.ssl_time, m.total_time);
    let log_line = format_log_line(&m, c);
    let console = console_line(&m, c);
    let notification = notification_for(&m, c);
    CycleReport { measurement: m, classification: c, log_line, console, notification }
}

} // verus!
