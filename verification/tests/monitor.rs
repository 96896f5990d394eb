use site_monitor::classify::{classify, label_str, Classification};
use site_monitor::clock::current_timestamp;
use site_monitor::logline::{parse_log_line, seconds_string, ParsedLine};
use site_monitor::measure::CycleMeasurement;
use site_monitor::report::{decide_alert, evaluate_cycle, AlertDecision};
use site_monitor::timestamp::{timestamp_string, Timestamp};

fn ts() -> Timestamp {
    Timestamp::new(2024, 5, 6, 7, 8, 9).unwrap()
}

// All times are centiseconds: 0.1 s is 10, 5.0 s is 500.

#[test]
fn classify_normal_fast_cycle() {
    assert_eq!(classify(10, 60, 10, 80), Classification::Normal);
}

#[test]
fn classify_dns_rule_wins_over_later_matches() {
    // ssl and total also exceed their thresholds; the DNS rule still wins.
    assert_eq!(classify(250, 300, 400, 600), Classification::DnsDelay);
}

#[test]
fn classify_tls_delay() {
    assert_eq!(classify(10, 60, 350, 400), Classification::TlsDelay);
}

#[test]
fn classify_dns_rule_ignores_other_values() {
    assert_eq!(classify(201, 0, 0, 0), Classification::DnsDelay);
    assert_eq!(classify(10_000, -50, 99_999, 1), Classification::DnsDelay);
}

#[test]
fn classify_connect_rule_is_second() {
    assert_eq!(classify(200, 301, 999, 999), Classification::RoutingDelay);
    assert_eq!(classify(0, 301, 0, 0), Classification::RoutingDelay);
}

#[test]
fn classify_backend_delay_and_threshold_boundary() {
    assert_eq!(classify(0, 0, 0, 501), Classification::BackendDelay);
    assert_eq!(classify(0, 0, 0, 500), Classification::Normal);
}

#[test]
fn classify_negative_ssl_falls_through() {
    // The synthetic TLS estimate can be negative; it never matches its rule.
    assert_eq!(classify(10, 60, -100, 501), Classification::BackendDelay);
    assert_eq!(classify(10, 60, -100, 80), Classification::Normal);
}

#[test]
fn labels_match_the_fixed_set() {
    assert_eq!(label_str(Classification::DnsDelay), "DNS delay");
    assert_eq!(label_str(Classification::RoutingDelay), "routing/firewall delay");
    assert_eq!(label_str(Classification::TlsDelay), "TLS handshake delay");
    assert_eq!(label_str(Classification::BackendDelay), "backend/application delay");
    assert_eq!(label_str(Classification::Normal), "normal");
}

#[test]
fn measurement_derives_synthetic_breakdown() {
    let m = CycleMeasurement::new(10, 30, 200, ts());
    assert_eq!(m.connect_time, 60);
    assert_eq!(m.ssl_time, 30 - 60);
    assert_eq!(m.ssl_time, m.total_time - (m.dns_time + 50));
}

#[test]
fn timestamp_renders_fixed_width() {
    assert_eq!(timestamp_string(&ts()), "2024-05-06 07:08:09");
}

#[test]
fn timestamp_rejects_out_of_range_fields() {
    assert_eq!(Timestamp::new(2024, 13, 6, 7, 8, 9), None);
    assert_eq!(Timestamp::new(2024, 0, 6, 7, 8, 9), None);
    assert_eq!(Timestamp::new(999, 5, 6, 7, 8, 9), None);
    assert_eq!(Timestamp::new(10_000, 5, 6, 7, 8, 9), None);
    assert_eq!(Timestamp::new(2024, 5, 6, 24, 8, 9), None);
    assert_eq!(Timestamp::new(2024, 5, 6, 7, 60, 9), None);
    assert_eq!(Timestamp::new(2024, 5, 6, 7, 8, 60), None);
    assert!(Timestamp::new(2024, 12, 31, 23, 59, 59).is_some());
}

#[test]
fn seconds_render_with_two_decimals() {
    assert_eq!(seconds_string(550), "5.50");
    assert_eq!(seconds_string(5), "0.05");
    assert_eq!(seconds_string(0), "0.00");
    assert_eq!(seconds_string(100_000), "1000.00");
}

#[test]
fn alert_policy() {
    assert_eq!(decide_alert(0, 0), AlertDecision::Down);
    assert_eq!(decide_alert(0, 9_999), AlertDecision::Down);
    assert_eq!(decide_alert(200, 501), AlertDecision::Slow);
    assert_eq!(decide_alert(200, 500), AlertDecision::Quiet);
    assert_eq!(decide_alert(500, 100), AlertDecision::Quiet);
}

#[test]
fn failed_request_logs_status_zero_and_alerts_down() {
    let report = evaluate_cycle(10, 30, 0, ts());
    assert_eq!(report.log_line, "2024-05-06 07:08:09,0.30s total, reason: normal, status: 0");
    assert!(report.log_line.contains("status: 0"));
    let n = report.notification.expect("an unreachable cycle must notify");
    assert!(n.title.contains("Down"));
    assert_eq!(n.title, "Site Down");
    assert_eq!(n.body, "normal");
    assert!(report.console.starts_with("[ERROR]"));
}

#[test]
fn slow_cycle_alerts_slow_and_fast_cycle_stays_quiet() {
    // dns 2.0 s keeps the TLS estimate at its threshold, so the total rule fires.
    let slow = evaluate_cycle(200, 550, 200, ts());
    assert_eq!(slow.classification, Classification::BackendDelay);
    let n = slow.notification.expect("a slow cycle must notify");
    assert!(n.title.contains("Slow"));
    assert_eq!(n.title, "Site Slow");
    assert_eq!(n.body, "backend/application delay (5.50s)");
    assert!(slow.console.starts_with("[WARN]"));

    let fast = evaluate_cycle(200, 490, 200, ts());
    assert!(fast.notification.is_none());
    assert!(fast.console.starts_with("[OK]"));
}

#[test]
fn console_line_success_form() {
    let report = evaluate_cycle(10, 30, 200, ts());
    assert_eq!(report.console, "[OK] [2024-05-06 07:08:09] OK: 0.30s (HTTP 200), normal");
}

#[test]
fn log_line_round_trips() {
    let report = evaluate_cycle(200, 550, 404, ts());
    let parsed = parse_log_line(&report.log_line).expect("a written line must parse");
    assert_eq!(
        parsed,
        ParsedLine {
            timestamp: ts(),
            total_time: 550,
            classification: Classification::BackendDelay,
            status_code: 404,
        }
    );
}

#[test]
fn log_line_round_trips_for_each_label() {
    let cases = [
        (250, 300, Classification::DnsDelay),
        (0, 30, Classification::Normal),
        (10, 400, Classification::TlsDelay),
        (200, 550, Classification::BackendDelay),
    ];
    for (dns, total, expected) in cases {
        let report = evaluate_cycle(dns, total, 200, ts());
        assert_eq!(report.classification, expected);
        let parsed = parse_log_line(&report.log_line).unwrap();
        assert_eq!(parsed.classification, expected);
        assert_eq!(parsed.total_time, total);
        assert_eq!(parsed.status_code, 200);
        assert_eq!(parsed.timestamp, ts());
    }
}

#[test]
fn parse_accepts_exact_line() {
    let parsed = parse_log_line("2024-05-06 07:08:09,5.50s total, reason: DNS delay, status: 404");
    assert_eq!(
        parsed,
        Some(ParsedLine {
            timestamp: ts(),
            total_time: 550,
            classification: Classification::DnsDelay,
            status_code: 404,
        })
    );
}

#[test]
fn parse_rejects_malformed_lines() {
    assert_eq!(parse_log_line(""), None);
    assert_eq!(parse_log_line("garbage"), None);
    assert_eq!(parse_log_line("2024-05-06 07:08:09"), None);
    // unknown label
    assert_eq!(
        parse_log_line("2024-05-06 07:08:09,5.50s total, reason: something else, status: 404"),
        None
    );
    // out-of-range month
    assert_eq!(
        parse_log_line("2024-13-06 07:08:09,5.50s total, reason: normal, status: 404"),
        None
    );
    // missing decimals
    assert_eq!(parse_log_line("2024-05-06 07:08:09,5s total, reason: normal, status: 404"), None);
    // status too large for an HTTP code field
    assert_eq!(
        parse_log_line("2024-05-06 07:08:09,5.50s total, reason: normal, status: 99999"),
        None
    );
    // no status digits
    assert_eq!(parse_log_line("2024-05-06 07:08:09,5.50s total, reason: normal, status: "), None);
}

#[test]
fn current_timestamp_is_well_formed() {
    let now = current_timestamp().expect("the clock's year fits four digits");
    assert!((1000..=9999).contains(&now.year));
    assert!((1..=12).contains(&now.month));
    assert!((1..=31).contains(&now.day));
    assert!(now.hour <= 23);
    assert!(now.minute <= 59);
    assert!(now.second <= 59);
}
