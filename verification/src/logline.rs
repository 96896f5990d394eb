//! The audit log's line format, its parser, and the proof that a written
//! line reads back to the fields it was written from.
//!
//! One line per cycle:
//! `<timestamp>,<total with 2 decimals>s total, reason: <label>, status: <code>`

use vstd::prelude::*;
use crate::classify::{label_of, label_str, lemma_label_props, spec_label, spec_label_of,
    Classification};
use crate::digits::{all_digits, dec_digits, dec_string, digit_val, digit_value, digits_value,
    find_char, find_from, fixed_digits, fixed_string, is_digit, lemma_dec_digits_len,
    lemma_dec_digits_props, lemma_digits_value_bound, lemma_find_from_exact,
    lemma_fixed_digits_props, match_at, parse_digits, pow10};
use crate::measure::{CycleMeasurement, MAX_TIME_CENTIS};
use crate::timestamp::{lemma_timestamp_round_trip, lemma_timestamp_seq_len, parse_timestamp,
    spec_parse_timestamp, spec_timestamp_seq, timestamp_string, Timestamp};

verus! {

/// A centisecond count as seconds with exactly two decimals: `SS.FF`.
pub open spec fn spec_seconds_seq(total: int) -> Seq<char> {
    dec_digits(total / 100) + "."@ + fixed_digits(total % 100, 2)
}

/// Render centiseconds as seconds with two decimals.
pub fn seconds_string(total: i64) -> (r: String)
    requires
        0 <= total,
    ensures
        r@ == spec_seconds_seq(total as int),
{
    let mut r = dec_string((total / 100) as u64);
    r.append(".");
    let frac = fixed_string((total % 100) as u64, 2);
    r.append(frac.as_str());
    proof {
        assert(r@ =~= spec_seconds_seq(total as int));
    }
    r
}

/// The full log line for one cycle's fields.
pub open spec fn spec_log_line(ts: Timestamp, total: int, c: Classification, status: int) -> Seq<
    char,
> {
    spec_timestamp_seq(ts) + ","@ + spec_seconds_seq(total) + "s total, reason: "@ + spec_label(c)
        + ", status: "@ + dec_digits(status)
}

/// Render the log line for one cycle.
pub fn format_log_line(m: &CycleMeasurement, c: Classification) -> (r: String)
    requires
        m.wf(),
    ensures
        r@ == spec_log_line(m.timestamp, m.total_time as int, c, m.status_code as int),
{
    let mut r = timestamp_string(&m.timestamp);
    r.append(",");
    let secs = seconds_string(m.total_time);
    r.append(secs.as_str());
    r.append("s total, reason: ");
    r.append(label_str(c));
    r.append(", status: ");
    let st = dec_string(m.status_code as u64);
    r.append(st.as_str());
    proof {
        assert(r@ =~= spec_log_line(m.timestamp, m.total_time as int, c, m.status_code as int));
    }
    r
}

/// The fields one log line records.
#[derive(Clone, Copy, Debug, PartialEq, Eq, Structural)]
pub struct ParsedLine {
    pub timestamp: Timestamp,
    pub total_time: i64,
    pub classification: Classification,
    pub status_code: u16,
}

/// The fields a log line denotes, if it has the written shape: a
/// 19-character timestamp, a comma, seconds with two decimals, the fixed
/// separators, a known label, and a status code.
pub open spec fn spec_parse_log_line(s: Seq<char>) -> Option<ParsedLine> {
    if s.len() < 20 || s[19] != ',' {
        None
    } else {
        match spec_parse_timestamp(s.subrange(0, 19)) {
            Option::None => None,
            Option::Some(ts) => match find_from(s, 20, '.') {
                Option::None => None,
                Option::Some(dot) => {
                    if !(20 < dot && dot - 20 <= 14 && all_digits(s.subrange(20, dot))) {
                        None
                    } else if !(dot + 20 <= s.len()) {
                        None
                    } else if !(is_digit(s[dot + 1]) && is_digit(s[dot + 2])) {
                        None
                    } else if s.subrange(dot + 3, dot + 20) != "s total, reason: "@ {
                        None
                    } else {
                        match find_from(s, dot + 20, ',') {
                            Option::None => None,
                            Option::Some(k) => match spec_label_of(s.subrange(dot + 20, k)) {
                                Option::None => None,
                                Option::Some(c) => {
                                    if !(k + 10 <= s.len() && s.subrange(k, k + 10)
                                        == ", status: "@) {
                                        None
                                    } else if !(k + 10 < s.len() && s.len() - (k + 10) <= 5
                                        && all_digits(s.subrange(k + 10, s.len() as int))) {
                                        None
                                    } else {
                                        let status = digits_value(
                                            s.subrange(k + 10, s.len() as int),
                                        );
                                        let total = digits_value(s.subrange(20, dot)) * 100
                                            + digit_value(s[dot + 1]) * 10 + digit_value(
                                            s[dot + 2],
                                        );
                                        if status <= 65535 && total <= MAX_TIME_CENTIS {
                                            Some(
                                                ParsedLine {
                                                    timestamp: ts,
                                                    total_time: total as i64,
                                                    classification: c,
                                                    status_code: status as u16,
                                                },
                                            )
                                        } else {
                                            None
                                        }
                                    }
                                },
                            },
                        }
                    }
                },
            },
        }
    }
}

/// Read the fields back from a log line.
pub fn parse_log_line(s: &str) -> (r: Option<ParsedLine>)
    ensures
        r == spec_parse_log_line(s@),
{
    let len = s.unicode_len();
    if len < 20 {
        return None;
    }
    if s.get_char(19) != ',' {
        return None;
    }
    let head = s.substring_char(0, 19);
    let ts = match parse_timestamp(head) {
        Some(ts) => ts,
        None => {
            return None;
        },
    };
    let dot = match find_char(s, 20, '.') {
        Some(d) => d,
        None => {
            return None;
        },
    };
    if !(20 < dot && dot - 20 <= 14) {
        return None;
    }
    if len - dot < 20 {
        return None;
    }
    let secs = match parse_digits(s, 20, dot) {
        Some(v) => v,
        None => {
            return None;
        },
    };
    let d1 = digit_val(s.get_char(dot + 1));
    let d2 = digit_val(s.get_char(dot + 2));
    if d1 >= 10 || d2 >= 10 {
        return None;
    }
    proof {
        reveal_strlit("s total, reason: ");
    }
    if !match_at(s, dot + 3, "s total, reason: ") {
        return None;
    }
    let k = match find_char(s, dot + 20, ',') {
        Some(k) => k,
        None => {
            return None;
        },
    };
    let c = match label_of(s, dot + 20, k) {
        Some(c) => c,
        None => {
            return None;
        },
    };
    proof {
        reveal_strlit(", status: ");
    }
    if len - k < 10 {
        return None;
    }
    if !match_at(s, k, ", status: ") {
        return None;
    }
    let st = k + 10;
    if !(st < len) {
        return None;
    }
    if len - st > 5 {
        return None;
    }
    let status = match parse_digits(s, st, len) {
        Some(v) => v,
        None => {
            return None;
        },
    };
    proof {
        lemma_digits_value_bound(s@.subrange(20, dot as int));
        lemma_digits_value_bound(s@.subrange(st as int, len as int));
        reveal_with_fuel(pow10, 16);
        crate::digits::lemma_pow10_increases((dot - 20) as int, 14);
    }
    let total = secs * 100 + d1 * 10 + d2;
    if status > 65535 {
        return None;
    }
    if total > MAX_TIME_CENTIS as u64 {
        return None;
    }
    Some(
        ParsedLine {
            timestamp: ts,
            total_time: total as i64,
            classification: c,
            status_code: status as u16,
        },
    )
}

/// The round trip: a log line written from a well-formed cycle's fields
/// parses back to exactly those fields.
#[verifier::rlimit(100)]
pub proof fn lemma_log_line_round_trip(m: CycleMeasurement, c: Classification)
    requires
        m.wf(),
    ensures
        spec_parse_log_line(spec_log_line(m.timestamp, m.total_time as int, c, m.status_code as int))
            == Some(
            ParsedLine {
                timestamp: m.timestamp,
                total_time: m.total_time,
                classification: c,
                status_code: m.status_code,
            },
        ),
{
    let ts = m.timestamp;
    let total = m.total_time as int;
    let status = m.status_code as int;
    let tss = spec_timestamp_seq(ts);
    let secs = dec_digits(total / 100);
    let frac = fixed_digits(total % 100, 2);
    let lab = spec_label(c);
    let stat = dec_digits(status);
    let sep1 = "s total, reason: "@;
    let sep2 = ", status: "@;
    let s = spec_log_line(ts, total, c, status);
    reveal_strlit(",");
    reveal_strlit(".");
    reveal_strlit("s total, reason: ");
    reveal_strlit(", status: ");
    reveal_with_fuel(pow10, 16);
    lemma_timestamp_seq_len(ts);
    lemma_dec_digits_props(total / 100);
    lemma_dec_digits_len(total / 100, 14);
    lemma_fixed_digits_props(total % 100, 2);
    lemma_label_props(c);
    lemma_dec_digits_props(status);
    lemma_dec_digits_len(status, 5);
    let ls = secs.len() as int;
    let ll = lab.len() as int;
    let lt = stat.len() as int;
    assert(sep1.len() == 17);
    assert(sep2.len() == 10);
    assert(s.len() == 50 + ls + ll + lt);
    // the timestamp field and its trailing comma
    assert(s.subrange(0, 19) =~= tss);
    assert(s[19] == ',');
    lemma_timestamp_round_trip(ts);
    assert(spec_parse_timestamp(s.subrange(0, 19)) == Some(ts));
    // the first dot is the decimal point, right after the seconds digits
    let dot = 20 + ls;
    assert(s.subrange(20, dot) =~= secs);
    assert forall|k: int| 20 <= k < dot implies #[trigger] s[k] != '.' by {
        assert(s[k] == secs[k - 20]);
        assert(is_digit(secs[k - 20]));
    }
    assert(s[dot] == '.');
    lemma_find_from_exact(s, 20, dot, '.');
    assert(find_from(s, 20, '.') == Some(dot));
    assert(20 < dot && dot - 20 <= 14);
    // the two decimals
    assert(s[dot + 1] == frac[0]);
    assert(s[dot + 2] == frac[1]);
    assert(is_digit(frac[0]) && is_digit(frac[1]));
    // the fixed separator before the label
    assert(dot + 20 <= s.len());
    assert(s.subrange(dot + 3, dot + 20) =~= sep1);
    // the first comma after the label starts the status separator
    let k = dot + 20 + ll;
    assert(s.subrange(dot + 20, k) =~= lab);
    assert forall|j: int| dot + 20 <= j < k implies #[trigger] s[j] != ',' by {
        assert(s[j] == lab[j - (dot + 20)]);
    }
    assert(s[k] == sep2[0]);
    assert(s[k] == ',');
    lemma_find_from_exact(s, dot + 20, k, ',');
    assert(find_from(s, dot + 20, ',') == Some(k));
    assert(spec_label_of(s.subrange(dot + 20, k)) == Some(c));
    // the status separator and the status digits
    assert(k + 10 <= s.len());
    assert(s.subrange(k, k + 10) =~= sep2);
    assert(k + 10 < s.len());
    assert(s.len() - (k + 10) == lt);
    assert(lt <= 5);
    assert(s.subrange(k + 10, s.len() as int) =~= stat);
    assert(digits_value(stat) == status);
    // the total reads back from the seconds and the two decimals
    assert(digits_value(s.subrange(20, dot)) == total / 100);
    assert(frac.drop_last() =~= seq![frac[0]]);
    assert(seq![frac[0]].drop_last() =~= Seq::<char>::empty());
    assert(digits_value(Seq::<char>::empty()) == 0);
    assert(digits_value(seq![frac[0]]) == digit_value(frac[0]));
    assert(digits_value(frac) == digit_value(frac[0]) * 10 + digit_value(frac[1]));
    assert(pow10(2) == 100);
    assert(digits_value(frac) == (total % 100) % 100);
    assert((total % 100) % 100 == total % 100);
    assert(digits_value(frac) == total % 100);
    assert(digits_value(s.subrange(20, dot)) * 100 + digit_value(s[dot + 1]) * 10 + digit_value(
        s[dot + 2],
    ) == (total / 100) * 100 + total % 100);
    assert((total / 100) * 100 + total % 100 == total);
}

} // verus!
