//! Wall-clock timestamps as plain calendar fields, and their fixed-width
//! `YYYY-MM-DD HH:MM:SS` text form used by the log.

use vstd::prelude::*;
use crate::digits::{
    all_digits, digits_value, fixed_digits, fixed_string, lemma_fixed_digits_props, parse_digits,
    pow10,
};

verus! {

/// A wall-clock instant, second resolution, as the local calendar shows it.
///
/// The year is kept to four digits so the text form has a fixed width.
#[derive(Clone, Copy, Debug, PartialEq, Eq, Structural)]
pub struct Timestamp {
    pub year: u16,
    pub month: u8,
    pub day: u8,
    pub hour: u8,
    pub minute: u8,
    pub second: u8,
}

impl Timestamp {
    /// Field ranges of a representable timestamp.
    pub open spec fn wf(self) -> bool {
        &&& 1000 <= self.year <= 9999
        &&& 1 <= self.month <= 12
        &&& 1 <= self.day <= 31
        &&& self.hour <= 23
        &&& self.minute <= 59
        &&& self.second <= 59
    }

    /// Build a timestamp from unconstrained calendar fields; `None` exactly
    /// when a field falls outside the representable ranges.
    pub fn new(year: i64, month: i64, day: i64, hour: i64, minute: i64, second: i64) -> (r:
        Option<Timestamp>)
        ensures
            r == spec_mk_timestamp(
                year as int,
                month as int,
                day as int,
                hour as int,
                minute as int,
                second as int,
            ),
            r matches Some(ts) ==> ts.wf(),
    {
        if 1000 <= year && year <= 9999 && 1 <= month && month <= 12 && 1 <= day && day <= 31 && 0
            <= hour && hour <= 23 && 0 <= minute && minute <= 59 && 0 <= second && second <= 59 {
            Some(
                Timestamp {
                    year: year as u16,
                    month: month as u8,
                    day: day as u8,
                    hour: hour as u8,
                    minute: minute as u8,
                    second: second as u8,
                },
            )
        } else {
            None
        }
    }
}

/// The timestamp the six calendar fields denote, when each is in range.
pub open spec fn spec_mk_timestamp(
    year: int,
    month: int,
    day: int,
    hour: int,
    minute: int,
    second: int,
) -> Option<Timestamp> {
    if 1000 <= year <= 9999 && 1 <= month <= 12 && 1 <= day <= 31 && 0 <= hour <= 23 && 0 <= minute
        <= 59 && 0 <= second <= 59 {
        Some(
            Timestamp {
                year: year as u16,
                month: month as u8,
                day: day as u8,
                hour: hour as u8,
                minute: minute as u8,
                second: second as u8,
            },
        )
    } else {
        None
    }
}

/// The 19-character text form `YYYY-MM-DD HH:MM:SS`.
pub open spec fn spec_timestamp_seq(ts: Timestamp) -> Seq<char> {
    fixed_digits(ts.year as int, 4) + "-"@ + fixed_digits(ts.month as int, 2) + "-"@
        + fixed_digits(ts.day as int, 2) + " "@ + fixed_digits(ts.hour as int, 2) + ":"@
        + fixed_digits(ts.minute as int, 2) + ":"@ + fixed_digits(ts.second as int, 2)
}

/// The text form is always exactly 19 characters.
pub proof fn lemma_timestamp_seq_len(ts: Timestamp)
    ensures
        spec_timestamp_seq(ts).len() == 19,
{
    lemma_fixed_digits_props(ts.year as int, 4);
    lemma_fixed_digits_props(ts.month as int, 2);
    lemma_fixed_digits_props(ts.day as int, 2);
    lemma_fixed_digits_props(ts.hour as int, 2);
    lemma_fixed_digits_props(ts.minute as int, 2);
    lemma_fixed_digits_props(ts.second as int, 2);
    reveal_strlit("-");
    reveal_strlit(" ");
    reveal_strlit(":");
}

/// Render a timestamp in its `YYYY-MM-DD HH:MM:SS` form.
pub fn timestamp_string(ts: &Timestamp) -> (r: String)
    ensures
        r@ == spec_timestamp_seq(*ts),
{
    let mut r = fixed_string(ts.year as u64, 4);
    r.append("-");
    let part = fixed_string(ts.month as u64, 2);
    r.append(part.as_str());
    r.append("-");
    let part = fixed_string(ts.day as u64, 2);
    r.append(part.as_str());
    r.append(" ");
    let part = fixed_string(ts.hour as u64, 2);
    r.append(part.as_str());
    r.append(":");
    let part = fixed_string(ts.minute as u64, 2);
    r.append(part.as_str());
    r.append(":");
    let part = fixed_string(ts.second as u64, 2);
    r.append(part.as_str());
    proof {
        assert(r@ =~= spec_timestamp_seq(*ts));
    }
    r
}

/// The timestamp a 19-character field denotes, if it has the
/// `YYYY-MM-DD HH:MM:SS` shape with all fields in range.
pub open spec fn spec_parse_timestamp(t: Seq<char>) -> Option<Timestamp> {
    if t.len() == 19 && t[4] == '-' && t[7] == '-' && t[10] == ' ' && t[13] == ':' && t[16] == ':'
        && all_digits(t.subrange(0, 4)) && all_digits(t.subrange(5, 7)) && all_digits(
        t.subrange(8, 10),
    ) && all_digits(t.subrange(11, 13)) && all_digits(t.subrange(14, 16)) && all_digits(
        t.subrange(17, 19),
    ) {
        spec_mk_timestamp(
            digits_value(t.subrange(0, 4)),
            digits_value(t.subrange(5, 7)),
            digits_value(t.subrange(8, 10)),
            digits_value(t.subrange(11, 13)),
            digits_value(t.subrange(14, 16)),
            digits_value(t.subrange(17, 19)),
        )
    } else {
        None
    }
}

/// Read a timestamp back from its text form.
pub fn parse_timestamp(t: &str) -> (r: Option<Timestamp>)
    ensures
        r == spec_parse_timestamp(t@),
{
    if t.unicode_len() != 19 {
        return None;
    }
    if t.get_char(4) != '-' || t.get_char(7) != '-' || t.get_char(10) != ' ' || t.get_char(13)
        != ':' || t.get_char(16) != ':' {
        return None;
    }
    let year = match parse_digits(t, 0, 4) {
        Some(v) => v,
        None => {
            return None;
        },
    };
    let month = match parse_digits(t, 5, 7) {
        Some(v) => v,
        None => {
            return None;
        },
    };
    let day = match parse_digits(t, 8, 10) {
        Some(v) => v,
        None => {
            return None;
        },
    };
    let hour = match parse_digits(t, 11, 13) {
        Some(v) => v,
        None => {
            return None;
        },
    };
    let minute = match parse_digits(t, 14, 16) {
        Some(v) => v,
        None => {
            return None;
        },
    };
    let second = match parse_digits(t, 17, 19) {
        Some(v) => v,
        None => {
            return None;
        },
    };
    proof {
        crate::digits::lemma_digits_value_bound(t@.subrange(0, 4));
        crate::digits::lemma_digits_value_bound(t@.subrange(5, 7));
        crate::digits::lemma_digits_value_bound(t@.subrange(8, 10));
        crate::digits::lemma_digits_value_bound(t@.subrange(11, 13));
        crate::digits::lemma_digits_value_bound(t@.subrange(14, 16));
        crate::digits::lemma_digits_value_bound(t@.subrange(17, 19));
        reveal_with_fuel(pow10, 5);
    }
    Timestamp::new(
        year as i64,
        month as i64,
        day as i64,
        hour as i64,
        minute as i64,
        second as i64,
    )
}

/// A well-formed timestamp survives the trip through its text form.
pub proof fn lemma_timestamp_round_trip(ts: Timestamp)
    requires
        ts.wf(),
    ensures
        spec_parse_timestamp(spec_timestamp_seq(ts)) == Some(ts),
{
    let t = spec_timestamp_seq(ts);
    lemma_fixed_digits_props(ts.year as int, 4);
    lemma_fixed_digits_props(ts.month as int, 2);
    lemma_fixed_digits_props(ts.day as int, 2);
    lemma_fixed_digits_props(ts.hour as int, 2);
    lemma_fixed_digits_props(ts.minute as int, 2);
    lemma_fixed_digits_props(ts.second as int, 2);
    reveal_strlit("-");
    reveal_strlit(" ");
    reveal_strlit(":");
    assert(t.len() == 19);
    assert(t.subrange(0, 4) =~= fixed_digits(ts.year as int, 4));
    assert(t[4] == '-');
    assert(t.subrange(5, 7) =~= fixed_digits(ts.month as int, 2));
    assert(t[7] == '-');
    assert(t.subrange(8, 10) =~= fixed_digits(ts.day as int, 2));
    assert(t[10] == ' ');
    assert(t.subrange(11, 13) =~= fixed_digits(ts.hour as int, 2));
    assert(t[13] == ':');
    assert(t.subrange(14, 16) =~= fixed_digits(ts.minute as int, 2));
    assert(t[16] == ':');
    assert(t.subrange(17, 19) =~= fixed_digits(ts.second as int, 2));
    reveal_with_fuel(pow10, 5);
    assert(digits_value(t.subrange(0, 4)) == (ts.year as int) % 10000 == ts.year as int);
    assert(digits_value(t.subrange(5, 7)) == (ts.month as int) % 100 == ts.month as int);
    assert(digits_value(t.subrange(8, 10)) == (ts.day as int) % 100 == ts.day as int);
    assert(digits_value(t.subrange(11, 13)) == (ts.hour as int) % 100 == ts.hour as int);
    assert(digits_value(t.subrange(14, 16)) == (ts.minute as int) % 100 == ts.minute as int);
    assert(digits_value(t.subrange(17, 19)) == (ts.second as int) % 100 == ts.second as int);
}

} // verus!
