//! Classification policy: maps one cycle's timing measurements to the
//! inferred root cause of any observed slowness.

use vstd::prelude::*;

verus! {

/// Threshold above which DNS resolution is considered delayed, in centiseconds.
pub const DNS_THRESHOLD: i64 = 200;

/// Threshold above which the connect estimate points at routing or a firewall.
pub const CONNECT_THRESHOLD: i64 = 300;

/// Threshold above which the TLS estimate points at the handshake.
pub const SSL_THRESHOLD: i64 = 300;

/// Threshold above which the total time points at the backend.
pub const TOTAL_THRESHOLD: i64 = 500;

/// The inferred root cause of a slow (or normal) cycle.
#[derive(Clone, Copy, Debug, PartialEq, Eq, Structural)]
pub enum Classification {
    DnsDelay,
    RoutingDelay,
    TlsDelay,
    BackendDelay,
    Normal,
}

/// The classification policy. The rules are tried in this order and the
/// first match wins; the thresholds can overlap, so the order is part of
/// the contract.
pub open spec fn spec_classify(dns: int, connect: int, ssl: int, total: int) -> Classification {
    if dns > DNS_THRESHOLD {
        Classification::DnsDelay
    } else if connect > CONNECT_THRESHOLD {
        Classification::RoutingDelay
    } else if ssl > SSL_THRESHOLD {
        Classification::TlsDelay
    } else if total > TOTAL_THRESHOLD {
        Classification::BackendDelay
    } else {
        Classification::Normal
    }
}

/// Classify one cycle from its four timings, all in centiseconds.
///
/// Total and always returns a label; a negative `ssl` (the synthetic
/// estimate can undershoot) simply never exceeds its threshold.
pub fn classify(dns: i64, connect: i64, ssl: i64, total: i64) -> (r: Classification)
    ensures
        r == spec_classify(dns as int, connect as int, ssl as int, total as int),
{
    if dns > DNS_THRESHOLD {
        Classification::DnsDelay
    } else if connect > CONNECT_THRESHOLD {
        Classification::RoutingDelay
    } else if ssl > SSL_THRESHOLD {
        Classification::TlsDelay
    } else if total > TOTAL_THRESHOLD {
        Classification::BackendDelay
    } else {
        Classification::Normal
    }
}

/// The text of a classification, as the log and the notifications carry it.
/// No label contains a comma, so a comma-delimited log line stays
/// unambiguous.
pub open spec fn spec_label(c: Classification) -> Seq<char> {
    match c {
        Classification::DnsDelay => "DNS delay"@,
        Classification::RoutingDelay => "routing/firewall delay"@,
        Classification::TlsDelay => "TLS handshake delay"@,
        Classification::BackendDelay => "backend/application delay"@,
        Classification::Normal => "normal"@,
    }
}

/// The label text of a classification.
pub fn label_str(c: Classification) -> (r: &'static str)
    ensures
        r@ == spec_label(c),
{
    match c {
        Classification::DnsDelay => "DNS delay",
        Classification::RoutingDelay => "routing/firewall delay",
        Classification::TlsDelay => "TLS handshake delay",
        Classification::BackendDelay => "backend/application delay",
        Classification::Normal => "normal",
    }
}

/// The classification a label text denotes, if any.
pub open spec fn spec_label_of(s: Seq<char>) -> Option<Classification> {
    if s == spec_label(Classification::DnsDelay) {
        Some(Classification::DnsDelay)
    } else if s == spec_label(Classification::RoutingDelay) {
        Some(Classification::RoutingDelay)
    } else if s == spec_label(Classification::TlsDelay) {
        Some(Classification::TlsDelay)
    } else if s == spec_label(Classification::BackendDelay) {
        Some(Classification::BackendDelay)
    } else if s == spec_label(Classification::Normal) {
        Some(Classification::Normal)
    } else {
        None
    }
}

/// Every label is nonempty, contains no comma, and denotes its own
/// classification and no other.
pub proof fn lemma_label_props(c: Classification)
    ensures
        spec_label(c).len() >= 1,
        forall|k: int| 0 <= k < spec_label(c).len() ==> #[trigger] spec_label(c)[k] != ',',
        spec_label_of(spec_label(c)) == Some(c),
{
    reveal_strlit("DNS delay");
    reveal_strlit("routing/firewall delay");
    reveal_strlit("TLS handshake delay");
    reveal_strlit("backend/application delay");
    reveal_strlit("normal");
    assert(spec_label(Classification::DnsDelay).len() == 9);
    assert(spec_label(Classification::RoutingDelay).len() == 22);
    assert(spec_label(Classification::TlsDelay).len() == 19);
    assert(spec_label(Classification::BackendDelay).len() == 25);
    assert(spec_label(Classification::Normal).len() == 6);
}

/// The classification whose label stands in `s[from..to]`, if any.
pub fn label_of(s: &str, from: usize, to: usize) -> (r: Option<Classification>)
    requires
        from <= to <= s@.len(),
    ensures
        r == spec_label_of(s@.subrange(from as int, to as int)),
{
    proof {
        reveal_strlit("DNS delay");
        reveal_strlit("routing/firewall delay");
        reveal_strlit("TLS handshake delay");
        reveal_strlit("backend/application delay");
        reveal_strlit("normal");
    }
    let candidates = [
        Classification::DnsDelay,
        Classification::RoutingDelay,
        Classification::TlsDelay,
        Classification::BackendDelay,
        Classification::Normal,
    ];
    let mut idx: usize = 0;
    while idx < 5
        invariant
            idx <= 5,
            from <= to <= s@.len(),
            candidates@ =~= seq![
                Classification::DnsDelay,
                Classification::RoutingDelay,
                Classification::TlsDelay,
                Classification::BackendDelay,
                Classification::Normal,
            ],
            forall|j: int| 0 <= j < idx ==> s@.subrange(from as int, to as int) != spec_label(
                #[trigger] candidates@[j],
            ),
        decreases 5 - idx,
    {
        let cand = candidates[idx];
        let lab = crate::classify::label_str(cand);
        let llen = lab.unicode_len();
        if to - from == llen && crate::digits::match_at(s, from, lab) {
            proof {
                assert(s@.subrange(from as int, to as int) =~= s@.subrange(
                    from as int,
                    from as int + lab@.len() as int,
                ));
            }
            return Some(cand);
        }
        proof {
            if to - from == llen {
                assert(s@.subrange(from as int, to as int) =~= s@.subrange(
                    from as int,
                    from as int + lab@.len() as int,
                ));
            }
            assert(s@.subrange(from as int, to as int) != spec_label(cand));
        }
        idx = idx + 1;
    }
    None
}

/// The DNS rule has the highest priority: whenever the DNS time exceeds its
/// threshold, the classification is `DnsDelay` regardless of the other
/// three timings.
pub proof fn lemma_dns_rule_wins(dns: int, connect: int, ssl: int, total: int)
    requires
        dns > DNS_THRESHOLD,
    ensures
        spec_classify(dns, connect, ssl, total) == Classification::DnsDelay,
{
}

/// When the DNS time is within bounds and the connect estimate exceeds its
/// threshold, the classification is `RoutingDelay` regardless of the TLS
/// and total timings.
pub proof fn lemma_connect_rule_second(dns: int, connect: int, ssl: int, total: int)
    requires
        dns <= DNS_THRESHOLD,
        connect > CONNECT_THRESHOLD,
    ensures
        spec_classify(dns, connect, ssl, total) == Classification::RoutingDelay,
{
}

} // verus!
