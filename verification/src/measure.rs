//! One cycle's measurements, with the synthetic timing breakdown.
//!
//! Only the DNS time and the total request time are measured; the connect
//! and TLS figures are derived from them by a fixed formula. They are crude
//! estimates, not ground truth, and the TLS figure can even be negative —
//! the classification policy is written against exactly this derivation,
//! so it is preserved as is.

use vstd::prelude::*;
use crate::timestamp::Timestamp;

verus! {

/// The fixed stand-in for TCP handshake cost, in centiseconds.
pub const CONNECT_OFFSET: i64 = 50;

/// Upper bound on a measured duration, in centiseconds (about 31 years).
pub const MAX_TIME_CENTIS: i64 = 100_000_000_000;

/// The sentinel status code meaning the request produced no HTTP response.
pub const UNREACHABLE_STATUS: u16 = 0;

/// Everything one probe cycle measured or derived.
#[derive(Clone, Copy, Debug, PartialEq, Eq, Structural)]
pub struct CycleMeasurement {
    /// Measured DNS resolution time, centiseconds.
    pub dns_time: i64,
    /// Synthetic connect estimate: always `dns_time + CONNECT_OFFSET`.
    pub connect_time: i64,
    /// Synthetic TLS estimate: always `total_time - connect_time`; may be
    /// negative when the connect estimate overshoots the total.
    pub ssl_time: i64,
    /// Measured total request time, centiseconds.
    pub total_time: i64,
    /// HTTP status code, or `UNREACHABLE_STATUS` when the request failed.
    pub status_code: u16,
    /// Local wall-clock time at the end of the cycle.
    pub timestamp: Timestamp,
}

impl CycleMeasurement {
    /// Measured fields in range and derived fields tied to them by the
    /// fixed formula.
    pub open spec fn wf(self) -> bool {
        &&& 0 <= self.dns_time <= MAX_TIME_CENTIS
        &&& 0 <= self.total_time <= MAX_TIME_CENTIS
        &&& self.connect_time == self.dns_time + CONNECT_OFFSET
        &&& self.ssl_time == self.total_time - self.connect_time
        &&& self.timestamp.wf()
    }

    /// The cycle result the four inputs determine, with the synthetic
    /// connect and TLS estimates derived by the fixed formula.
    pub open spec fn spec_new(
        dns_time: i64,
        total_time: i64,
        status_code: u16,
        timestamp: Timestamp,
    ) -> CycleMeasurement {
        CycleMeasurement {
            dns_time,
            connect_time: (dns_time + CONNECT_OFFSET) as i64,
            ssl_time: (total_time - (dns_time + CONNECT_OFFSET)) as i64,
            total_time,
            status_code,
            timestamp,
        }
    }

    /// Assemble a cycle result from the two measured durations, deriving
    /// the synthetic connect and TLS estimates.
    pub fn new(dns_time: i64, total_time: i64, status_code: u16, timestamp: Timestamp) -> (r:
        CycleMeasurement)
        requires
            0 <= dns_time <= MAX_TIME_CENTIS,
            0 <= total_time <= MAX_TIME_CENTIS,
            timestamp.wf(),
        ensures
            r == Self::spec_new(dns_time, total_time, status_code, timestamp),
            r.wf(),
            r.dns_time == dns_time,
            r.total_time == total_time,
            r.status_code == status_code,
            r.timestamp == timestamp,
            r.connect_time == dns_time + CONNECT_OFFSET,
            r.ssl_time == total_time - (dns_time + CONNECT_OFFSET),
    {
        let connect_time = dns_time + CONNECT_OFFSET;
        let ssl_time = total_time - connect_time;
        CycleMeasurement { dns_time, connect_time, ssl_time, total_time, status_code, timestamp }
    }
}

/// The derived-value property: in every well-formed cycle the TLS estimate
/// is exactly the total time less the connect estimate, and the connect
/// estimate is exactly the DNS time plus the fixed offset. This holds by
/// definition, never by measurement.
pub proof fn lemma_synthetic_derivation(m: CycleMeasurement)
    requires
        m.wf(),
    ensures
        m.connect_time == m.dns_time + CONNECT_OFFSET,
        m.ssl_time == m.total_time - (m.dns_time + CONNECT_OFFSET),
{
}

} // verus!
