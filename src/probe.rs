//! Summaries of raw probe readings: reachability, latency over ping
//! replies, packet loss, and name-resolution outcomes.

use vstd::prelude::*;
use crate::metrics::{ConnectivityMetrics, DnsMetrics, DnsQueryResult, LatencyMetrics};
use crate::netsh::{contains_text, lower_of, lowercase, occurs};
use crate::stats::{ints, max_of, min_of, sum_of};
use crate::text::rounded_div;

verus! {

/// Sum of the squares of the values.
pub open spec fn sum_sq(v: Seq<int>) -> int
    decreases v.len(),
{
    if v.len() == 0 {
        0
    } else {
        sum_sq(v.drop_last()) + v.last() * v.last()
    }
}

/// `r` is the square root of `x`, rounded down.
pub open spec fn is_floor_sqrt(x: int, r: int) -> bool {
    0 <= r && r * r <= x < (r + 1) * (r + 1)
}

/// Population standard deviation of the values, rounded down: the floor
/// square root of (n * sum of squares - sum^2) / n^2, itself rounded down.
pub open spec fn deviation_ok(v: Seq<int>, r: int) -> bool {
    let n = v.len() as int;
    is_floor_sqrt((n * sum_sq(v) - sum_of(v) * sum_of(v)) / (n * n), r)
}

/// Lost packets as basis points of those sent, rounded down; 0 when none were
/// sent. Replies beyond those sent count as no loss.
pub open spec fn loss_of(sent: u32, received: u32) -> u32 {
    if sent == 0 || received >= sent {
        0
    } else {
        ((sent - received) * 10000 / sent as int) as u32
    }
}

/// Packet loss in basis points.
pub fn packet_loss_bp(sent: u32, received: u32) -> (r: u32)
    ensures
        r == loss_of(sent, received),
        r <= 10000,
{
    if sent == 0 || received >= sent {
        0
    } else {
        let lost = (sent - received) as u64;
        proof {
            assert(lost * 10000 <= sent as u64 * 10000) by (nonlinear_arith)
                requires lost <= sent;
            assert((lost * 10000) / (sent as int) <= 10000) by (nonlinear_arith)
                requires lost * 10000 <= sent * 10000, sent > 0, lost >= 0;
        }
        (lost * 10000 / sent as u64) as u32
    }
}

/// The square root of `x`, rounded down.
pub fn floor_sqrt(x: u128) -> (r: u64)
    ensures
        is_floor_sqrt(x as int, r as int),
{
    let mut lo: u128 = 0;
    let mut hi: u128 = 0x1_0000_0000_0000_0000;
    proof {
        assert(0x1_0000_0000_0000_0000 * 0x1_0000_0000_0000_0000 > u128::MAX) by (nonlinear_arith);
    }
    while hi - lo > 1
        invariant
            lo < hi <= 0x1_0000_0000_0000_0000,
            lo * lo <= x,
            x < hi * hi,
        decreases hi - lo,
    {
        let mid = lo + (hi - lo) / 2;
        proof {
            assert(mid * mid <= 0xffff_ffff_ffff_ffff * 0xffff_ffff_ffff_ffff) by (nonlinear_arith)
                requires mid < 0x1_0000_0000_0000_0000;
        }
        if mid * mid <= x {
            lo = mid;
        } else {
            hi = mid;
        }
    }
    assert(hi == lo + 1);
    lo as u64
}

proof fn lemma_sum_bounds(v: Seq<u32>)
    ensures
        0 <= sum_of(ints(v)) <= 0xffff_ffff * v.len(),
        0 <= sum_sq(ints(v)) <= 0xffff_fffe_0000_0001 * v.len(),
    decreases v.len(),
{
    if v.len() > 0 {
        assert(ints(v).drop_last() =~= ints(v.drop_last()));
        lemma_sum_bounds(v.drop_last());
        let x = v.last() as int;
        assert(ints(v).last() == x);
        assert(sum_sq(ints(v)) == sum_sq(ints(v.drop_last())) + x * x);
        assert(sum_of(ints(v)) == sum_of(ints(v.drop_last())) + x);
        assert(0 <= x * x <= 0xffff_fffe_0000_0001) by (nonlinear_arith)
            requires 0 <= x <= 0xffff_ffff;
    }
}

proof fn lemma_min_max_range(v: Seq<u32>)
    requires
        v.len() > 0,
    ensures
        0 <= min_of(ints(v)) <= 0xffff_ffff,
        0 <= max_of(ints(v)) <= 0xffff_ffff,
    decreases v.len(),
{
    if v.len() > 1 {
        assert(ints(v).drop_last() =~= ints(v.drop_last()));
        lemma_min_max_range(v.drop_last());
    }
}

proof fn lemma_deviation_nonneg(v: Seq<int>, y: int)
    ensures
        sum_sq(v) - 2 * y * sum_of(v) + v.len() * y * y >= 0,
    decreases v.len(),
{
    if v.len() > 0 {
        let w = v.drop_last();
        lemma_deviation_nonneg(w, y);
        let (q, t, n, x) = (sum_sq(w), sum_of(w), w.len() as int, v.last());
        assert((q + x * x) - 2 * y * (t + x) + (n + 1) * y * y == (q - 2 * y * t + n * y * y) + (x - y) * (x - y))
            by (nonlinear_arith);
        assert((x - y) * (x - y) >= 0) by (nonlinear_arith);
    }
}

/// The square of a sum is at most the count times the sum of squares.
proof fn lemma_cauchy(v: Seq<int>)
    ensures
        sum_of(v) * sum_of(v) <= v.len() * sum_sq(v),
    decreases v.len(),
{
    if v.len() > 0 {
        let w = v.drop_last();
        lemma_cauchy(w);
        lemma_deviation_nonneg(w, v.last());
        let (q, t, n, x) = (sum_sq(w), sum_of(w), w.len() as int, v.last());
        assert((n + 1) * (q + x * x) - (t + x) * (t + x) == (n * q - t * t) + (q - 2 * x * t + n * x * x))
            by (nonlinear_arith);
    }
}

/// The latency figures of a set of reply times (microseconds) and packet
/// counts: extremes, mean rounded to the microsecond, deviation once there
/// are two replies, and loss.
pub open spec fn latency_summary_ok(times: Seq<u32>, sent: u32, received: u32, r: LatencyMetrics) -> bool {
    let v = ints(times);
    &&& r.packet_loss_bp == loss_of(sent, received)
    &&& r.targets@.len() == 0
    &&& r.loopback_latency_us is None && r.router_latency_us is None
    &&& if v.len() == 0 {
        r.min_latency_us is None && r.max_latency_us is None && r.average_latency_us is None && r.jitter_us is None
    } else {
        &&& r.min_latency_us == Some(min_of(v) as u32)
        &&& r.max_latency_us == Some(max_of(v) as u32)
        &&& r.average_latency_us == Some(rounded_div(sum_of(v) as nat, v.len()) as u32)
        &&& (v.len() == 1 ==> r.jitter_us is None)
        &&& (v.len() > 1 ==> r.jitter_us is Some && deviation_ok(v, r.jitter_us->0 as int))
    }
}

/// Summarises the reply times of all ping targets of one cycle.
pub fn summarize_latency(times: &Vec<u32>, sent: u32, received: u32) -> (r: LatencyMetrics)
    requires
        times@.len() <= 0x7fff_ffff,
    ensures
        latency_summary_ok(times@, sent, received, r),
{
    let n = times.len();
    let mut sum: u128 = 0;
    let mut sq: u128 = 0;
    let mut lo: u32 = 0;
    let mut hi: u32 = 0;
    let mut i: usize = 0;
    while i < n
        invariant
            n == times@.len() <= 0x7fff_ffff,
            i <= n,
            sum == sum_of(ints(times@.take(i as int))),
            sq == sum_sq(ints(times@.take(i as int))),
            i > 0 ==> lo == min_of(ints(times@.take(i as int))),
            i > 0 ==> hi == max_of(ints(times@.take(i as int))),
        decreases n - i,
    {
        let x = times[i];
        proof {
            let p = times@.take(i + 1);
            assert(ints(p).drop_last() =~= ints(times@.take(i as int)));
            assert(ints(p).last() == x as int);
            lemma_sum_bounds(times@.take(i as int));
            assert(x as int * x as int <= 0xffff_fffe_0000_0001) by (nonlinear_arith)
                requires x <= 0xffff_ffff;
            assert(0xffff_fffe_0000_0001 * (i as int) <= 0xffff_fffe_0000_0001 * 0x7fff_ffff) by (nonlinear_arith)
                requires i <= 0x7fff_ffff;
            if i > 0 {
                lemma_min_max_range(times@.take(i as int));
            }
        }
        sum = sum + x as u128;
        sq = sq + x as u128 * x as u128;
        if i == 0 || x < lo {
            lo = x;
        }
        if i == 0 || x > hi {
            hi = x;
        }
        i = i + 1;
    }
    assert(times@.take(n as int) =~= times@);
    let mut m = LatencyMetrics {
        targets: Vec::new(),
        loopback_latency_us: None,
        router_latency_us: None,
        average_latency_us: None,
        min_latency_us: None,
        max_latency_us: None,
        jitter_us: None,
        packet_loss_bp: packet_loss_bp(sent, received),
    };
    if n > 0 {
        let nn = n as u128;
        proof {
            lemma_sum_bounds(times@);
            let (si, ni) = (sum as int, nn as int);
            assert(si <= 0xffff_ffff * ni);
            assert((si + ni / 2) / ni <= 0xffff_ffff) by (nonlinear_arith)
                requires si <= 0xffff_ffff * ni, ni > 0, 0 <= ni / 2 < ni, si >= 0;
        }
        m.min_latency_us = Some(lo);
        m.max_latency_us = Some(hi);
        m.average_latency_us = Some(((sum + nn / 2) / nn) as u32);
        if n > 1 {
            proof {
                assert(nn * sq <= 0x7fff_ffff * (0xffff_fffe_0000_0001 * 0x7fff_ffff)) by (nonlinear_arith)
                    requires nn <= 0x7fff_ffff, sq <= 0xffff_fffe_0000_0001 * nn;
                assert(sum * sum <= (0xffff_ffff * 0x7fff_ffff) * (0xffff_ffff * 0x7fff_ffff)) by (nonlinear_arith)
                    requires sum <= 0xffff_ffff * nn, nn <= 0x7fff_ffff;
                assert(sum * sum <= nn * sq) by {
                    lemma_cauchy(ints(times@));
                }
            }
            let spread = nn * sq - sum * sum;
            proof {
                assert(nn * nn <= 0x7fff_ffff * 0x7fff_ffff) by (nonlinear_arith)
                    requires nn <= 0x7fff_ffff;
                assert(nn * nn > 0) by (nonlinear_arith)
                    requires nn > 0;
            }
            let v = spread / (nn * nn);
            let root = floor_sqrt(v);
            proof {
                let big = 0xffff_ffffint;
                let (sp, ni, qi, vi, ri) = (spread as int, nn as int, sq as int, v as int, root as int);
                assert(qi <= big * big * ni);
                assert(sp <= ni * qi);
                assert(sp <= (big * big) * (ni * ni)) by (nonlinear_arith)
                    requires sp <= ni * qi, qi <= big * big * ni, ni >= 0;
                assert(vi == sp / (ni * ni));
                assert(sp / (ni * ni) <= big * big) by (nonlinear_arith)
                    requires sp <= (big * big) * (ni * ni), ni * ni > 0, sp >= 0;
                if ri > big {
                    assert(ri * ri >= (big + 1) * (big + 1)) by (nonlinear_arith)
                        requires ri >= big + 1, big >= 0;
                    assert((big + 1) * (big + 1) > big * big) by (nonlinear_arith)
                        requires big >= 0;
                }
            }
            m.jitter_us = Some(root as u32);
        }
    }
    m
}

/// Failed lookups among the queries.
pub open spec fn dns_failures(q: Seq<DnsQueryResult>) -> int
    decreases q.len(),
{
    if q.len() == 0 {
        0
    } else {
        dns_failures(q.drop_last()) + if q.last().success { 0int } else { 1 }
    }
}

/// Resolution times of the successful lookups that have one, in order.
pub open spec fn resolved_times(q: Seq<DnsQueryResult>) -> Seq<int>
    decreases q.len(),
{
    if q.len() == 0 {
        seq![]
    } else {
        match (q.last().success, q.last().resolution_time_us) {
            (true, Some(t)) => resolved_times(q.drop_last()).push(t as int),
            _ => resolved_times(q.drop_last()),
        }
    }
}

proof fn lemma_resolved_bounds(q: Seq<DnsQueryResult>)
    ensures
        resolved_times(q).len() <= q.len(),
        0 <= sum_of(resolved_times(q)) <= 0xffff_ffff * resolved_times(q).len(),
        0 <= dns_failures(q) <= q.len(),
    decreases q.len(),
{
    if q.len() > 0 {
        lemma_resolved_bounds(q.drop_last());
        let r = resolved_times(q.drop_last());
        if let (true, Some(t)) = (q.last().success, q.last().resolution_time_us) {
            assert(r.push(t as int).drop_last() =~= r);
        }
    }
}

/// Summarises the lookups of one cycle: failures counted, and the mean time
/// of the successful lookups rounded to the microsecond.
pub fn summarize_dns(queries: Vec<DnsQueryResult>) -> (r: DnsMetrics)
    requires
        queries@.len() <= u32::MAX,
    ensures
        r.queries@ == queries@,
        r.failures == dns_failures(queries@),
        r.average_resolution_time_us == if resolved_times(queries@).len() == 0 {
            None
        } else {
            Some(rounded_div(sum_of(resolved_times(queries@)) as nat, resolved_times(queries@).len()) as u32)
        },
{
    let n = queries.len();
    let mut failures: u32 = 0;
    let mut total: u64 = 0;
    let mut count: u64 = 0;
    let mut i: usize = 0;
    while i < n
        invariant
            n == queries@.len() <= u32::MAX,
            i <= n,
            failures == dns_failures(queries@.take(i as int)),
            total == sum_of(resolved_times(queries@.take(i as int))),
            count == resolved_times(queries@.take(i as int)).len(),
        decreases n - i,
    {
        let ghost p = queries@.take(i + 1);
        proof {
            assert(p.drop_last() =~= queries@.take(i as int));
            assert(p.last() == queries@[i as int]);
            lemma_resolved_bounds(queries@.take(i as int));
        }
        let q = &queries[i];
        if q.success {
            if let Some(t) = q.resolution_time_us {
                proof {
                    let r = resolved_times(queries@.take(i as int));
                    assert(r.push(t as int).drop_last() =~= r);
                }
                total = total + t as u64;
                count = count + 1;
            }
        } else {
            failures = failures + 1;
        }
        i = i + 1;
    }
    assert(queries@.take(n as int) =~= queries@);
    let average = if count == 0 {
        None
    } else {
        proof {
            lemma_resolved_bounds(queries@);
            let (ti, ci) = (total as int, count as int);
            assert((ti + ci / 2) / ci <= 0xffff_ffff) by (nonlinear_arith)
                requires ti <= 0xffff_ffff * ci, ci > 0, 0 <= ci / 2 < ci, ti >= 0;
        }
        Some(((total + count / 2) / count) as u32)
    };
    DnsMetrics { queries, average_resolution_time_us: average, failures }
}

/// Whether an HTTP status counts as reaching the internet: any 2xx status.
pub open spec fn http_ok(status: u16) -> bool {
    200 <= status <= 299
}

/// Reachability from the probe readings: the interface listing (connected
/// when, in lowercase, it mentions both "state" and "connected"), the replies
/// from the loopback address and from the gateway (absent without gateway,
/// in which case the router counts as reachable when connected), and the
/// HTTP status and response time of the internet check (absent when it failed).
pub open spec fn connectivity_ok(
    lower_listing: Seq<char>,
    loopback_received: u32,
    router_received: Option<u32>,
    http: Option<(u16, u64)>,
    r: ConnectivityMetrics,
) -> bool {
    let connected = occurs(lower_listing, "state"@) && occurs(lower_listing, "connected"@);
    &&& r.is_connected == connected
    &&& r.loopback_reachable == (loopback_received > 0)
    &&& r.router_reachable == match router_received { Some(k) => k > 0, None => connected }
    &&& r.http_test_success == match http { Some((status, _)) => http_ok(status), None => false }
    &&& r.http_response_time_ms == match http { Some((_, ms)) => Some(ms), None => None }
    &&& r.internet_reachable == r.http_test_success
    &&& r.tcp_connections_established == 0 && r.tcp_connections_failed == 0
}

/// Reachability from the probe readings.
pub fn assess_connectivity(
    listing: &str,
    loopback_received: u32,
    router_received: Option<u32>,
    http: Option<(u16, u64)>,
) -> (r: ConnectivityMetrics)
    ensures
        connectivity_ok(lower_of(listing@), loopback_received, router_received, http, r),
{
    let lower = lowercase(listing);
    assess_connectivity_lowered(lower.as_str(), loopback_received, router_received, http)
}

/// Reachability from the probe readings, given the interface listing in lowercase.
pub fn assess_connectivity_lowered(
    lower: &str,
    loopback_received: u32,
    router_received: Option<u32>,
    http: Option<(u16, u64)>,
) -> (r: ConnectivityMetrics)
    ensures
        connectivity_ok(lower@, loopback_received, router_received, http, r),
{
    let connected = contains_text(lower, "state") && contains_text(lower, "connected");
    let success = match http {
        Some((status, _)) => 200 <= status && status <= 299,
        None => false,
    };
    ConnectivityMetrics {
        is_connected: connected,
        loopback_reachable: loopback_received > 0,
        router_reachable: match router_received {
            Some(k) => k > 0,
            None => connected,
        },
        internet_reachable: success,
        http_test_success: success,
        http_response_time_ms: match http {
            Some((_, ms)) => Some(ms),
            None => None,
        },
        tcp_connections_established: 0,
        tcp_connections_failed: 0,
    }
}

} // verus!
