//! Flattening of a snapshot into time-series points over a fixed vocabulary
//! of metric names.

use vstd::prelude::*;
use crate::metrics::WifiSnapshot;

verus! {

/// The fixed vocabulary of series metrics.
#[derive(Clone, Copy, Debug, PartialEq, Eq, Structural)]
pub enum Metric {
    SignalDbm,
    SignalPercent,
    Channel,
    LinkSpeed,
    LatencyLoopback,
    LatencyRouter,
    LatencyAvg,
    LatencyMin,
    LatencyMax,
    Jitter,
    PacketLoss,
    Connected,
    LoopbackReachable,
    RouterReachable,
    InternetReachable,
    HttpResponseTime,
    DnsResolutionTime,
    CpuUsage,
    MemoryUsage,
}

impl Metric {
    /// The stored name of the metric.
    pub open spec fn name_spec(self) -> Seq<char> {
        match self {
            Metric::SignalDbm => "signal_dbm"@,
            Metric::SignalPercent => "signal_percent"@,
            Metric::Channel => "channel"@,
            Metric::LinkSpeed => "link_speed"@,
            Metric::LatencyLoopback => "latency_loopback"@,
            Metric::LatencyRouter => "latency_router"@,
            Metric::LatencyAvg => "latency_avg"@,
            Metric::LatencyMin => "latency_min"@,
            Metric::LatencyMax => "latency_max"@,
            Metric::Jitter => "jitter"@,
            Metric::PacketLoss => "packet_loss"@,
            Metric::Connected => "connected"@,
            Metric::LoopbackReachable => "loopback_reachable"@,
            Metric::RouterReachable => "router_reachable"@,
            Metric::InternetReachable => "internet_reachable"@,
            Metric::HttpResponseTime => "http_response_time"@,
            Metric::DnsResolutionTime => "dns_resolution_time"@,
            Metric::CpuUsage => "cpu_usage"@,
            Metric::MemoryUsage => "memory_usage"@,
        }
    }

    pub fn name(&self) -> (r: &'static str)
        ensures
            r@ == self.name_spec(),
    {
        match self {
            Metric::SignalDbm => "signal_dbm",
            Metric::SignalPercent => "signal_percent",
            Metric::Channel => "channel",
            Metric::LinkSpeed => "link_speed",
            Metric::LatencyLoopback => "latency_loopback",
            Metric::LatencyRouter => "latency_router",
            Metric::LatencyAvg => "latency_avg",
            Metric::LatencyMin => "latency_min",
            Metric::LatencyMax => "latency_max",
            Metric::Jitter => "jitter",
            Metric::PacketLoss => "packet_loss",
            Metric::Connected => "connected",
            Metric::LoopbackReachable => "loopback_reachable",
            Metric::RouterReachable => "router_reachable",
            Metric::InternetReachable => "internet_reachable",
            Metric::HttpResponseTime => "http_response_time",
            Metric::DnsResolutionTime => "dns_resolution_time",
            Metric::CpuUsage => "cpu_usage",
            Metric::MemoryUsage => "memory_usage",
        }
    }
}

/// One series value, in thousandths of the metric's unit: dBm, percent,
/// channel number, Mbit/s, milliseconds, or 1 for a true flag.
#[derive(Clone, Copy, Debug, PartialEq, Eq, Structural)]
pub struct SeriesPoint {
    pub metric: Metric,
    pub value_milli: i64,
}

pub open spec fn point(metric: Metric, value_milli: int) -> SeriesPoint {
    SeriesPoint { metric, value_milli: value_milli as i64 }
}

pub open spec fn optional_point(metric: Metric, v: Option<u32>) -> Seq<SeriesPoint> {
    match v {
        Some(x) => seq![point(metric, x as int)],
        None => seq![],
    }
}

/// Thousandths of a value, saturated at the largest `i64`.
pub open spec fn milli_saturated(v: u64) -> int {
    if 1000 * v <= i64::MAX { 1000 * v } else { i64::MAX as int }
}

fn milli_of(v: u64) -> (r: i64)
    ensures
        r == milli_saturated(v),
{
    if v <= (i64::MAX / 1000) as u64 {
        (1000 * v) as i64
    } else {
        i64::MAX
    }
}

pub open spec fn flag(b: bool) -> int {
    if b { 1000 } else { 0 }
}

pub open spec fn link_points(s: WifiSnapshot) -> Seq<SeriesPoint> {
    match s.wifi_info {
        Some(w) => seq![
            point(Metric::SignalDbm, 1000 * w.signal_strength_dbm),
            point(Metric::SignalPercent, 1000 * w.signal_quality_percent),
            point(Metric::Channel, 1000 * w.channel),
            point(Metric::LinkSpeed, 1000 * w.link_speed_mbps),
        ],
        None => seq![],
    }
}

pub open spec fn latency_points(s: WifiSnapshot) -> Seq<SeriesPoint> {
    optional_point(Metric::LatencyLoopback, s.latency.loopback_latency_us)
        + optional_point(Metric::LatencyRouter, s.latency.router_latency_us)
        + optional_point(Metric::LatencyAvg, s.latency.average_latency_us)
        + optional_point(Metric::LatencyMin, s.latency.min_latency_us)
        + optional_point(Metric::LatencyMax, s.latency.max_latency_us)
        + optional_point(Metric::Jitter, s.latency.jitter_us)
        + seq![point(Metric::PacketLoss, 10 * s.latency.packet_loss_bp)]
}

pub open spec fn reach_points(s: WifiSnapshot) -> Seq<SeriesPoint> {
    seq![
        point(Metric::Connected, flag(s.connectivity.is_connected)),
        point(Metric::LoopbackReachable, flag(s.connectivity.loopback_reachable)),
        point(Metric::RouterReachable, flag(s.connectivity.router_reachable)),
        point(Metric::InternetReachable, flag(s.connectivity.internet_reachable)),
    ] + match s.connectivity.http_response_time_ms {
        Some(ms) => seq![point(Metric::HttpResponseTime, milli_saturated(ms))],
        None => seq![],
    }
}

pub open spec fn host_points(s: WifiSnapshot) -> Seq<SeriesPoint> {
    optional_point(Metric::DnsResolutionTime, s.dns_metrics.average_resolution_time_us) + seq![
        point(Metric::CpuUsage, 10 * s.system_info.cpu_usage_bp),
        point(Metric::MemoryUsage, 10 * s.system_info.memory_usage_bp),
    ]
}

/// The series points of a snapshot, in order.
pub open spec fn series_of(s: WifiSnapshot) -> Seq<SeriesPoint> {
    link_points(s) + latency_points(s) + reach_points(s) + host_points(s)
}

fn add_optional(out: &mut Vec<SeriesPoint>, metric: Metric, v: Option<u32>)
    ensures
        final(out)@ == old(out)@ + optional_point(metric, v),
{
    let ghost before = out@;
    if let Some(x) = v {
        out.push(SeriesPoint { metric, value_milli: x as i64 });
    }
    assert(out@ =~= before + optional_point(metric, v));
}

fn flag_value(b: bool) -> (r: i64)
    ensures
        r == flag(b),
{
    if b { 1000 } else { 0 }
}

fn add_link_points(out: &mut Vec<SeriesPoint>, s: &WifiSnapshot)
    ensures
        final(out)@ == old(out)@ + link_points(*s),
{
    let ghost acc = out@;
    if let Some(w) = &s.wifi_info {
        out.push(SeriesPoint { metric: Metric::SignalDbm, value_milli: 1000 * w.signal_strength_dbm as i64 });
        out.push(SeriesPoint { metric: Metric::SignalPercent, value_milli: 1000 * w.signal_quality_percent as i64 });
        out.push(SeriesPoint { metric: Metric::Channel, value_milli: 1000 * w.channel as i64 });
        out.push(SeriesPoint { metric: Metric::LinkSpeed, value_milli: 1000 * w.link_speed_mbps as i64 });
    }
    assert(out@ =~= acc + link_points(*s));
}

fn add_latency_points(out: &mut Vec<SeriesPoint>, s: &WifiSnapshot)
    ensures
        final(out)@ == old(out)@ + latency_points(*s),
{
    let ghost acc = out@;
    add_optional(out, Metric::LatencyLoopback, s.latency.loopback_latency_us);
    add_optional(out, Metric::LatencyRouter, s.latency.router_latency_us);
    add_optional(out, Metric::LatencyAvg, s.latency.average_latency_us);
    add_optional(out, Metric::LatencyMin, s.latency.min_latency_us);
    add_optional(out, Metric::LatencyMax, s.latency.max_latency_us);
    add_optional(out, Metric::Jitter, s.latency.jitter_us);
    out.push(SeriesPoint { metric: Metric::PacketLoss, value_milli: 10 * s.latency.packet_loss_bp as i64 });
    assert(out@ =~= acc + latency_points(*s));
}

fn add_reach_points(out: &mut Vec<SeriesPoint>, s: &WifiSnapshot)
    ensures
        final(out)@ == old(out)@ + reach_points(*s),
{
    let ghost acc = out@;
    out.push(SeriesPoint { metric: Metric::Connected, value_milli: flag_value(s.connectivity.is_connected) });
    out.push(SeriesPoint { metric: Metric::LoopbackReachable, value_milli: flag_value(s.connectivity.loopback_reachable) });
    out.push(SeriesPoint { metric: Metric::RouterReachable, value_milli: flag_value(s.connectivity.router_reachable) });
    out.push(SeriesPoint { metric: Metric::InternetReachable, value_milli: flag_value(s.connectivity.internet_reachable) });
    if let Some(ms) = s.connectivity.http_response_time_ms {
        out.push(SeriesPoint { metric: Metric::HttpResponseTime, value_milli: milli_of(ms) });
    }
    assert(out@ =~= acc + reach_points(*s));
}

fn add_host_points(out: &mut Vec<SeriesPoint>, s: &WifiSnapshot)
    ensures
        final(out)@ == old(out)@ + host_points(*s),
{
    let ghost acc = out@;
    add_optional(out, Metric::DnsResolutionTime, s.dns_metrics.average_resolution_time_us);
    out.push(SeriesPoint { metric: Metric::CpuUsage, value_milli: 10 * s.system_info.cpu_usage_bp as i64 });
    out.push(SeriesPoint { metric: Metric::MemoryUsage, value_milli: 10 * s.system_info.memory_usage_bp as i64 });
    assert(out@ =~= acc + host_points(*s));
}

/// The time-series points of a snapshot. A value whose thousandths exceed
/// `i64` is saturated at `i64::MAX`; no point is left out for its size.
pub fn series_points(snapshot: &WifiSnapshot) -> (r: Vec<SeriesPoint>)
    ensures
        r@ == series_of(*snapshot),
{
    let mut out: Vec<SeriesPoint> = Vec::new();
    add_link_points(&mut out, snapshot);
    add_latency_points(&mut out, snapshot);
    add_reach_points(&mut out, snapshot);
    add_host_points(&mut out, snapshot);
    assert(out@ =~= series_of(*snapshot));
    out
}

/// Whether a snapshot carries a value for metric `m`: the link metrics when
/// the link is up, each optional measurement when it was taken, the rest always.
pub open spec fn has_metric(s: WifiSnapshot, m: Metric) -> bool {
    match m {
        Metric::SignalDbm | Metric::SignalPercent | Metric::Channel | Metric::LinkSpeed => s.wifi_info is Some,
        Metric::LatencyLoopback => s.latency.loopback_latency_us is Some,
        Metric::LatencyRouter => s.latency.router_latency_us is Some,
        Metric::LatencyAvg => s.latency.average_latency_us is Some,
        Metric::LatencyMin => s.latency.min_latency_us is Some,
        Metric::LatencyMax => s.latency.max_latency_us is Some,
        Metric::Jitter => s.latency.jitter_us is Some,
        Metric::HttpResponseTime => s.connectivity.http_response_time_ms is Some,
        Metric::DnsResolutionTime => s.dns_metrics.average_resolution_time_us is Some,
        _ => true,
    }
}

pub open spec fn lists_metric(q: Seq<SeriesPoint>, m: Metric) -> bool {
    exists|i: int| 0 <= i < q.len() && (#[trigger] q[i]).metric == m
}

proof fn lemma_lists_concat(a: Seq<SeriesPoint>, b: Seq<SeriesPoint>, m: Metric)
    ensures
        lists_metric(a + b, m) == (lists_metric(a, m) || lists_metric(b, m)),
{
    if lists_metric(a, m) {
        let i = choose|i: int| 0 <= i < a.len() && (#[trigger] a[i]).metric == m;
        assert((a + b)[i] == a[i]);
    }
    if lists_metric(b, m) {
        let i = choose|i: int| 0 <= i < b.len() && (#[trigger] b[i]).metric == m;
        assert((a + b)[a.len() + i] == b[i]);
    }
    if lists_metric(a + b, m) {
        let i = choose|i: int| 0 <= i < (a + b).len() && (#[trigger] (a + b)[i]).metric == m;
        if i < a.len() {
            assert(a[i] == (a + b)[i]);
        } else {
            assert(b[i - a.len()] == (a + b)[i]);
        }
    }
}

proof fn lemma_lists_small(q: Seq<SeriesPoint>, m: Metric)
    requires
        q.len() <= 4,
    ensures
        lists_metric(q, m) == ((q.len() > 0 && q[0].metric == m) || (q.len() > 1 && q[1].metric == m)
            || (q.len() > 2 && q[2].metric == m) || (q.len() > 3 && q[3].metric == m)),
{
    if q.len() > 0 && q[0].metric == m { assert(lists_metric(q, m)); }
    if q.len() > 1 && q[1].metric == m { assert(lists_metric(q, m)); }
    if q.len() > 2 && q[2].metric == m { assert(lists_metric(q, m)); }
    if q.len() > 3 && q[3].metric == m { assert(lists_metric(q, m)); }
}

proof fn lemma_link_presence(s: WifiSnapshot, m: Metric)
    ensures
        lists_metric(link_points(s), m) == (s.wifi_info is Some && (m == Metric::SignalDbm
            || m == Metric::SignalPercent || m == Metric::Channel || m == Metric::LinkSpeed)),
{
    lemma_lists_small(link_points(s), m);
}

proof fn lemma_latency_presence(s: WifiSnapshot, m: Metric)
    ensures
        lists_metric(latency_points(s), m) == match m {
            Metric::LatencyLoopback => s.latency.loopback_latency_us is Some,
            Metric::LatencyRouter => s.latency.router_latency_us is Some,
            Metric::LatencyAvg => s.latency.average_latency_us is Some,
            Metric::LatencyMin => s.latency.min_latency_us is Some,
            Metric::LatencyMax => s.latency.max_latency_us is Some,
            Metric::Jitter => s.latency.jitter_us is Some,
            Metric::PacketLoss => true,
            _ => false,
        },
{
    let l1 = optional_point(Metric::LatencyLoopback, s.latency.loopback_latency_us);
    let l2 = optional_point(Metric::LatencyRouter, s.latency.router_latency_us);
    let l3 = optional_point(Metric::LatencyAvg, s.latency.average_latency_us);
    let l4 = optional_point(Metric::LatencyMin, s.latency.min_latency_us);
    let l5 = optional_point(Metric::LatencyMax, s.latency.max_latency_us);
    let l6 = optional_point(Metric::Jitter, s.latency.jitter_us);
    let l7 = seq![point(Metric::PacketLoss, 10 * s.latency.packet_loss_bp)];
    lemma_lists_small(l1, m);
    lemma_lists_small(l2, m);
    lemma_lists_small(l3, m);
    lemma_lists_small(l4, m);
    lemma_lists_small(l5, m);
    lemma_lists_small(l6, m);
    lemma_lists_small(l7, m);
    lemma_lists_concat(l1, l2, m);
    lemma_lists_concat(l1 + l2, l3, m);
    lemma_lists_concat(l1 + l2 + l3, l4, m);
    lemma_lists_concat(l1 + l2 + l3 + l4, l5, m);
    lemma_lists_concat(l1 + l2 + l3 + l4 + l5, l6, m);
    lemma_lists_concat(l1 + l2 + l3 + l4 + l5 + l6, l7, m);
}

proof fn lemma_reach_presence(s: WifiSnapshot, m: Metric)
    ensures
        lists_metric(reach_points(s), m) == match m {
            Metric::Connected | Metric::LoopbackReachable | Metric::RouterReachable
            | Metric::InternetReachable => true,
            Metric::HttpResponseTime => s.connectivity.http_response_time_ms is Some,
            _ => false,
        },
{
    let flags = seq![
        point(Metric::Connected, flag(s.connectivity.is_connected)),
        point(Metric::LoopbackReachable, flag(s.connectivity.loopback_reachable)),
        point(Metric::RouterReachable, flag(s.connectivity.router_reachable)),
        point(Metric::InternetReachable, flag(s.connectivity.internet_reachable)),
    ];
    let http = match s.connectivity.http_response_time_ms {
        Some(ms) => seq![point(Metric::HttpResponseTime, milli_saturated(ms))],
        None => seq![],
    };
    lemma_lists_small(flags, m);
    lemma_lists_small(http, m);
    lemma_lists_concat(flags, http, m);
    assert(reach_points(s) == flags + http);
}

proof fn lemma_host_presence(s: WifiSnapshot, m: Metric)
    ensures
        lists_metric(host_points(s), m) == match m {
            Metric::CpuUsage | Metric::MemoryUsage => true,
            Metric::DnsResolutionTime => s.dns_metrics.average_resolution_time_us is Some,
            _ => false,
        },
{
    let dns = optional_point(Metric::DnsResolutionTime, s.dns_metrics.average_resolution_time_us);
    let host = seq![
        point(Metric::CpuUsage, 10 * s.system_info.cpu_usage_bp),
        point(Metric::MemoryUsage, 10 * s.system_info.memory_usage_bp),
    ];
    lemma_lists_small(dns, m);
    lemma_lists_small(host, m);
    lemma_lists_concat(dns, host, m);
}

/// Every metric that a snapshot carries is written for it, whatever its
/// value, and no other metric is.
pub proof fn lemma_series_presence(s: WifiSnapshot, m: Metric)
    ensures
        lists_metric(series_of(s), m) == has_metric(s, m),
{
    lemma_link_presence(s, m);
    lemma_latency_presence(s, m);
    lemma_reach_presence(s, m);
    lemma_host_presence(s, m);
    lemma_lists_concat(link_points(s), latency_points(s), m);
    lemma_lists_concat(link_points(s) + latency_points(s), reach_points(s), m);
    lemma_lists_concat(link_points(s) + latency_points(s) + reach_points(s), host_points(s), m);
}

} // verus!
