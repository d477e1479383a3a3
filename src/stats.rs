//! Period statistics: a fold over the snapshots of a time range, oldest first.

use vstd::prelude::*;
use vstd::relations::{sorted_by, total_ordering};
use vstd::seq_lib::{lemma_sorted_unique, to_multiset_build, to_multiset_remove};
use crate::metrics::{EventSeverity, NetworkEvent, WifiSnapshot};

verus! {

/// The values of a vector of `u32` as integers.
pub open spec fn ints(v: Seq<u32>) -> Seq<int> {
    v.map_values(|x: u32| x as int)
}

/// The nearest-rank percentile `pct` of a non-empty sequence: the element of
/// the ascending order at index floor(n * pct / 100), clamped to the last one.
pub open spec fn nearest_rank(v: Seq<int>, pct: int) -> int
    recommends
        v.len() > 0,
{
    let i = v.len() * pct / 100;
    v.sort()[if i < v.len() { i } else { v.len() - 1 }]
}

pub open spec fn ascending(v: Seq<int>) -> bool {
    forall|i: int, j: int| 0 <= i < j < v.len() ==> v[i] <= v[j]
}

proof fn lemma_insert_multiset(q: Seq<int>, p: int, y: int)
    requires
        0 <= p <= q.len(),
    ensures
        q.insert(p, y).to_multiset() =~= q.to_multiset().insert(y),
{
    broadcast use vstd::multiset::group_multiset_axioms;
    let r = q.insert(p, y);
    assert(r.remove(p) =~= q);
    to_multiset_remove(r, p);
    assert(r.to_multiset().count(y) > 0) by {
        broadcast use vstd::seq_lib::group_to_multiset_ensures;
        assert(r.contains(y)) by {
            assert(r[p] == y);
        }
    }
}

/// The values of `v` in ascending order.
pub fn sorted_copy(v: &Vec<u32>) -> (r: Vec<u32>)
    ensures
        ascending(ints(r@)),
        ints(r@).to_multiset() == ints(v@).to_multiset(),
        ints(r@) == ints(v@).sort(),
{
    let mut out: Vec<u32> = Vec::new();
    let mut i: usize = 0;
    assert(ints(out@) =~= ints(v@.take(0)));
    while i < v.len()
        invariant
            i <= v@.len(),
            ascending(ints(out@)),
            ints(out@).to_multiset() == ints(v@.take(i as int)).to_multiset(),
        decreases v@.len() - i,
    {
        let x = v[i];
        let mut p: usize = 0;
        while p < out.len() && out[p] <= x
            invariant
                p <= out@.len(),
                forall|k: int| 0 <= k < p ==> out@[k] <= x,
            decreases out@.len() - p,
        {
            p = p + 1;
        }
        let ghost before = out@;
        out.insert(p, x);
        proof {
            assert(ints(out@) =~= ints(before).insert(p as int, x as int));
            lemma_insert_multiset(ints(before), p as int, x as int);
            assert(ints(v@.take(i + 1)) =~= ints(v@.take(i as int)).push(x as int));
            to_multiset_build(ints(v@.take(i as int)), x as int);
            assert(p == before.len() || before[p as int] > x);
            assert(out@ =~= before.insert(p as int, x));
            assert forall|a: int, b: int| 0 <= a < b < out@.len() implies out@[a] <= out@[b] by {
                let ib = ints(before);
                assert(ascending(ib));
                if b < p {
                    assert(ib[a] <= ib[b]);
                } else if b == p {
                    assert(before[a] <= x);
                } else if a < p {
                    assert(before[a] <= x);
                    assert(x < before[p as int]);
                    assert(ib[p as int] <= ib[b - 1]);
                } else if a == p {
                    assert(x < before[p as int]);
                    assert(ib[p as int] <= ib[b - 1]);
                } else {
                    assert(ib[a - 1] <= ib[b - 1]);
                }
            }
        }
        i = i + 1;
    }
    proof {
        assert(v@.take(v@.len() as int) =~= v@);
        let leq = |x: int, y: int| x <= y;
        ints(v@).lemma_sort_ensures();
        assert(sorted_by(ints(out@), leq));
        assert(total_ordering(leq));
        lemma_sorted_unique(ints(out@), ints(v@).sort(), leq);
    }
    out
}

/// Summary of the snapshots of a time range. Averages are held as exact
/// sums beside their sample counts; latencies in microseconds, packet loss in
/// basis points, times in milliseconds since the Unix epoch.
#[derive(Clone, Copy, Debug, PartialEq, Eq, Structural)]
pub struct PeriodStatistics {
    pub start_time: Option<i64>,
    pub end_time: Option<i64>,
    pub sample_count: u32,
    /// Snapshots with a link; each contributes one signal sample.
    pub connected_samples: u32,
    pub internet_samples: u32,
    pub signal_strength_sum_dbm: i64,
    pub signal_strength_min_dbm: Option<i32>,
    pub signal_strength_max_dbm: Option<i32>,
    pub signal_quality_sum_percent: u64,
    pub latency_samples: u32,
    pub latency_sum_us: u64,
    pub latency_min_us: Option<u32>,
    pub latency_max_us: Option<u32>,
    pub latency_p95_us: Option<u32>,
    pub latency_p99_us: Option<u32>,
    pub jitter_samples: u32,
    pub jitter_sum_us: u64,
    /// Sum over all snapshots; the average divides by `sample_count`.
    pub packet_loss_sum_bp: u64,
    pub total_disconnections: u32,
    pub warning_events: u32,
    pub error_events: u32,
    pub critical_events: u32,
}

pub open spec fn link_present(x: WifiSnapshot) -> bool {
    x.wifi_info is Some
}

/// Signal strength of each snapshot with a link, in order.
pub open spec fn signal_values(s: Seq<WifiSnapshot>) -> Seq<int>
    decreases s.len(),
{
    if s.len() == 0 {
        seq![]
    } else {
        match s.last().wifi_info {
            Some(w) => signal_values(s.drop_last()).push(w.signal_strength_dbm as int),
            None => signal_values(s.drop_last()),
        }
    }
}

/// Signal quality of each snapshot with a link, in order.
pub open spec fn quality_values(s: Seq<WifiSnapshot>) -> Seq<int>
    decreases s.len(),
{
    if s.len() == 0 {
        seq![]
    } else {
        match s.last().wifi_info {
            Some(w) => quality_values(s.drop_last()).push(w.signal_quality_percent as int),
            None => quality_values(s.drop_last()),
        }
    }
}

/// Average latency of each snapshot that has one, in order.
pub open spec fn latency_values(s: Seq<WifiSnapshot>) -> Seq<int>
    decreases s.len(),
{
    if s.len() == 0 {
        seq![]
    } else {
        match s.last().latency.average_latency_us {
            Some(l) => latency_values(s.drop_last()).push(l as int),
            None => latency_values(s.drop_last()),
        }
    }
}

/// Jitter of each snapshot that has one, in order.
pub open spec fn jitter_values(s: Seq<WifiSnapshot>) -> Seq<int>
    decreases s.len(),
{
    if s.len() == 0 {
        seq![]
    } else {
        match s.last().latency.jitter_us {
            Some(j) => jitter_values(s.drop_last()).push(j as int),
            None => jitter_values(s.drop_last()),
        }
    }
}

pub open spec fn loss_total(s: Seq<WifiSnapshot>) -> int
    decreases s.len(),
{
    if s.len() == 0 {
        0
    } else {
        loss_total(s.drop_last()) + s.last().latency.packet_loss_bp
    }
}

pub open spec fn internet_count(s: Seq<WifiSnapshot>) -> int
    decreases s.len(),
{
    if s.len() == 0 {
        0
    } else {
        internet_count(s.drop_last()) + if s.last().connectivity.internet_reachable { 1int } else { 0 }
    }
}

/// Number of consecutive pairs whose link goes from present to absent.
pub open spec fn disconnections(s: Seq<WifiSnapshot>) -> int
    decreases s.len(),
{
    if s.len() < 2 {
        0
    } else {
        disconnections(s.drop_last()) + if link_present(s[s.len() - 2]) && !link_present(s.last()) {
            1int
        } else {
            0
        }
    }
}

pub open spec fn count_severity(q: Seq<NetworkEvent>, sev: EventSeverity) -> int
    decreases q.len(),
{
    if q.len() == 0 {
        0
    } else {
        count_severity(q.drop_last(), sev) + if q.last().severity == sev { 1int } else { 0 }
    }
}

/// Events of severity `sev` embedded in all snapshots.
pub open spec fn severity_total(s: Seq<WifiSnapshot>, sev: EventSeverity) -> int
    decreases s.len(),
{
    if s.len() == 0 {
        0
    } else {
        severity_total(s.drop_last(), sev) + count_severity(s.last().events@, sev)
    }
}

/// Events embedded in all snapshots.
pub open spec fn event_total(s: Seq<WifiSnapshot>) -> int
    decreases s.len(),
{
    if s.len() == 0 {
        0
    } else {
        event_total(s.drop_last()) + s.last().events@.len()
    }
}

pub open spec fn sum_of(v: Seq<int>) -> int
    decreases v.len(),
{
    if v.len() == 0 {
        0
    } else {
        sum_of(v.drop_last()) + v.last()
    }
}

pub open spec fn min_of(v: Seq<int>) -> int
    decreases v.len(),
{
    if v.len() <= 1 {
        v[0]
    } else if v.last() < min_of(v.drop_last()) {
        v.last()
    } else {
        min_of(v.drop_last())
    }
}

pub open spec fn max_of(v: Seq<int>) -> int
    decreases v.len(),
{
    if v.len() <= 1 {
        v[0]
    } else if v.last() > max_of(v.drop_last()) {
        v.last()
    } else {
        max_of(v.drop_last())
    }
}

/// The nearest-rank percentile of the values, absent when there are none.
pub open spec fn rank_of(v: Seq<int>, pct: int) -> Option<u32> {
    if v.len() == 0 {
        None
    } else {
        Some(nearest_rank(v, pct) as u32)
    }
}

/// The statistics of a range whose snapshots are `s`, oldest first.
pub open spec fn period_stats(s: Seq<WifiSnapshot>) -> PeriodStatistics {
    let sig = signal_values(s);
    let lat = latency_values(s);
    PeriodStatistics {
        start_time: if s.len() == 0 { None } else { Some(s[0].timestamp) },
        end_time: if s.len() == 0 { None } else { Some(s.last().timestamp) },
        sample_count: s.len() as u32,
        connected_samples: sig.len() as u32,
        internet_samples: internet_count(s) as u32,
        signal_strength_sum_dbm: sum_of(sig) as i64,
        signal_strength_min_dbm: if sig.len() == 0 { None } else { Some(min_of(sig) as i32) },
        signal_strength_max_dbm: if sig.len() == 0 { None } else { Some(max_of(sig) as i32) },
        signal_quality_sum_percent: sum_of(quality_values(s)) as u64,
        latency_samples: lat.len() as u32,
        latency_sum_us: sum_of(lat) as u64,
        latency_min_us: rank_of(lat, 0),
        latency_max_us: rank_of(lat, 100),
        latency_p95_us: rank_of(lat, 95),
        latency_p99_us: rank_of(lat, 99),
        jitter_samples: jitter_values(s).len() as u32,
        jitter_sum_us: sum_of(jitter_values(s)) as u64,
        packet_loss_sum_bp: loss_total(s) as u64,
        total_disconnections: disconnections(s) as u32,
        warning_events: severity_total(s, EventSeverity::Warning) as u32,
        error_events: severity_total(s, EventSeverity::Error) as u32,
        critical_events: severity_total(s, EventSeverity::Critical) as u32,
    }
}

/// Running totals over a prefix of the snapshots.
struct Tally {
    connected: u32,
    internet: u32,
    signal_sum: i64,
    signal_min: Option<i32>,
    signal_max: Option<i32>,
    quality_sum: u64,
    latencies: Vec<u32>,
    latency_sum: u64,
    jitter_count: u32,
    jitter_sum: u64,
    loss_sum: u64,
    disconnections: u32,
    warning: u32,
    error: u32,
    critical: u32,
}

spec fn tally_matches(t: Tally, p: Seq<WifiSnapshot>) -> bool {
    let sig = signal_values(p);
    let lat = latency_values(p);
    let jit = jitter_values(p);
    &&& p.len() <= u32::MAX
    &&& t.connected == sig.len() <= p.len()
    &&& t.internet == internet_count(p) <= p.len()
    &&& t.signal_sum == sum_of(sig)
    &&& -2147483648 * sig.len() <= sum_of(sig) <= 2147483647 * sig.len()
    &&& sig.len() > 0 ==> i32::MIN <= min_of(sig) <= i32::MAX && i32::MIN <= max_of(sig) <= i32::MAX
    &&& t.signal_min == (if sig.len() == 0 { None } else { Some(min_of(sig) as i32) })
    &&& t.signal_max == (if sig.len() == 0 { None } else { Some(max_of(sig) as i32) })
    &&& quality_values(p).len() == sig.len()
    &&& t.quality_sum == sum_of(quality_values(p)) <= 255 * sig.len()
    &&& 0 <= sum_of(quality_values(p))
    &&& ints(t.latencies@) == lat
    &&& lat.len() <= p.len()
    &&& t.latency_sum == sum_of(lat) <= 4294967295 * lat.len()
    &&& 0 <= sum_of(lat)
    &&& t.jitter_count == jit.len() <= p.len()
    &&& t.jitter_sum == sum_of(jit) <= 4294967295 * jit.len()
    &&& 0 <= sum_of(jit)
    &&& t.loss_sum == loss_total(p) <= 4294967295 * p.len()
    &&& 0 <= loss_total(p)
    &&& t.disconnections == disconnections(p) <= p.len()
    &&& 0 <= disconnections(p)
    &&& t.warning == severity_total(p, EventSeverity::Warning)
    &&& t.error == severity_total(p, EventSeverity::Error)
    &&& t.critical == severity_total(p, EventSeverity::Critical)
    &&& 0 <= t.warning + t.error + t.critical <= event_total(p)
}

/// Counts the warning, error and critical events of one snapshot.
fn count_levels(events: &Vec<NetworkEvent>) -> (r: (u32, u32, u32))
    requires
        events@.len() <= u32::MAX,
    ensures
        r.0 == count_severity(events@, EventSeverity::Warning),
        r.1 == count_severity(events@, EventSeverity::Error),
        r.2 == count_severity(events@, EventSeverity::Critical),
        r.0 + r.1 + r.2 <= events@.len(),
{
    let mut w: u32 = 0;
    let mut e: u32 = 0;
    let mut c: u32 = 0;
    let mut i: usize = 0;
    while i < events.len()
        invariant
            i <= events@.len() <= u32::MAX,
            w == count_severity(events@.take(i as int), EventSeverity::Warning),
            e == count_severity(events@.take(i as int), EventSeverity::Error),
            c == count_severity(events@.take(i as int), EventSeverity::Critical),
            w + e + c <= i,
        decreases events@.len() - i,
    {
        let ghost q = events@.take(i + 1);
        assert(q.drop_last() =~= events@.take(i as int));
        match events[i].severity {
            EventSeverity::Warning => w = w + 1,
            EventSeverity::Error => e = e + 1,
            EventSeverity::Critical => c = c + 1,
            EventSeverity::Info => {},
        }
        i = i + 1;
    }
    assert(events@.take(events@.len() as int) =~= events@);
    (w, e, c)
}

/// Adds snapshot `x` to the totals of the prefix `p`.
fn absorb(t: &mut Tally, p: Ghost<Seq<WifiSnapshot>>, x: &WifiSnapshot, prev_present: bool)
    requires
        tally_matches(*old(t), p@),
        p@.len() < u32::MAX,
        event_total(p@.push(*x)) <= u32::MAX,
        prev_present == (p@.len() > 0 && link_present(p@.last())),
    ensures
        tally_matches(*final(t), p@.push(*x)),
{
    let ghost q = p@.push(*x);
    assert(q.drop_last() =~= p@);
    assert(q.last() == *x);
    proof {
        if q.len() >= 2 {
            assert(q[q.len() - 2] == p@.last());
        }
    }
    match &x.wifi_info {
        Some(w) => {
            t.connected = t.connected + 1;
            t.signal_sum = t.signal_sum + w.signal_strength_dbm as i64;
            let v = w.signal_strength_dbm;
            t.signal_min = match t.signal_min {
                None => Some(v),
                Some(m) => Some(if v < m { v } else { m }),
            };
            t.signal_max = match t.signal_max {
                None => Some(v),
                Some(m) => Some(if v > m { v } else { m }),
            };
            t.quality_sum = t.quality_sum + w.signal_quality_percent as u64;
            proof {
                let sig0 = signal_values(p@);
                let sig1 = signal_values(q);
                assert(sig1 == sig0.push(v as int));
                assert(sig1.drop_last() =~= sig0);
                assert(sig1.last() == v as int);
                lemma_sum_push(quality_values(p@), w.signal_quality_percent as int);
                if sig0.len() == 0 {
                    assert(min_of(sig1) == v as int);
                    assert(max_of(sig1) == v as int);
                } else {
                    assert(min_of(sig1) == if (v as int) < min_of(sig0) { v as int } else { min_of(sig0) });
                    assert(max_of(sig1) == if (v as int) > max_of(sig0) { v as int } else { max_of(sig0) });
                }
            }
        },
        None => {
            if prev_present {
                t.disconnections = t.disconnections + 1;
            }
        },
    }
    if x.connectivity.internet_reachable {
        t.internet = t.internet + 1;
    }
    if let Some(l) = x.latency.average_latency_us {
        let ghost before = t.latencies@;
        t.latencies.push(l);
        t.latency_sum = t.latency_sum + l as u64;
        assert(ints(t.latencies@) =~= ints(before).push(l as int));
        proof {
            lemma_sum_push(latency_values(p@), l as int);
        }
    }
    if let Some(j) = x.latency.jitter_us {
        t.jitter_count = t.jitter_count + 1;
        t.jitter_sum = t.jitter_sum + j as u64;
        proof {
            lemma_sum_push(jitter_values(p@), j as int);
        }
    }
    t.loss_sum = t.loss_sum + x.latency.packet_loss_bp as u64;
    let (w, e, c) = count_levels(&x.events);
    t.warning = t.warning + w;
    t.error = t.error + e;
    t.critical = t.critical + c;
}

proof fn lemma_sum_push(v: Seq<int>, a: int)
    ensures
        sum_of(v.push(a)) == sum_of(v) + a,
{
    assert(v.push(a).drop_last() =~= v);
}

proof fn lemma_event_total_prefix(s: Seq<WifiSnapshot>, i: int)
    requires
        0 <= i <= s.len(),
    ensures
        0 <= event_total(s.take(i)) <= event_total(s),
    decreases s.len(),
{
    if i < s.len() {
        assert(s.drop_last().take(i) =~= s.take(i));
        lemma_event_total_prefix(s.drop_last(), i);
    } else {
        assert(s.take(i) =~= s);
        lemma_event_total_nonneg(s);
    }
}

proof fn lemma_event_total_nonneg(s: Seq<WifiSnapshot>)
    ensures
        0 <= event_total(s),
    decreases s.len(),
{
    if s.len() > 0 {
        lemma_event_total_nonneg(s.drop_last());
    }
}

fn rank_pick(sorted: &Vec<u32>, pct: u64) -> (r: Option<u32>)
    requires
        sorted@.len() <= u32::MAX,
        pct <= 100,
    ensures
        sorted@.len() == 0 ==> r is None,
        sorted@.len() > 0 ==> r == Some(sorted@[if (sorted@.len() * pct / 100) < sorted@.len() { sorted@.len() * pct / 100 } else { sorted@.len() - 1 }]),
{
    let n = sorted.len();
    if n == 0 {
        return None;
    }
    assert(n as u64 * pct <= 4294967295 * 100) by (nonlinear_arith)
        requires n <= 4294967295, pct <= 100;
    let k = (n as u64 * pct / 100) as usize;
    let idx = if k < n { k } else { n - 1 };
    Some(sorted[idx])
}

/// Whether the snapshots are in timestamp order, oldest first.
pub open spec fn chronological(s: Seq<WifiSnapshot>) -> bool {
    forall|i: int, j: int| 0 <= i <= j < s.len() ==> s[i].timestamp <= s[j].timestamp
}

/// Folds the snapshots of a range, oldest first, into its statistics; the
/// period runs from the first timestamp to the last.
pub fn aggregate(snapshots: &Vec<WifiSnapshot>) -> (r: PeriodStatistics)
    requires
        chronological(snapshots@),
        snapshots@.len() <= u32::MAX,
        event_total(snapshots@) <= u32::MAX,
    ensures
        r == period_stats(snapshots@),
{
    let ghost s = snapshots@;
    let n = snapshots.len();
    let mut t = Tally {
        connected: 0,
        internet: 0,
        signal_sum: 0,
        signal_min: None,
        signal_max: None,
        quality_sum: 0,
        latencies: Vec::new(),
        latency_sum: 0,
        jitter_count: 0,
        jitter_sum: 0,
        loss_sum: 0,
        disconnections: 0,
        warning: 0,
        error: 0,
        critical: 0,
    };
    assert(ints(t.latencies@) =~= seq![]);
    assert(s.take(0) =~= seq![]);
    let mut prev_present = false;
    let mut i: usize = 0;
    while i < n
        invariant
            n == s.len() <= u32::MAX,
            s == snapshots@,
            event_total(s) <= u32::MAX,
            i <= n,
            tally_matches(t, s.take(i as int)),
            prev_present == (i > 0 && link_present(s[i - 1])),
        decreases n - i,
    {
        proof {
            lemma_event_total_prefix(s, i + 1);
            assert(s.take(i + 1) =~= s.take(i as int).push(s[i as int]));
            if i > 0 {
                assert(s.take(i as int).last() == s[i - 1]);
            }
        }
        absorb(&mut t, Ghost(s.take(i as int)), &snapshots[i], prev_present);
        prev_present = snapshots[i].wifi_info.is_some();
        i = i + 1;
    }
    assert(s.take(n as int) =~= s);
    let sorted = sorted_copy(&t.latencies);
    let ghost lat = latency_values(s);
    assert(ints(sorted@) == lat.sort());
    assert(sorted@.len() == lat.len()) by {
        assert(ints(sorted@).len() == sorted@.len());
        assert(ints(t.latencies@).to_multiset().len() == ints(sorted@).to_multiset().len());
        broadcast use vstd::seq_lib::group_to_multiset_ensures;
    }
    let p95 = rank_pick(&sorted, 95);
    let p99 = rank_pick(&sorted, 99);
    let lo = rank_pick(&sorted, 0);
    let hi = rank_pick(&sorted, 100);
    proof {
        if lat.len() > 0 {
            assert(ints(sorted@)[0] == sorted@[0] as int);
        }
    }
    PeriodStatistics {
        start_time: if n == 0 { None } else { Some(snapshots[0].timestamp) },
        end_time: if n == 0 { None } else { Some(snapshots[n - 1].timestamp) },
        sample_count: n as u32,
        connected_samples: t.connected,
        internet_samples: t.internet,
        signal_strength_sum_dbm: t.signal_sum,
        signal_strength_min_dbm: t.signal_min,
        signal_strength_max_dbm: t.signal_max,
        signal_quality_sum_percent: t.quality_sum,
        latency_samples: t.latencies.len() as u32,
        latency_sum_us: t.latency_sum,
        latency_min_us: lo,
        latency_max_us: hi,
        latency_p95_us: p95,
        latency_p99_us: p99,
        jitter_samples: t.jitter_count,
        jitter_sum_us: t.jitter_sum,
        packet_loss_sum_bp: t.loss_sum,
        total_disconnections: t.disconnections,
        warning_events: t.warning,
        error_events: t.error,
        critical_events: t.critical,
    }
}

/// Statistics of an empty range: no samples, every total zero and every
/// extreme and percentile absent.
pub proof fn lemma_aggregate_empty()
    ensures
        period_stats(Seq::<WifiSnapshot>::empty()) == (PeriodStatistics {
            start_time: None,
            end_time: None,
            sample_count: 0,
            connected_samples: 0,
            internet_samples: 0,
            signal_strength_sum_dbm: 0,
            signal_strength_min_dbm: None,
            signal_strength_max_dbm: None,
            signal_quality_sum_percent: 0,
            latency_samples: 0,
            latency_sum_us: 0,
            latency_min_us: None,
            latency_max_us: None,
            latency_p95_us: None,
            latency_p99_us: None,
            jitter_samples: 0,
            jitter_sum_us: 0,
            packet_loss_sum_bp: 0,
            total_disconnections: 0,
            warning_events: 0,
            error_events: 0,
            critical_events: 0,
        }),
{
}

/// Aggregation is a function of the snapshots alone: two runs over the same
/// stored range give identical statistics.
pub proof fn lemma_aggregate_idempotent(a: Seq<WifiSnapshot>, b: Seq<WifiSnapshot>)
    requires
        a == b,
    ensures
        period_stats(a) == period_stats(b),
{
}

/// A run of snapshots without link that follows one with a link adds a single
/// disconnection, however long the run.
pub proof fn lemma_disconnection_run(a: Seq<WifiSnapshot>, b: Seq<WifiSnapshot>)
    requires
        a.len() > 0,
        link_present(a.last()),
        b.len() > 0,
        forall|i: int| 0 <= i < b.len() ==> !link_present(#[trigger] b[i]),
    ensures
        disconnections(a + b) == disconnections(a) + 1,
    decreases b.len(),
{
    let s = a + b;
    assert(s.drop_last() =~= a + b.drop_last());
    if b.len() == 1 {
        assert(b.drop_last() =~= Seq::<WifiSnapshot>::empty());
        assert(a + b.drop_last() =~= a);
        assert(s[s.len() - 2] == a.last());
    } else {
        lemma_disconnection_run(a, b.drop_last());
        assert(s[s.len() - 2] == b[b.len() - 2]);
    }
}

proof fn lemma_present_tail(x: Seq<WifiSnapshot>, c: Seq<WifiSnapshot>)
    requires
        x.len() > 0,
        link_present(x.last()),
        forall|i: int| 0 <= i < c.len() ==> link_present(#[trigger] c[i]),
    ensures
        disconnections(x + c) == disconnections(x),
        signal_values(x + c).len() == signal_values(x).len() + c.len(),
    decreases c.len(),
{
    if c.len() == 0 {
        assert(x + c =~= x);
    } else {
        let d = c.drop_last();
        lemma_present_tail(x, d);
        let y = x + c;
        assert(y.drop_last() =~= x + d);
        assert(y.last() == c.last());
        assert(link_present(c[c.len() - 1]));
    }
}

proof fn lemma_absent_run_signal(x: Seq<WifiSnapshot>, b: Seq<WifiSnapshot>)
    requires
        forall|i: int| 0 <= i < b.len() ==> !link_present(#[trigger] b[i]),
    ensures
        signal_values(x + b).len() == signal_values(x).len(),
    decreases b.len(),
{
    if b.len() == 0 {
        assert(x + b =~= x);
    } else {
        let d = b.drop_last();
        lemma_absent_run_signal(x, d);
        assert((x + b).drop_last() =~= x + d);
        assert((x + b).last() == b.last());
        assert(!link_present(b[b.len() - 1]));
    }
}

proof fn lemma_all_present(a: Seq<WifiSnapshot>)
    requires
        forall|i: int| 0 <= i < a.len() ==> link_present(#[trigger] a[i]),
    ensures
        disconnections(a) == 0,
        signal_values(a).len() == a.len(),
    decreases a.len(),
{
    if a.len() > 0 {
        lemma_all_present(a.drop_last());
        assert(link_present(a[a.len() - 1]));
    }
}

/// Ten snapshots of which three consecutive ones have no link and follow one
/// with a link: a single disconnection and seven connected samples out of
/// ten, a connection uptime of 70%.
pub proof fn lemma_three_absent_in_ten(a: Seq<WifiSnapshot>, b: Seq<WifiSnapshot>, c: Seq<WifiSnapshot>)
    requires
        a.len() > 0,
        b.len() == 3,
        a.len() + b.len() + c.len() == 10,
        forall|i: int| 0 <= i < a.len() ==> link_present(#[trigger] a[i]),
        forall|i: int| 0 <= i < b.len() ==> !link_present(#[trigger] b[i]),
        forall|i: int| 0 <= i < c.len() ==> link_present(#[trigger] c[i]),
    ensures
        period_stats(a + b + c).sample_count == 10,
        period_stats(a + b + c).total_disconnections == 1,
        period_stats(a + b + c).connected_samples == 7,
        100 * period_stats(a + b + c).connected_samples == 70 * period_stats(a + b + c).sample_count,
{
    lemma_all_present(a);
    assert(link_present(a[a.len() - 1]));
    lemma_disconnection_run(a, b);
    lemma_absent_run_signal(a, b);
    let x = a + b;
    if c.len() > 0 {
        assert(link_present(c[0]));
        let y = x + seq![c[0]];
        assert(y.drop_last() =~= x);
        assert(y[y.len() - 2] == b[2]);
        assert(!link_present(b[2]));
        lemma_present_tail(y, c.drop_first());
        assert(y + c.drop_first() =~= x + c);
    } else {
        assert(x + c =~= x);
    }
}

/// Ten latency averages of 10, 20, ..., 100 ms, in any order: the 95th and
/// the 99th nearest-rank percentiles are both the largest, 100 ms.
pub proof fn lemma_ten_latency_percentiles(s: Seq<WifiSnapshot>)
    requires
        latency_values(s).to_multiset()
            == seq![10_000int, 20_000, 30_000, 40_000, 50_000, 60_000, 70_000, 80_000, 90_000, 100_000].to_multiset(),
    ensures
        period_stats(s).latency_p95_us == Some(100_000u32),
        period_stats(s).latency_p99_us == Some(100_000u32),
{
    let t = seq![10_000int, 20_000, 30_000, 40_000, 50_000, 60_000, 70_000, 80_000, 90_000, 100_000];
    let v = latency_values(s);
    let leq = |x: int, y: int| x <= y;
    v.lemma_sort_ensures();
    assert(sorted_by(t, leq));
    assert(total_ordering(leq));
    lemma_sorted_unique(v.sort(), t, leq);
    assert(v.len() == 10) by {
        broadcast use vstd::seq_lib::group_to_multiset_ensures;
        assert(t.to_multiset().len() == 10);
    }
    assert(v.sort()[9] == 100_000);
}

} // verus!
