//! Health analysis of period statistics: a 0-100 score, ratings, detected
//! issues and recommendations.

use vstd::prelude::*;
use crate::metrics::EventType;
use crate::stats::PeriodStatistics;
use crate::text::{decimal, fixed_point, push_decimal, push_fixed, push_signed, round_div, rounded_div, signed_decimal};

verus! {

/// Points lost for an uptime below 100%: `factor` times the missing
/// percentage points, truncated; the uptime of an empty period counts as 0%.
pub open spec fn uptime_deduction(samples: int, total: int, factor: int) -> int {
    if total == 0 {
        factor
    } else if samples >= total {
        0
    } else {
        factor * (total - samples) / total
    }
}

/// Band deduction of an average `sum / count` that is better when higher:
/// 20, 10 or 5 points below the three limits, nothing without samples.
pub open spec fn low_band_deduction(sum: int, count: int, l20: int, l10: int, l5: int) -> int {
    if count == 0 {
        0
    } else if sum < l20 * count {
        20
    } else if sum < l10 * count {
        10
    } else if sum < l5 * count {
        5
    } else {
        0
    }
}

/// Band deduction of an average `sum / count` that is better when lower:
/// 20, 10 or 5 points above the three limits, nothing without samples.
pub open spec fn high_band_deduction(sum: int, count: int, l20: int, l10: int, l5: int) -> int {
    if count == 0 {
        0
    } else if sum > l20 * count {
        20
    } else if sum > l10 * count {
        10
    } else if sum > l5 * count {
        5
    } else {
        0
    }
}

/// All points deducted from a perfect score.
pub open spec fn total_deduction(s: PeriodStatistics) -> int {
    uptime_deduction(s.connected_samples as int, s.sample_count as int, 200)
        + uptime_deduction(s.internet_samples as int, s.sample_count as int, 150)
        + low_band_deduction(s.signal_strength_sum_dbm as int, s.connected_samples as int, -80, -70, -60)
        + high_band_deduction(s.latency_sum_us as int, s.latency_samples as int, 200_000, 100_000, 50_000)
        + high_band_deduction(s.jitter_sum_us as int, s.jitter_samples as int, 50_000, 30_000, 15_000)
        + high_band_deduction(s.packet_loss_sum_bp as int, s.sample_count as int, 500, 100, 10)
        + 5 * s.critical_events + 2 * s.error_events + s.warning_events
}

/// The health score: 100 less all deductions, floored at 0.
pub open spec fn health_score(s: PeriodStatistics) -> int {
    if total_deduction(s) >= 100 { 0 } else { 100 - total_deduction(s) }
}

fn uptime_points(samples: u32, total: u32, factor: u64) -> (r: u64)
    requires
        factor <= 200,
    ensures
        r == uptime_deduction(samples as int, total as int, factor as int),
        r <= factor,
{
    if total == 0 {
        factor
    } else if samples >= total {
        0
    } else {
        let missing = (total - samples) as u64;
        proof {
            assert(factor * missing <= factor * total) by (nonlinear_arith)
                requires missing <= total, factor >= 0;
            assert(factor * total <= 200 * 4294967295) by (nonlinear_arith)
                requires factor <= 200, total <= 4294967295, factor >= 0;
            assert((factor * missing) / (total as int) <= factor) by (nonlinear_arith)
                requires factor * missing <= factor * total, total > 0, factor * missing >= 0;
        }
        factor * missing / total as u64
    }
}

fn low_band_points(sum: i64, count: u32, l20: i64, l10: i64, l5: i64) -> (r: u64)
    requires
        -1000 <= l20 <= 0 && -1000 <= l10 <= 0 && -1000 <= l5 <= 0,
    ensures
        r == low_band_deduction(sum as int, count as int, l20 as int, l10 as int, l5 as int),
{
    let c = count as i128;
    let s = sum as i128;
    proof {
        assert(forall|l: int, k: int| -1000 <= l <= 0 && 0 <= k <= u32::MAX ==> -1000 * 4294967295 <= #[trigger] (l * k) <= 0) by {
            assert forall|l: int, k: int| -1000 <= l <= 0 && 0 <= k <= u32::MAX implies -1000 * 4294967295 <= #[trigger] (l * k) <= 0 by {
                assert(-1000 * 4294967295 <= l * k <= 0) by (nonlinear_arith)
                    requires -1000 <= l <= 0, 0 <= k <= 4294967295;
            }
        }
    }
    if count == 0 {
        0
    } else if s < l20 as i128 * c {
        20
    } else if s < l10 as i128 * c {
        10
    } else if s < l5 as i128 * c {
        5
    } else {
        0
    }
}

fn high_band_points(sum: u64, count: u32, l20: u64, l10: u64, l5: u64) -> (r: u64)
    requires
        l20 <= 1_000_000 && l10 <= 1_000_000 && l5 <= 1_000_000,
    ensures
        r == high_band_deduction(sum as int, count as int, l20 as int, l10 as int, l5 as int),
{
    let c = count as u128;
    let s = sum as u128;
    proof {
        assert forall|l: int, k: int| 0 <= l <= 1_000_000 && 0 <= k <= u32::MAX implies 0 <= #[trigger] (l * k) <= 1_000_000 * 4294967295 by {
            assert(0 <= l * k <= 1_000_000 * 4294967295) by (nonlinear_arith)
                requires 0 <= l <= 1_000_000, 0 <= k <= 4294967295;
        }
    }
    if count == 0 {
        0
    } else if s > l20 as u128 * c {
        20
    } else if s > l10 as u128 * c {
        10
    } else if s > l5 as u128 * c {
        5
    } else {
        0
    }
}

/// The 0-100 health score of a period.
pub fn calculate_health_score(stats: &PeriodStatistics) -> (r: u32)
    ensures
        r == health_score(*stats),
        r <= 100,
{
    let s = stats;
    let d = uptime_points(s.connected_samples, s.sample_count, 200)
        + uptime_points(s.internet_samples, s.sample_count, 150)
        + low_band_points(s.signal_strength_sum_dbm, s.connected_samples, -80, -70, -60)
        + high_band_points(s.latency_sum_us, s.latency_samples, 200_000, 100_000, 50_000)
        + high_band_points(s.jitter_sum_us, s.jitter_samples, 50_000, 30_000, 15_000)
        + high_band_points(s.packet_loss_sum_bp, s.sample_count, 500, 100, 10)
        + 5 * s.critical_events as u64 + 2 * s.error_events as u64 + s.warning_events as u64;
    if d >= 100 {
        0
    } else {
        (100 - d) as u32
    }
}

/// The health score never exceeds 100 and never goes below 0, and it does not
/// rise when packet loss, latency, jitter or event counts grow, all else equal.
pub proof fn lemma_health_score_monotone(a: PeriodStatistics, b: PeriodStatistics)
    requires
        a.sample_count == b.sample_count,
        a.connected_samples == b.connected_samples,
        a.internet_samples == b.internet_samples,
        a.signal_strength_sum_dbm == b.signal_strength_sum_dbm,
        a.latency_samples == b.latency_samples,
        a.jitter_samples == b.jitter_samples,
        a.packet_loss_sum_bp <= b.packet_loss_sum_bp,
        a.latency_sum_us <= b.latency_sum_us,
        a.jitter_sum_us <= b.jitter_sum_us,
        a.warning_events <= b.warning_events,
        a.error_events <= b.error_events,
        a.critical_events <= b.critical_events,
    ensures
        health_score(b) <= health_score(a),
        0 <= health_score(a) <= 100,
        0 <= health_score(b) <= 100,
{
    assert(uptime_deduction(a.connected_samples as int, a.sample_count as int, 200) >= 0) by {
        if a.sample_count > 0 && a.connected_samples < a.sample_count {
            let (f, m, n) = (200int, (a.sample_count - a.connected_samples) as int, a.sample_count as int);
            assert(f * m / n >= 0) by (nonlinear_arith)
                requires f >= 0, m >= 0, n > 0;
        }
    }
    assert(uptime_deduction(a.internet_samples as int, a.sample_count as int, 150) >= 0) by {
        if a.sample_count > 0 && a.internet_samples < a.sample_count {
            let (f, m, n) = (150int, (a.sample_count - a.internet_samples) as int, a.sample_count as int);
            assert(f * m / n >= 0) by (nonlinear_arith)
                requires f >= 0, m >= 0, n > 0;
        }
    }
}

/// Rating of a health score.
pub open spec fn health_rating_text(score: u32) -> Seq<char> {
    if 90 <= score <= 100 {
        "Excellent"@
    } else if 75 <= score <= 89 {
        "Good"@
    } else if 60 <= score <= 74 {
        "Fair"@
    } else if 40 <= score <= 59 {
        "Poor"@
    } else {
        "Critical"@
    }
}

pub fn health_rating(score: u32) -> (r: &'static str)
    ensures
        r@ == health_rating_text(score),
{
    if 90 <= score && score <= 100 {
        "Excellent"
    } else if 75 <= score && score <= 89 {
        "Good"
    } else if 60 <= score && score <= 74 {
        "Fair"
    } else if 40 <= score && score <= 59 {
        "Poor"
    } else {
        "Critical"
    }
}

/// Rating of a signal strength in dBm.
pub open spec fn signal_rating_text(dbm: i32) -> Seq<char> {
    if -50 <= dbm <= 0 {
        "(Excellent)"@
    } else if -60 <= dbm <= -51 {
        "(Good)"@
    } else if -70 <= dbm <= -61 {
        "(Fair)"@
    } else if -80 <= dbm <= -71 {
        "(Poor)"@
    } else {
        "(Very Poor)"@
    }
}

pub fn signal_rating(dbm: i32) -> (r: &'static str)
    ensures
        r@ == signal_rating_text(dbm),
{
    if -50 <= dbm && dbm <= 0 {
        "(Excellent)"
    } else if -60 <= dbm && dbm <= -51 {
        "(Good)"
    } else if -70 <= dbm && dbm <= -61 {
        "(Fair)"
    } else if -80 <= dbm && dbm <= -71 {
        "(Poor)"
    } else {
        "(Very Poor)"
    }
}

/// Rating of a latency, by its whole milliseconds.
pub open spec fn latency_rating_text(latency_us: u64) -> Seq<char> {
    let ms = latency_us / 1000;
    if ms <= 20 {
        "(Excellent)"@
    } else if ms <= 50 {
        "(Good)"@
    } else if ms <= 100 {
        "(Fair)"@
    } else if ms <= 200 {
        "(Poor)"@
    } else {
        "(Very Poor)"@
    }
}

pub fn latency_rating(latency_us: u64) -> (r: &'static str)
    ensures
        r@ == latency_rating_text(latency_us),
{
    let ms = latency_us / 1000;
    if ms <= 20 {
        "(Excellent)"
    } else if ms <= 50 {
        "(Good)"
    } else if ms <= 100 {
        "(Fair)"
    } else if ms <= 200 {
        "(Poor)"
    } else {
        "(Very Poor)"
    }
}

/// Rating of a jitter, by its whole milliseconds.
pub open spec fn jitter_rating_text(jitter_us: u64) -> Seq<char> {
    let ms = jitter_us / 1000;
    if ms <= 10 {
        "(Excellent)"@
    } else if ms <= 20 {
        "(Good)"@
    } else if ms <= 30 {
        "(Fair)"@
    } else if ms <= 50 {
        "(Poor)"@
    } else {
        "(Very Poor)"@
    }
}

pub fn jitter_rating(jitter_us: u64) -> (r: &'static str)
    ensures
        r@ == jitter_rating_text(jitter_us),
{
    let ms = jitter_us / 1000;
    if ms <= 10 {
        "(Excellent)"
    } else if ms <= 20 {
        "(Good)"
    } else if ms <= 30 {
        "(Fair)"
    } else if ms <= 50 {
        "(Poor)"
    } else {
        "(Very Poor)"
    }
}


/// The count listed for kind `t`: that of its first entry, 0 when none.
pub open spec fn count_for(counts: Seq<(EventType, u64)>, t: EventType) -> int
    decreases counts.len(),
{
    if counts.len() == 0 {
        0
    } else if counts[0].0 == t {
        counts[0].1 as int
    } else {
        count_for(counts.drop_first(), t)
    }
}

/// The count listed for kind `t`: that of its first entry, 0 when none.
pub fn count_of_type(counts: &Vec<(EventType, u64)>, t: EventType) -> (r: u64)
    ensures
        r == count_for(counts@, t),
{
    let mut i: usize = 0;
    assert(counts@.skip(0) =~= counts@);
    while i < counts.len()
        invariant
            i <= counts@.len(),
            count_for(counts@.skip(i as int), t) == count_for(counts@, t),
        decreases counts@.len() - i,
    {
        assert(counts@.skip(i as int).drop_first() =~= counts@.skip(i + 1));
        if counts[i].0 == t {
            return counts[i].1;
        }
        i = i + 1;
    }
    assert(counts@.skip(i as int).len() == 0);
    0
}

/// The characters of each string.
pub open spec fn texts(v: Seq<String>) -> Seq<Seq<char>> {
    v.map_values(|x: String| x@)
}

fn add_text(out: &mut Vec<String>, text: &str)
    ensures
        texts(final(out)@) == texts(old(out)@).push(text@),
{
    let ghost before = out@;
    out.push(String::from_str(text));
    assert(texts(out@) =~= texts(before).push(text@));
}

pub open spec fn signal_advice(s: PeriodStatistics, counts: Seq<(EventType, u64)>) -> Seq<Seq<char>> {
    if s.connected_samples > 0 && (s.signal_strength_sum_dbm as int) < -75 * s.connected_samples {
        seq!["Move closer to your WiFi router or access point"@, "Consider adding a WiFi extender or mesh network node"@, "Check for physical obstructions between your device and the router"@]
    } else {
        seq![]
    }
}

pub open spec fn band_advice(s: PeriodStatistics, counts: Seq<(EventType, u64)>) -> Seq<Seq<char>> {
    if count_for(counts, EventType::BandSwitch) > 3 {
        seq!["Consider disabling band steering on your router and manually selecting 5GHz"@, "If 5GHz is unstable, try using 2.4GHz for better range at lower speeds"@]
    } else {
        seq![]
    }
}

pub open spec fn channel_advice(s: PeriodStatistics, counts: Seq<(EventType, u64)>) -> Seq<Seq<char>> {
    if count_for(counts, EventType::ChannelChange) > 5 {
        seq!["Use a WiFi analyzer app to find the least congested channel"@, "Manually set your router to a specific channel instead of auto"@]
    } else {
        seq![]
    }
}

pub open spec fn bssid_advice(s: PeriodStatistics, counts: Seq<(EventType, u64)>) -> Seq<Seq<char>> {
    if count_for(counts, EventType::BssidChange) > 5 {
        seq!["If you have multiple access points, ensure they have different SSIDs or configure proper roaming"@, "Check if your router's roaming aggressiveness settings can be adjusted"@]
    } else {
        seq![]
    }
}

pub open spec fn latency_advice(s: PeriodStatistics, counts: Seq<(EventType, u64)>) -> Seq<Seq<char>> {
    if s.latency_samples > 0 && s.latency_sum_us > 100_000 * s.latency_samples {
        seq!["Check for bandwidth-heavy applications running in the background"@, "Consider enabling QoS (Quality of Service) on your router"@, "Test with a wired connection to determine if the issue is WiFi-specific"@]
    } else {
        seq![]
    }
}

pub open spec fn jitter_advice(s: PeriodStatistics, counts: Seq<(EventType, u64)>) -> Seq<Seq<char>> {
    if s.jitter_samples > 0 && s.jitter_sum_us > 30_000 * s.jitter_samples {
        seq!["High jitter often indicates network congestion - check for other devices using bandwidth"@, "Update your router's firmware to the latest version"@]
    } else {
        seq![]
    }
}

pub open spec fn loss_advice(s: PeriodStatistics, counts: Seq<(EventType, u64)>) -> Seq<Seq<char>> {
    if s.sample_count > 0 && s.packet_loss_sum_bp > 100 * s.sample_count {
        seq!["Packet loss can be caused by interference - check for nearby electronics (microwaves, cordless phones)"@, "Try changing your WiFi channel to reduce interference"@, "Check your router and modem for overheating issues"@]
    } else {
        seq![]
    }
}

pub open spec fn dns_advice(s: PeriodStatistics, counts: Seq<(EventType, u64)>) -> Seq<Seq<char>> {
    if count_for(counts, EventType::DnsFailure) > 3 {
        seq!["Consider using alternative DNS servers like 8.8.8.8 (Google) or 1.1.1.1 (Cloudflare)"@]
    } else {
        seq![]
    }
}

pub open spec fn disconnect_advice(s: PeriodStatistics, counts: Seq<(EventType, u64)>) -> Seq<Seq<char>> {
    if s.total_disconnections > 2 {
        seq!["Frequent disconnections may indicate driver issues - update your WiFi adapter drivers"@, "Check your router's logs for any error messages"@, "Disable WiFi power saving mode in your adapter settings"@]
    } else {
        seq![]
    }
}

/// The recommendations of the rules that match, in rule order; any match
/// adds a closing suggestion to restart the router.
pub open spec fn recommendation_texts(s: PeriodStatistics, counts: Seq<(EventType, u64)>) -> Seq<Seq<char>> {
    let base = signal_advice(s, counts) + band_advice(s, counts) + channel_advice(s, counts) + bssid_advice(s, counts) + latency_advice(s, counts) + jitter_advice(s, counts) + loss_advice(s, counts) + dns_advice(s, counts) + disconnect_advice(s, counts);
    if base.len() > 0 {
        base.push("Consider restarting your router if you haven't done so recently"@)
    } else {
        base
    }
}

fn add_signal_advice(out: &mut Vec<String>, stats: &PeriodStatistics, counts: Ghost<Seq<(EventType, u64)>>)
    ensures
        texts(final(out)@) == texts(old(out)@) + signal_advice(*stats, counts@),
{
    let ghost before = texts(out@);
    if stats.connected_samples > 0 && (stats.signal_strength_sum_dbm as i128) < -75 * (stats.connected_samples as i128) {
        add_text(out, "Move closer to your WiFi router or access point");
        add_text(out, "Consider adding a WiFi extender or mesh network node");
        add_text(out, "Check for physical obstructions between your device and the router");
    }
    assert(texts(out@) =~= before + signal_advice(*stats, counts@));
}

fn add_band_advice(out: &mut Vec<String>, s: Ghost<PeriodStatistics>, counts: Ghost<Seq<(EventType, u64)>>, band: u64)
    requires
        band == count_for(counts@, EventType::BandSwitch),
    ensures
        texts(final(out)@) == texts(old(out)@) + band_advice(s@, counts@),
{
    let ghost before = texts(out@);
    if band > 3 {
        add_text(out, "Consider disabling band steering on your router and manually selecting 5GHz");
        add_text(out, "If 5GHz is unstable, try using 2.4GHz for better range at lower speeds");
    }
    assert(texts(out@) =~= before + band_advice(s@, counts@));
}

fn add_channel_advice(out: &mut Vec<String>, s: Ghost<PeriodStatistics>, counts: Ghost<Seq<(EventType, u64)>>, channel: u64)
    requires
        channel == count_for(counts@, EventType::ChannelChange),
    ensures
        texts(final(out)@) == texts(old(out)@) + channel_advice(s@, counts@),
{
    let ghost before = texts(out@);
    if channel > 5 {
        add_text(out, "Use a WiFi analyzer app to find the least congested channel");
        add_text(out, "Manually set your router to a specific channel instead of auto");
    }
    assert(texts(out@) =~= before + channel_advice(s@, counts@));
}

fn add_bssid_advice(out: &mut Vec<String>, s: Ghost<PeriodStatistics>, counts: Ghost<Seq<(EventType, u64)>>, bssid: u64)
    requires
        bssid == count_for(counts@, EventType::BssidChange),
    ensures
        texts(final(out)@) == texts(old(out)@) + bssid_advice(s@, counts@),
{
    let ghost before = texts(out@);
    if bssid > 5 {
        add_text(out, "If you have multiple access points, ensure they have different SSIDs or configure proper roaming");
        add_text(out, "Check if your router's roaming aggressiveness settings can be adjusted");
    }
    assert(texts(out@) =~= before + bssid_advice(s@, counts@));
}

fn add_latency_advice(out: &mut Vec<String>, stats: &PeriodStatistics, counts: Ghost<Seq<(EventType, u64)>>)
    ensures
        texts(final(out)@) == texts(old(out)@) + latency_advice(*stats, counts@),
{
    let ghost before = texts(out@);
    if stats.latency_samples > 0 && stats.latency_sum_us as u128 > 100_000 * (stats.latency_samples as u128) {
        add_text(out, "Check for bandwidth-heavy applications running in the background");
        add_text(out, "Consider enabling QoS (Quality of Service) on your router");
        add_text(out, "Test with a wired connection to determine if the issue is WiFi-specific");
    }
    assert(texts(out@) =~= before + latency_advice(*stats, counts@));
}

fn add_jitter_advice(out: &mut Vec<String>, stats: &PeriodStatistics, counts: Ghost<Seq<(EventType, u64)>>)
    ensures
        texts(final(out)@) == texts(old(out)@) + jitter_advice(*stats, counts@),
{
    let ghost before = texts(out@);
    if stats.jitter_samples > 0 && stats.jitter_sum_us as u128 > 30_000 * (stats.jitter_samples as u128) {
        add_text(out, "High jitter often indicates network congestion - check for other devices using bandwidth");
        add_text(out, "Update your router's firmware to the latest version");
    }
    assert(texts(out@) =~= before + jitter_advice(*stats, counts@));
}

fn add_loss_advice(out: &mut Vec<String>, stats: &PeriodStatistics, counts: Ghost<Seq<(EventType, u64)>>)
    ensures
        texts(final(out)@) == texts(old(out)@) + loss_advice(*stats, counts@),
{
    let ghost before = texts(out@);
    if stats.sample_count > 0 && stats.packet_loss_sum_bp as u128 > 100 * (stats.sample_count as u128) {
        add_text(out, "Packet loss can be caused by interference - check for nearby electronics (microwaves, cordless phones)");
        add_text(out, "Try changing your WiFi channel to reduce interference");
        add_text(out, "Check your router and modem for overheating issues");
    }
    assert(texts(out@) =~= before + loss_advice(*stats, counts@));
}

fn add_dns_advice(out: &mut Vec<String>, s: Ghost<PeriodStatistics>, counts: Ghost<Seq<(EventType, u64)>>, dns: u64)
    requires
        dns == count_for(counts@, EventType::DnsFailure),
    ensures
        texts(final(out)@) == texts(old(out)@) + dns_advice(s@, counts@),
{
    let ghost before = texts(out@);
    if dns > 3 {
        add_text(out, "Consider using alternative DNS servers like 8.8.8.8 (Google) or 1.1.1.1 (Cloudflare)");
    }
    assert(texts(out@) =~= before + dns_advice(s@, counts@));
}

fn add_disconnect_advice(out: &mut Vec<String>, stats: &PeriodStatistics, counts: Ghost<Seq<(EventType, u64)>>)
    ensures
        texts(final(out)@) == texts(old(out)@) + disconnect_advice(*stats, counts@),
{
    let ghost before = texts(out@);
    if stats.total_disconnections > 2 {
        add_text(out, "Frequent disconnections may indicate driver issues - update your WiFi adapter drivers");
        add_text(out, "Check your router's logs for any error messages");
        add_text(out, "Disable WiFi power saving mode in your adapter settings");
    }
    assert(texts(out@) =~= before + disconnect_advice(*stats, counts@));
}

/// Recommendations for a period, from its statistics and its event counts by kind.
pub fn generate_recommendations(stats: &PeriodStatistics, event_counts: &Vec<(EventType, u64)>) -> (r: Vec<String>)
    ensures
        texts(r@) == recommendation_texts(*stats, event_counts@),
{
    let band = count_of_type(event_counts, EventType::BandSwitch);
    let channel = count_of_type(event_counts, EventType::ChannelChange);
    let bssid = count_of_type(event_counts, EventType::BssidChange);
    let dns = count_of_type(event_counts, EventType::DnsFailure);
    let mut out: Vec<String> = Vec::new();
    assert(texts(out@) =~= seq![]);
    add_signal_advice(&mut out, stats, Ghost(event_counts@));
    add_band_advice(&mut out, Ghost(*stats), Ghost(event_counts@), band);
    add_channel_advice(&mut out, Ghost(*stats), Ghost(event_counts@), channel);
    add_bssid_advice(&mut out, Ghost(*stats), Ghost(event_counts@), bssid);
    add_latency_advice(&mut out, stats, Ghost(event_counts@));
    add_jitter_advice(&mut out, stats, Ghost(event_counts@));
    add_loss_advice(&mut out, stats, Ghost(event_counts@));
    add_dns_advice(&mut out, Ghost(*stats), Ghost(event_counts@), dns);
    add_disconnect_advice(&mut out, stats, Ghost(event_counts@));
    assert(texts(out@) =~= signal_advice(*stats, event_counts@) + band_advice(*stats, event_counts@) + channel_advice(*stats, event_counts@) + bssid_advice(*stats, event_counts@) + latency_advice(*stats, event_counts@) + jitter_advice(*stats, event_counts@) + loss_advice(*stats, event_counts@) + dns_advice(*stats, event_counts@) + disconnect_advice(*stats, event_counts@));
    if out.len() > 0 {
        add_text(&mut out, "Consider restarting your router if you haven't done so recently");
    }
    out
}

/// An uptime as tenths of a percent, rounded; 0 for an empty period.
pub open spec fn uptime_tenths(samples: u32, total: u32) -> nat {
    if total == 0 { 0 } else { rounded_div(1000 * samples as nat, total as nat) }
}

/// Whether an uptime is below 99%; an empty period has 0% uptime.
pub open spec fn uptime_short(samples: u32, total: u32) -> bool {
    total == 0 || 100 * samples < 99 * total
}

/// Text of a negative whole number given by its magnitude.
pub open spec fn minus_decimal(m: nat) -> Seq<char> {
    if m == 0 { "0"@ } else { "-"@ + decimal(m) }
}

pub open spec fn disconnection_issue(s: PeriodStatistics) -> Seq<Seq<char>> {
    if s.total_disconnections > 0 {
        seq!["WiFi connection dropped "@ + decimal(s.total_disconnections as nat) + " time(s) during the monitoring period"@]
    } else {
        seq![]
    }
}

pub open spec fn uptime_issues(s: PeriodStatistics) -> Seq<Seq<char>> {
    (if uptime_short(s.connected_samples, s.sample_count) {
        seq!["WiFi connection uptime is only "@ + fixed_point(uptime_tenths(s.connected_samples, s.sample_count), 1) + "% (expected >99%)"@]
    } else {
        seq![]
    }) + (if uptime_short(s.internet_samples, s.sample_count) {
        seq!["Internet connectivity uptime is only "@ + fixed_point(uptime_tenths(s.internet_samples, s.sample_count), 1) + "% (expected >99%)"@]
    } else {
        seq![]
    })
}

pub open spec fn signal_issues(s: PeriodStatistics) -> Seq<Seq<char>> {
    (if s.connected_samples > 0 && s.signal_strength_sum_dbm < -75 * s.connected_samples {
        seq!["Average signal strength is weak at "@
            + minus_decimal(rounded_div((-s.signal_strength_sum_dbm) as nat, s.connected_samples as nat))
            + " dBm (should be above -70 dBm)"@]
    } else {
        seq![]
    }) + match s.signal_strength_min_dbm {
        Some(m) => if m < -85 {
            seq!["Signal strength dropped to critically low levels ("@ + signed_decimal(m as int) + " dBm)"@]
        } else {
            seq![]
        },
        None => seq![],
    }
}

pub open spec fn latency_issues(s: PeriodStatistics) -> Seq<Seq<char>> {
    (if s.latency_samples > 0 && s.latency_sum_us > 100_000 * s.latency_samples {
        seq!["Average latency is high at "@ + fixed_point(rounded_div(s.latency_sum_us as nat, 100 * s.latency_samples as nat), 1)
            + "ms (should be below 50ms for good performance)"@]
    } else {
        seq![]
    }) + match s.latency_p95_us {
        Some(p) => if p > 200_000 {
            seq!["95th percentile latency is very high at "@ + fixed_point(rounded_div(p as nat, 100), 1)
                + "ms indicating frequent spikes"@]
        } else {
            seq![]
        },
        None => seq![],
    }
}

pub open spec fn jitter_loss_issues(s: PeriodStatistics) -> Seq<Seq<char>> {
    (if s.jitter_samples > 0 && s.jitter_sum_us > 30_000 * s.jitter_samples {
        seq!["High jitter detected ("@ + fixed_point(rounded_div(s.jitter_sum_us as nat, 100 * s.jitter_samples as nat), 1)
            + "ms) - this can cause issues with real-time applications"@]
    } else {
        seq![]
    }) + (if s.sample_count > 0 && s.packet_loss_sum_bp > 100 * s.sample_count {
        seq!["Significant packet loss detected ("@ + fixed_point(rounded_div(s.packet_loss_sum_bp as nat, s.sample_count as nat), 2)
            + "%) - this can cause connection issues"@]
    } else {
        seq![]
    })
}

/// The issue raised by one entry of the event counts, if any: more than five
/// access point, channel, band or name-lookup events.
pub open spec fn event_issue(t: EventType, c: u64) -> Seq<Seq<char>> {
    if c <= 5 {
        seq![]
    } else {
        match t {
            EventType::BssidChange => seq!["Frequent BSSID changes ("@ + decimal(c as nat)
                + " times) - your device may be roaming between access points"@],
            EventType::ChannelChange => seq!["Frequent channel changes ("@ + decimal(c as nat)
                + " times) - possible interference or router auto-channel issues"@],
            EventType::BandSwitch => seq!["Frequent band switching ("@ + decimal(c as nat)
                + " times) - unstable 5GHz connection or band steering issues"@],
            EventType::DnsFailure => seq!["Multiple DNS failures ("@ + decimal(c as nat)
                + " times) - DNS server issues detected"@],
            _ => seq![],
        }
    }
}

/// The event-count issues, in the order of the counts.
pub open spec fn event_issues(counts: Seq<(EventType, u64)>) -> Seq<Seq<char>>
    decreases counts.len(),
{
    if counts.len() == 0 {
        seq![]
    } else {
        event_issues(counts.drop_last()) + event_issue(counts.last().0, counts.last().1)
    }
}

/// All issues of a period, rule by rule.
pub open spec fn issue_texts(s: PeriodStatistics, counts: Seq<(EventType, u64)>) -> Seq<Seq<char>> {
    disconnection_issue(s) + uptime_issues(s) + signal_issues(s) + latency_issues(s) + jitter_loss_issues(s)
        + event_issues(counts)
}

fn add_uptime_issue(out: &mut Vec<String>, label: &str, samples: u32, total: u32)
    ensures
        texts(final(out)@) == texts(old(out)@) + if uptime_short(samples, total) {
            seq![label@ + " uptime is only "@ + fixed_point(uptime_tenths(samples, total), 1) + "% (expected >99%)"@]
        } else {
            seq![]
        },
{
    let ghost before = texts(out@);
    if total == 0 || (100 * samples as u64) < 99 * total as u64 {
        let mut t = String::from_str(label);
        t.append(" uptime is only ");
        let tenths = if total == 0 { 0 } else { round_div(1000 * samples as u64, total as u64) };
        push_fixed(&mut t, tenths, 1);
        t.append("% (expected >99%)");
        let ghost b2 = out@;
        out.push(t);
        assert(texts(out@) =~= texts(b2).push(t@));
    }
    assert(texts(out@) =~= before + if uptime_short(samples, total) {
        seq![label@ + " uptime is only "@ + fixed_point(uptime_tenths(samples, total), 1) + "% (expected >99%)"@]
    } else {
        seq![]
    });
}

fn push_text(out: &mut Vec<String>, t: String)
    ensures
        texts(final(out)@) == texts(old(out)@).push(t@),
{
    let ghost before = out@;
    out.push(t);
    assert(texts(out@) =~= texts(before).push(t@));
}

fn add_disconnection_issue(out: &mut Vec<String>, stats: &PeriodStatistics)
    ensures
        texts(final(out)@) == texts(old(out)@) + disconnection_issue(*stats),
{
    let ghost before = texts(out@);
    if stats.total_disconnections > 0 {
        let mut t = String::from_str("WiFi connection dropped ");
        push_decimal(&mut t, stats.total_disconnections as u64);
        t.append(" time(s) during the monitoring period");
        push_text(out, t);
    }
    assert(texts(out@) =~= before + disconnection_issue(*stats));
}

fn add_uptime_issues(out: &mut Vec<String>, stats: &PeriodStatistics)
    ensures
        texts(final(out)@) == texts(old(out)@) + uptime_issues(*stats),
{
    let ghost before = texts(out@);
    add_uptime_issue(out, "WiFi connection", stats.connected_samples, stats.sample_count);
    add_uptime_issue(out, "Internet connectivity", stats.internet_samples, stats.sample_count);
    proof {
        reveal_strlit("WiFi connection");
        reveal_strlit("Internet connectivity");
        reveal_strlit(" uptime is only ");
        reveal_strlit("WiFi connection uptime is only ");
        reveal_strlit("Internet connectivity uptime is only ");
        assert("WiFi connection"@ + " uptime is only "@ =~= "WiFi connection uptime is only "@);
        assert("Internet connectivity"@ + " uptime is only "@ =~= "Internet connectivity uptime is only "@);
    }
    assert(texts(out@) =~= before + uptime_issues(*stats));
}

fn add_signal_issues(out: &mut Vec<String>, stats: &PeriodStatistics)
    ensures
        texts(final(out)@) == texts(old(out)@) + signal_issues(*stats),
{
    let ghost before = texts(out@);
    let n = stats.connected_samples;
    let sum = stats.signal_strength_sum_dbm;
    if n > 0 && (sum as i128) < -75 * (n as i128) {
        let mut t = String::from_str("Average signal strength is weak at ");
        let mag = (0 - sum as i128) as u64;
        assert(mag as nat == (-stats.signal_strength_sum_dbm) as nat);
        let m = round_div(mag, n as u64);
        let ghost head = t@;
        if m == 0 {
            t.append("0");
        } else {
            t.append("-");
            push_decimal(&mut t, m);
        }
        assert(t@ =~= head + minus_decimal(m as nat));
        t.append(" dBm (should be above -70 dBm)");
        push_text(out, t);
    }
    let ghost mid = texts(out@);
    assert(mid =~= before + (if stats.connected_samples > 0 && stats.signal_strength_sum_dbm < -75 * stats.connected_samples {
        seq!["Average signal strength is weak at "@
            + minus_decimal(rounded_div((-stats.signal_strength_sum_dbm) as nat, stats.connected_samples as nat))
            + " dBm (should be above -70 dBm)"@]
    } else {
        seq![]
    }));
    if let Some(m) = stats.signal_strength_min_dbm {
        if m < -85 {
            let mut t = String::from_str("Signal strength dropped to critically low levels (");
            push_signed(&mut t, m as i64);
            t.append(" dBm)");
            push_text(out, t);
        }
    }
    assert(texts(out@) =~= before + signal_issues(*stats));
}

fn add_latency_issues(out: &mut Vec<String>, stats: &PeriodStatistics)
    ensures
        texts(final(out)@) == texts(old(out)@) + latency_issues(*stats),
{
    let ghost before = texts(out@);
    let n = stats.latency_samples;
    if n > 0 && stats.latency_sum_us as u128 > 100_000 * (n as u128) {
        let mut t = String::from_str("Average latency is high at ");
        push_fixed(&mut t, round_div(stats.latency_sum_us, 100 * n as u64), 1);
        t.append("ms (should be below 50ms for good performance)");
        push_text(out, t);
    }
    if let Some(p) = stats.latency_p95_us {
        if p > 200_000 {
            let mut t = String::from_str("95th percentile latency is very high at ");
            push_fixed(&mut t, round_div(p as u64, 100), 1);
            t.append("ms indicating frequent spikes");
            push_text(out, t);
        }
    }
    assert(texts(out@) =~= before + latency_issues(*stats));
}

fn add_jitter_loss_issues(out: &mut Vec<String>, stats: &PeriodStatistics)
    ensures
        texts(final(out)@) == texts(old(out)@) + jitter_loss_issues(*stats),
{
    let ghost before = texts(out@);
    let n = stats.jitter_samples;
    if n > 0 && stats.jitter_sum_us as u128 > 30_000 * (n as u128) {
        let mut t = String::from_str("High jitter detected (");
        push_fixed(&mut t, round_div(stats.jitter_sum_us, 100 * n as u64), 1);
        t.append("ms) - this can cause issues with real-time applications");
        push_text(out, t);
    }
    let total = stats.sample_count;
    if total > 0 && stats.packet_loss_sum_bp as u128 > 100 * (total as u128) {
        let mut t = String::from_str("Significant packet loss detected (");
        push_fixed(&mut t, round_div(stats.packet_loss_sum_bp, total as u64), 2);
        t.append("%) - this can cause connection issues");
        push_text(out, t);
    }
    assert(texts(out@) =~= before + jitter_loss_issues(*stats));
}

fn add_event_issue(out: &mut Vec<String>, t: EventType, c: u64)
    ensures
        texts(final(out)@) == texts(old(out)@) + event_issue(t, c),
{
    let ghost before = texts(out@);
    if c > 5 {
        match t {
            EventType::BssidChange => {
                let mut m = String::from_str("Frequent BSSID changes (");
                push_decimal(&mut m, c);
                m.append(" times) - your device may be roaming between access points");
                push_text(out, m);
            },
            EventType::ChannelChange => {
                let mut m = String::from_str("Frequent channel changes (");
                push_decimal(&mut m, c);
                m.append(" times) - possible interference or router auto-channel issues");
                push_text(out, m);
            },
            EventType::BandSwitch => {
                let mut m = String::from_str("Frequent band switching (");
                push_decimal(&mut m, c);
                m.append(" times) - unstable 5GHz connection or band steering issues");
                push_text(out, m);
            },
            EventType::DnsFailure => {
                let mut m = String::from_str("Multiple DNS failures (");
                push_decimal(&mut m, c);
                m.append(" times) - DNS server issues detected");
                push_text(out, m);
            },
            _ => {},
        }
    }
    assert(texts(out@) =~= before + event_issue(t, c));
}

/// Issues detected in a period, from its statistics and its event counts by kind.
pub fn analyze_issues(stats: &PeriodStatistics, event_counts: &Vec<(EventType, u64)>) -> (r: Vec<String>)
    ensures
        texts(r@) == issue_texts(*stats, event_counts@),
{
    let mut out: Vec<String> = Vec::new();
    assert(texts(out@) =~= seq![]);
    add_disconnection_issue(&mut out, stats);
    add_uptime_issues(&mut out, stats);
    add_signal_issues(&mut out, stats);
    add_latency_issues(&mut out, stats);
    add_jitter_loss_issues(&mut out, stats);
    let ghost fixed_part = texts(out@);
    assert(fixed_part =~= disconnection_issue(*stats) + uptime_issues(*stats) + signal_issues(*stats)
        + latency_issues(*stats) + jitter_loss_issues(*stats));
    let mut i: usize = 0;
    assert(event_counts@.take(0) =~= seq![]);
    while i < event_counts.len()
        invariant
            i <= event_counts@.len(),
            texts(out@) == fixed_part + event_issues(event_counts@.take(i as int)),
        decreases event_counts@.len() - i,
    {
        let (t, c) = event_counts[i];
        add_event_issue(&mut out, t, c);
        proof {
            let q = event_counts@.take(i + 1);
            assert(q.drop_last() =~= event_counts@.take(i as int));
            assert(q.last() == (t, c));
        }
        i = i + 1;
    }
    assert(event_counts@.take(event_counts@.len() as int) =~= event_counts@);
    out
}

proof fn lemma_event_issue_listed(counts: Seq<(EventType, u64)>, k: int)
    requires
        0 <= k < counts.len(),
    ensures
        forall|j: int| 0 <= j < event_issue(counts[k].0, counts[k].1).len()
            ==> event_issues(counts).contains(#[trigger] event_issue(counts[k].0, counts[k].1)[j]),
    decreases counts.len(),
{
    let prev = event_issues(counts.drop_last());
    let last = event_issue(counts.last().0, counts.last().1);
    if k == counts.len() - 1 {
        assert forall|j: int| 0 <= j < last.len() implies event_issues(counts).contains(#[trigger] last[j]) by {
            assert(event_issues(counts)[prev.len() + j] == last[j]);
        }
    } else {
        lemma_event_issue_listed(counts.drop_last(), k);
        let e = event_issue(counts[k].0, counts[k].1);
        assert(counts.drop_last()[k] == counts[k]);
        assert forall|j: int| 0 <= j < e.len() implies event_issues(counts).contains(#[trigger] e[j]) by {
            let i = choose|i: int| 0 <= i < prev.len() && prev[i] == e[j];
            assert(event_issues(counts)[i] == prev[i]);
        }
    }
}

/// More than five access-point changes in the event counts raise the
/// roaming-instability issue, and, for the first entry of that kind, the two
/// roaming recommendations.
pub proof fn lemma_roaming_rules(s: PeriodStatistics, counts: Seq<(EventType, u64)>, k: int)
    requires
        0 <= k < counts.len(),
        counts[k].0 == EventType::BssidChange,
        counts[k].1 > 5,
    ensures
        issue_texts(s, counts).contains("Frequent BSSID changes ("@ + decimal(counts[k].1 as nat)
            + " times) - your device may be roaming between access points"@),
        count_for(counts, EventType::BssidChange) > 5 ==> {
            &&& recommendation_texts(s, counts).contains(
                "If you have multiple access points, ensure they have different SSIDs or configure proper roaming"@)
            &&& recommendation_texts(s, counts).contains(
                "Check if your router's roaming aggressiveness settings can be adjusted"@)
        },
{
    let msg = "Frequent BSSID changes ("@ + decimal(counts[k].1 as nat)
        + " times) - your device may be roaming between access points"@;
    lemma_event_issue_listed(counts, k);
    assert(event_issue(counts[k].0, counts[k].1)[0] == msg);
    let head = disconnection_issue(s) + uptime_issues(s) + signal_issues(s) + latency_issues(s) + jitter_loss_issues(s);
    let tail = event_issues(counts);
    let i = choose|i: int| 0 <= i < tail.len() && tail[i] == msg;
    assert((head + tail)[head.len() + i] == msg);
    if count_for(counts, EventType::BssidChange) > 5 {
        let a = signal_advice(s, counts) + band_advice(s, counts) + channel_advice(s, counts);
        let b = bssid_advice(s, counts);
        let c = latency_advice(s, counts) + jitter_advice(s, counts) + loss_advice(s, counts)
            + dns_advice(s, counts) + disconnect_advice(s, counts);
        let base = signal_advice(s, counts) + band_advice(s, counts) + channel_advice(s, counts)
            + bssid_advice(s, counts) + latency_advice(s, counts) + jitter_advice(s, counts)
            + loss_advice(s, counts) + dns_advice(s, counts) + disconnect_advice(s, counts);
        assert(base =~= a + b + c);
        assert(base[a.len() as int] == b[0]);
        assert(base[a.len() + 1 as int] == b[1]);
        let r = recommendation_texts(s, counts);
        assert(r[a.len() as int] == b[0]);
        assert(r[a.len() + 1 as int] == b[1]);
    }
}

} // verus!
