//! The text report: a deterministic document built from period statistics,
//! event counts and the most recent critical events.

use vstd::prelude::*;
use crate::analysis::{
    analyze_issues, calculate_health_score, generate_recommendations, health_rating,
    health_rating_text, health_score, issue_texts, jitter_rating, jitter_rating_text, latency_rating,
    latency_rating_text, recommendation_texts, signal_rating, signal_rating_text, texts,
    uptime_tenths,
};
use crate::metrics::{EventSeverity, EventType, NetworkEvent};
use crate::stamp::{format_time, time_text};
use crate::stats::PeriodStatistics;
use crate::text::{
    decimal, fixed_point, push_decimal, push_signed, push_wide_decimal, push_wide_fixed,
    round_div_wide, rounded_div, signed_decimal,
};

verus! {

pub open spec fn spaces(n: nat) -> Seq<char> {
    Seq::new(n, |i: int| ' ')
}

/// `t` right-aligned in a field of `w` characters.
pub open spec fn pad(t: Seq<char>, w: nat) -> Seq<char> {
    if t.len() >= w { t } else { spaces((w - t.len()) as nat) + t }
}

/// Appends `t` right-aligned in a field of `w` characters.
fn push_padded(out: &mut String, t: &String, w: usize)
    ensures
        final(out)@ == old(out)@ + pad(t@, w as nat),
{
    proof {
        reveal_strlit(" ");
    }
    let ghost start = out@;
    let n = t.as_str().unicode_len();
    let mut k: usize = 0;
    if n < w {
        while k < w - n
            invariant
                n < w,
                k <= w - n,
                out@ == start + spaces(k as nat),
            decreases w - n - k,
        {
            let ghost before = out@;
            out.append(" ");
            proof {
                reveal_strlit(" ");
            }
            assert(" "@ =~= seq![' ']);
            assert(spaces((k + 1) as nat) =~= spaces(k as nat).push(' '));
            k = k + 1;
            assert(out@ =~= start + spaces(k as nat));
        }
    }
    out.append(t.as_str());
    assert(out@ =~= start + pad(t@, w as nat));
}

/// `v`, signed, divided by `d` and rounded half away from zero, in tenths.
pub open spec fn signed_tenths(v: int, d: nat) -> Seq<char> {
    let m = rounded_div((10 * (if v < 0 { -v } else { v })) as nat, d);
    if v < 0 && m > 0 { seq!['-'] + fixed_point(m, 1) } else { fixed_point(m, 1) }
}

/// The whole part of `v / d`, rounded toward zero, clamped to `i32`.
pub open spec fn truncated_i32(v: int, d: int) -> i32 {
    let q = if v < 0 { -((-v) / d) } else { v / d };
    if q < i32::MIN { i32::MIN } else if q > i32::MAX { i32::MAX } else { q as i32 }
}

pub open spec fn section_head(title: Seq<char>) -> Seq<char> {
    "───────────────────────────────────────────────────────────────────\n"@ + title
        + "───────────────────────────────────────────────────────────────────\n"@
}

fn push_section_head(out: &mut String, title: &str)
    ensures
        final(out)@ == old(out)@ + section_head(title@),
{
    let ghost start = out@;
    out.append("───────────────────────────────────────────────────────────────────\n");
    out.append(title);
    out.append("───────────────────────────────────────────────────────────────────\n");
    assert(out@ =~= start + section_head(title@));
}

/// The period bound shown in the header: a UTC time, or `-` when the period is empty.
pub open spec fn bound_text(t: Option<i64>) -> Seq<char> {
    match t {
        Some(ms) => time_text(ms as int) + " UTC"@,
        None => "-"@,
    }
}

pub open spec fn header_text(s: PeriodStatistics, start: Seq<char>, end: Seq<char>) -> Seq<char> {
    "═══════════════════════════════════════════════════════════════════\n"@
        + "                    WiFi Stability Analysis Report                   \n"@
        + "═══════════════════════════════════════════════════════════════════\n\n"@
        + "Report Period: "@ + start + " to "@ + end + "\n"@
        + "Total Samples: "@ + decimal(s.sample_count as nat) + "\n\n"@
}

pub open spec fn score_text(s: PeriodStatistics) -> Seq<char> {
    section_head("                         OVERALL HEALTH SCORE                       \n"@)
        + "\n  Score: "@ + decimal(health_score(s) as nat) + "/100 - "@
        + health_rating_text(health_score(s) as u32) + "\n\n"@
}

pub open spec fn loss_hundredths(s: PeriodStatistics) -> nat {
    if s.sample_count == 0 { 0 } else { rounded_div(s.packet_loss_sum_bp as nat, s.sample_count as nat) }
}

pub open spec fn reliability_text(s: PeriodStatistics) -> Seq<char> {
    section_head("                       CONNECTION RELIABILITY                        \n"@) + "\n"@
        + "  WiFi Connection Uptime:    "@ + pad(fixed_point(uptime_tenths(s.connected_samples, s.sample_count), 1), 6) + "%\n"@
        + "  Internet Uptime:           "@ + pad(fixed_point(uptime_tenths(s.internet_samples, s.sample_count), 1), 6) + "%\n"@
        + "  Total Disconnections:      "@ + pad(decimal(s.total_disconnections as nat), 6) + "\n"@
        + "  Average Packet Loss:       "@ + pad(fixed_point(loss_hundredths(s), 2), 6) + "%\n\n"@
}

pub open spec fn average_signal_line(s: PeriodStatistics) -> Seq<char> {
    if s.connected_samples > 0 {
        "  Average Signal:    "@ + pad(signed_tenths(s.signal_strength_sum_dbm as int, s.connected_samples as nat), 6)
            + " dBm  "@ + signal_rating_text(truncated_i32(s.signal_strength_sum_dbm as int, s.connected_samples as int)) + "\n"@
    } else {
        seq![]
    }
}

pub open spec fn extreme_signal_line(label: Seq<char>, v: Option<i32>) -> Seq<char> {
    match v {
        Some(m) => label + pad(signed_decimal(m as int), 6) + " dBm  "@ + signal_rating_text(m) + "\n"@,
        None => seq![],
    }
}

pub open spec fn quality_line(s: PeriodStatistics) -> Seq<char> {
    if s.connected_samples > 0 {
        "  Average Quality:   "@ + pad(fixed_point(rounded_div(10 * s.signal_quality_sum_percent as nat, s.connected_samples as nat), 1), 6) + "%\n"@
    } else {
        seq![]
    }
}

pub open spec fn signal_lines(s: PeriodStatistics) -> Seq<char> {
    average_signal_line(s) + extreme_signal_line("  Minimum Signal:    "@, s.signal_strength_min_dbm)
        + extreme_signal_line("  Maximum Signal:    "@, s.signal_strength_max_dbm) + quality_line(s)
}

pub open spec fn signal_text(s: PeriodStatistics) -> Seq<char> {
    section_head("                          SIGNAL QUALITY                            \n"@) + "\n"@ + signal_lines(s) + "\n"@
}

/// A latency in microseconds as milliseconds with one decimal, in a field of 8.
pub open spec fn ms_field(us: nat) -> Seq<char> {
    pad(fixed_point(rounded_div(us, 100), 1), 8)
}

pub open spec fn optional_ms_line(label: Seq<char>, v: Option<u32>) -> Seq<char> {
    match v {
        Some(us) => label + ms_field(us as nat) + " ms\n"@,
        None => seq![],
    }
}

pub open spec fn average_latency_line(s: PeriodStatistics) -> Seq<char> {
    if s.latency_samples > 0 {
        "  Average Latency:   "@ + pad(fixed_point(rounded_div(s.latency_sum_us as nat, 100 * s.latency_samples as nat), 1), 8)
            + " ms  "@ + latency_rating_text((s.latency_sum_us / s.latency_samples as u64) as u64) + "\n"@
    } else {
        seq![]
    }
}

pub open spec fn average_jitter_line(s: PeriodStatistics) -> Seq<char> {
    if s.jitter_samples > 0 {
        "  Average Jitter:    "@ + pad(fixed_point(rounded_div(s.jitter_sum_us as nat, 100 * s.jitter_samples as nat), 1), 8)
            + " ms  "@ + jitter_rating_text((s.jitter_sum_us / s.jitter_samples as u64) as u64) + "\n"@
    } else {
        seq![]
    }
}

pub open spec fn latency_lines(s: PeriodStatistics) -> Seq<char> {
    average_latency_line(s) + optional_ms_line("  Minimum Latency:   "@, s.latency_min_us)
        + optional_ms_line("  Maximum Latency:   "@, s.latency_max_us)
        + optional_ms_line("  95th Percentile:   "@, s.latency_p95_us)
        + optional_ms_line("  99th Percentile:   "@, s.latency_p99_us) + average_jitter_line(s)
}

pub open spec fn latency_text(s: PeriodStatistics) -> Seq<char> {
    section_head("                         LATENCY ANALYSIS                           \n"@) + "\n"@ + latency_lines(s) + "\n"@
}

/// One line per entry of the event counts, in order.
pub open spec fn count_lines(counts: Seq<(EventType, u64)>) -> Seq<char>
    decreases counts.len(),
{
    if counts.len() == 0 {
        seq![]
    } else {
        count_lines(counts.drop_last()) + "    - "@ + counts.last().0.name_spec() + ": "@
            + decimal(counts.last().1 as nat) + "\n"@
    }
}

pub open spec fn events_text(s: PeriodStatistics, counts: Seq<(EventType, u64)>) -> Seq<char> {
    section_head("                          EVENT SUMMARY                             \n"@) + "\n"@
        + "  Critical Events:   "@ + pad(decimal(s.critical_events as nat), 6) + "\n"@
        + "  Error Events:      "@ + pad(decimal(s.error_events as nat), 6) + "\n"@
        + "  Warning Events:    "@ + pad(decimal(s.warning_events as nat), 6) + "\n"@ + "\n"@
        + (if counts.len() > 0 { "  Events by Type:\n"@ + count_lines(counts) + "\n"@ } else { seq![] })
}

/// Items numbered from 1, one per line.
pub open spec fn numbered_lines(items: Seq<Seq<char>>) -> Seq<char>
    decreases items.len(),
{
    if items.len() == 0 {
        seq![]
    } else {
        numbered_lines(items.drop_last()) + "  "@ + decimal(items.len()) + ". "@ + items.last() + "\n"@
    }
}

/// A numbered list followed by a blank line, or the `none` message alone.
pub open spec fn numbered(items: Seq<Seq<char>>, none: Seq<char>) -> Seq<char> {
    if items.len() == 0 { "  "@ + none + "\n\n"@ } else { numbered_lines(items) + "\n"@ }
}

/// Positions of the first `k` critical events of `q` at or after `from`, in order.
pub open spec fn critical_positions(q: Seq<NetworkEvent>, from: int, k: nat) -> Seq<int>
    decreases q.len() - from,
{
    if from >= q.len() || from < 0 || k == 0 {
        seq![]
    } else if q[from].severity == EventSeverity::Critical {
        seq![from] + critical_positions(q, from + 1, (k - 1) as nat)
    } else {
        critical_positions(q, from + 1, k)
    }
}

/// One line per critical event (given by position), each with its rendered time.
pub open spec fn critical_lines(q: Seq<NetworkEvent>, pos: Seq<int>, times: Seq<Seq<char>>) -> Seq<char>
    decreases pos.len(),
{
    if pos.len() == 0 {
        seq![]
    } else {
        critical_lines(q, pos.drop_last(), times.drop_last()) + "  ["@ + times.last() + "] "@
            + q[pos.last()].event_type.name_spec() + ": "@ + q[pos.last()].description@ + "\n"@
    }
}

pub open spec fn critical_text(q: Seq<NetworkEvent>, pos: Seq<int>, times: Seq<Seq<char>>) -> Seq<char> {
    if pos.len() == 0 {
        seq![]
    } else {
        section_head("                      RECENT CRITICAL EVENTS                       \n"@) + "\n"@
            + critical_lines(q, pos, times) + "\n"@
    }
}

pub open spec fn footer_text() -> Seq<char> {
    "═══════════════════════════════════════════════════════════════════\n"@
        + "                         END OF REPORT                              \n"@
        + "═══════════════════════════════════════════════════════════════════\n"@
}

/// The report's figures: header, score, reliability, signal, latency and events.
pub open spec fn figures_text(s: PeriodStatistics, counts: Seq<(EventType, u64)>, start: Seq<char>, end: Seq<char>) -> Seq<char> {
    header_text(s, start, end) + score_text(s) + reliability_text(s) + signal_text(s) + latency_text(s)
        + events_text(s, counts)
}

/// The report's issues and recommendations.
pub open spec fn advice_text(s: PeriodStatistics, counts: Seq<(EventType, u64)>) -> Seq<char> {
    section_head("                         ISSUES DETECTED                            \n"@) + "\n"@
        + numbered(issue_texts(s, counts), "No significant issues detected."@)
        + section_head("                        RECOMMENDATIONS                             \n"@) + "\n"@
        + numbered(recommendation_texts(s, counts), "Your WiFi connection appears to be stable. No immediate actions needed."@)
}

/// The whole report.
pub open spec fn report_text(
    s: PeriodStatistics,
    counts: Seq<(EventType, u64)>,
    events: Seq<NetworkEvent>,
    pos: Seq<int>,
    times: Seq<Seq<char>>,
    start: Seq<char>,
    end: Seq<char>,
) -> Seq<char> {
    figures_text(s, counts, start, end) + advice_text(s, counts)
        + critical_text(events, pos, times) + footer_text()
}

fn fixed_text(v: u128, places: u64) -> (r: String)
    requires
        places == 1 || places == 2,
    ensures
        r@ == fixed_point(v as nat, places as nat),
{
    let mut t = String::new();
    push_wide_fixed(&mut t, v, places);
    assert(t@ =~= fixed_point(v as nat, places as nat));
    t
}

fn decimal_text(n: u128) -> (r: String)
    ensures
        r@ == decimal(n as nat),
{
    let mut t = String::new();
    push_wide_decimal(&mut t, n);
    assert(t@ =~= decimal(n as nat));
    t
}

fn signed_text(n: i64) -> (r: String)
    ensures
        r@ == signed_decimal(n as int),
{
    let mut t = String::new();
    push_signed(&mut t, n);
    assert(t@ =~= signed_decimal(n as int));
    t
}

fn signed_tenths_text(v: i64, d: u32) -> (r: String)
    requires
        d > 0,
    ensures
        r@ == signed_tenths(v as int, d as nat),
{
    proof {
        reveal_strlit("-");
    }
    let mag: u128 = if v < 0 { (0 - v as i128) as u128 } else { v as u128 };
    let m = round_div_wide(10 * mag, d as u128);
    let mut t = String::new();
    if v < 0 && m > 0 {
        t.append("-");
    }
    push_wide_fixed(&mut t, m, 1);
    assert(t@ =~= signed_tenths(v as int, d as nat));
    t
}

fn truncated(v: i64, d: u32) -> (r: i32)
    requires
        d > 0,
    ensures
        r == truncated_i32(v as int, d as int),
{
    let q: i128 = if v < 0 { 0 - ((0 - v as i128) / d as i128) } else { v as i128 / d as i128 };
    if q < i32::MIN as i128 {
        i32::MIN
    } else if q > i32::MAX as i128 {
        i32::MAX
    } else {
        q as i32
    }
}

fn push_header(out: &mut String, s: &PeriodStatistics, start: &str, end: &str)
    ensures
        final(out)@ == old(out)@ + header_text(*s, start@, end@),
{
    let ghost g = out@;
    out.append("═══════════════════════════════════════════════════════════════════\n");
    out.append("                    WiFi Stability Analysis Report                   \n");
    out.append("═══════════════════════════════════════════════════════════════════\n\n");
    out.append("Report Period: ");
    out.append(start);
    out.append(" to ");
    out.append(end);
    out.append("\n");
    out.append("Total Samples: ");
    push_decimal(out, s.sample_count as u64);
    out.append("\n\n");
    assert(out@ =~= g + header_text(*s, start@, end@));
}

fn push_score(out: &mut String, s: &PeriodStatistics)
    ensures
        final(out)@ == old(out)@ + score_text(*s),
{
    let ghost g = out@;
    let score = calculate_health_score(s);
    push_section_head(out, "                         OVERALL HEALTH SCORE                       \n");
    out.append("\n  Score: ");
    push_decimal(out, score as u64);
    out.append("/100 - ");
    out.append(health_rating(score));
    out.append("\n\n");
    assert(out@ =~= g + score_text(*s));
}

fn push_reliability(out: &mut String, s: &PeriodStatistics)
    ensures
        final(out)@ == old(out)@ + reliability_text(*s),
{
    let ghost g = out@;
    let n = s.sample_count as u128;
    let conn = if n == 0 { 0 } else { round_div_wide(1000 * s.connected_samples as u128, n) };
    let net = if n == 0 { 0 } else { round_div_wide(1000 * s.internet_samples as u128, n) };
    let loss = if n == 0 { 0 } else { round_div_wide(s.packet_loss_sum_bp as u128, n) };
    push_section_head(out, "                       CONNECTION RELIABILITY                        \n");
    out.append("\n");
    out.append("  WiFi Connection Uptime:    ");
    push_padded(out, &fixed_text(conn, 1), 6);
    out.append("%\n");
    out.append("  Internet Uptime:           ");
    push_padded(out, &fixed_text(net, 1), 6);
    out.append("%\n");
    out.append("  Total Disconnections:      ");
    push_padded(out, &decimal_text(s.total_disconnections as u128), 6);
    out.append("\n");
    out.append("  Average Packet Loss:       ");
    push_padded(out, &fixed_text(loss, 2), 6);
    out.append("%\n\n");
    assert(out@ =~= g + reliability_text(*s));
}

fn push_average_signal(out: &mut String, s: &PeriodStatistics)
    ensures
        final(out)@ == old(out)@ + average_signal_line(*s),
{
    let ghost g = out@;
    let c = s.connected_samples;
    if c > 0 {
        out.append("  Average Signal:    ");
        push_padded(out, &signed_tenths_text(s.signal_strength_sum_dbm, c), 6);
        out.append(" dBm  ");
        out.append(signal_rating(truncated(s.signal_strength_sum_dbm, c)));
        out.append("\n");
    }
    assert(out@ =~= g + average_signal_line(*s));
}

fn push_extreme_signal(out: &mut String, label: &str, v: Option<i32>)
    ensures
        final(out)@ == old(out)@ + extreme_signal_line(label@, v),
{
    let ghost g = out@;
    if let Some(m) = v {
        out.append(label);
        push_padded(out, &signed_text(m as i64), 6);
        out.append(" dBm  ");
        out.append(signal_rating(m));
        out.append("\n");
    }
    assert(out@ =~= g + extreme_signal_line(label@, v));
}

fn push_quality(out: &mut String, s: &PeriodStatistics)
    ensures
        final(out)@ == old(out)@ + quality_line(*s),
{
    let ghost g = out@;
    let c = s.connected_samples;
    if c > 0 {
        out.append("  Average Quality:   ");
        let q = round_div_wide(10 * s.signal_quality_sum_percent as u128, c as u128);
        push_padded(out, &fixed_text(q, 1), 6);
        out.append("%\n");
    }
    assert(out@ =~= g + quality_line(*s));
}

fn push_signal(out: &mut String, s: &PeriodStatistics)
    ensures
        final(out)@ == old(out)@ + signal_text(*s),
{
    let ghost g = out@;
    push_section_head(out, "                          SIGNAL QUALITY                            \n");
    out.append("\n");
    push_average_signal(out, s);
    push_extreme_signal(out, "  Minimum Signal:    ", s.signal_strength_min_dbm);
    push_extreme_signal(out, "  Maximum Signal:    ", s.signal_strength_max_dbm);
    push_quality(out, s);
    out.append("\n");
    assert(out@ =~= g + signal_text(*s));
}

fn push_ms_line(out: &mut String, label: &str, v: Option<u32>)
    ensures
        final(out)@ == old(out)@ + optional_ms_line(label@, v),
{
    let ghost g = out@;
    if let Some(us) = v {
        out.append(label);
        push_padded(out, &fixed_text(round_div_wide(us as u128, 100), 1), 8);
        out.append(" ms\n");
    }
    assert(out@ =~= g + optional_ms_line(label@, v));
}

fn push_average_latency(out: &mut String, s: &PeriodStatistics)
    ensures
        final(out)@ == old(out)@ + average_latency_line(*s),
{
    let ghost g = out@;
    let n = s.latency_samples;
    if n > 0 {
        out.append("  Average Latency:   ");
        push_padded(out, &fixed_text(round_div_wide(s.latency_sum_us as u128, 100 * n as u128), 1), 8);
        out.append(" ms  ");
        out.append(latency_rating(s.latency_sum_us / n as u64));
        out.append("\n");
    }
    assert(out@ =~= g + average_latency_line(*s));
}

fn push_average_jitter(out: &mut String, s: &PeriodStatistics)
    ensures
        final(out)@ == old(out)@ + average_jitter_line(*s),
{
    let ghost g = out@;
    let j = s.jitter_samples;
    if j > 0 {
        out.append("  Average Jitter:    ");
        push_padded(out, &fixed_text(round_div_wide(s.jitter_sum_us as u128, 100 * j as u128), 1), 8);
        out.append(" ms  ");
        out.append(jitter_rating(s.jitter_sum_us / j as u64));
        out.append("\n");
    }
    assert(out@ =~= g + average_jitter_line(*s));
}

fn push_latency(out: &mut String, s: &PeriodStatistics)
    ensures
        final(out)@ == old(out)@ + latency_text(*s),
{
    let ghost g = out@;
    push_section_head(out, "                         LATENCY ANALYSIS                           \n");
    out.append("\n");
    push_average_latency(out, s);
    push_ms_line(out, "  Minimum Latency:   ", s.latency_min_us);
    push_ms_line(out, "  Maximum Latency:   ", s.latency_max_us);
    push_ms_line(out, "  95th Percentile:   ", s.latency_p95_us);
    push_ms_line(out, "  99th Percentile:   ", s.latency_p99_us);
    push_average_jitter(out, s);
    out.append("\n");
    assert(out@ =~= g + latency_text(*s));
}

fn push_count_list(out: &mut String, counts: &Vec<(EventType, u64)>)
    ensures
        final(out)@ == old(out)@ + (if counts@.len() > 0 { "  Events by Type:\n"@ + count_lines(counts@) + "\n"@ } else { seq![] }),
{
    let ghost g2 = out@;
    if counts.len() > 0 {
        out.append("  Events by Type:\n");
        let ghost g3 = out@;
        let mut i: usize = 0;
        assert(counts@.take(0) =~= seq![]);
        assert(out@ =~= g3 + count_lines(counts@.take(0)));
        while i < counts.len()
            invariant
                i <= counts@.len(),
                out@ == g3 + count_lines(counts@.take(i as int)),
            decreases counts@.len() - i,
        {
            let (t, c) = counts[i];
            out.append("    - ");
            out.append(t.name());
            out.append(": ");
            push_decimal(out, c);
            out.append("\n");
            proof {
                let q = counts@.take(i + 1);
                assert(q.drop_last() =~= counts@.take(i as int));
                assert(q.last() == (t, c));
            }
            i = i + 1;
            assert(out@ =~= g3 + count_lines(counts@.take(i as int)));
        }
        assert(counts@.take(counts@.len() as int) =~= counts@);
        out.append("\n");
    }
    assert(out@ =~= g2 + (if counts@.len() > 0 { "  Events by Type:\n"@ + count_lines(counts@) + "\n"@ } else { seq![] }));
}

fn push_count_field(out: &mut String, label: &str, n: u32)
    ensures
        final(out)@ == old(out)@ + label@ + pad(decimal(n as nat), 6) + "\n"@,
{
    let ghost g = out@;
    out.append(label);
    push_padded(out, &decimal_text(n as u128), 6);
    out.append("\n");
    assert(out@ =~= g + label@ + pad(decimal(n as nat), 6) + "\n"@);
}

#[verifier::rlimit(30)]
fn push_events(out: &mut String, s: &PeriodStatistics, counts: &Vec<(EventType, u64)>)
    ensures
        final(out)@ == old(out)@ + events_text(*s, counts@),
{
    let ghost g = out@;
    push_section_head(out, "                          EVENT SUMMARY                             \n");
    out.append("\n");
    push_count_field(out, "  Critical Events:   ", s.critical_events);
    push_count_field(out, "  Error Events:      ", s.error_events);
    push_count_field(out, "  Warning Events:    ", s.warning_events);
    out.append("\n");
    push_count_list(out, counts);
    assert(out@ =~= g + events_text(*s, counts@));
}

fn push_numbered(out: &mut String, items: &Vec<String>, none: &str)
    ensures
        final(out)@ == old(out)@ + numbered(texts(items@), none@),
{
    let ghost g = out@;
    if items.len() == 0 {
        out.append("  ");
        out.append(none);
        out.append("\n\n");
        assert(texts(items@).len() == 0);
    } else {
        let mut i: usize = 0;
        assert(texts(items@.take(0)) =~= seq![]);
        while i < items.len()
            invariant
                i <= items@.len() <= usize::MAX,
                out@ == g + numbered_lines(texts(items@.take(i as int))),
            decreases items@.len() - i,
        {
            out.append("  ");
            push_decimal(out, (i + 1) as u64);
            out.append(". ");
            out.append(items[i].as_str());
            out.append("\n");
            proof {
                let q = texts(items@.take(i + 1));
                assert(q.drop_last() =~= texts(items@.take(i as int)));
                assert(q.last() == items@[i as int]@);
                assert(q.len() == i + 1);
            }
            i = i + 1;
        }
        assert(items@.take(items@.len() as int) =~= items@);
        out.append("\n");
    }
    assert(out@ =~= g + numbered(texts(items@), none@));
}

pub open spec fn positions(v: Seq<usize>) -> Seq<int> {
    v.map_values(|p: usize| p as int)
}

/// Positions of the first ten critical events of `events`; with events listed
/// newest first these are the most recent ones.
pub fn recent_critical(events: &Vec<NetworkEvent>) -> (r: Vec<usize>)
    ensures
        positions(r@) == critical_positions(events@, 0, 10),
        forall|j: int| 0 <= j < r@.len() ==> #[trigger] r@[j] < events@.len(),
{
    let mut out: Vec<usize> = Vec::new();
    let mut i: usize = 0;
    assert(positions(out@) =~= seq![]);
    while i < events.len() && out.len() < 10
        invariant
            i <= events@.len(),
            out@.len() <= 10,
            forall|j: int| 0 <= j < out@.len() ==> #[trigger] out@[j] < i,
            positions(out@) + critical_positions(events@, i as int, (10 - out@.len()) as nat)
                == critical_positions(events@, 0, 10),
        decreases events@.len() - i,
    {
        if events[i].severity == EventSeverity::Critical {
            let ghost before = out@;
            out.push(i);
            assert(positions(out@) =~= positions(before).push(i as int));
            assert(positions(out@) + critical_positions(events@, i + 1, (10 - out@.len()) as nat)
                =~= positions(before) + critical_positions(events@, i as int, (10 - before.len()) as nat));
        }
        i = i + 1;
    }
    assert(critical_positions(events@, i as int, (10 - out@.len()) as nat) =~= seq![]);
    assert(positions(out@) + seq![] =~= positions(out@));
    out
}

fn push_critical(out: &mut String, events: &Vec<NetworkEvent>, pos: &Vec<usize>, times: &Vec<String>)
    requires
        pos@.len() == times@.len(),
        forall|j: int| 0 <= j < pos@.len() ==> #[trigger] pos@[j] < events@.len(),
    ensures
        final(out)@ == old(out)@ + critical_text(events@, positions(pos@), texts(times@)),
{
    let ghost g = out@;
    if pos.len() > 0 {
        push_section_head(out, "                      RECENT CRITICAL EVENTS                       \n");
        out.append("\n");
        let ghost g2 = out@;
        let mut i: usize = 0;
        assert(positions(pos@.take(0)) =~= seq![]);
        while i < pos.len()
            invariant
                i <= pos@.len() == times@.len(),
                forall|j: int| 0 <= j < pos@.len() ==> #[trigger] pos@[j] < events@.len(),
                out@ == g2 + critical_lines(events@, positions(pos@.take(i as int)), texts(times@.take(i as int))),
            decreases pos@.len() - i,
        {
            let e = &events[pos[i]];
            out.append("  [");
            out.append(times[i].as_str());
            out.append("] ");
            out.append(e.event_type.name());
            out.append(": ");
            out.append(e.description.as_str());
            out.append("\n");
            proof {
                let p = positions(pos@.take(i + 1));
                let t = texts(times@.take(i + 1));
                assert(p.drop_last() =~= positions(pos@.take(i as int)));
                assert(t.drop_last() =~= texts(times@.take(i as int)));
                assert(p.last() == pos@[i as int] as int);
                assert(t.last() == times@[i as int]@);
            }
            i = i + 1;
        }
        assert(pos@.take(pos@.len() as int) =~= pos@);
        assert(times@.take(times@.len() as int) =~= times@);
        out.append("\n");
    }
    assert(out@ =~= g + critical_text(events@, positions(pos@), texts(times@)));
}

fn push_footer(out: &mut String)
    ensures
        final(out)@ == old(out)@ + footer_text(),
{
    let ghost g = out@;
    out.append("═══════════════════════════════════════════════════════════════════\n");
    out.append("                         END OF REPORT                              \n");
    out.append("═══════════════════════════════════════════════════════════════════\n");
    assert(out@ =~= g + footer_text());
}

fn push_figures(out: &mut String, stats: &PeriodStatistics, event_counts: &Vec<(EventType, u64)>, start: &str, end: &str)
    ensures
        final(out)@ == old(out)@ + figures_text(*stats, event_counts@, start@, end@),
{
    let ghost g = out@;
    push_header(out, stats, start, end);
    push_score(out, stats);
    push_reliability(out, stats);
    push_signal(out, stats);
    push_latency(out, stats);
    push_events(out, stats, event_counts);
    assert(out@ =~= g + figures_text(*stats, event_counts@, start@, end@));
}

fn push_advice(out: &mut String, stats: &PeriodStatistics, event_counts: &Vec<(EventType, u64)>)
    ensures
        final(out)@ == old(out)@ + advice_text(*stats, event_counts@),
{
    let ghost g = out@;
    push_section_head(out, "                         ISSUES DETECTED                            \n");
    out.append("\n");
    let issues = analyze_issues(stats, event_counts);
    push_numbered(out, &issues, "No significant issues detected.");
    push_section_head(out, "                        RECOMMENDATIONS                             \n");
    out.append("\n");
    let recs = generate_recommendations(stats, event_counts);
    push_numbered(out, &recs, "Your WiFi connection appears to be stable. No immediate actions needed.");
    assert(out@ =~= g + advice_text(*stats, event_counts@));
}

/// Renders the report from its parts: the statistics, the event counts by
/// kind, the events with the positions of the critical ones to list and their
/// rendered times, and the rendered period bounds.
pub fn render_report(
    stats: &PeriodStatistics,
    event_counts: &Vec<(EventType, u64)>,
    events: &Vec<NetworkEvent>,
    critical: &Vec<usize>,
    times: &Vec<String>,
    start: &str,
    end: &str,
) -> (r: String)
    requires
        critical@.len() == times@.len(),
        forall|j: int| 0 <= j < critical@.len() ==> #[trigger] critical@[j] < events@.len(),
    ensures
        r@ == report_text(*stats, event_counts@, events@, positions(critical@), texts(times@), start@, end@),
{
    let mut out = String::new();
    push_figures(&mut out, stats, event_counts, start, end);
    push_advice(&mut out, stats, event_counts);
    push_critical(&mut out, events, critical, times);
    push_footer(&mut out);
    assert(out@ =~= report_text(*stats, event_counts@, events@, positions(critical@), texts(times@), start@, end@));
    out
}

/// The rendered times of the events at the given positions.
pub open spec fn times_at(q: Seq<NetworkEvent>, pos: Seq<int>) -> Seq<Seq<char>> {
    pos.map_values(|p: int| time_text(q[p].timestamp as int))
}

fn bound(t: Option<i64>) -> (r: String)
    ensures
        r@ == bound_text(t),
{
    match t {
        Some(ms) => {
            let mut text = format_time(ms);
            text.append(" UTC");
            text
        },
        None => String::from_str("-"),
    }
}

/// The report of a period: its statistics, its events newest first (the first
/// ten critical ones are listed) and its event counts by kind.
pub fn generate_report(stats: &PeriodStatistics, events: &Vec<NetworkEvent>, event_counts: &Vec<(EventType, u64)>) -> (r: String)
    ensures
        r@ == report_text(
            *stats,
            event_counts@,
            events@,
            critical_positions(events@, 0, 10),
            times_at(events@, critical_positions(events@, 0, 10)),
            bound_text(stats.start_time),
            bound_text(stats.end_time),
        ),
{
    let critical = recent_critical(events);
    let mut times: Vec<String> = Vec::new();
    let mut i: usize = 0;
    while i < critical.len()
        invariant
            i <= critical@.len(),
            times@.len() == i,
            forall|j: int| 0 <= j < critical@.len() ==> #[trigger] critical@[j] < events@.len(),
            forall|j: int| 0 <= j < i ==> (#[trigger] times@[j])@ == time_text(events@[critical@[j] as int].timestamp as int),
        decreases critical@.len() - i,
    {
        times.push(format_time(events[critical[i]].timestamp));
        i = i + 1;
    }
    assert(texts(times@) =~= times_at(events@, positions(critical@)));
    let start = bound(stats.start_time);
    let end = bound(stats.end_time);
    render_report(stats, event_counts, events, &critical, &times, start.as_str(), end.as_str())
}

} // verus!
