use wifi_stability_tracker::metrics::{EventSeverity, EventType, NetworkEvent};
use wifi_stability_tracker::report::{generate_report, recent_critical, render_report};
use wifi_stability_tracker::stats::PeriodStatistics;

fn stats() -> PeriodStatistics {
    PeriodStatistics {
        start_time: Some(0),
        end_time: Some(86_400_000 + 3_723_000),
        sample_count: 10,
        connected_samples: 7,
        internet_samples: 10,
        signal_strength_sum_dbm: -455,
        signal_strength_min_dbm: Some(-72),
        signal_strength_max_dbm: Some(-58),
        signal_quality_sum_percent: 455,
        latency_samples: 4,
        latency_sum_us: 100_000,
        latency_min_us: Some(12_340),
        latency_max_us: Some(40_000),
        latency_p95_us: Some(40_000),
        latency_p99_us: Some(40_000),
        jitter_samples: 4,
        jitter_sum_us: 20_000,
        packet_loss_sum_bp: 125,
        total_disconnections: 1,
        warning_events: 2,
        error_events: 0,
        critical_events: 1,
    }
}

fn event(t: EventType, sev: EventSeverity, ms: i64, text: &str) -> NetworkEvent {
    let mut e = NetworkEvent::new(t, sev, text);
    e.timestamp = ms;
    e
}

#[test]
fn critical_events_are_the_first_ten() {
    let mut events = Vec::new();
    for k in 0..15 {
        let sev = if k % 2 == 0 { EventSeverity::Critical } else { EventSeverity::Warning };
        events.push(event(EventType::PacketLoss, sev, k, "x"));
    }
    assert_eq!(recent_critical(&events), vec![0, 2, 4, 6, 8, 10, 12, 14]);
    let mut many = Vec::new();
    for k in 0..12 {
        many.push(event(EventType::ConnectionDropped, EventSeverity::Critical, k, "x"));
    }
    assert_eq!(recent_critical(&many), (0..10).collect::<Vec<usize>>());
    assert!(recent_critical(&vec![]).is_empty());
}

#[test]
fn rendered_report_sections() {
    let events = vec![event(EventType::ConnectionDropped, EventSeverity::Critical, 5, "WiFi is not connected")];
    let counts = vec![(EventType::ConnectionDropped, 1u64), (EventType::HighJitter, 2)];
    let text = render_report(&stats(), &counts, &events, &vec![0], &vec!["T0".to_string()], "A", "B");
    assert!(text.starts_with("═══"));
    assert!(text.contains("Report Period: A to B\nTotal Samples: 10\n\n"));
    assert!(text.contains("\n  Score: 23/100 - Critical\n\n"));
    assert!(text.contains("  WiFi Connection Uptime:      70.0%\n"));
    assert!(text.contains("  Internet Uptime:            100.0%\n"));
    assert!(text.contains("  Total Disconnections:           1\n"));
    assert!(text.contains("  Average Packet Loss:         0.13%\n\n"));
    assert!(text.contains("  Average Signal:     -65.0 dBm  (Fair)\n"));
    assert!(text.contains("  Minimum Signal:       -72 dBm  (Poor)\n"));
    assert!(text.contains("  Maximum Signal:       -58 dBm  (Good)\n"));
    assert!(text.contains("  Average Quality:     65.0%\n"));
    assert!(text.contains("  Average Latency:       25.0 ms  (Good)\n"));
    assert!(text.contains("  Minimum Latency:       12.3 ms\n"));
    assert!(text.contains("  99th Percentile:       40.0 ms\n"));
    assert!(text.contains("  Average Jitter:         5.0 ms  (Excellent)\n"));
    assert!(text.contains("  Critical Events:        1\n"));
    assert!(text.contains("  Events by Type:\n    - ConnectionDropped: 1\n    - HighJitter: 2\n\n"));
    assert!(text.contains("  1. WiFi connection dropped 1 time(s) during the monitoring period\n"));
    assert!(text.contains("  2. WiFi connection uptime is only 70.0% (expected >99%)\n"));
    assert!(text.contains("  Your WiFi connection appears to be stable. No immediate actions needed.\n\n"));
    assert!(text.contains("RECENT CRITICAL EVENTS"));
    assert!(text.contains("  [T0] ConnectionDropped: WiFi is not connected\n\n"));
    assert!(text.ends_with("END OF REPORT                              \n═══════════════════════════════════════════════════════════════════\n"));
}

#[test]
fn empty_report_is_deterministic() {
    let mut st = stats();
    st.start_time = None;
    st.end_time = None;
    let a = generate_report(&st, &vec![], &vec![]);
    let b = generate_report(&st, &vec![], &vec![]);
    assert_eq!(a, b);
    assert!(a.contains("Report Period: - to -\n"));
    assert!(!a.contains("RECENT CRITICAL EVENTS"));
    assert!(!a.contains("Events by Type"));
}

#[test]
fn report_renders_times_in_utc() {
    let events = vec![
        event(EventType::HighJitter, EventSeverity::Warning, 1_000, "jitter"),
        event(EventType::InternetUnreachable, EventSeverity::Critical, 1_700_000_000_000, "down"),
    ];
    let text = generate_report(&stats(), &events, &vec![]);
    assert!(text.contains("Report Period: 1970-01-01 00:00:00 UTC to 1970-01-02 01:02:03 UTC\n"));
    assert!(text.contains("  [2023-11-14 22:13:20] InternetUnreachable: down\n"));
    assert!(!text.contains("jitter\n"));
}
