use wifi_stability_tracker::analysis::{
    analyze_issues, calculate_health_score, count_of_type, generate_recommendations, health_rating,
    jitter_rating, latency_rating, signal_rating,
};
use wifi_stability_tracker::metrics::EventType;
use wifi_stability_tracker::names::typed_counts;
use wifi_stability_tracker::stats::PeriodStatistics;

fn perfect() -> PeriodStatistics {
    PeriodStatistics {
        start_time: Some(0),
        end_time: Some(10),
        sample_count: 10,
        connected_samples: 10,
        internet_samples: 10,
        signal_strength_sum_dbm: -500,
        signal_strength_min_dbm: Some(-55),
        signal_strength_max_dbm: Some(-45),
        signal_quality_sum_percent: 800,
        latency_samples: 10,
        latency_sum_us: 200_000,
        latency_min_us: Some(10_000),
        latency_max_us: Some(30_000),
        latency_p95_us: Some(30_000),
        latency_p99_us: Some(30_000),
        jitter_samples: 10,
        jitter_sum_us: 50_000,
        packet_loss_sum_bp: 0,
        total_disconnections: 0,
        warning_events: 0,
        error_events: 0,
        critical_events: 0,
    }
}

#[test]
fn perfect_period_scores_full() {
    assert_eq!(calculate_health_score(&perfect()), 100);
    assert!(analyze_issues(&perfect(), &vec![]).is_empty());
    assert!(generate_recommendations(&perfect(), &vec![]).is_empty());
}

#[test]
fn empty_period_scores_zero() {
    let mut st = perfect();
    st.sample_count = 0;
    st.connected_samples = 0;
    st.internet_samples = 0;
    st.latency_samples = 0;
    st.jitter_samples = 0;
    assert_eq!(calculate_health_score(&st), 0);
}

#[test]
fn score_deductions() {
    let mut st = perfect();
    st.connected_samples = 7;
    st.signal_strength_sum_dbm = -350;
    assert_eq!(calculate_health_score(&st), 40);
    st.internet_samples = 9;
    assert_eq!(calculate_health_score(&st), 25);
    let mut st = perfect();
    st.signal_strength_sum_dbm = -750;
    assert_eq!(calculate_health_score(&st), 90);
    st.signal_strength_sum_dbm = -801;
    assert_eq!(calculate_health_score(&st), 80);
    let mut st = perfect();
    st.latency_sum_us = 2_000_001;
    assert_eq!(calculate_health_score(&st), 80);
    let mut st = perfect();
    st.jitter_sum_us = 500_001;
    assert_eq!(calculate_health_score(&st), 80);
    st.jitter_sum_us = 300_001;
    assert_eq!(calculate_health_score(&st), 90);
    let mut st = perfect();
    st.packet_loss_sum_bp = 101;
    assert_eq!(calculate_health_score(&st), 95);
    st.packet_loss_sum_bp = 100;
    assert_eq!(calculate_health_score(&st), 100);
    let mut st = perfect();
    st.critical_events = 3;
    st.error_events = 2;
    st.warning_events = 1;
    assert_eq!(calculate_health_score(&st), 80);
    st.critical_events = u32::MAX;
    assert_eq!(calculate_health_score(&st), 0);
}

#[test]
fn score_does_not_rise_with_worse_inputs() {
    let mut prev = 101;
    for loss in [0u64, 50, 101, 150, 1_001, 5_001, 100_000] {
        let mut st = perfect();
        st.packet_loss_sum_bp = loss;
        let s = calculate_health_score(&st);
        assert!(s <= prev && s <= 100);
        prev = s;
    }
    let mut prev = 101;
    for warnings in [0u32, 1, 10, 99, 100, 1000] {
        let mut st = perfect();
        st.warning_events = warnings;
        let s = calculate_health_score(&st);
        assert!(s <= prev);
        prev = s;
    }
}

#[test]
fn ratings() {
    assert_eq!(health_rating(100), "Excellent");
    assert_eq!(health_rating(90), "Excellent");
    assert_eq!(health_rating(89), "Good");
    assert_eq!(health_rating(75), "Good");
    assert_eq!(health_rating(74), "Fair");
    assert_eq!(health_rating(59), "Poor");
    assert_eq!(health_rating(39), "Critical");
    assert_eq!(health_rating(101), "Critical");
    assert_eq!(signal_rating(-50), "(Excellent)");
    assert_eq!(signal_rating(1), "(Very Poor)");
    assert_eq!(signal_rating(-51), "(Good)");
    assert_eq!(signal_rating(-70), "(Fair)");
    assert_eq!(signal_rating(-80), "(Poor)");
    assert_eq!(signal_rating(-81), "(Very Poor)");
    assert_eq!(latency_rating(20_999), "(Excellent)");
    assert_eq!(latency_rating(21_000), "(Good)");
    assert_eq!(latency_rating(100_999), "(Fair)");
    assert_eq!(latency_rating(200_000), "(Poor)");
    assert_eq!(latency_rating(201_000), "(Very Poor)");
    assert_eq!(jitter_rating(10_500), "(Excellent)");
    assert_eq!(jitter_rating(11_000), "(Good)");
    assert_eq!(jitter_rating(30_000), "(Fair)");
    assert_eq!(jitter_rating(50_999), "(Poor)");
    assert_eq!(jitter_rating(51_000), "(Very Poor)");
}

#[test]
fn roaming_rules_fire_for_six_bssid_changes() {
    let counts = vec![(EventType::BssidChange, 6u64), (EventType::ChannelChange, 2)];
    assert_eq!(count_of_type(&counts, EventType::BssidChange), 6);
    assert_eq!(count_of_type(&counts, EventType::DnsFailure), 0);
    let issues = analyze_issues(&perfect(), &counts);
    assert_eq!(issues, vec![
        "Frequent BSSID changes (6 times) - your device may be roaming between access points".to_string(),
    ]);
    let recs = generate_recommendations(&perfect(), &counts);
    assert_eq!(recs, vec![
        "If you have multiple access points, ensure they have different SSIDs or configure proper roaming".to_string(),
        "Check if your router's roaming aggressiveness settings can be adjusted".to_string(),
        "Consider restarting your router if you haven't done so recently".to_string(),
    ]);
}

#[test]
fn statistic_issues_and_recommendations() {
    let mut st = perfect();
    st.total_disconnections = 3;
    st.connected_samples = 7;
    st.internet_samples = 6;
    st.signal_strength_sum_dbm = -544;
    st.signal_strength_min_dbm = Some(-90);
    st.latency_sum_us = 1_234_567;
    st.latency_p95_us = Some(250_049);
    st.jitter_sum_us = 310_000;
    st.packet_loss_sum_bp = 1_234;
    let issues = analyze_issues(&st, &vec![(EventType::DnsFailure, 9), (EventType::BandSwitch, 4)]);
    assert_eq!(issues, vec![
        "WiFi connection dropped 3 time(s) during the monitoring period".to_string(),
        "WiFi connection uptime is only 70.0% (expected >99%)".to_string(),
        "Internet connectivity uptime is only 60.0% (expected >99%)".to_string(),
        "Average signal strength is weak at -78 dBm (should be above -70 dBm)".to_string(),
        "Signal strength dropped to critically low levels (-90 dBm)".to_string(),
        "Average latency is high at 123.5ms (should be below 50ms for good performance)".to_string(),
        "95th percentile latency is very high at 250.0ms indicating frequent spikes".to_string(),
        "High jitter detected (31.0ms) - this can cause issues with real-time applications".to_string(),
        "Significant packet loss detected (1.23%) - this can cause connection issues".to_string(),
        "Multiple DNS failures (9 times) - DNS server issues detected".to_string(),
    ]);
    let recs = generate_recommendations(&st, &vec![(EventType::DnsFailure, 9), (EventType::BandSwitch, 4)]);
    assert_eq!(recs.len(), 3 + 2 + 3 + 2 + 3 + 1 + 3 + 1);
    assert_eq!(recs[0], "Move closer to your WiFi router or access point");
    assert_eq!(recs[3], "Consider disabling band steering on your router and manually selecting 5GHz");
    assert_eq!(recs[14], "Frequent disconnections may indicate driver issues - update your WiFi adapter drivers");
    assert_eq!(recs[17], "Consider restarting your router if you haven't done so recently");
}

#[test]
fn empty_period_issues() {
    let mut st = perfect();
    st.sample_count = 0;
    st.connected_samples = 0;
    st.internet_samples = 0;
    st.latency_samples = 0;
    st.jitter_samples = 0;
    let issues = analyze_issues(&st, &vec![]);
    assert_eq!(issues, vec![
        "WiFi connection uptime is only 0.0% (expected >99%)".to_string(),
        "Internet connectivity uptime is only 0.0% (expected >99%)".to_string(),
    ]);
}

#[test]
fn stored_bssid_counts_trigger_roaming_rules() {
    let stored = vec![("BssidChange".to_string(), 6i64), ("ChannelChange".to_string(), 1)];
    let counts = typed_counts(&stored);
    assert_eq!(count_of_type(&counts, EventType::BssidChange), 6);
    let issues = analyze_issues(&perfect(), &counts);
    assert!(issues.iter().any(|i| i.starts_with("Frequent BSSID changes (6 times)")));
    let recs = generate_recommendations(&perfect(), &counts);
    assert!(recs.iter().any(|r| r.contains("configure proper roaming")));
    let five = typed_counts(&vec![("BssidChange".to_string(), 5i64)]);
    assert!(analyze_issues(&perfect(), &five).is_empty());
    assert!(generate_recommendations(&perfect(), &five).is_empty());
}
