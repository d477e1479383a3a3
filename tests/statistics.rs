use wifi_stability_tracker::metrics::{
    EventSeverity, EventType, NetworkEvent, WifiBand, WifiInfo, WifiSnapshot,
};
use wifi_stability_tracker::series::{series_points, Metric};
use wifi_stability_tracker::stats::{aggregate, sorted_copy};

fn link(dbm: i32, quality: u8) -> WifiInfo {
    WifiInfo {
        ssid: "home".to_string(),
        bssid: "aa:aa".to_string(),
        signal_strength_dbm: dbm,
        signal_quality_percent: quality,
        channel: 6,
        frequency_mhz: 2437,
        band: WifiBand::Band2_4GHz,
        phy_type: String::new(),
        link_speed_mbps: 144,
        rx_rate_mbps: None,
        tx_rate_mbps: None,
        security_type: String::new(),
        adapter_name: String::new(),
        adapter_mac: String::new(),
        ipv4_address: None,
        ipv6_address: None,
        gateway: None,
        dns_servers: vec![],
    }
}

fn sample(ts: i64, present: bool) -> WifiSnapshot {
    let mut s = WifiSnapshot::new();
    s.timestamp = ts;
    if present {
        s.wifi_info = Some(link(-60, 57));
        s.connectivity.internet_reachable = true;
    }
    s
}

#[test]
fn empty_range_gives_zero_statistics() {
    let st = aggregate(&vec![]);
    assert_eq!(st.sample_count, 0);
    assert_eq!(st.start_time, None);
    assert_eq!(st.end_time, None);
    assert_eq!(st.connected_samples, 0);
    assert_eq!(st.signal_strength_sum_dbm, 0);
    assert_eq!(st.signal_strength_min_dbm, None);
    assert_eq!(st.latency_p95_us, None);
    assert_eq!(st.latency_p99_us, None);
    assert_eq!(st.packet_loss_sum_bp, 0);
    assert_eq!(st.total_disconnections, 0);
    assert_eq!(st.warning_events + st.error_events + st.critical_events, 0);
}

#[test]
fn aggregate_twice_is_identical() {
    let snaps: Vec<WifiSnapshot> = (0..6).map(|i| sample(i, i % 3 != 1)).collect();
    assert_eq!(aggregate(&snaps), aggregate(&snaps));
}

#[test]
fn one_disconnection_for_a_run_of_three() {
    let present = [true, true, true, true, false, false, false, true, true, true];
    let snaps: Vec<WifiSnapshot> = present.iter().enumerate().map(|(i, p)| sample(1000 + i as i64, *p)).collect();
    let st = aggregate(&snaps);
    assert_eq!(st.sample_count, 10);
    assert_eq!(st.total_disconnections, 1);
    assert_eq!(st.connected_samples, 7);
    assert_eq!(st.connected_samples as f64 / st.sample_count as f64 * 100.0, 70.0);
    assert_eq!(st.internet_samples, 7);
    assert_eq!(st.start_time, Some(1000));
    assert_eq!(st.end_time, Some(1009));
}

#[test]
fn disconnections_count_transitions_not_samples() {
    let present = [false, false, true, false, true, false, false];
    let snaps: Vec<WifiSnapshot> = present.iter().enumerate().map(|(i, p)| sample(i as i64, *p)).collect();
    let st = aggregate(&snaps);
    assert_eq!(st.total_disconnections, 2);
    assert_eq!(st.connected_samples, 2);
}

#[test]
fn latency_percentiles_nearest_rank() {
    let snaps: Vec<WifiSnapshot> = (1..=10)
        .rev()
        .map(|k| {
            let mut s = sample(11 - k, true);
            s.latency.average_latency_us = Some(k as u32 * 10_000);
            s
        })
        .collect();
    let st = aggregate(&snaps);
    assert_eq!(st.latency_samples, 10);
    assert_eq!(st.latency_p95_us, Some(100_000));
    assert_eq!(st.latency_p99_us, Some(100_000));
    assert_eq!(st.latency_min_us, Some(10_000));
    assert_eq!(st.latency_max_us, Some(100_000));
    assert_eq!(st.latency_sum_us, 550_000);
}

#[test]
fn percentile_of_twenty_samples() {
    let snaps: Vec<WifiSnapshot> = (1..=20)
        .map(|k| {
            let mut s = sample(k, true);
            s.latency.average_latency_us = Some(k as u32);
            s
        })
        .collect();
    let st = aggregate(&snaps);
    assert_eq!(st.latency_p95_us, Some(20));
    assert_eq!(st.latency_p99_us, Some(20));
    let snaps: Vec<WifiSnapshot> = (1..=100)
        .map(|k| {
            let mut s = sample(k, true);
            s.latency.average_latency_us = Some(101 - k as u32);
            s
        })
        .collect();
    let st = aggregate(&snaps);
    assert_eq!(st.latency_p95_us, Some(96));
    assert_eq!(st.latency_p99_us, Some(100));
}

#[test]
fn signal_and_event_totals() {
    let mut a = sample(1, true);
    a.wifi_info = Some(link(-40, 90));
    a.latency.jitter_us = Some(1_000);
    a.latency.packet_loss_bp = 250;
    a.events.push(NetworkEvent::new(EventType::HighJitter, EventSeverity::Warning, "w"));
    a.events.push(NetworkEvent::new(EventType::ConnectionDropped, EventSeverity::Critical, "c"));
    let mut b = sample(2, true);
    b.wifi_info = Some(link(-90, 10));
    b.latency.jitter_us = Some(3_000);
    b.events.push(NetworkEvent::new(EventType::ChannelChange, EventSeverity::Info, "i"));
    b.events.push(NetworkEvent::new(EventType::AdapterReset, EventSeverity::Error, "e"));
    b.events.push(NetworkEvent::new(EventType::PacketLoss, EventSeverity::Warning, "w"));
    let st = aggregate(&vec![a, b, sample(3, false)]);
    assert_eq!(st.signal_strength_sum_dbm, -130);
    assert_eq!(st.signal_strength_min_dbm, Some(-90));
    assert_eq!(st.signal_strength_max_dbm, Some(-40));
    assert_eq!(st.signal_quality_sum_percent, 100);
    assert_eq!(st.jitter_samples, 2);
    assert_eq!(st.jitter_sum_us, 4_000);
    assert_eq!(st.packet_loss_sum_bp, 250);
    assert_eq!(st.warning_events, 2);
    assert_eq!(st.error_events, 1);
    assert_eq!(st.critical_events, 1);
    assert_eq!(st.total_disconnections, 1);
    assert_eq!(st.latency_samples, 0);
    assert_eq!(st.latency_p95_us, None);
}

#[test]
fn sorting_keeps_values() {
    let v = vec![5u32, 1, 4, 1, 3, u32::MAX, 0];
    assert_eq!(sorted_copy(&v), vec![0, 1, 1, 3, 4, 5, u32::MAX]);
    assert_eq!(sorted_copy(&vec![]), Vec::<u32>::new());
}

#[test]
fn snapshot_series_points() {
    let mut s = sample(7, true);
    s.latency.average_latency_us = Some(12_345);
    s.latency.packet_loss_bp = 125;
    s.connectivity.http_response_time_ms = Some(40);
    s.system_info.cpu_usage_bp = 1_234;
    let pts = series_points(&s);
    let names: Vec<&str> = pts.iter().map(|p| p.metric.name()).collect();
    assert_eq!(names, vec![
        "signal_dbm", "signal_percent", "channel", "link_speed", "latency_avg", "packet_loss",
        "connected", "loopback_reachable", "router_reachable", "internet_reachable",
        "http_response_time", "cpu_usage", "memory_usage",
    ]);
    assert_eq!(pts[0].value_milli, -60_000);
    assert_eq!(pts[4].value_milli, 12_345);
    assert_eq!(pts[5].value_milli, 1_250);
    assert_eq!(pts[9].value_milli, 1_000);
    assert_eq!(pts[6].value_milli, 0);
    assert_eq!(pts[10].value_milli, 40_000);
    assert_eq!(pts[11].value_milli, 12_340);
    s.connectivity.http_response_time_ms = Some(u64::MAX);
    let pts = series_points(&s);
    assert_eq!(pts[10].metric, Metric::HttpResponseTime);
    assert_eq!(pts[10].value_milli, i64::MAX);
    let down = series_points(&sample(8, false));
    assert_eq!(down[0].metric, Metric::PacketLoss);
    assert_eq!(down.len(), 7);
}
