use wifi_stability_tracker::detect::{detect, detect_events, stamp_findings, Finding, MonitorState};
use wifi_stability_tracker::metrics::{
    AlertThresholds, EventDetails, EventSeverity, EventType, WifiBand, WifiInfo, WifiSnapshot,
};

fn link(bssid: &str, channel: u32, band: WifiBand, dbm: i32) -> WifiInfo {
    WifiInfo {
        ssid: "home".to_string(),
        bssid: bssid.to_string(),
        signal_strength_dbm: dbm,
        signal_quality_percent: 60,
        channel,
        frequency_mhz: 2437,
        band,
        phy_type: "802.11ax".to_string(),
        link_speed_mbps: 300,
        rx_rate_mbps: Some(300),
        tx_rate_mbps: Some(200),
        security_type: "WPA2".to_string(),
        adapter_name: "Wi-Fi".to_string(),
        adapter_mac: "00:11:22:33:44:55".to_string(),
        ipv4_address: Some("192.168.1.2".to_string()),
        ipv6_address: None,
        gateway: Some("192.168.1.1".to_string()),
        dns_servers: vec![],
    }
}

fn healthy(dbm: i32) -> WifiSnapshot {
    let mut s = WifiSnapshot::new();
    s.wifi_info = Some(link("aa:aa", 6, WifiBand::Band2_4GHz, dbm));
    s.connectivity.is_connected = true;
    s.connectivity.router_reachable = true;
    s.connectivity.internet_reachable = true;
    s.connectivity.loopback_reachable = true;
    s.latency.average_latency_us = Some(20_000);
    s.latency.jitter_us = Some(2_000);
    s
}

fn kinds(f: &[Finding]) -> Vec<(EventType, EventSeverity)> {
    stamp_findings(&f.to_vec()).iter().map(|e| (e.event_type, e.severity)).collect()
}

#[test]
fn healthy_snapshot_has_no_findings() {
    let t = AlertThresholds::default();
    assert!(detect_events(&healthy(-50), &None, &t).is_empty());
}

#[test]
fn link_down_gives_critical_drop_only_link_events() {
    let t = AlertThresholds::default();
    let mut s = WifiSnapshot::new();
    s.latency.packet_loss_bp = 10_000;
    let prior = Some(MonitorState::after(&healthy(-50)));
    let found = detect_events(&s, &prior, &t);
    let k = kinds(&found);
    assert_eq!(k[0], (EventType::ConnectionDropped, EventSeverity::Critical));
    assert!(k.iter().all(|(e, _)| *e != EventType::SignalStrengthLow
        && *e != EventType::BandSwitch
        && *e != EventType::ChannelChange));
    assert_eq!(k[1], (EventType::PacketLoss, EventSeverity::Critical));
    let ev = stamp_findings(&found);
    assert_eq!(ev[0].description, "WiFi is not connected");
}

#[test]
fn signal_below_critical_gives_one_critical_event() {
    let t = AlertThresholds::default();
    let found = detect_events(&healthy(-85), &None, &t);
    let k = kinds(&found);
    let signal: Vec<_> = k.iter().filter(|(e, _)| *e == EventType::SignalStrengthLow).collect();
    assert_eq!(signal.len(), 1);
    assert_eq!(signal[0].1, EventSeverity::Critical);
    let ev = stamp_findings(&found);
    assert_eq!(ev[0].description, "Critical signal strength: -85 dBm (60%)");
    assert!(matches!(ev[0].details, EventDetails::Signal { signal_dbm: -85, signal_percent: 60 }));
}

#[test]
fn signal_severity_bands() {
    let t = AlertThresholds::default();
    let at_critical = kinds(&detect_events(&healthy(-80), &None, &t));
    assert_eq!(at_critical, vec![(EventType::SignalStrengthLow, EventSeverity::Critical)]);
    let warning = kinds(&detect_events(&healthy(-75), &None, &t));
    assert_eq!(warning, vec![(EventType::SignalStrengthLow, EventSeverity::Warning)]);
    let at_warning = kinds(&detect_events(&healthy(-70), &None, &t));
    assert_eq!(at_warning, vec![(EventType::SignalStrengthLow, EventSeverity::Warning)]);
    assert!(detect_events(&healthy(-69), &None, &t).is_empty());
    let ev = stamp_findings(&detect_events(&healthy(-75), &None, &t));
    assert_eq!(ev[0].description, "Low signal strength: -75 dBm (60%)");
}

#[test]
fn latency_jitter_and_loss_thresholds() {
    let t = AlertThresholds::default();
    let mut s = healthy(-50);
    s.latency.average_latency_us = Some(300_000);
    s.latency.jitter_us = Some(30_000);
    s.latency.packet_loss_bp = 100;
    let found = detect_events(&s, &None, &t);
    assert_eq!(kinds(&found), vec![
        (EventType::HighLatency, EventSeverity::Critical),
        (EventType::HighJitter, EventSeverity::Warning),
        (EventType::PacketLoss, EventSeverity::Warning),
    ]);
    let ev = stamp_findings(&found);
    assert_eq!(ev[0].description, "Critical latency: 300.0ms");
    assert_eq!(ev[1].description, "High jitter: 30.0ms");
    assert_eq!(ev[2].description, "Packet loss detected: 1.0%");
    s.latency.average_latency_us = Some(123_456);
    s.latency.jitter_us = Some(29_999);
    s.latency.packet_loss_bp = 833;
    let found = detect_events(&s, &None, &t);
    let ev = stamp_findings(&found);
    assert_eq!(ev.len(), 2);
    assert_eq!(ev[0].description, "High latency: 123.5ms");
    assert_eq!(ev[1].description, "Critical packet loss: 8.3%");
    assert!(matches!(ev[1].details, EventDetails::PacketLoss { packet_loss_bp: 833 }));
}

#[test]
fn reachability_and_dns() {
    let t = AlertThresholds::default();
    let mut s = healthy(-50);
    s.connectivity.router_reachable = false;
    s.connectivity.internet_reachable = false;
    s.dns_metrics.failures = 3;
    let ev = stamp_findings(&detect_events(&s, &None, &t));
    assert_eq!(ev.len(), 2);
    assert_eq!(ev[0].event_type, EventType::InternetUnreachable);
    assert_eq!(ev[0].severity, EventSeverity::Critical);
    assert_eq!(ev[0].description, "Router/gateway is not reachable (local network issue)");
    assert_eq!(ev[1].event_type, EventType::DnsFailure);
    assert_eq!(ev[1].description, "3 DNS queries failed");
    s.connectivity.router_reachable = true;
    s.dns_metrics.failures = 0;
    let ev = stamp_findings(&detect_events(&s, &None, &t));
    assert_eq!(ev.len(), 1);
    assert!(matches!(ev[0].details, EventDetails::InternetUnreachable));
    assert_eq!(ev[0].description, "Internet is not reachable (router OK, ISP/internet issue)");
    s.connectivity.is_connected = false;
    assert!(detect_events(&s, &None, &t).is_empty());
}

#[test]
fn changes_against_prior_state() {
    let t = AlertThresholds::default();
    let prior = Some(MonitorState::after(&healthy(-50)));
    let mut s = healthy(-50);
    s.wifi_info = Some(link("bb:bb", 36, WifiBand::Band5GHz, -50));
    let ev = stamp_findings(&detect_events(&s, &prior, &t));
    assert_eq!(ev.len(), 3);
    assert_eq!((ev[0].event_type, ev[0].severity), (EventType::BssidChange, EventSeverity::Warning));
    assert_eq!(ev[0].description, "BSSID changed from aa:aa to bb:bb");
    assert_eq!((ev[1].event_type, ev[1].severity), (EventType::ChannelChange, EventSeverity::Info));
    assert_eq!(ev[1].description, "Channel changed from 6 to 36");
    assert!(matches!(ev[1].details, EventDetails::Channel { old_channel: 6, new_channel: 36 }));
    assert_eq!((ev[2].event_type, ev[2].severity), (EventType::BandSwitch, EventSeverity::Warning));
    assert_eq!(ev[2].description, "Band switched from Band2_4GHz to Band5GHz");
    assert!(detect_events(&s, &None, &t).is_empty());
    let same = Some(MonitorState::after(&s));
    assert!(detect_events(&s, &same, &t).is_empty());
}

#[test]
fn restorations() {
    let t = AlertThresholds::default();
    let mut down = WifiSnapshot::new();
    down.connectivity.internet_reachable = false;
    let prior = Some(MonitorState::after(&down));
    let ev = stamp_findings(&detect_events(&healthy(-50), &prior, &t));
    assert_eq!(ev.len(), 2);
    assert_eq!((ev[0].event_type, ev[0].severity), (EventType::ConnectionRestored, EventSeverity::Info));
    assert_eq!(ev[0].description, "WiFi connection restored");
    assert_eq!(ev[1].event_type, EventType::ConnectionRestored);
    assert_eq!(ev[1].description, "Internet connectivity restored");
}

#[test]
fn detect_returns_next_state() {
    let t = AlertThresholds::default();
    let s = healthy(-50);
    let (found, state) = detect(&s, &None, &t);
    assert!(found.is_empty());
    assert!(state.was_connected);
    assert_eq!(state.last_bssid.as_deref(), Some("aa:aa"));
    assert_eq!(state.last_channel, Some(6));
    assert_eq!(state.last_band, Some(WifiBand::Band2_4GHz));
    assert_eq!(state.last_signal_dbm, Some(-50));
    assert_eq!(state.last_ip.as_deref(), Some("192.168.1.2"));
    assert!(state.internet_was_reachable);
    let (_, down) = detect(&WifiSnapshot::new(), &Some(state), &t);
    assert!(!down.was_connected);
    assert!(down.last_bssid.is_none());
}

#[test]
fn events_carry_fresh_ids() {
    let t = AlertThresholds::default();
    let ev = stamp_findings(&detect_events(&WifiSnapshot::new(), &None, &t));
    assert_eq!(ev.len(), 1);
    assert_eq!(ev[0].id.len(), 36);
}
