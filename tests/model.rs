use wifi_stability_tracker::metrics::{
    channel_to_frequency, quality_to_dbm, AlertThresholds, EventDetails, EventSeverity, EventType,
    NetworkEvent, WifiBand, WifiSnapshot,
};
use wifi_stability_tracker::names::{parse_event_type, parse_severity, typed_counts};
use wifi_stability_tracker::text::{round_div, same_text};

#[test]
fn band_from_frequency_edges() {
    assert_eq!(WifiBand::from_frequency(2400), WifiBand::Band2_4GHz);
    assert_eq!(WifiBand::from_frequency(2500), WifiBand::Band2_4GHz);
    assert_eq!(WifiBand::from_frequency(2501), WifiBand::Unknown);
    assert_eq!(WifiBand::from_frequency(5150), WifiBand::Band5GHz);
    assert_eq!(WifiBand::from_frequency(5900), WifiBand::Band5GHz);
    assert_eq!(WifiBand::from_frequency(5910), WifiBand::Unknown);
    assert_eq!(WifiBand::from_frequency(5925), WifiBand::Band6GHz);
    assert_eq!(WifiBand::from_frequency(7125), WifiBand::Band6GHz);
    assert_eq!(WifiBand::from_frequency(0), WifiBand::Unknown);
}

#[test]
fn channel_frequencies() {
    assert_eq!(channel_to_frequency(1), 2412);
    assert_eq!(channel_to_frequency(6), 2437);
    assert_eq!(channel_to_frequency(13), 2472);
    assert_eq!(channel_to_frequency(14), 2484);
    assert_eq!(channel_to_frequency(36), 5180);
    assert_eq!(channel_to_frequency(64), 5320);
    assert_eq!(channel_to_frequency(100), 5500);
    assert_eq!(channel_to_frequency(144), 5720);
    assert_eq!(channel_to_frequency(149), 5745);
    assert_eq!(channel_to_frequency(165), 5825);
    assert_eq!(channel_to_frequency(169), 6795);
    assert_eq!(channel_to_frequency(233), 7115);
    assert_eq!(channel_to_frequency(0), 0);
    assert_eq!(channel_to_frequency(37), 0);
    assert_eq!(channel_to_frequency(150), 0);
    assert_eq!(channel_to_frequency(234), 0);
}

#[test]
fn quality_maps_to_dbm() {
    assert_eq!(quality_to_dbm(0), -100);
    assert_eq!(quality_to_dbm(100), -30);
    assert_eq!(quality_to_dbm(50), -65);
    assert_eq!(quality_to_dbm(99), -31);
}

#[test]
fn default_thresholds() {
    let t = AlertThresholds::default();
    assert_eq!(t.signal_strength_warning_dbm, -70);
    assert_eq!(t.signal_strength_critical_dbm, -80);
    assert_eq!(t.latency_warning_us, 100_000);
    assert_eq!(t.latency_critical_us, 300_000);
    assert_eq!(t.jitter_warning_us, 30_000);
    assert_eq!(t.packet_loss_warning_bp, 100);
    assert_eq!(t.packet_loss_critical_bp, 500);
}

#[test]
fn event_type_names_round_trip() {
    let all = [
        EventType::ConnectionDropped,
        EventType::ConnectionRestored,
        EventType::SignalStrengthLow,
        EventType::SignalStrengthRecovered,
        EventType::HighLatency,
        EventType::LatencyNormalized,
        EventType::PacketLoss,
        EventType::DnsFailure,
        EventType::DnsRecovered,
        EventType::BandSwitch,
        EventType::ChannelChange,
        EventType::BssidChange,
        EventType::IpAddressChange,
        EventType::GatewayUnreachable,
        EventType::InternetUnreachable,
        EventType::HighJitter,
        EventType::AdapterReset,
        EventType::SpeedDegraded,
        EventType::SpeedRecovered,
    ];
    for t in all {
        assert_eq!(t.name(), format!("{:?}", t));
        assert_eq!(parse_event_type(t.name()), t);
    }
    assert_eq!(parse_event_type("BssidChange"), EventType::BssidChange);
    assert_eq!(parse_event_type("nonsense"), EventType::ConnectionDropped);
    assert_eq!(parse_event_type(""), EventType::ConnectionDropped);
}

#[test]
fn severity_names_round_trip() {
    for s in [EventSeverity::Info, EventSeverity::Warning, EventSeverity::Error, EventSeverity::Critical] {
        assert_eq!(s.name(), format!("{:?}", s));
        assert_eq!(parse_severity(s.name()), s);
    }
    assert_eq!(parse_severity("critical"), EventSeverity::Info);
    assert_eq!(parse_severity("Bogus"), EventSeverity::Info);
}

#[test]
fn text_helpers() {
    assert!(same_text("abc", "abc"));
    assert!(!same_text("abc", "abd"));
    assert!(!same_text("abc", "ab"));
    assert!(same_text("", ""));
    assert_eq!(round_div(15, 10), 2);
    assert_eq!(round_div(14, 10), 1);
    assert_eq!(round_div(0, 7), 0);
    assert_eq!(round_div(u64::MAX, 1), u64::MAX);
    assert_eq!(round_div(u64::MAX, 2), u64::MAX / 2 + 1);
}

#[test]
fn new_event_is_stamped() {
    let a = NetworkEvent::new(EventType::HighJitter, EventSeverity::Warning, "x");
    let b = NetworkEvent::new(EventType::HighJitter, EventSeverity::Warning, "x");
    assert_eq!(a.id.len(), 36);
    assert_ne!(a.id, b.id);
    assert!(a.timestamp > 1_600_000_000_000);
    assert_eq!(a.description, "x");
    assert!(matches!(a.details, EventDetails::Empty));
    let c = a.with_details(EventDetails::Jitter { jitter_us: 5 });
    assert!(matches!(c.details, EventDetails::Jitter { jitter_us: 5 }));
    assert_eq!(c.event_type, EventType::HighJitter);
}

#[test]
fn new_snapshot_is_empty() {
    let s = WifiSnapshot::new();
    assert_eq!(s.id.len(), 36);
    assert!(s.wifi_info.is_none());
    assert!(s.events.is_empty());
    assert!(s.timestamp > 1_600_000_000_000);
    assert_ne!(WifiSnapshot::new().id, s.id);
}

#[test]
fn stored_counts_by_kind() {
    let stored = vec![
        ("BssidChange".to_string(), 6i64),
        ("Unheard".to_string(), 4),
        ("DnsFailure".to_string(), -1),
        ("bssidchange".to_string(), 2),
    ];
    assert_eq!(typed_counts(&stored), vec![(EventType::BssidChange, 6), (EventType::DnsFailure, 0)]);
    assert!(typed_counts(&vec![]).is_empty());
}
