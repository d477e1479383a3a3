//! Data model of one sampling cycle and its derived events.
//!
//! Quantities that are fractional in the probe's output are held as integers:
//! latencies in microseconds, percentages in basis points (hundredths of a
//! percent), timestamps in milliseconds since the Unix epoch.

use vstd::prelude::*;
use crate::stamp::{fresh_id, now_millis};

verus! {

/// Radio band of a wireless link.
#[derive(Clone, Copy, Debug, PartialEq, Eq, Structural)]
pub enum WifiBand {
    Band2_4GHz,
    Band5GHz,
    Band6GHz,
    Unknown,
}

impl WifiBand {
    /// The band's name, spelled as the variant.
    pub open spec fn name_spec(self) -> Seq<char> {
        match self {
            WifiBand::Band2_4GHz => "Band2_4GHz"@,
            WifiBand::Band5GHz => "Band5GHz"@,
            WifiBand::Band6GHz => "Band6GHz"@,
            WifiBand::Unknown => "Unknown"@,
        }
    }

    pub fn name(&self) -> (r: &'static str)
        ensures
            r@ == self.name_spec(),
    {
        match self {
            WifiBand::Band2_4GHz => "Band2_4GHz",
            WifiBand::Band5GHz => "Band5GHz",
            WifiBand::Band6GHz => "Band6GHz",
            WifiBand::Unknown => "Unknown",
        }
    }

    /// The band that a centre frequency (MHz) lies in.
    pub open spec fn of_frequency(freq_mhz: u32) -> WifiBand {
        if 2400 <= freq_mhz <= 2500 {
            WifiBand::Band2_4GHz
        } else if 5150 <= freq_mhz <= 5900 {
            WifiBand::Band5GHz
        } else if 5925 <= freq_mhz <= 7125 {
            WifiBand::Band6GHz
        } else {
            WifiBand::Unknown
        }
    }

    pub fn from_frequency(freq_mhz: u32) -> (r: WifiBand)
        ensures
            r == Self::of_frequency(freq_mhz),
    {
        if 2400 <= freq_mhz && freq_mhz <= 2500 {
            WifiBand::Band2_4GHz
        } else if 5150 <= freq_mhz && freq_mhz <= 5900 {
            WifiBand::Band5GHz
        } else if 5925 <= freq_mhz && freq_mhz <= 7125 {
            WifiBand::Band6GHz
        } else {
            WifiBand::Unknown
        }
    }
}

/// Centre frequency (MHz) of a channel number; 0 for an unknown channel.
pub open spec fn frequency_of_channel(channel: u32) -> u32 {
    if 1 <= channel <= 13 {
        (2407 + channel * 5) as u32
    } else if channel == 14 {
        2484
    } else if (36 <= channel <= 64 && channel % 4 == 0) || (100 <= channel <= 144 && channel % 4
        == 0) {
        (5000 + channel * 5) as u32
    } else if 149 <= channel <= 165 && channel % 4 == 1 {
        (5000 + channel * 5) as u32
    } else if 165 < channel <= 233 {
        (5950 + channel * 5) as u32
    } else {
        0
    }
}

/// Converts a channel number to its centre frequency in MHz.
pub fn channel_to_frequency(channel: u32) -> (r: u32)
    ensures
        r == frequency_of_channel(channel),
{
    if 1 <= channel && channel <= 13 {
        2407 + channel * 5
    } else if channel == 14 {
        2484
    } else if (36 <= channel && channel <= 64 && channel % 4 == 0) || (100 <= channel && channel
        <= 144 && channel % 4 == 0) {
        5000 + channel * 5
    } else if 149 <= channel && channel <= 165 && channel % 4 == 1 {
        5000 + channel * 5
    } else if 165 < channel && channel <= 233 {
        5950 + channel * 5
    } else {
        0
    }
}

/// Approximate dBm of a signal quality percentage: 0% maps to -100 dBm and
/// each percent adds 0.7 dB, rounded toward zero.
pub open spec fn dbm_of_quality(quality: u8) -> i32 {
    (-100 + (quality as int * 70) / 100) as i32
}

/// Converts a signal quality percentage to approximate dBm.
pub fn quality_to_dbm(quality: u8) -> (r: i32)
    ensures
        r == dbm_of_quality(quality),
        quality <= 100 ==> -100 <= r <= -30,
{
    -100 + ((quality as i32 * 70) / 100)
}


/// Adapter and connection details of an established wireless link.
#[derive(Clone, Debug)]
pub struct WifiInfo {
    pub ssid: String,
    pub bssid: String,
    pub signal_strength_dbm: i32,
    pub signal_quality_percent: u8,
    pub channel: u32,
    pub frequency_mhz: u32,
    pub band: WifiBand,
    pub phy_type: String,
    pub link_speed_mbps: u32,
    pub rx_rate_mbps: Option<u32>,
    pub tx_rate_mbps: Option<u32>,
    pub security_type: String,
    pub adapter_name: String,
    pub adapter_mac: String,
    pub ipv4_address: Option<String>,
    pub ipv6_address: Option<String>,
    pub gateway: Option<String>,
    pub dns_servers: Vec<String>,
}

/// Reachability test results.
#[derive(Clone, Debug)]
pub struct ConnectivityMetrics {
    pub is_connected: bool,
    pub loopback_reachable: bool,
    pub router_reachable: bool,
    pub internet_reachable: bool,
    pub http_test_success: bool,
    pub http_response_time_ms: Option<u64>,
    pub tcp_connections_established: u32,
    pub tcp_connections_failed: u32,
}

impl Default for ConnectivityMetrics {
    fn default() -> (r: ConnectivityMetrics)
        ensures
            !r.is_connected,
            !r.loopback_reachable,
            !r.router_reachable,
            !r.internet_reachable,
            !r.http_test_success,
            r.http_response_time_ms is None,
            r.tcp_connections_established == 0,
            r.tcp_connections_failed == 0,
    {
        ConnectivityMetrics {
            is_connected: false,
            loopback_reachable: false,
            router_reachable: false,
            internet_reachable: false,
            http_test_success: false,
            http_response_time_ms: None,
            tcp_connections_established: 0,
            tcp_connections_failed: 0,
        }
    }
}

/// Outcome of pinging one target. Times are in microseconds, loss in basis points.
#[derive(Clone, Debug)]
pub struct PingResult {
    pub target: String,
    pub resolved_ip: Option<String>,
    pub packets_sent: u32,
    pub packets_received: u32,
    pub packet_loss_bp: u32,
    pub min_us: Option<u32>,
    pub avg_us: Option<u32>,
    pub max_us: Option<u32>,
    pub stddev_us: Option<u32>,
    pub individual_times_us: Vec<u32>,
    pub error: Option<String>,
}

/// Latency over all ping targets. Times are in microseconds, loss in basis points.
#[derive(Clone, Debug)]
pub struct LatencyMetrics {
    pub targets: Vec<PingResult>,
    pub loopback_latency_us: Option<u32>,
    pub router_latency_us: Option<u32>,
    pub average_latency_us: Option<u32>,
    pub min_latency_us: Option<u32>,
    pub max_latency_us: Option<u32>,
    pub jitter_us: Option<u32>,
    pub packet_loss_bp: u32,
}

impl Default for LatencyMetrics {
    fn default() -> (r: LatencyMetrics)
        ensures
            r.targets@.len() == 0,
            r.loopback_latency_us is None,
            r.router_latency_us is None,
            r.average_latency_us is None,
            r.min_latency_us is None,
            r.max_latency_us is None,
            r.jitter_us is None,
            r.packet_loss_bp == 0,
    {
        LatencyMetrics {
            targets: Vec::new(),
            loopback_latency_us: None,
            router_latency_us: None,
            average_latency_us: None,
            min_latency_us: None,
            max_latency_us: None,
            jitter_us: None,
            packet_loss_bp: 0,
        }
    }
}

/// Outcome of one name lookup against one server (time in microseconds).
#[derive(Clone, Debug)]
pub struct DnsQueryResult {
    pub domain: String,
    pub dns_server: String,
    pub resolution_time_us: Option<u32>,
    pub resolved_ips: Vec<String>,
    pub success: bool,
    pub error: Option<String>,
}

/// Name resolution over all (domain, server) pairs of one cycle.
#[derive(Clone, Debug)]
pub struct DnsMetrics {
    pub queries: Vec<DnsQueryResult>,
    pub average_resolution_time_us: Option<u32>,
    pub failures: u32,
}

impl Default for DnsMetrics {
    fn default() -> (r: DnsMetrics)
        ensures
            r.queries@.len() == 0,
            r.average_resolution_time_us is None,
            r.failures == 0,
    {
        DnsMetrics { queries: Vec::new(), average_resolution_time_us: None, failures: 0 }
    }
}

/// Host-wide network counters; usage figures in basis points.
#[derive(Clone, Debug)]
pub struct SystemNetworkInfo {
    pub bytes_sent: u64,
    pub bytes_received: u64,
    pub packets_sent: u64,
    pub packets_received: u64,
    pub errors_in: u64,
    pub errors_out: u64,
    pub drops_in: u64,
    pub drops_out: u64,
    pub active_connections: u32,
    pub cpu_usage_bp: u32,
    pub memory_usage_bp: u32,
}

impl Default for SystemNetworkInfo {
    fn default() -> (r: SystemNetworkInfo)
        ensures
            r.bytes_sent == 0 && r.bytes_received == 0,
            r.packets_sent == 0 && r.packets_received == 0,
            r.errors_in == 0 && r.errors_out == 0,
            r.drops_in == 0 && r.drops_out == 0,
            r.active_connections == 0,
            r.cpu_usage_bp == 0 && r.memory_usage_bp == 0,
    {
        SystemNetworkInfo {
            bytes_sent: 0,
            bytes_received: 0,
            packets_sent: 0,
            packets_received: 0,
            errors_in: 0,
            errors_out: 0,
            drops_in: 0,
            drops_out: 0,
            active_connections: 0,
            cpu_usage_bp: 0,
            memory_usage_bp: 0,
        }
    }
}

/// Closed set of event kinds.
#[derive(Clone, Copy, Debug, PartialEq, Eq, Structural)]
pub enum EventType {
    ConnectionDropped,
    ConnectionRestored,
    SignalStrengthLow,
    SignalStrengthRecovered,
    HighLatency,
    LatencyNormalized,
    PacketLoss,
    DnsFailure,
    DnsRecovered,
    BandSwitch,
    ChannelChange,
    BssidChange,
    IpAddressChange,
    GatewayUnreachable,
    InternetUnreachable,
    HighJitter,
    AdapterReset,
    SpeedDegraded,
    SpeedRecovered,
}

/// Event severity, from least to most severe.
#[derive(Clone, Copy, Debug, PartialEq, Eq, Structural, PartialOrd, Ord)]
pub enum EventSeverity {
    Info,
    Warning,
    Error,
    Critical,
}

impl EventSeverity {
    /// Position in the total order Info < Warning < Error < Critical.
    pub open spec fn rank(self) -> int {
        match self {
            EventSeverity::Info => 0,
            EventSeverity::Warning => 1,
            EventSeverity::Error => 2,
            EventSeverity::Critical => 3,
        }
    }
}

/// Fixed alert thresholds of a monitoring run.
/// Latencies are in microseconds, packet loss in basis points.
#[derive(Clone, Copy, Debug)]
pub struct AlertThresholds {
    pub signal_strength_warning_dbm: i32,
    pub signal_strength_critical_dbm: i32,
    pub latency_warning_us: u32,
    pub latency_critical_us: u32,
    pub jitter_warning_us: u32,
    pub packet_loss_warning_bp: u32,
    pub packet_loss_critical_bp: u32,
}

impl Default for AlertThresholds {
    fn default() -> (r: AlertThresholds)
        ensures
            r.signal_strength_warning_dbm == -70,
            r.signal_strength_critical_dbm == -80,
            r.latency_warning_us == 100_000,
            r.latency_critical_us == 300_000,
            r.jitter_warning_us == 30_000,
            r.packet_loss_warning_bp == 100,
            r.packet_loss_critical_bp == 500,
    {
        AlertThresholds {
            signal_strength_warning_dbm: -70,
            signal_strength_critical_dbm: -80,
            latency_warning_us: 100_000,
            latency_critical_us: 300_000,
            jitter_warning_us: 30_000,
            packet_loss_warning_bp: 100,
            packet_loss_critical_bp: 500,
        }
    }
}


/// Structured payload of an event.
#[derive(Clone, Debug)]
pub enum EventDetails {
    /// No payload.
    Empty,
    Signal { signal_dbm: i32, signal_percent: u8 },
    Latency { latency_us: u32 },
    Jitter { jitter_us: u32 },
    PacketLoss { packet_loss_bp: u32 },
    /// The router did not answer although the link is up.
    RouterUnreachable,
    /// The router answered but the internet did not.
    InternetUnreachable,
    DnsFailures { failures: u32 },
    Bssid { old_bssid: String, new_bssid: String },
    Channel { old_channel: u32, new_channel: u32 },
    Band { old_band: WifiBand, new_band: WifiBand },
}

/// A typed, severity-ranked occurrence derived from one snapshot.
#[derive(Clone, Debug)]
pub struct NetworkEvent {
    pub id: String,
    pub timestamp: i64,
    pub event_type: EventType,
    pub severity: EventSeverity,
    pub description: String,
    pub details: EventDetails,
}

impl NetworkEvent {
    /// A new event with a fresh identifier, stamped now, without payload.
    pub fn new(event_type: EventType, severity: EventSeverity, description: &str) -> (r: NetworkEvent)
        ensures
            r.id@.len() == 36,
            r.event_type == event_type,
            r.severity == severity,
            r.description@ == description@,
            r.details is Empty,
    {
        NetworkEvent {
            id: fresh_id(),
            timestamp: now_millis(),
            event_type,
            severity,
            description: String::from_str(description),
            details: EventDetails::Empty,
        }
    }

    /// The same event carrying `details`.
    pub fn with_details(self, details: EventDetails) -> (r: NetworkEvent)
        ensures
            r == (NetworkEvent { details, ..self }),
    {
        NetworkEvent { details, ..self }
    }
}

/// Everything measured in one sampling cycle. The link is absent when down.
#[derive(Clone, Debug)]
pub struct WifiSnapshot {
    pub id: String,
    pub timestamp: i64,
    pub wifi_info: Option<WifiInfo>,
    pub connectivity: ConnectivityMetrics,
    pub latency: LatencyMetrics,
    pub dns_metrics: DnsMetrics,
    pub system_info: SystemNetworkInfo,
    pub events: Vec<NetworkEvent>,
}

impl WifiSnapshot {
    /// An empty snapshot with a fresh identifier, stamped now.
    pub fn new() -> (r: WifiSnapshot)
        ensures
            r.id@.len() == 36,
            r.wifi_info is None,
            !r.connectivity.is_connected && !r.connectivity.internet_reachable,
            !r.connectivity.router_reachable && !r.connectivity.loopback_reachable,
            r.latency.average_latency_us is None && r.latency.jitter_us is None,
            r.latency.packet_loss_bp == 0,
            r.dns_metrics.failures == 0,
            r.events@.len() == 0,
    {
        WifiSnapshot {
            id: fresh_id(),
            timestamp: now_millis(),
            wifi_info: None,
            connectivity: ConnectivityMetrics::default(),
            latency: LatencyMetrics::default(),
            dns_metrics: DnsMetrics::default(),
            system_info: SystemNetworkInfo::default(),
            events: Vec::new(),
        }
    }
}

} // verus!
