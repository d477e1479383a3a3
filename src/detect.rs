//! Event detection: a pure function from a snapshot, the state left by the
//! previous accepted snapshot, and the thresholds, to an ordered list of findings.

use vstd::prelude::*;
use crate::text::{decimal, fixed_point, push_decimal, push_fixed, push_signed, round_div, rounded_div, same_text, signed_decimal};
use crate::metrics::{AlertThresholds, EventDetails, EventSeverity, EventType, NetworkEvent, WifiBand, WifiInfo, WifiSnapshot};

verus! {

/// What the previous accepted snapshot left behind for the next detection.
#[derive(Clone, Debug)]
pub struct MonitorState {
    pub was_connected: bool,
    pub last_ssid: Option<String>,
    pub last_bssid: Option<String>,
    pub last_channel: Option<u32>,
    pub last_band: Option<WifiBand>,
    pub last_signal_dbm: Option<i32>,
    pub last_ip: Option<String>,
    pub internet_was_reachable: bool,
}

/// One outcome of detection, with the values that triggered it.
#[derive(Clone, Debug)]
pub enum Finding {
    LinkDown,
    LinkRestored,
    SignalLow { critical: bool, signal_dbm: i32, signal_percent: u8 },
    LatencyHigh { critical: bool, latency_us: u32 },
    JitterHigh { jitter_us: u32 },
    PacketLossHigh { critical: bool, packet_loss_bp: u32 },
    RouterUnreachable,
    InternetUnreachable,
    DnsFailures { failures: u32 },
    BssidChanged { old_bssid: String, new_bssid: String },
    ChannelChanged { old_channel: u32, new_channel: u32 },
    BandChanged { old_band: WifiBand, new_band: WifiBand },
    InternetRestored,
}

/// The state that a snapshot leaves for the next detection.
pub open spec fn state_after(s: WifiSnapshot) -> MonitorState {
    match s.wifi_info {
        Some(w) => MonitorState {
            was_connected: true,
            last_ssid: Some(w.ssid),
            last_bssid: Some(w.bssid),
            last_channel: Some(w.channel),
            last_band: Some(w.band),
            last_signal_dbm: Some(w.signal_strength_dbm),
            last_ip: w.ipv4_address,
            internet_was_reachable: s.connectivity.internet_reachable,
        },
        None => MonitorState {
            was_connected: false,
            last_ssid: None,
            last_bssid: None,
            last_channel: None,
            last_band: None,
            last_signal_dbm: None,
            last_ip: None,
            internet_was_reachable: s.connectivity.internet_reachable,
        },
    }
}

/// Link presence: dropped when absent; restored when present after a state without link.
pub open spec fn link_part(s: WifiSnapshot, prior: Option<MonitorState>) -> Seq<Finding> {
    match s.wifi_info {
        None => seq![Finding::LinkDown],
        Some(_) => match prior {
            Some(p) => if !p.was_connected { seq![Finding::LinkRestored] } else { seq![] },
            None => seq![],
        },
    }
}

/// Signal strength: critical at or below the critical threshold, else warning
/// at or below the warning threshold.
pub open spec fn signal_part(s: WifiSnapshot, t: AlertThresholds) -> Seq<Finding> {
    match s.wifi_info {
        Some(w) => if w.signal_strength_dbm <= t.signal_strength_critical_dbm {
            seq![Finding::SignalLow { critical: true, signal_dbm: w.signal_strength_dbm, signal_percent: w.signal_quality_percent }]
        } else if w.signal_strength_dbm <= t.signal_strength_warning_dbm {
            seq![Finding::SignalLow { critical: false, signal_dbm: w.signal_strength_dbm, signal_percent: w.signal_quality_percent }]
        } else {
            seq![]
        },
        None => seq![],
    }
}

/// Average latency: critical at or above the critical threshold, else warning
/// at or above the warning threshold.
pub open spec fn latency_part(s: WifiSnapshot, t: AlertThresholds) -> Seq<Finding> {
    match s.latency.average_latency_us {
        Some(l) => if l >= t.latency_critical_us {
            seq![Finding::LatencyHigh { critical: true, latency_us: l }]
        } else if l >= t.latency_warning_us {
            seq![Finding::LatencyHigh { critical: false, latency_us: l }]
        } else {
            seq![]
        },
        None => seq![],
    }
}

/// Jitter at or above its warning threshold.
pub open spec fn jitter_part(s: WifiSnapshot, t: AlertThresholds) -> Seq<Finding> {
    match s.latency.jitter_us {
        Some(j) => if j >= t.jitter_warning_us {
            seq![Finding::JitterHigh { jitter_us: j }]
        } else {
            seq![]
        },
        None => seq![],
    }
}

/// Packet loss: critical at or above the critical threshold, else warning at
/// or above the warning threshold.
pub open spec fn loss_part(s: WifiSnapshot, t: AlertThresholds) -> Seq<Finding> {
    let l = s.latency.packet_loss_bp;
    if l >= t.packet_loss_critical_bp {
        seq![Finding::PacketLossHigh { critical: true, packet_loss_bp: l }]
    } else if l >= t.packet_loss_warning_bp {
        seq![Finding::PacketLossHigh { critical: false, packet_loss_bp: l }]
    } else {
        seq![]
    }
}

/// While connected: the router unreachable, or else the internet unreachable.
pub open spec fn reach_part(s: WifiSnapshot) -> Seq<Finding> {
    if s.connectivity.is_connected && !s.connectivity.router_reachable {
        seq![Finding::RouterUnreachable]
    } else if s.connectivity.is_connected && !s.connectivity.internet_reachable {
        seq![Finding::InternetUnreachable]
    } else {
        seq![]
    }
}

/// Failed name lookups in this cycle.
pub open spec fn dns_part(s: WifiSnapshot) -> Seq<Finding> {
    if s.dns_metrics.failures > 0 {
        seq![Finding::DnsFailures { failures: s.dns_metrics.failures }]
    } else {
        seq![]
    }
}

pub open spec fn bssid_part(w: WifiInfo, p: MonitorState) -> Seq<Finding> {
    match p.last_bssid {
        Some(b) => if b@ != w.bssid@ {
            seq![Finding::BssidChanged { old_bssid: b, new_bssid: w.bssid }]
        } else {
            seq![]
        },
        None => seq![],
    }
}

pub open spec fn channel_part(w: WifiInfo, p: MonitorState) -> Seq<Finding> {
    match p.last_channel {
        Some(c) => if c != w.channel {
            seq![Finding::ChannelChanged { old_channel: c, new_channel: w.channel }]
        } else {
            seq![]
        },
        None => seq![],
    }
}

pub open spec fn band_part(w: WifiInfo, p: MonitorState) -> Seq<Finding> {
    match p.last_band {
        Some(b) => if b != w.band {
            seq![Finding::BandChanged { old_band: b, new_band: w.band }]
        } else {
            seq![]
        },
        None => seq![],
    }
}

/// Changes of access point, channel and band against a previously observed value.
pub open spec fn change_part(s: WifiSnapshot, prior: Option<MonitorState>) -> Seq<Finding> {
    match (s.wifi_info, prior) {
        (Some(w), Some(p)) => bssid_part(w, p) + channel_part(w, p) + band_part(w, p),
        _ => seq![],
    }
}

/// The internet reachable again after a state in which it was not.
pub open spec fn internet_part(s: WifiSnapshot, prior: Option<MonitorState>) -> Seq<Finding> {
    match prior {
        Some(p) => if !p.internet_was_reachable && s.connectivity.internet_reachable {
            seq![Finding::InternetRestored]
        } else {
            seq![]
        },
        None => seq![],
    }
}

/// All findings of a snapshot, in emission order.
pub open spec fn findings(s: WifiSnapshot, prior: Option<MonitorState>, t: AlertThresholds) -> Seq<Finding> {
    link_part(s, prior) + signal_part(s, t) + later_parts(s, prior, t)
}

/// The findings that follow link presence and signal strength.
pub open spec fn later_parts(s: WifiSnapshot, prior: Option<MonitorState>, t: AlertThresholds) -> Seq<Finding> {
    latency_part(s, t) + jitter_part(s, t) + loss_part(s, t) + reach_part(s) + dns_part(s)
        + change_part(s, prior) + internet_part(s, prior)
}

impl MonitorState {
    /// The state that `snapshot` leaves for the next detection.
    pub fn after(snapshot: &WifiSnapshot) -> (r: MonitorState)
        ensures
            r == state_after(*snapshot),
    {
        match &snapshot.wifi_info {
            Some(w) => MonitorState {
                was_connected: true,
                last_ssid: Some(w.ssid.clone()),
                last_bssid: Some(w.bssid.clone()),
                last_channel: Some(w.channel),
                last_band: Some(w.band),
                last_signal_dbm: Some(w.signal_strength_dbm),
                last_ip: match &w.ipv4_address {
                    Some(ip) => Some(ip.clone()),
                    None => None,
                },
                internet_was_reachable: snapshot.connectivity.internet_reachable,
            },
            None => MonitorState {
                was_connected: false,
                last_ssid: None,
                last_bssid: None,
                last_channel: None,
                last_band: None,
                last_signal_dbm: None,
                last_ip: None,
                internet_was_reachable: snapshot.connectivity.internet_reachable,
            },
        }
    }
}

fn push_changes(out: &mut Vec<Finding>, w: &WifiInfo, p: &MonitorState)
    ensures
        final(out)@ == old(out)@ + bssid_part(*w, *p) + channel_part(*w, *p) + band_part(*w, *p),
{
    let ghost start = out@;
    if let Some(b) = &p.last_bssid {
        if !same_text(b.as_str(), w.bssid.as_str()) {
            out.push(Finding::BssidChanged { old_bssid: b.clone(), new_bssid: w.bssid.clone() });
        }
    }
    assert(out@ =~= start + bssid_part(*w, *p));
    let ghost mid = out@;
    if let Some(c) = p.last_channel {
        if c != w.channel {
            out.push(Finding::ChannelChanged { old_channel: c, new_channel: w.channel });
        }
    }
    assert(out@ =~= mid + channel_part(*w, *p));
    let ghost mid2 = out@;
    if let Some(b) = p.last_band {
        if b != w.band {
            out.push(Finding::BandChanged { old_band: b, new_band: w.band });
        }
    }
    assert(out@ =~= mid2 + band_part(*w, *p));
}

fn push_link(out: &mut Vec<Finding>, s: &WifiSnapshot, prior: &Option<MonitorState>)
    ensures
        final(out)@ == old(out)@ + link_part(*s, *prior),
{
    let ghost start = out@;
    match &s.wifi_info {
        None => out.push(Finding::LinkDown),
        Some(_) => {
            if let Some(p) = prior {
                if !p.was_connected {
                    out.push(Finding::LinkRestored);
                }
            }
        },
    }
    assert(out@ =~= start + link_part(*s, *prior));
}

fn push_signal(out: &mut Vec<Finding>, s: &WifiSnapshot, t: &AlertThresholds)
    ensures
        final(out)@ == old(out)@ + signal_part(*s, *t),
{
    let ghost start = out@;
    if let Some(w) = &s.wifi_info {
        if w.signal_strength_dbm <= t.signal_strength_critical_dbm {
            out.push(Finding::SignalLow { critical: true, signal_dbm: w.signal_strength_dbm, signal_percent: w.signal_quality_percent });
        } else if w.signal_strength_dbm <= t.signal_strength_warning_dbm {
            out.push(Finding::SignalLow { critical: false, signal_dbm: w.signal_strength_dbm, signal_percent: w.signal_quality_percent });
        }
    }
    assert(out@ =~= start + signal_part(*s, *t));
}

fn push_latency(out: &mut Vec<Finding>, s: &WifiSnapshot, t: &AlertThresholds)
    ensures
        final(out)@ == old(out)@ + latency_part(*s, *t) + jitter_part(*s, *t) + loss_part(*s, *t),
{
    let ghost start = out@;
    if let Some(l) = s.latency.average_latency_us {
        if l >= t.latency_critical_us {
            out.push(Finding::LatencyHigh { critical: true, latency_us: l });
        } else if l >= t.latency_warning_us {
            out.push(Finding::LatencyHigh { critical: false, latency_us: l });
        }
    }
    assert(out@ =~= start + latency_part(*s, *t));
    let ghost acc = out@;
    if let Some(j) = s.latency.jitter_us {
        if j >= t.jitter_warning_us {
            out.push(Finding::JitterHigh { jitter_us: j });
        }
    }
    assert(out@ =~= acc + jitter_part(*s, *t));
    let ghost acc = out@;
    let l = s.latency.packet_loss_bp;
    if l >= t.packet_loss_critical_bp {
        out.push(Finding::PacketLossHigh { critical: true, packet_loss_bp: l });
    } else if l >= t.packet_loss_warning_bp {
        out.push(Finding::PacketLossHigh { critical: false, packet_loss_bp: l });
    }
    assert(out@ =~= acc + loss_part(*s, *t));
}

fn push_reach(out: &mut Vec<Finding>, s: &WifiSnapshot)
    ensures
        final(out)@ == old(out)@ + reach_part(*s) + dns_part(*s),
{
    let ghost start = out@;
    if s.connectivity.is_connected && !s.connectivity.router_reachable {
        out.push(Finding::RouterUnreachable);
    } else if s.connectivity.is_connected && !s.connectivity.internet_reachable {
        out.push(Finding::InternetUnreachable);
    }
    assert(out@ =~= start + reach_part(*s));
    let ghost acc = out@;
    if s.dns_metrics.failures > 0 {
        out.push(Finding::DnsFailures { failures: s.dns_metrics.failures });
    }
    assert(out@ =~= acc + dns_part(*s));
}

fn push_transitions(out: &mut Vec<Finding>, s: &WifiSnapshot, prior: &Option<MonitorState>)
    ensures
        final(out)@ == old(out)@ + change_part(*s, *prior) + internet_part(*s, *prior),
{
    let ghost start = out@;
    if let Some(w) = &s.wifi_info {
        if let Some(p) = prior {
            push_changes(out, w, p);
        }
    }
    assert(out@ =~= start + change_part(*s, *prior));
    let ghost acc = out@;
    if let Some(p) = prior {
        if !p.internet_was_reachable && s.connectivity.internet_reachable {
            out.push(Finding::InternetRestored);
        }
    }
    assert(out@ =~= acc + internet_part(*s, *prior));
}

fn push_later(out: &mut Vec<Finding>, s: &WifiSnapshot, prior: &Option<MonitorState>, t: &AlertThresholds)
    ensures
        final(out)@ == old(out)@ + later_parts(*s, *prior, *t),
{
    let ghost head = out@;
    push_latency(out, s, t);
    push_reach(out, s);
    push_transitions(out, s, prior);
    assert(out@ =~= head + later_parts(*s, *prior, *t));
}

/// Derives the findings of `snapshot` against the state of the previous
/// accepted snapshot (none on the first cycle) and the thresholds.
pub fn detect_events(snapshot: &WifiSnapshot, prior: &Option<MonitorState>, thresholds: &AlertThresholds) -> (r: Vec<Finding>)
    ensures
        r@ == findings(*snapshot, *prior, *thresholds),
{
    let mut out: Vec<Finding> = Vec::new();
    push_link(&mut out, snapshot, prior);
    push_signal(&mut out, snapshot, thresholds);
    push_later(&mut out, snapshot, prior, thresholds);
    assert(out@ =~= findings(*snapshot, *prior, *thresholds));
    out
}

/// Detection followed by the state update: the findings of `snapshot` and the
/// state it leaves for the next cycle.
pub fn detect(snapshot: &WifiSnapshot, prior: &Option<MonitorState>, thresholds: &AlertThresholds) -> (r: (Vec<Finding>, MonitorState))
    ensures
        r.0@ == findings(*snapshot, *prior, *thresholds),
        r.1 == state_after(*snapshot),
{
    let found = detect_events(snapshot, prior, thresholds);
    (found, MonitorState::after(snapshot))
}


impl Finding {
    /// The event kind of the finding.
    pub open spec fn kind(self) -> EventType {
        match self {
            Finding::LinkDown => EventType::ConnectionDropped,
            Finding::LinkRestored => EventType::ConnectionRestored,
            Finding::SignalLow { .. } => EventType::SignalStrengthLow,
            Finding::LatencyHigh { .. } => EventType::HighLatency,
            Finding::JitterHigh { .. } => EventType::HighJitter,
            Finding::PacketLossHigh { .. } => EventType::PacketLoss,
            Finding::RouterUnreachable => EventType::InternetUnreachable,
            Finding::InternetUnreachable => EventType::InternetUnreachable,
            Finding::DnsFailures { .. } => EventType::DnsFailure,
            Finding::BssidChanged { .. } => EventType::BssidChange,
            Finding::ChannelChanged { .. } => EventType::ChannelChange,
            Finding::BandChanged { .. } => EventType::BandSwitch,
            Finding::InternetRestored => EventType::ConnectionRestored,
        }
    }

    /// The severity of the finding.
    pub open spec fn level(self) -> EventSeverity {
        match self {
            Finding::LinkDown => EventSeverity::Critical,
            Finding::LinkRestored => EventSeverity::Info,
            Finding::SignalLow { critical, .. } => if critical { EventSeverity::Critical } else { EventSeverity::Warning },
            Finding::LatencyHigh { critical, .. } => if critical { EventSeverity::Critical } else { EventSeverity::Warning },
            Finding::JitterHigh { .. } => EventSeverity::Warning,
            Finding::PacketLossHigh { critical, .. } => if critical { EventSeverity::Critical } else { EventSeverity::Warning },
            Finding::RouterUnreachable => EventSeverity::Critical,
            Finding::InternetUnreachable => EventSeverity::Critical,
            Finding::DnsFailures { .. } => EventSeverity::Warning,
            Finding::BssidChanged { .. } => EventSeverity::Warning,
            Finding::ChannelChanged { .. } => EventSeverity::Info,
            Finding::BandChanged { .. } => EventSeverity::Warning,
            Finding::InternetRestored => EventSeverity::Info,
        }
    }

    /// The structured payload that the finding's event carries.
    pub open spec fn payload(self) -> EventDetails {
        match self {
            Finding::SignalLow { signal_dbm, signal_percent, .. } => EventDetails::Signal { signal_dbm, signal_percent },
            Finding::LatencyHigh { latency_us, .. } => EventDetails::Latency { latency_us },
            Finding::JitterHigh { jitter_us } => EventDetails::Jitter { jitter_us },
            Finding::PacketLossHigh { packet_loss_bp, .. } => EventDetails::PacketLoss { packet_loss_bp },
            Finding::RouterUnreachable => EventDetails::RouterUnreachable,
            Finding::InternetUnreachable => EventDetails::InternetUnreachable,
            Finding::DnsFailures { failures } => EventDetails::DnsFailures { failures },
            Finding::BssidChanged { old_bssid, new_bssid } => EventDetails::Bssid { old_bssid, new_bssid },
            Finding::ChannelChanged { old_channel, new_channel } => EventDetails::Channel { old_channel, new_channel },
            Finding::BandChanged { old_band, new_band } => EventDetails::Band { old_band, new_band },
            _ => EventDetails::Empty,
        }
    }

    /// Human description; milliseconds and percentages carry one decimal, rounded half up.
    pub open spec fn text(self) -> Seq<char> {
        match self {
            Finding::LinkDown => "WiFi is not connected"@,
            Finding::LinkRestored => "WiFi connection restored"@,
            Finding::SignalLow { critical, signal_dbm, signal_percent } =>
                (if critical { "Critical signal strength: "@ } else { "Low signal strength: "@ })
                + signed_decimal(signal_dbm as int) + " dBm ("@ + decimal(signal_percent as nat) + "%)"@,
            Finding::LatencyHigh { critical, latency_us } =>
                (if critical { "Critical latency: "@ } else { "High latency: "@ })
                + fixed_point(rounded_div(latency_us as nat, 100), 1) + "ms"@,
            Finding::JitterHigh { jitter_us } =>
                "High jitter: "@ + fixed_point(rounded_div(jitter_us as nat, 100), 1) + "ms"@,
            Finding::PacketLossHigh { critical, packet_loss_bp } =>
                (if critical { "Critical packet loss: "@ } else { "Packet loss detected: "@ })
                + fixed_point(rounded_div(packet_loss_bp as nat, 10), 1) + "%"@,
            Finding::RouterUnreachable => "Router/gateway is not reachable (local network issue)"@,
            Finding::InternetUnreachable => "Internet is not reachable (router OK, ISP/internet issue)"@,
            Finding::DnsFailures { failures } => decimal(failures as nat) + " DNS queries failed"@,
            Finding::BssidChanged { old_bssid, new_bssid } =>
                "BSSID changed from "@ + old_bssid@ + " to "@ + new_bssid@,
            Finding::ChannelChanged { old_channel, new_channel } =>
                "Channel changed from "@ + decimal(old_channel as nat) + " to "@ + decimal(new_channel as nat),
            Finding::BandChanged { old_band, new_band } =>
                "Band switched from "@ + old_band.name_spec() + " to "@ + new_band.name_spec(),
            Finding::InternetRestored => "Internet connectivity restored"@,
        }
    }

    pub fn event_type(&self) -> (r: EventType)
        ensures
            r == self.kind(),
    {
        match self {
            Finding::LinkDown => EventType::ConnectionDropped,
            Finding::LinkRestored => EventType::ConnectionRestored,
            Finding::SignalLow { .. } => EventType::SignalStrengthLow,
            Finding::LatencyHigh { .. } => EventType::HighLatency,
            Finding::JitterHigh { .. } => EventType::HighJitter,
            Finding::PacketLossHigh { .. } => EventType::PacketLoss,
            Finding::RouterUnreachable => EventType::InternetUnreachable,
            Finding::InternetUnreachable => EventType::InternetUnreachable,
            Finding::DnsFailures { .. } => EventType::DnsFailure,
            Finding::BssidChanged { .. } => EventType::BssidChange,
            Finding::ChannelChanged { .. } => EventType::ChannelChange,
            Finding::BandChanged { .. } => EventType::BandSwitch,
            Finding::InternetRestored => EventType::ConnectionRestored,
        }
    }

    pub fn severity(&self) -> (r: EventSeverity)
        ensures
            r == self.level(),
    {
        match self {
            Finding::LinkDown => EventSeverity::Critical,
            Finding::LinkRestored => EventSeverity::Info,
            Finding::SignalLow { critical, .. } => if *critical { EventSeverity::Critical } else { EventSeverity::Warning },
            Finding::LatencyHigh { critical, .. } => if *critical { EventSeverity::Critical } else { EventSeverity::Warning },
            Finding::JitterHigh { .. } => EventSeverity::Warning,
            Finding::PacketLossHigh { critical, .. } => if *critical { EventSeverity::Critical } else { EventSeverity::Warning },
            Finding::RouterUnreachable => EventSeverity::Critical,
            Finding::InternetUnreachable => EventSeverity::Critical,
            Finding::DnsFailures { .. } => EventSeverity::Warning,
            Finding::BssidChanged { .. } => EventSeverity::Warning,
            Finding::ChannelChanged { .. } => EventSeverity::Info,
            Finding::BandChanged { .. } => EventSeverity::Warning,
            Finding::InternetRestored => EventSeverity::Info,
        }
    }

    pub fn details(&self) -> (r: EventDetails)
        ensures
            r == self.payload(),
    {
        match self {
            Finding::SignalLow { signal_dbm, signal_percent, .. } => EventDetails::Signal { signal_dbm: *signal_dbm, signal_percent: *signal_percent },
            Finding::LatencyHigh { latency_us, .. } => EventDetails::Latency { latency_us: *latency_us },
            Finding::JitterHigh { jitter_us } => EventDetails::Jitter { jitter_us: *jitter_us },
            Finding::PacketLossHigh { packet_loss_bp, .. } => EventDetails::PacketLoss { packet_loss_bp: *packet_loss_bp },
            Finding::RouterUnreachable => EventDetails::RouterUnreachable,
            Finding::InternetUnreachable => EventDetails::InternetUnreachable,
            Finding::DnsFailures { failures } => EventDetails::DnsFailures { failures: *failures },
            Finding::BssidChanged { old_bssid, new_bssid } => EventDetails::Bssid { old_bssid: old_bssid.clone(), new_bssid: new_bssid.clone() },
            Finding::ChannelChanged { old_channel, new_channel } => EventDetails::Channel { old_channel: *old_channel, new_channel: *new_channel },
            Finding::BandChanged { old_band, new_band } => EventDetails::Band { old_band: *old_band, new_band: *new_band },
            _ => EventDetails::Empty,
        }
    }

    /// The human description of the finding.
    pub fn describe(&self) -> (r: String)
        ensures
            r@ == self.text(),
    {
        let mut out = String::new();
        match self {
            Finding::LinkDown => out.append("WiFi is not connected"),
            Finding::LinkRestored => out.append("WiFi connection restored"),
            Finding::SignalLow { critical, signal_dbm, signal_percent } => {
                if *critical {
                    out.append("Critical signal strength: ");
                } else {
                    out.append("Low signal strength: ");
                }
                push_signed(&mut out, *signal_dbm as i64);
                out.append(" dBm (");
                push_decimal(&mut out, *signal_percent as u64);
                out.append("%)");
            },
            Finding::LatencyHigh { critical, latency_us } => {
                if *critical {
                    out.append("Critical latency: ");
                } else {
                    out.append("High latency: ");
                }
                push_fixed(&mut out, round_div(*latency_us as u64, 100), 1);
                out.append("ms");
            },
            Finding::JitterHigh { jitter_us } => {
                out.append("High jitter: ");
                push_fixed(&mut out, round_div(*jitter_us as u64, 100), 1);
                out.append("ms");
            },
            Finding::PacketLossHigh { critical, packet_loss_bp } => {
                if *critical {
                    out.append("Critical packet loss: ");
                } else {
                    out.append("Packet loss detected: ");
                }
                push_fixed(&mut out, round_div(*packet_loss_bp as u64, 10), 1);
                out.append("%");
            },
            Finding::RouterUnreachable => out.append("Router/gateway is not reachable (local network issue)"),
            Finding::InternetUnreachable => out.append("Internet is not reachable (router OK, ISP/internet issue)"),
            Finding::DnsFailures { failures } => {
                push_decimal(&mut out, *failures as u64);
                out.append(" DNS queries failed");
            },
            Finding::BssidChanged { old_bssid, new_bssid } => {
                out.append("BSSID changed from ");
                out.append(old_bssid.as_str());
                out.append(" to ");
                out.append(new_bssid.as_str());
            },
            Finding::ChannelChanged { old_channel, new_channel } => {
                out.append("Channel changed from ");
                push_decimal(&mut out, *old_channel as u64);
                out.append(" to ");
                push_decimal(&mut out, *new_channel as u64);
            },
            Finding::BandChanged { old_band, new_band } => {
                out.append("Band switched from ");
                out.append(old_band.name());
                out.append(" to ");
                out.append(new_band.name());
            },
            Finding::InternetRestored => out.append("Internet connectivity restored"),
        }
        assert(out@ =~= self.text());
        out
    }

    /// The event of this finding, with a fresh identifier, stamped now.
    pub fn into_event(&self) -> (r: NetworkEvent)
        ensures
            r.id@.len() == 36,
            r.event_type == self.kind(),
            r.severity == self.level(),
            r.description@ == self.text(),
            r.details == self.payload(),
    {
        let text = self.describe();
        NetworkEvent::new(self.event_type(), self.severity(), text.as_str()).with_details(self.details())
    }
}

/// The events of a list of findings, one for each, in the same order.
pub fn stamp_findings(found: &Vec<Finding>) -> (r: Vec<NetworkEvent>)
    ensures
        r@.len() == found@.len(),
        forall|i: int| 0 <= i < found@.len() ==> {
            &&& (#[trigger] r@[i]).event_type == found@[i].kind()
            &&& r@[i].severity == found@[i].level()
            &&& r@[i].description@ == found@[i].text()
            &&& r@[i].details == found@[i].payload()
        },
{
    let mut out: Vec<NetworkEvent> = Vec::new();
    let mut i: usize = 0;
    while i < found.len()
        invariant
            i <= found@.len(),
            out@.len() == i,
            forall|k: int| 0 <= k < i ==> {
                &&& (#[trigger] out@[k]).event_type == found@[k].kind()
                &&& out@[k].severity == found@[k].level()
                &&& out@[k].description@ == found@[k].text()
                &&& out@[k].details == found@[k].payload()
            },
        decreases found@.len() - i,
    {
        let e = found[i].into_event();
        out.push(e);
        i = i + 1;
    }
    out
}

/// No finding of the list has kind `k`.
pub open spec fn lacks_kind(q: Seq<Finding>, k: EventType) -> bool {
    forall|i: int| 0 <= i < q.len() ==> (#[trigger] q[i]).kind() != k
}

proof fn lemma_lacks_concat(a: Seq<Finding>, b: Seq<Finding>, k: EventType)
    requires
        lacks_kind(a, k),
        lacks_kind(b, k),
    ensures
        lacks_kind(a + b, k),
{
    assert forall|i: int| 0 <= i < (a + b).len() implies (#[trigger] (a + b)[i]).kind() != k by {
        if i < a.len() {
            assert((a + b)[i] == a[i]);
        } else {
            assert((a + b)[i] == b[i - a.len()]);
        }
    }
}

proof fn lemma_tail_parts_lack(s: WifiSnapshot, prior: Option<MonitorState>, t: AlertThresholds, k: EventType)
    requires
        k == EventType::SignalStrengthLow || k == EventType::BandSwitch || k == EventType::ChannelChange,
    ensures
        lacks_kind(latency_part(s, t) + jitter_part(s, t) + loss_part(s, t) + reach_part(s) + dns_part(s), k),
        lacks_kind(internet_part(s, prior), k),
{
    lemma_lacks_concat(latency_part(s, t), jitter_part(s, t), k);
    lemma_lacks_concat(latency_part(s, t) + jitter_part(s, t), loss_part(s, t), k);
    lemma_lacks_concat(latency_part(s, t) + jitter_part(s, t) + loss_part(s, t), reach_part(s), k);
    lemma_lacks_concat(latency_part(s, t) + jitter_part(s, t) + loss_part(s, t) + reach_part(s), dns_part(s), k);
}

/// A snapshot without link always yields a critical `ConnectionDropped` event and
/// never a signal, band or channel event.
pub proof fn lemma_link_down_findings(s: WifiSnapshot, prior: Option<MonitorState>, t: AlertThresholds)
    requires
        s.wifi_info is None,
    ensures
        exists|i: int| 0 <= i < findings(s, prior, t).len()
            && (#[trigger] findings(s, prior, t)[i]).kind() == EventType::ConnectionDropped
            && findings(s, prior, t)[i].level() == EventSeverity::Critical,
        lacks_kind(findings(s, prior, t), EventType::SignalStrengthLow),
        lacks_kind(findings(s, prior, t), EventType::BandSwitch),
        lacks_kind(findings(s, prior, t), EventType::ChannelChange),
{
    let f = findings(s, prior, t);
    let mid = latency_part(s, t) + jitter_part(s, t) + loss_part(s, t) + reach_part(s) + dns_part(s);
    assert(later_parts(s, prior, t) =~= mid + internet_part(s, prior));
    assert(f =~= seq![Finding::LinkDown] + mid + internet_part(s, prior));
    assert(f[0] == Finding::LinkDown);
    lemma_tail_parts_lack(s, prior, t, EventType::SignalStrengthLow);
    lemma_tail_parts_lack(s, prior, t, EventType::BandSwitch);
    lemma_tail_parts_lack(s, prior, t, EventType::ChannelChange);
    lemma_lacks_concat(seq![Finding::LinkDown], mid, EventType::SignalStrengthLow);
    lemma_lacks_concat(seq![Finding::LinkDown] + mid, internet_part(s, prior), EventType::SignalStrengthLow);
    lemma_lacks_concat(seq![Finding::LinkDown], mid, EventType::BandSwitch);
    lemma_lacks_concat(seq![Finding::LinkDown] + mid, internet_part(s, prior), EventType::BandSwitch);
    lemma_lacks_concat(seq![Finding::LinkDown], mid, EventType::ChannelChange);
    lemma_lacks_concat(seq![Finding::LinkDown] + mid, internet_part(s, prior), EventType::ChannelChange);
}

proof fn lemma_only_in_middle(a: Seq<Finding>, g: Seq<Finding>, rest: Seq<Finding>, k: EventType)
    requires
        lacks_kind(a, k),
        lacks_kind(rest, k),
        g.len() <= 1,
    ensures
        forall|i: int| 0 <= i < (a + g + rest).len() && (#[trigger] (a + g + rest)[i]).kind() == k
            ==> i == a.len() && (a + g + rest)[i] == g[0],
{
    let f = a + g + rest;
    assert forall|i: int| 0 <= i < f.len() && (#[trigger] f[i]).kind() == k implies i == a.len() && f[i] == g[0] by {
        if i < a.len() {
            assert(f[i] == a[i]);
        } else if i >= a.len() + g.len() {
            assert(f[i] == rest[i - a.len() - g.len()]);
        } else {
            assert(f[i] == g[i - a.len()]);
        }
    }
}

/// Signal strength yields exactly one outcome: no signal event, or a single one
/// whose severity is critical exactly when the signal is at or below the
/// critical threshold.
pub proof fn lemma_single_signal_outcome(s: WifiSnapshot, prior: Option<MonitorState>, t: AlertThresholds)
    ensures
        forall|i: int, j: int|
            0 <= i < findings(s, prior, t).len() && 0 <= j < findings(s, prior, t).len()
            && (#[trigger] findings(s, prior, t)[i]).kind() == EventType::SignalStrengthLow
            && (#[trigger] findings(s, prior, t)[j]).kind() == EventType::SignalStrengthLow ==> i == j,
        forall|i: int| 0 <= i < findings(s, prior, t).len()
            && (#[trigger] findings(s, prior, t)[i]).kind() == EventType::SignalStrengthLow ==> {
                &&& s.wifi_info is Some
                &&& (findings(s, prior, t)[i].level() == EventSeverity::Critical
                    <==> s.wifi_info->0.signal_strength_dbm <= t.signal_strength_critical_dbm)
                &&& (findings(s, prior, t)[i].level() == EventSeverity::Warning
                    <==> s.wifi_info->0.signal_strength_dbm > t.signal_strength_critical_dbm)
            },
{
    let f = findings(s, prior, t);
    let a = link_part(s, prior);
    let g = signal_part(s, t);
    let mid = latency_part(s, t) + jitter_part(s, t) + loss_part(s, t) + reach_part(s) + dns_part(s);
    let k = EventType::SignalStrengthLow;
    lemma_tail_parts_lack(s, prior, t, k);
    lemma_changes_lack_signal(s, prior);
    lemma_lacks_concat(mid, change_part(s, prior), k);
    lemma_lacks_concat(mid + change_part(s, prior), internet_part(s, prior), k);
    let rest = later_parts(s, prior, t);
    assert(lacks_kind(a, k));
    assert(g.len() <= 1);
    lemma_only_in_middle(a, g, rest, k);
    assert forall|i: int| 0 <= i < f.len() && (#[trigger] f[i]).kind() == k implies {
        &&& s.wifi_info is Some
        &&& (f[i].level() == EventSeverity::Critical <==> s.wifi_info->0.signal_strength_dbm <= t.signal_strength_critical_dbm)
        &&& (f[i].level() == EventSeverity::Warning <==> s.wifi_info->0.signal_strength_dbm > t.signal_strength_critical_dbm)
    } by {
        assert(f[i] == g[0]);
    }
}

proof fn lemma_changes_lack_signal(s: WifiSnapshot, prior: Option<MonitorState>)
    ensures
        lacks_kind(change_part(s, prior), EventType::SignalStrengthLow),
{
    let k = EventType::SignalStrengthLow;
    match (s.wifi_info, prior) {
        (Some(w), Some(p)) => {
            lemma_lacks_concat(bssid_part(w, p), channel_part(w, p), k);
            lemma_lacks_concat(bssid_part(w, p) + channel_part(w, p), band_part(w, p), k);
        },
        _ => {},
    }
}

} // verus!
