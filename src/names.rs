//! Stored names of event kinds and severities, and reading them back.

use vstd::prelude::*;
use crate::metrics::{EventSeverity, EventType};
use crate::text::same_text;

verus! {

impl EventType {
    /// The stored name of the event kind, spelled as the variant.
    pub open spec fn name_spec(self) -> Seq<char> {
        match self {
            EventType::ConnectionDropped => "ConnectionDropped"@,
            EventType::ConnectionRestored => "ConnectionRestored"@,
            EventType::SignalStrengthLow => "SignalStrengthLow"@,
            EventType::SignalStrengthRecovered => "SignalStrengthRecovered"@,
            EventType::HighLatency => "HighLatency"@,
            EventType::LatencyNormalized => "LatencyNormalized"@,
            EventType::PacketLoss => "PacketLoss"@,
            EventType::DnsFailure => "DnsFailure"@,
            EventType::DnsRecovered => "DnsRecovered"@,
            EventType::BandSwitch => "BandSwitch"@,
            EventType::ChannelChange => "ChannelChange"@,
            EventType::BssidChange => "BssidChange"@,
            EventType::IpAddressChange => "IpAddressChange"@,
            EventType::GatewayUnreachable => "GatewayUnreachable"@,
            EventType::InternetUnreachable => "InternetUnreachable"@,
            EventType::HighJitter => "HighJitter"@,
            EventType::AdapterReset => "AdapterReset"@,
            EventType::SpeedDegraded => "SpeedDegraded"@,
            EventType::SpeedRecovered => "SpeedRecovered"@,
        }
    }

    pub fn name(&self) -> (r: &'static str)
        ensures
            r@ == self.name_spec(),
    {
        match self {
            EventType::ConnectionDropped => "ConnectionDropped",
            EventType::ConnectionRestored => "ConnectionRestored",
            EventType::SignalStrengthLow => "SignalStrengthLow",
            EventType::SignalStrengthRecovered => "SignalStrengthRecovered",
            EventType::HighLatency => "HighLatency",
            EventType::LatencyNormalized => "LatencyNormalized",
            EventType::PacketLoss => "PacketLoss",
            EventType::DnsFailure => "DnsFailure",
            EventType::DnsRecovered => "DnsRecovered",
            EventType::BandSwitch => "BandSwitch",
            EventType::ChannelChange => "ChannelChange",
            EventType::BssidChange => "BssidChange",
            EventType::IpAddressChange => "IpAddressChange",
            EventType::GatewayUnreachable => "GatewayUnreachable",
            EventType::InternetUnreachable => "InternetUnreachable",
            EventType::HighJitter => "HighJitter",
            EventType::AdapterReset => "AdapterReset",
            EventType::SpeedDegraded => "SpeedDegraded",
            EventType::SpeedRecovered => "SpeedRecovered",
        }
    }

    /// The value whose stored name is `s`; `ConnectionDropped` for any other text.
    pub open spec fn from_name(s: Seq<char>) -> EventType {
        first_named_event_types(s, event_types())
    }
}

/// Every event kind, in declaration order.
pub open spec fn event_types() -> Seq<EventType> {
    seq![EventType::ConnectionDropped, EventType::ConnectionRestored, EventType::SignalStrengthLow, EventType::SignalStrengthRecovered, EventType::HighLatency, EventType::LatencyNormalized, EventType::PacketLoss, EventType::DnsFailure, EventType::DnsRecovered, EventType::BandSwitch, EventType::ChannelChange, EventType::BssidChange, EventType::IpAddressChange, EventType::GatewayUnreachable, EventType::InternetUnreachable, EventType::HighJitter, EventType::AdapterReset, EventType::SpeedDegraded, EventType::SpeedRecovered]
}

fn event_types_list() -> (r: Vec<EventType>)
    ensures
        r@ == event_types(),
{
    let r = vec![EventType::ConnectionDropped, EventType::ConnectionRestored, EventType::SignalStrengthLow, EventType::SignalStrengthRecovered, EventType::HighLatency, EventType::LatencyNormalized, EventType::PacketLoss, EventType::DnsFailure, EventType::DnsRecovered, EventType::BandSwitch, EventType::ChannelChange, EventType::BssidChange, EventType::IpAddressChange, EventType::GatewayUnreachable, EventType::InternetUnreachable, EventType::HighJitter, EventType::AdapterReset, EventType::SpeedDegraded, EventType::SpeedRecovered];
    assert(r@ =~= event_types());
    r
}

/// The first of `cands` whose name is `s`; `ConnectionDropped` when none is.
pub open spec fn first_named_event_types(s: Seq<char>, cands: Seq<EventType>) -> EventType
    decreases cands.len(),
{
    if cands.len() == 0 {
        EventType::ConnectionDropped
    } else if cands[0].name_spec() == s {
        cands[0]
    } else {
        first_named_event_types(s, cands.drop_first())
    }
}

/// Reads a stored event kind name; unknown text reads as `ConnectionDropped`.
pub fn parse_event_type(s: &str) -> (r: EventType)
    ensures
        r == EventType::from_name(s@),
{
    let cands = event_types_list();
    let mut i: usize = 0;
    assert(cands@.skip(0) =~= cands@);
    while i < cands.len()
        invariant
            i <= cands@.len(),
            cands@ == event_types(),
            first_named_event_types(s@, cands@.skip(i as int)) == EventType::from_name(s@),
        decreases cands@.len() - i,
    {
        assert(cands@.skip(i as int).drop_first() =~= cands@.skip(i + 1));
        assert(cands@.skip(i as int)[0] == cands@[i as int]);
        if same_text(cands[i].name(), s) {
            return cands[i];
        }
        i = i + 1;
    }
    EventType::ConnectionDropped
}

/// Reading back the stored name of any value gives that value.
pub proof fn lemma_parse_event_type_round_trip(v: EventType)
    ensures
        EventType::from_name(v.name_spec()) == v,
{
    reveal_strlit("ConnectionDropped");
    reveal_strlit("ConnectionRestored");
    reveal_strlit("SignalStrengthLow");
    reveal_strlit("SignalStrengthRecovered");
    reveal_strlit("HighLatency");
    reveal_strlit("LatencyNormalized");
    reveal_strlit("PacketLoss");
    reveal_strlit("DnsFailure");
    reveal_strlit("DnsRecovered");
    reveal_strlit("BandSwitch");
    reveal_strlit("ChannelChange");
    reveal_strlit("BssidChange");
    reveal_strlit("IpAddressChange");
    reveal_strlit("GatewayUnreachable");
    reveal_strlit("InternetUnreachable");
    reveal_strlit("HighJitter");
    reveal_strlit("AdapterReset");
    reveal_strlit("SpeedDegraded");
    reveal_strlit("SpeedRecovered");
    let all = event_types();
    match v {
        EventType::ConnectionDropped => {
            assert(all.skip(0)[0] == EventType::ConnectionDropped);
            lemma_first_named_event_types_skips(v.name_spec(), 0);
        },
        EventType::ConnectionRestored => {
            assert("ConnectionRestored"@.len() != "ConnectionDropped"@.len());
            assert(all.skip(1)[0] == EventType::ConnectionRestored);
            lemma_first_named_event_types_skips(v.name_spec(), 1);
        },
        EventType::SignalStrengthLow => {
            assert("SignalStrengthLow"@[0] != "ConnectionDropped"@[0]);
            assert("SignalStrengthLow"@.len() != "ConnectionRestored"@.len());
            assert(all.skip(2)[0] == EventType::SignalStrengthLow);
            lemma_first_named_event_types_skips(v.name_spec(), 2);
        },
        EventType::SignalStrengthRecovered => {
            assert("SignalStrengthRecovered"@.len() != "ConnectionDropped"@.len());
            assert("SignalStrengthRecovered"@.len() != "ConnectionRestored"@.len());
            assert("SignalStrengthRecovered"@.len() != "SignalStrengthLow"@.len());
            assert(all.skip(3)[0] == EventType::SignalStrengthRecovered);
            lemma_first_named_event_types_skips(v.name_spec(), 3);
        },
        EventType::HighLatency => {
            assert("HighLatency"@.len() != "ConnectionDropped"@.len());
            assert("HighLatency"@.len() != "ConnectionRestored"@.len());
            assert("HighLatency"@.len() != "SignalStrengthLow"@.len());
            assert("HighLatency"@.len() != "SignalStrengthRecovered"@.len());
            assert(all.skip(4)[0] == EventType::HighLatency);
            lemma_first_named_event_types_skips(v.name_spec(), 4);
        },
        EventType::LatencyNormalized => {
            assert("LatencyNormalized"@[0] != "ConnectionDropped"@[0]);
            assert("LatencyNormalized"@.len() != "ConnectionRestored"@.len());
            assert("LatencyNormalized"@[0] != "SignalStrengthLow"@[0]);
            assert("LatencyNormalized"@.len() != "SignalStrengthRecovered"@.len());
            assert("LatencyNormalized"@.len() != "HighLatency"@.len());
            assert(all.skip(5)[0] == EventType::LatencyNormalized);
            lemma_first_named_event_types_skips(v.name_spec(), 5);
        },
        EventType::PacketLoss => {
            assert("PacketLoss"@.len() != "ConnectionDropped"@.len());
            assert("PacketLoss"@.len() != "ConnectionRestored"@.len());
            assert("PacketLoss"@.len() != "SignalStrengthLow"@.len());
            assert("PacketLoss"@.len() != "SignalStrengthRecovered"@.len());
            assert("PacketLoss"@.len() != "HighLatency"@.len());
            assert("PacketLoss"@.len() != "LatencyNormalized"@.len());
            assert(all.skip(6)[0] == EventType::PacketLoss);
            lemma_first_named_event_types_skips(v.name_spec(), 6);
        },
        EventType::DnsFailure => {
            assert("DnsFailure"@.len() != "ConnectionDropped"@.len());
            assert("DnsFailure"@.len() != "ConnectionRestored"@.len());
            assert("DnsFailure"@.len() != "SignalStrengthLow"@.len());
            assert("DnsFailure"@.len() != "SignalStrengthRecovered"@.len());
            assert("DnsFailure"@.len() != "HighLatency"@.len());
            assert("DnsFailure"@.len() != "LatencyNormalized"@.len());
            assert("DnsFailure"@[0] != "PacketLoss"@[0]);
            assert(all.skip(7)[0] == EventType::DnsFailure);
            lemma_first_named_event_types_skips(v.name_spec(), 7);
        },
        EventType::DnsRecovered => {
            assert("DnsRecovered"@.len() != "ConnectionDropped"@.len());
            assert("DnsRecovered"@.len() != "ConnectionRestored"@.len());
            assert("DnsRecovered"@.len() != "SignalStrengthLow"@.len());
            assert("DnsRecovered"@.len() != "SignalStrengthRecovered"@.len());
            assert("DnsRecovered"@.len() != "HighLatency"@.len());
            assert("DnsRecovered"@.len() != "LatencyNormalized"@.len());
            assert("DnsRecovered"@.len() != "PacketLoss"@.len());
            assert("DnsRecovered"@.len() != "DnsFailure"@.len());
            assert(all.skip(8)[0] == EventType::DnsRecovered);
            lemma_first_named_event_types_skips(v.name_spec(), 8);
        },
        EventType::BandSwitch => {
            assert("BandSwitch"@.len() != "ConnectionDropped"@.len());
            assert("BandSwitch"@.len() != "ConnectionRestored"@.len());
            assert("BandSwitch"@.len() != "SignalStrengthLow"@.len());
            assert("BandSwitch"@.len() != "SignalStrengthRecovered"@.len());
            assert("BandSwitch"@.len() != "HighLatency"@.len());
            assert("BandSwitch"@.len() != "LatencyNormalized"@.len());
            assert("BandSwitch"@[0] != "PacketLoss"@[0]);
            assert("BandSwitch"@[0] != "DnsFailure"@[0]);
            assert("BandSwitch"@.len() != "DnsRecovered"@.len());
            assert(all.skip(9)[0] == EventType::BandSwitch);
            lemma_first_named_event_types_skips(v.name_spec(), 9);
        },
        EventType::ChannelChange => {
            assert("ChannelChange"@.len() != "ConnectionDropped"@.len());
            assert("ChannelChange"@.len() != "ConnectionRestored"@.len());
            assert("ChannelChange"@.len() != "SignalStrengthLow"@.len());
            assert("ChannelChange"@.len() != "SignalStrengthRecovered"@.len());
            assert("ChannelChange"@.len() != "HighLatency"@.len());
            assert("ChannelChange"@.len() != "LatencyNormalized"@.len());
            assert("ChannelChange"@.len() != "PacketLoss"@.len());
            assert("ChannelChange"@.len() != "DnsFailure"@.len());
            assert("ChannelChange"@.len() != "DnsRecovered"@.len());
            assert("ChannelChange"@.len() != "BandSwitch"@.len());
            assert(all.skip(10)[0] == EventType::ChannelChange);
            lemma_first_named_event_types_skips(v.name_spec(), 10);
        },
        EventType::BssidChange => {
            assert("BssidChange"@.len() != "ConnectionDropped"@.len());
            assert("BssidChange"@.len() != "ConnectionRestored"@.len());
            assert("BssidChange"@.len() != "SignalStrengthLow"@.len());
            assert("BssidChange"@.len() != "SignalStrengthRecovered"@.len());
            assert("BssidChange"@[0] != "HighLatency"@[0]);
            assert("BssidChange"@.len() != "LatencyNormalized"@.len());
            assert("BssidChange"@.len() != "PacketLoss"@.len());
            assert("BssidChange"@.len() != "DnsFailure"@.len());
            assert("BssidChange"@.len() != "DnsRecovered"@.len());
            assert("BssidChange"@.len() != "BandSwitch"@.len());
            assert("BssidChange"@.len() != "ChannelChange"@.len());
            assert(all.skip(11)[0] == EventType::BssidChange);
            lemma_first_named_event_types_skips(v.name_spec(), 11);
        },
        EventType::IpAddressChange => {
            assert("IpAddressChange"@.len() != "ConnectionDropped"@.len());
            assert("IpAddressChange"@.len() != "ConnectionRestored"@.len());
            assert("IpAddressChange"@.len() != "SignalStrengthLow"@.len());
            assert("IpAddressChange"@.len() != "SignalStrengthRecovered"@.len());
            assert("IpAddressChange"@.len() != "HighLatency"@.len());
            assert("IpAddressChange"@.len() != "LatencyNormalized"@.len());
            assert("IpAddressChange"@.len() != "PacketLoss"@.len());
            assert("IpAddressChange"@.len() != "DnsFailure"@.len());
            assert("IpAddressChange"@.len() != "DnsRecovered"@.len());
            assert("IpAddressChange"@.len() != "BandSwitch"@.len());
            assert("IpAddressChange"@.len() != "ChannelChange"@.len());
            assert("IpAddressChange"@.len() != "BssidChange"@.len());
            assert(all.skip(12)[0] == EventType::IpAddressChange);
            lemma_first_named_event_types_skips(v.name_spec(), 12);
        },
        EventType::GatewayUnreachable => {
            assert("GatewayUnreachable"@.len() != "ConnectionDropped"@.len());
            assert("GatewayUnreachable"@[0] != "ConnectionRestored"@[0]);
            assert("GatewayUnreachable"@.len() != "SignalStrengthLow"@.len());
            assert("GatewayUnreachable"@.len() != "SignalStrengthRecovered"@.len());
            assert("GatewayUnreachable"@.len() != "HighLatency"@.len());
            assert("GatewayUnreachable"@.len() != "LatencyNormalized"@.len());
            assert("GatewayUnreachable"@.len() != "PacketLoss"@.len());
            assert("GatewayUnreachable"@.len() != "DnsFailure"@.len());
            assert("GatewayUnreachable"@.len() != "DnsRecovered"@.len());
            assert("GatewayUnreachable"@.len() != "BandSwitch"@.len());
            assert("GatewayUnreachable"@.len() != "ChannelChange"@.len());
            assert("GatewayUnreachable"@.len() != "BssidChange"@.len());
            assert("GatewayUnreachable"@.len() != "IpAddressChange"@.len());
            assert(all.skip(13)[0] == EventType::GatewayUnreachable);
            lemma_first_named_event_types_skips(v.name_spec(), 13);
        },
        EventType::InternetUnreachable => {
            assert("InternetUnreachable"@.len() != "ConnectionDropped"@.len());
            assert("InternetUnreachable"@.len() != "ConnectionRestored"@.len());
            assert("InternetUnreachable"@.len() != "SignalStrengthLow"@.len());
            assert("InternetUnreachable"@.len() != "SignalStrengthRecovered"@.len());
            assert("InternetUnreachable"@.len() != "HighLatency"@.len());
            assert("InternetUnreachable"@.len() != "LatencyNormalized"@.len());
            assert("InternetUnreachable"@.len() != "PacketLoss"@.len());
            assert("InternetUnreachable"@.len() != "DnsFailure"@.len());
            assert("InternetUnreachable"@.len() != "DnsRecovered"@.len());
            assert("InternetUnreachable"@.len() != "BandSwitch"@.len());
            assert("InternetUnreachable"@.len() != "ChannelChange"@.len());
            assert("InternetUnreachable"@.len() != "BssidChange"@.len());
            assert("InternetUnreachable"@.len() != "IpAddressChange"@.len());
            assert("InternetUnreachable"@.len() != "GatewayUnreachable"@.len());
            assert(all.skip(14)[0] == EventType::InternetUnreachable);
            lemma_first_named_event_types_skips(v.name_spec(), 14);
        },
        EventType::HighJitter => {
            assert("HighJitter"@.len() != "ConnectionDropped"@.len());
            assert("HighJitter"@.len() != "ConnectionRestored"@.len());
            assert("HighJitter"@.len() != "SignalStrengthLow"@.len());
            assert("HighJitter"@.len() != "SignalStrengthRecovered"@.len());
            assert("HighJitter"@.len() != "HighLatency"@.len());
            assert("HighJitter"@.len() != "LatencyNormalized"@.len());
            assert("HighJitter"@[0] != "PacketLoss"@[0]);
            assert("HighJitter"@[0] != "DnsFailure"@[0]);
            assert("HighJitter"@.len() != "DnsRecovered"@.len());
            assert("HighJitter"@[0] != "BandSwitch"@[0]);
            assert("HighJitter"@.len() != "ChannelChange"@.len());
            assert("HighJitter"@.len() != "BssidChange"@.len());
            assert("HighJitter"@.len() != "IpAddressChange"@.len());
            assert("HighJitter"@.len() != "GatewayUnreachable"@.len());
            assert("HighJitter"@.len() != "InternetUnreachable"@.len());
            assert(all.skip(15)[0] == EventType::HighJitter);
            lemma_first_named_event_types_skips(v.name_spec(), 15);
        },
        EventType::AdapterReset => {
            assert("AdapterReset"@.len() != "ConnectionDropped"@.len());
            assert("AdapterReset"@.len() != "ConnectionRestored"@.len());
            assert("AdapterReset"@.len() != "SignalStrengthLow"@.len());
            assert("AdapterReset"@.len() != "SignalStrengthRecovered"@.len());
            assert("AdapterReset"@.len() != "HighLatency"@.len());
            assert("AdapterReset"@.len() != "LatencyNormalized"@.len());
            assert("AdapterReset"@.len() != "PacketLoss"@.len());
            assert("AdapterReset"@.len() != "DnsFailure"@.len());
            assert("AdapterReset"@[0] != "DnsRecovered"@[0]);
            assert("AdapterReset"@.len() != "BandSwitch"@.len());
            assert("AdapterReset"@.len() != "ChannelChange"@.len());
            assert("AdapterReset"@.len() != "BssidChange"@.len());
            assert("AdapterReset"@.len() != "IpAddressChange"@.len());
            assert("AdapterReset"@.len() != "GatewayUnreachable"@.len());
            assert("AdapterReset"@.len() != "InternetUnreachable"@.len());
            assert("AdapterReset"@.len() != "HighJitter"@.len());
            assert(all.skip(16)[0] == EventType::AdapterReset);
            lemma_first_named_event_types_skips(v.name_spec(), 16);
        },
        EventType::SpeedDegraded => {
            assert("SpeedDegraded"@.len() != "ConnectionDropped"@.len());
            assert("SpeedDegraded"@.len() != "ConnectionRestored"@.len());
            assert("SpeedDegraded"@.len() != "SignalStrengthLow"@.len());
            assert("SpeedDegraded"@.len() != "SignalStrengthRecovered"@.len());
            assert("SpeedDegraded"@.len() != "HighLatency"@.len());
            assert("SpeedDegraded"@.len() != "LatencyNormalized"@.len());
            assert("SpeedDegraded"@.len() != "PacketLoss"@.len());
            assert("SpeedDegraded"@.len() != "DnsFailure"@.len());
            assert("SpeedDegraded"@.len() != "DnsRecovered"@.len());
            assert("SpeedDegraded"@.len() != "BandSwitch"@.len());
            assert("SpeedDegraded"@[0] != "ChannelChange"@[0]);
            assert("SpeedDegraded"@.len() != "BssidChange"@.len());
            assert("SpeedDegraded"@.len() != "IpAddressChange"@.len());
            assert("SpeedDegraded"@.len() != "GatewayUnreachable"@.len());
            assert("SpeedDegraded"@.len() != "InternetUnreachable"@.len());
            assert("SpeedDegraded"@.len() != "HighJitter"@.len());
            assert("SpeedDegraded"@.len() != "AdapterReset"@.len());
            assert(all.skip(17)[0] == EventType::SpeedDegraded);
            lemma_first_named_event_types_skips(v.name_spec(), 17);
        },
        EventType::SpeedRecovered => {
            assert("SpeedRecovered"@.len() != "ConnectionDropped"@.len());
            assert("SpeedRecovered"@.len() != "ConnectionRestored"@.len());
            assert("SpeedRecovered"@.len() != "SignalStrengthLow"@.len());
            assert("SpeedRecovered"@.len() != "SignalStrengthRecovered"@.len());
            assert("SpeedRecovered"@.len() != "HighLatency"@.len());
            assert("SpeedRecovered"@.len() != "LatencyNormalized"@.len());
            assert("SpeedRecovered"@.len() != "PacketLoss"@.len());
            assert("SpeedRecovered"@.len() != "DnsFailure"@.len());
            assert("SpeedRecovered"@.len() != "DnsRecovered"@.len());
            assert("SpeedRecovered"@.len() != "BandSwitch"@.len());
            assert("SpeedRecovered"@.len() != "ChannelChange"@.len());
            assert("SpeedRecovered"@.len() != "BssidChange"@.len());
            assert("SpeedRecovered"@.len() != "IpAddressChange"@.len());
            assert("SpeedRecovered"@.len() != "GatewayUnreachable"@.len());
            assert("SpeedRecovered"@.len() != "InternetUnreachable"@.len());
            assert("SpeedRecovered"@.len() != "HighJitter"@.len());
            assert("SpeedRecovered"@.len() != "AdapterReset"@.len());
            assert("SpeedRecovered"@.len() != "SpeedDegraded"@.len());
            assert(all.skip(18)[0] == EventType::SpeedRecovered);
            lemma_first_named_event_types_skips(v.name_spec(), 18);
        },
    }
}

proof fn lemma_first_named_event_types_skips(s: Seq<char>, k: int)
    requires
        0 <= k < event_types().len(),
        forall|j: int| 0 <= j < k ==> #[trigger] event_types()[j].name_spec() != s,
    ensures
        EventType::from_name(s) == first_named_event_types(s, event_types().skip(k)),
    decreases k,
{
    if k > 0 {
        lemma_first_named_event_types_skips(s, k - 1);
        let rest = event_types().skip(k - 1);
        assert(rest[0] == event_types()[k - 1]);
        assert(rest.drop_first() =~= event_types().skip(k));
    } else {
        assert(event_types().skip(0) =~= event_types());
    }
}

impl EventSeverity {
    /// The stored name of the severity, spelled as the variant.
    pub open spec fn name_spec(self) -> Seq<char> {
        match self {
            EventSeverity::Info => "Info"@,
            EventSeverity::Warning => "Warning"@,
            EventSeverity::Error => "Error"@,
            EventSeverity::Critical => "Critical"@,
        }
    }

    pub fn name(&self) -> (r: &'static str)
        ensures
            r@ == self.name_spec(),
    {
        match self {
            EventSeverity::Info => "Info",
            EventSeverity::Warning => "Warning",
            EventSeverity::Error => "Error",
            EventSeverity::Critical => "Critical",
        }
    }

    /// The value whose stored name is `s`; `Info` for any other text.
    pub open spec fn from_name(s: Seq<char>) -> EventSeverity {
        first_named_severities(s, severities())
    }
}

/// Every severity, in declaration order.
pub open spec fn severities() -> Seq<EventSeverity> {
    seq![EventSeverity::Info, EventSeverity::Warning, EventSeverity::Error, EventSeverity::Critical]
}

fn severities_list() -> (r: Vec<EventSeverity>)
    ensures
        r@ == severities(),
{
    let r = vec![EventSeverity::Info, EventSeverity::Warning, EventSeverity::Error, EventSeverity::Critical];
    assert(r@ =~= severities());
    r
}

/// The first of `cands` whose name is `s`; `Info` when none is.
pub open spec fn first_named_severities(s: Seq<char>, cands: Seq<EventSeverity>) -> EventSeverity
    decreases cands.len(),
{
    if cands.len() == 0 {
        EventSeverity::Info
    } else if cands[0].name_spec() == s {
        cands[0]
    } else {
        first_named_severities(s, cands.drop_first())
    }
}

/// Reads a stored severity name; unknown text reads as `Info`.
pub fn parse_severity(s: &str) -> (r: EventSeverity)
    ensures
        r == EventSeverity::from_name(s@),
{
    let cands = severities_list();
    let mut i: usize = 0;
    assert(cands@.skip(0) =~= cands@);
    while i < cands.len()
        invariant
            i <= cands@.len(),
            cands@ == severities(),
            first_named_severities(s@, cands@.skip(i as int)) == EventSeverity::from_name(s@),
        decreases cands@.len() - i,
    {
        assert(cands@.skip(i as int).drop_first() =~= cands@.skip(i + 1));
        assert(cands@.skip(i as int)[0] == cands@[i as int]);
        if same_text(cands[i].name(), s) {
            return cands[i];
        }
        i = i + 1;
    }
    EventSeverity::Info
}

/// Reading back the stored name of any value gives that value.
pub proof fn lemma_parse_severity_round_trip(v: EventSeverity)
    ensures
        EventSeverity::from_name(v.name_spec()) == v,
{
    reveal_strlit("Info");
    reveal_strlit("Warning");
    reveal_strlit("Error");
    reveal_strlit("Critical");
    let all = severities();
    match v {
        EventSeverity::Info => {
            assert(all.skip(0)[0] == EventSeverity::Info);
            lemma_first_named_severities_skips(v.name_spec(), 0);
        },
        EventSeverity::Warning => {
            assert("Warning"@.len() != "Info"@.len());
            assert(all.skip(1)[0] == EventSeverity::Warning);
            lemma_first_named_severities_skips(v.name_spec(), 1);
        },
        EventSeverity::Error => {
            assert("Error"@.len() != "Info"@.len());
            assert("Error"@.len() != "Warning"@.len());
            assert(all.skip(2)[0] == EventSeverity::Error);
            lemma_first_named_severities_skips(v.name_spec(), 2);
        },
        EventSeverity::Critical => {
            assert("Critical"@.len() != "Info"@.len());
            assert("Critical"@.len() != "Warning"@.len());
            assert("Critical"@.len() != "Error"@.len());
            assert(all.skip(3)[0] == EventSeverity::Critical);
            lemma_first_named_severities_skips(v.name_spec(), 3);
        },
    }
}

proof fn lemma_first_named_severities_skips(s: Seq<char>, k: int)
    requires
        0 <= k < severities().len(),
        forall|j: int| 0 <= j < k ==> #[trigger] severities()[j].name_spec() != s,
    ensures
        EventSeverity::from_name(s) == first_named_severities(s, severities().skip(k)),
    decreases k,
{
    if k > 0 {
        lemma_first_named_severities_skips(s, k - 1);
        let rest = severities().skip(k - 1);
        assert(rest[0] == severities()[k - 1]);
        assert(rest.drop_first() =~= severities().skip(k));
    } else {
        assert(severities().skip(0) =~= severities());
    }
}

/// Whether `s` is the stored name of an event kind.
pub open spec fn is_type_name(s: Seq<char>) -> bool {
    EventType::from_name(s).name_spec() == s
}

/// Stored counts by kind name, keyed by kind; names of no kind are left out
/// and negative counts read as 0.
pub open spec fn known_counts(c: Seq<(String, i64)>) -> Seq<(EventType, u64)>
    decreases c.len(),
{
    if c.len() == 0 {
        seq![]
    } else if is_type_name(c.last().0@) {
        known_counts(c.drop_last()).push(
            (EventType::from_name(c.last().0@), if c.last().1 < 0 { 0u64 } else { c.last().1 as u64 }),
        )
    } else {
        known_counts(c.drop_last())
    }
}

/// Reads stored counts by kind name into counts by kind.
pub fn typed_counts(counts: &Vec<(String, i64)>) -> (r: Vec<(EventType, u64)>)
    ensures
        r@ == known_counts(counts@),
{
    let mut out: Vec<(EventType, u64)> = Vec::new();
    let mut i: usize = 0;
    assert(counts@.take(0) =~= seq![]);
    while i < counts.len()
        invariant
            i <= counts@.len(),
            out@ == known_counts(counts@.take(i as int)),
        decreases counts@.len() - i,
    {
        let name = counts[i].0.as_str();
        let c = counts[i].1;
        let t = parse_event_type(name);
        proof {
            let q = counts@.take(i + 1);
            assert(q.drop_last() =~= counts@.take(i as int));
            assert(q.last() == counts@[i as int]);
        }
        if same_text(t.name(), name) {
            out.push((t, if c < 0 { 0 } else { c as u64 }));
        }
        i = i + 1;
    }
    assert(counts@.take(counts@.len() as int) =~= counts@);
    out
}

} // verus!
