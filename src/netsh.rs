//! Interpretation of the `key : value` lines that the operating system's
//! tools print about the wireless interface and its IP configuration.

use vstd::prelude::*;
use crate::metrics::{channel_to_frequency, dbm_of_quality, frequency_of_channel, quality_to_dbm, WifiBand, WifiInfo};
use crate::text::same_text;

verus! {

/// What `str::to_lowercase` returns for a text.
pub uninterp spec fn lower_of(s: Seq<char>) -> Seq<char>;

/// Relies on `str::to_lowercase`: the lowercase mapping of every character;
/// the result depends on the text alone. Shared by the readers of tool output.
#[verifier::external_body]
pub(crate) fn lowercase(s: &str) -> (r: String)
    ensures
        r@ == lower_of(s@),
{
    s.to_lowercase()
}

pub open spec fn is_digit(c: char) -> bool {
    '0' <= c <= '9'
}

/// Value of a run of decimal digits.
pub open spec fn digits_value(s: Seq<char>) -> int
    decreases s.len(),
{
    if s.len() == 0 {
        0
    } else {
        10 * digits_value(s.drop_last()) + (s.last() as int - '0' as int)
    }
}

pub open spec fn all_digits(s: Seq<char>) -> bool {
    forall|i: int| 0 <= i < s.len() ==> is_digit(#[trigger] s[i])
}

/// An unsigned decimal as `str::parse` reads one: an optional `+`, then at
/// least one digit and nothing else, no larger than `max`.
pub open spec fn parsed_unsigned(s: Seq<char>, max: int) -> Option<int> {
    let body = if s.len() > 0 && s[0] == '+' { s.drop_first() } else { s };
    if body.len() > 0 && all_digits(body) && digits_value(body) <= max {
        Some(digits_value(body))
    } else {
        None
    }
}

proof fn lemma_digits_grow(s: Seq<char>, k: int)
    requires
        0 <= k <= s.len(),
        all_digits(s),
    ensures
        digits_value(s) >= digits_value(s.take(k)) >= 0,
    decreases s.len(),
{
    if k < s.len() {
        assert(s.drop_last().take(k) =~= s.take(k));
        lemma_digits_grow(s.drop_last(), k);
        assert(all_digits(s.drop_last()));
    } else {
        assert(s.take(k) =~= s);
        if s.len() > 0 {
            lemma_digits_grow(s.drop_last(), s.len() - 1);
            assert(s.drop_last().take(s.len() - 1) =~= s.drop_last());
        }
    }
}

/// Reads an unsigned decimal no larger than `max`.
pub fn parse_unsigned(s: &str, max: u32) -> (r: Option<u32>)
    ensures
        r == (match parsed_unsigned(s@, max as int) {
            Some(v) => Some(v as u32),
            None => None,
        }),
        r matches Some(v) ==> v <= max,
        parsed_unsigned(s@, max as int) matches Some(v) ==> 0 <= v <= max,
{
    let n = s.unicode_len();
    let mut i: usize = 0;
    if n > 0 && s.get_char(0) == '+' {
        i = 1;
    }
    let ghost body = if s@.len() > 0 && s@[0] == '+' { s@.drop_first() } else { s@ };
    let start = i;
    assert(body =~= s@.skip(start as int));
    if i == n {
        assert(body.len() == 0);
        return None;
    }
    let mut acc: u64 = 0;
    while i < n
        invariant
            start <= i <= n == s@.len(),
            body == (if s@.len() > 0 && s@[0] == '+' { s@.drop_first() } else { s@ }),
            body =~= s@.skip(start as int),
            all_digits(body.take(i - start)),
            acc == digits_value(body.take(i - start)),
            acc <= max,
        decreases n - i,
    {
        let c = s.get_char(i);
        let ghost k = i - start;
        assert(body[k] == c);
        if !('0' <= c && c <= '9') {
            assert(!all_digits(body));
            return None;
        }
        assert(body.take(k + 1).drop_last() =~= body.take(k));
        assert(body.take(k + 1).last() == c);
        acc = 10 * acc + (c as u64 - '0' as u64);
        assert(acc == digits_value(body.take(k + 1)));
        i = i + 1;
        assert(all_digits(body.take(i - start)));
        if acc > max as u64 {
            proof {
                if all_digits(body) {
                    lemma_digits_grow(body, i - start);
                }
            }
            return None;
        }
    }
    assert(body.take(n - start) =~= body);
    Some(acc as u32)
}

/// `s` without its trailing `%` signs.
pub open spec fn without_percent(s: Seq<char>) -> Seq<char>
    decreases s.len(),
{
    if s.len() > 0 && s.last() == '%' { without_percent(s.drop_last()) } else { s }
}

fn strip_percent(s: &str) -> (r: &str)
    ensures
        r@ == without_percent(s@),
{
    let mut e = s.unicode_len();
    assert(s@.take(e as int) =~= s@);
    while e > 0 && s.get_char(e - 1) == '%'
        invariant
            e <= s@.len(),
            without_percent(s@.take(e as int)) == without_percent(s@),
        decreases e,
    {
        assert(s@.take(e as int).drop_last() =~= s@.take(e - 1));
        e = e - 1;
    }
    assert(s@.take(e as int) =~= s@.subrange(0, e as int));
    let r = s.substring_char(0, e);
    r
}

/// `n` is `o` after the line `key : value`, whose key is already lowercase and
/// whose value reads `lowered` in lowercase; `nc` is whether the interface
/// reads as connected afterwards.
pub open spec fn field_applied(o: WifiInfo, oc: bool, key: Seq<char>, value: Seq<char>, lowered: Seq<char>, n: WifiInfo, nc: bool) -> bool {
    if key == "name"@ {
        n == (WifiInfo { adapter_name: n.adapter_name, ..o }) && n.adapter_name@ == value && nc == oc
    } else if key == "state"@ {
        n == o && nc == (lowered == "connected"@)
    } else if key == "ssid"@ {
        n == (WifiInfo { ssid: n.ssid, ..o }) && n.ssid@ == value && nc == oc
    } else if key == "bssid"@ {
        n == (WifiInfo { bssid: n.bssid, ..o }) && n.bssid@ == value && nc == oc
    } else if key == "network type"@ || key == "radio type"@ {
        n == (WifiInfo { phy_type: n.phy_type, ..o }) && n.phy_type@ == value && nc == oc
    } else if key == "authentication"@ {
        n == (WifiInfo { security_type: n.security_type, ..o }) && n.security_type@ == value && nc == oc
    } else if key == "physical address"@ {
        n == (WifiInfo { adapter_mac: n.adapter_mac, ..o }) && n.adapter_mac@ == value && nc == oc
    } else if key == "channel"@ {
        let ch = match parsed_unsigned(value, u32::MAX as int) { Some(v) => v as u32, None => 0 };
        n == (WifiInfo {
            channel: ch,
            frequency_mhz: frequency_of_channel(ch),
            band: WifiBand::of_frequency(frequency_of_channel(ch)),
            ..o
        }) && nc == oc
    } else if key == "receive rate (mbps)"@ {
        let rate = parsed_unsigned(value, u32::MAX as int);
        n == (WifiInfo {
            rx_rate_mbps: match rate { Some(v) => Some(v as u32), None => None },
            link_speed_mbps: if o.link_speed_mbps == 0 { match rate { Some(v) => v as u32, None => 0 } } else { o.link_speed_mbps },
            ..o
        }) && nc == oc
    } else if key == "transmit rate (mbps)"@ {
        n == (WifiInfo {
            tx_rate_mbps: match parsed_unsigned(value, u32::MAX as int) { Some(v) => Some(v as u32), None => None },
            ..o
        }) && nc == oc
    } else if key == "signal"@ {
        match parsed_unsigned(without_percent(value), 255) {
            Some(p) => n == (WifiInfo {
                signal_quality_percent: p as u8,
                signal_strength_dbm: dbm_of_quality(p as u8),
                ..o
            }) && nc == oc,
            None => n == o && nc == oc,
        }
    } else {
        n == o && nc == oc
    }
}

/// Applies one `key : value` line (both already trimmed) to the interface
/// being read; keys are matched without regard to case.
pub fn apply_netsh_field(info: &mut WifiInfo, connected: &mut bool, key: &str, value: &str)
    ensures
        field_applied(*old(info), *old(connected), lower_of(key@), value@, lower_of(value@), *final(info), *final(connected)),
{
    let k = lowercase(key);
    let v = lowercase(value);
    apply_lowered_field(info, connected, k.as_str(), value, v.as_str());
}

/// Applies one line whose key `k` is already lowercase; `lowered` is the
/// value in lowercase.
pub fn apply_lowered_field(info: &mut WifiInfo, connected: &mut bool, k: &str, value: &str, lowered: &str)
    ensures
        field_applied(*old(info), *old(connected), k@, value@, lowered@, *final(info), *final(connected)),
{
    if same_text(k, "name") {
        info.adapter_name = String::from_str(value);
    } else if same_text(k, "state") {
        *connected = same_text(lowered, "connected");
    } else if same_text(k, "ssid") {
        info.ssid = String::from_str(value);
    } else if same_text(k, "bssid") {
        info.bssid = String::from_str(value);
    } else if same_text(k, "network type") || same_text(k, "radio type") {
        info.phy_type = String::from_str(value);
    } else if same_text(k, "authentication") {
        info.security_type = String::from_str(value);
    } else if same_text(k, "physical address") {
        info.adapter_mac = String::from_str(value);
    } else if same_text(k, "channel") {
        let ch = match parse_unsigned(value, u32::MAX) {
            Some(v) => v,
            None => 0,
        };
        info.channel = ch;
        info.frequency_mhz = channel_to_frequency(ch);
        info.band = WifiBand::from_frequency(info.frequency_mhz);
    } else if same_text(k, "receive rate (mbps)") {
        let rate = parse_unsigned(value, u32::MAX);
        info.rx_rate_mbps = rate;
        if info.link_speed_mbps == 0 {
            info.link_speed_mbps = match rate {
                Some(v) => v,
                None => 0,
            };
        }
    } else if same_text(k, "transmit rate (mbps)") {
        info.tx_rate_mbps = parse_unsigned(value, u32::MAX);
    } else if same_text(k, "signal") {
        if let Some(p) = parse_unsigned(strip_percent(value), 255) {
            info.signal_quality_percent = p as u8;
            info.signal_strength_dbm = quality_to_dbm(p as u8);
        }
    }
}

/// Whether `pat` occurs in `s`.
pub open spec fn occurs(s: Seq<char>, pat: Seq<char>) -> bool {
    exists|i: int| 0 <= i && i + pat.len() <= s.len() && #[trigger] s.subrange(i, i + pat.len()) == pat
}

/// Whether `pat` occurs in `s`.
pub fn contains_text(s: &str, pat: &str) -> (r: bool)
    ensures
        r == occurs(s@, pat@),
{
    let n = s.unicode_len();
    let m = pat.unicode_len();
    if m > n {
        return false;
    }
    let last = n - m;
    let mut i: usize = 0;
    loop
        invariant
            m <= n == s@.len(),
            m == pat@.len(),
            last == n - m,
            i <= last,
            forall|j: int| 0 <= j < i ==> #[trigger] s@.subrange(j, j + m) != pat@,
        decreases last - i,
    {
        if same_text(s.substring_char(i, i + m), pat) {
            return true;
        }
        if i == last {
            return false;
        }
        i = i + 1;
    }
}

/// Whether a line (given in lowercase) starts the wireless adapter's section.
pub open spec fn is_wireless_header(lower: Seq<char>) -> bool {
    occurs(lower, "wireless"@) || occurs(lower, "wi-fi"@) || occurs(lower, "wlan"@)
}

/// Whether a line ends the section: an unindented, non-empty line without `:`.
pub open spec fn ends_section(line: Seq<char>) -> bool {
    line.len() > 0 && line[0] != ' ' && !occurs(line, ":"@)
}

/// Section tracking over one line of the IP configuration listing, given
/// the line and its lowercase form: whether the wireless section is open
/// after it, and whether its fields are read.
pub open spec fn section_step(in_section: bool, line: Seq<char>, lower: Seq<char>) -> (bool, bool) {
    if is_wireless_header(lower) {
        (true, false)
    } else if in_section && ends_section(line) {
        (false, false)
    } else {
        (in_section, in_section)
    }
}

/// Section tracking over one line, given the line and its lowercase form.
pub fn ipconfig_section_lowered(in_section: bool, line: &str, lower: &str) -> (r: (bool, bool))
    ensures
        r == section_step(in_section, line@, lower@),
{
    if contains_text(lower, "wireless") || contains_text(lower, "wi-fi") || contains_text(lower, "wlan") {
        return (true, false);
    }
    let n = line.unicode_len();
    if in_section && n > 0 && line.get_char(0) != ' ' && !contains_text(line, ":") {
        (false, false)
    } else {
        (in_section, in_section)
    }
}

/// Section tracking over one line of the IP configuration listing.
pub fn ipconfig_section(in_section: bool, line: &str) -> (r: (bool, bool))
    ensures
        r == section_step(in_section, line@, lower_of(line@)),
{
    let lower = lowercase(line);
    ipconfig_section_lowered(in_section, line, lower.as_str())
}

/// `n` is `o` after the address line `key : value` of the wireless section,
/// whose key is given in lowercase.
pub open spec fn address_applied(o: WifiInfo, key: Seq<char>, value: Seq<char>, n: WifiInfo) -> bool {
    if occurs(key, "ipv4"@) {
        n == (WifiInfo { ipv4_address: n.ipv4_address, ..o }) && (n.ipv4_address matches Some(a) && a@ == value)
    } else if occurs(key, "ipv6"@) && o.ipv6_address is None {
        n == (WifiInfo { ipv6_address: n.ipv6_address, ..o }) && (n.ipv6_address matches Some(a) && a@ == value)
    } else if occurs(key, "default gateway"@) && value.len() > 0 {
        n == (WifiInfo { gateway: n.gateway, ..o }) && (n.gateway matches Some(a) && a@ == value)
    } else if occurs(key, "dns"@) {
        &&& n == (WifiInfo { dns_servers: n.dns_servers, ..o })
        &&& n.dns_servers@.len() == o.dns_servers@.len() + 1
        &&& n.dns_servers@.drop_last() == o.dns_servers@
        &&& n.dns_servers@.last()@ == value
    } else {
        n == o
    }
}

/// Applies one address line whose key is already lowercase.
pub fn apply_address_lowered(info: &mut WifiInfo, key: &str, value: &str)
    ensures
        address_applied(*old(info), key@, value@, *final(info)),
{
    if contains_text(key, "ipv4") {
        info.ipv4_address = Some(String::from_str(value));
    } else if contains_text(key, "ipv6") && info.ipv6_address.is_none() {
        info.ipv6_address = Some(String::from_str(value));
    } else if contains_text(key, "default gateway") && value.unicode_len() > 0 {
        info.gateway = Some(String::from_str(value));
    } else if contains_text(key, "dns") {
        let ghost before = info.dns_servers@;
        info.dns_servers.push(String::from_str(value));
        assert(info.dns_servers@.drop_last() =~= before);
    }
}

/// Applies one address line (key and value already trimmed) of the wireless
/// section; keys are matched without regard to case.
pub fn apply_address_field(info: &mut WifiInfo, key: &str, value: &str)
    ensures
        address_applied(*old(info), lower_of(key@), value@, *final(info)),
{
    let k = lowercase(key);
    apply_address_lowered(info, k.as_str(), value);
}

} // verus!
