use wifi_stability_tracker::metrics::{WifiBand, WifiInfo};
use wifi_stability_tracker::netsh::{
    apply_address_field, apply_lowered_field, apply_netsh_field, contains_text, ipconfig_section, parse_unsigned,
};

fn blank() -> WifiInfo {
    WifiInfo {
        ssid: String::new(),
        bssid: String::new(),
        signal_strength_dbm: 0,
        signal_quality_percent: 0,
        channel: 0,
        frequency_mhz: 0,
        band: WifiBand::Unknown,
        phy_type: String::new(),
        link_speed_mbps: 0,
        rx_rate_mbps: None,
        tx_rate_mbps: None,
        security_type: String::new(),
        adapter_name: String::new(),
        adapter_mac: String::new(),
        ipv4_address: None,
        ipv6_address: None,
        gateway: None,
        dns_servers: vec![],
    }
}

#[test]
fn unsigned_numbers() {
    assert_eq!(parse_unsigned("42", u32::MAX), Some(42));
    assert_eq!(parse_unsigned("+7", u32::MAX), Some(7));
    assert_eq!(parse_unsigned("4294967295", u32::MAX), Some(u32::MAX));
    assert_eq!(parse_unsigned("4294967296", u32::MAX), None);
    assert_eq!(parse_unsigned("99999999999999999999999", u32::MAX), None);
    assert_eq!(parse_unsigned("", u32::MAX), None);
    assert_eq!(parse_unsigned("+", u32::MAX), None);
    assert_eq!(parse_unsigned("-1", u32::MAX), None);
    assert_eq!(parse_unsigned("12a", u32::MAX), None);
    assert_eq!(parse_unsigned(" 1", u32::MAX), None);
    assert_eq!(parse_unsigned("255", 255), Some(255));
    assert_eq!(parse_unsigned("256", 255), None);
}

#[test]
fn netsh_fields() {
    let lines = [
        ("Name", "Wi-Fi"),
        ("State", "Connected"),
        ("SSID", "home"),
        ("BSSID", "aa:bb:cc:dd:ee:ff"),
        ("Radio type", "802.11ax"),
        ("Authentication", "WPA2-Personal"),
        ("Channel", "36"),
        ("Receive rate (Mbps)", "866"),
        ("Transmit rate (Mbps)", "780"),
        ("Signal", "80%"),
        ("Physical address", "00:11:22:33:44:55"),
        ("Profile", "ignored"),
    ];
    let mut w = blank();
    let mut connected = false;
    for (k, v) in lines {
        apply_netsh_field(&mut w, &mut connected, k, v);
    }
    assert!(connected);
    assert_eq!(w.adapter_name, "Wi-Fi");
    assert_eq!(w.ssid, "home");
    assert_eq!(w.bssid, "aa:bb:cc:dd:ee:ff");
    assert_eq!(w.phy_type, "802.11ax");
    assert_eq!(w.security_type, "WPA2-Personal");
    assert_eq!(w.channel, 36);
    assert_eq!(w.frequency_mhz, 5180);
    assert_eq!(w.band, WifiBand::Band5GHz);
    assert_eq!(w.rx_rate_mbps, Some(866));
    assert_eq!(w.link_speed_mbps, 866);
    assert_eq!(w.tx_rate_mbps, Some(780));
    assert_eq!(w.signal_quality_percent, 80);
    assert_eq!(w.signal_strength_dbm, -44);
    assert_eq!(w.adapter_mac, "00:11:22:33:44:55");
}

#[test]
fn netsh_odd_values() {
    let mut w = blank();
    let mut connected = true;
    apply_netsh_field(&mut w, &mut connected, "STATE", "disconnected");
    assert!(!connected);
    apply_netsh_field(&mut w, &mut connected, "channel", "abc");
    assert_eq!(w.channel, 0);
    assert_eq!(w.band, WifiBand::Unknown);
    apply_netsh_field(&mut w, &mut connected, "signal", "300%");
    assert_eq!(w.signal_quality_percent, 0);
    apply_netsh_field(&mut w, &mut connected, "signal", "55%%");
    assert_eq!(w.signal_quality_percent, 55);
    w.link_speed_mbps = 100;
    apply_netsh_field(&mut w, &mut connected, "receive rate (mbps)", "300");
    assert_eq!(w.link_speed_mbps, 100);
    assert_eq!(w.rx_rate_mbps, Some(300));
}

#[test]
fn lowered_field_uses_given_lowercase() {
    let mut w = blank();
    let mut connected = false;
    apply_lowered_field(&mut w, &mut connected, "state", "CONNECTED", "connected");
    assert!(connected);
    apply_lowered_field(&mut w, &mut connected, "SSID", "x", "x");
    assert_eq!(w.ssid, "");
    apply_lowered_field(&mut w, &mut connected, "ssid", "Net", "net");
    assert_eq!(w.ssid, "Net");
}

#[test]
fn substring_search() {
    assert!(contains_text("wireless lan adapter wi-fi:", "wi-fi"));
    assert!(contains_text("abc", ""));
    assert!(contains_text("abc", "abc"));
    assert!(!contains_text("ab", "abc"));
    assert!(!contains_text("ethernet adapter", "wlan"));
}

#[test]
fn ipconfig_listing() {
    let listing = "Windows IP Configuration\n\nEthernet adapter Ethernet:\n\n   IPv4 Address. . . : 10.0.0.5\n\nWireless LAN adapter Wi-Fi:\n\n   Connection-specific DNS Suffix  . : home\n   IPv6 Address. . . : fe80::1\n   Temporary IPv6 Address. . . : fe80::2\n   IPv4 Address. . . : 192.168.1.20\n   Default Gateway . . . : 192.168.1.1\n   DNS Servers . . . : 192.168.1.1\n\nTunnel adapter Teredo\n   IPv4 Address. . . : 1.2.3.4\n";
    let mut w = blank();
    let mut in_section = false;
    for line in listing.lines() {
        let (open, read) = ipconfig_section(in_section, line);
        in_section = open;
        if read {
            if let Some((k, v)) = line.split_once(':') {
                apply_address_field(&mut w, k.trim(), v.trim());
            }
        }
    }
    assert_eq!(w.ipv4_address.as_deref(), Some("192.168.1.20"));
    assert_eq!(w.ipv6_address.as_deref(), Some("fe80::1"));
    assert_eq!(w.gateway.as_deref(), Some("192.168.1.1"));
    assert_eq!(w.dns_servers, vec!["home".to_string(), "192.168.1.1".to_string()]);
}
