use wifi_stability_tracker::metrics::PingResult;
use wifi_stability_tracker::ping::{
    finish_ping, is_statistics_line, read_lookup_line, read_ping_line, read_statistic, text_after, trim_text,
};

fn fresh(sent: u32) -> PingResult {
    PingResult {
        target: "8.8.8.8".to_string(),
        resolved_ip: None,
        packets_sent: sent,
        packets_received: 0,
        packet_loss_bp: 10_000,
        min_us: None,
        avg_us: None,
        max_us: None,
        stddev_us: None,
        individual_times_us: vec![],
        error: None,
    }
}

const OUTPUT: &str = "\r
Pinging 8.8.8.8 with 32 bytes of data:\r
Reply from 8.8.8.8: bytes=32 time=12ms TTL=117\r
Reply from 8.8.8.8: bytes=32 time=14.25ms TTL=117\r
Reply from 8.8.8.8: bytes=32 time<1ms TTL=117\r
Request timed out.\r
\r
Ping statistics for 8.8.8.8:\r
    Packets: Sent = 4, Received = 3, Lost = 1 (25% loss),\r
Approximate round trip times in milli-seconds:\r
    Minimum = 1ms, Maximum = 14ms, Average = 9ms\r
";

fn read_all(r: &mut PingResult, text: &str) {
    for line in text.lines() {
        read_ping_line(r, line);
        if is_statistics_line(line) {
            for part in line.split(',') {
                read_statistic(r, part);
            }
        }
    }
}

#[test]
fn reads_windows_ping_output() {
    let mut r = fresh(4);
    read_all(&mut r, OUTPUT);
    assert_eq!(r.individual_times_us, vec![12_000, 14_250, 1_000]);
    assert_eq!(r.resolved_ip.as_deref(), Some("8.8.8.8"));
    assert_eq!(r.packets_received, 3);
    assert_eq!(r.min_us, Some(1_000));
    assert_eq!(r.max_us, Some(14_000));
    assert_eq!(r.avg_us, Some(9_000));
    finish_ping(&mut r);
    assert_eq!(r.packet_loss_bp, 2_500);
    assert_eq!(r.stddev_us, Some(5_789));
}

#[test]
fn nothing_sent_keeps_full_loss() {
    let mut r = fresh(0);
    finish_ping(&mut r);
    assert_eq!(r.packet_loss_bp, 10_000);
    assert_eq!(r.stddev_us, None);
}

#[test]
fn malformed_times_are_skipped() {
    let mut r = fresh(1);
    read_ping_line(&mut r, "Reply from 1.1.1.1: bytes=32 time=1.2.3ms TTL=1");
    assert!(r.individual_times_us.is_empty());
    read_ping_line(&mut r, "Reply from 1.1.1.1: bytes=32 time=0.0004ms");
    assert_eq!(r.individual_times_us, vec![0]);
    read_ping_line(&mut r, "no reply here");
    assert_eq!(r.individual_times_us, vec![0]);
    assert_eq!(r.resolved_ip.as_deref(), Some("1.1.1.1"));
}

#[test]
fn ping_text_helpers() {
    assert_eq!(text_after("a time=1 time=2", "time"), Some("=1 "));
    assert_eq!(text_after("abc", "x"), None);
    assert_eq!(text_after("xab", "x"), Some("ab"));
    assert_eq!(trim_text("  a b \t\r\n"), "a b");
    assert_eq!(trim_text("\u{3000}x\u{a0}"), "x");
    assert_eq!(trim_text("   "), "");
}

#[test]
fn reads_lookup_answers() {
    let out = "Server:  dns.google\nAddress:  8.8.8.8\n\nNon-authoritative answer:\nName:    google.com\nAddresses:  142.250.74.46\n          2a00:1450::200e\nAddress:  8.8.8.8\n";
    let mut in_answer = false;
    let mut ips: Vec<String> = Vec::new();
    for line in out.lines() {
        read_lookup_line(&mut in_answer, &mut ips, line, "google.com", "8.8.8.8");
    }
    assert!(in_answer);
    assert_eq!(ips, vec!["142.250.74.46".to_string()]);
}
