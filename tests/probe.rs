use wifi_stability_tracker::metrics::DnsQueryResult;
use wifi_stability_tracker::probe::{
    assess_connectivity, assess_connectivity_lowered, floor_sqrt, packet_loss_bp, summarize_dns, summarize_latency,
};

fn query(success: bool, time_us: Option<u32>) -> DnsQueryResult {
    DnsQueryResult {
        domain: "example.com".to_string(),
        dns_server: "1.1.1.1".to_string(),
        resolution_time_us: time_us,
        resolved_ips: vec![],
        success,
        error: None,
    }
}

#[test]
fn square_roots() {
    assert_eq!(floor_sqrt(0), 0);
    assert_eq!(floor_sqrt(1), 1);
    assert_eq!(floor_sqrt(15), 3);
    assert_eq!(floor_sqrt(16), 4);
    assert_eq!(floor_sqrt(u128::MAX), u64::MAX);
}

#[test]
fn loss_in_basis_points() {
    assert_eq!(packet_loss_bp(0, 0), 0);
    assert_eq!(packet_loss_bp(4, 4), 0);
    assert_eq!(packet_loss_bp(4, 3), 2_500);
    assert_eq!(packet_loss_bp(12, 11), 833);
    assert_eq!(packet_loss_bp(4, 0), 10_000);
    assert_eq!(packet_loss_bp(4, 9), 0);
}

#[test]
fn latency_summary_of_replies() {
    let m = summarize_latency(&vec![10_000, 20_000, 30_000, 40_000], 8, 4);
    assert_eq!(m.min_latency_us, Some(10_000));
    assert_eq!(m.max_latency_us, Some(40_000));
    assert_eq!(m.average_latency_us, Some(25_000));
    assert_eq!(m.jitter_us, Some(11_180));
    assert_eq!(m.packet_loss_bp, 5_000);
    let one = summarize_latency(&vec![7], 1, 1);
    assert_eq!(one.average_latency_us, Some(7));
    assert_eq!(one.jitter_us, None);
    let none = summarize_latency(&vec![], 4, 0);
    assert_eq!(none.average_latency_us, None);
    assert_eq!(none.min_latency_us, None);
    assert_eq!(none.packet_loss_bp, 10_000);
    let flat = summarize_latency(&vec![u32::MAX, u32::MAX], 2, 2);
    assert_eq!(flat.jitter_us, Some(0));
    assert_eq!(flat.average_latency_us, Some(u32::MAX));
}

#[test]
fn dns_summary() {
    let m = summarize_dns(vec![query(true, Some(10_000)), query(false, Some(99)), query(true, Some(15_001)), query(true, None)]);
    assert_eq!(m.failures, 1);
    assert_eq!(m.average_resolution_time_us, Some(12_501));
    assert_eq!(m.queries.len(), 4);
    let e = summarize_dns(vec![query(false, None)]);
    assert_eq!(e.failures, 1);
    assert_eq!(e.average_resolution_time_us, None);
}

#[test]
fn connectivity_assessment() {
    let c = assess_connectivity("    State : CONNECTED", 2, None, Some((204, 35)));
    assert!(c.is_connected && c.loopback_reachable && c.router_reachable);
    assert!(c.http_test_success && c.internet_reachable);
    assert_eq!(c.http_response_time_ms, Some(35));
    let d = assess_connectivity("State : disconnected", 0, Some(0), Some((500, 10)));
    assert!(d.is_connected);
    assert!(!d.loopback_reachable && !d.router_reachable && !d.internet_reachable);
    let e = assess_connectivity("no wireless interface", 1, None, None);
    assert!(!e.is_connected && !e.router_reachable && !e.http_test_success);
    assert_eq!(e.http_response_time_ms, None);
    let f = assess_connectivity_lowered("STATE CONNECTED", 1, None, None);
    assert!(!f.is_connected);
}
