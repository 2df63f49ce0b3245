use search_devices::utils::{
    ms_to_secs_ceil, parse_ports, ping_args_unix, ping_args_windows, sanitize_line,
    tracert_args_windows, traceroute_args_unix,
};

#[test]
fn test_ms_to_secs_ceil_basic() {
    assert_eq!(ms_to_secs_ceil(0), 1);
    assert_eq!(ms_to_secs_ceil(1), 1);
    assert_eq!(ms_to_secs_ceil(999), 1);
    assert_eq!(ms_to_secs_ceil(1000), 1);
    assert_eq!(ms_to_secs_ceil(1001), 2);
    assert_eq!(ms_to_secs_ceil(1999), 2);
    assert_eq!(ms_to_secs_ceil(2000), 2);
}

#[test]
fn test_sanitize_line() {
    assert_eq!(sanitize_line("").is_none(), true);
    assert_eq!(sanitize_line("   ").is_none(), true);
    assert_eq!(sanitize_line("  x  "), Some("x".to_string()));
    assert_eq!(sanitize_line("\tline\n"), Some("line".to_string()));
}

#[test]
fn test_sanitize_multiline_filtering() {
    let sample = "\n\n  Tracing route to 8.8.8.8 (max 30 hops)  \n\n  1   3 ms   2 ms   2 ms  gw [192.168.0.1]  \n\n  2   *      *      *     \n\n";
    let lines: Vec<String> = sample.lines().filter_map(sanitize_line).collect();
    assert!(lines.len() >= 2, "expected at least 2 non-empty lines");
    assert!(lines[0].starts_with("Tracing route to"));
    assert!(lines[1].starts_with("1"));
}

#[test]
fn test_ping_args_builders() {
    let w = ping_args_windows(3, 1500, "1.2.3.4");
    assert_eq!(w, vec!["-n", "3", "-w", "1500", "1.2.3.4"]);
    let u = ping_args_unix(2, 1, "10.0.0.1");
    assert_eq!(u, vec!["-c", "2", "-W", "1", "10.0.0.1"]);
    let u2 = ping_args_unix(2, 1999, "10.0.0.1");
    assert_eq!(u2, vec!["-c", "2", "-W", "2", "10.0.0.1"]);
}

#[test]
fn test_traceroute_args_builders() {
    let t_win = tracert_args_windows(20, 500, false, "example.com");
    assert_eq!(t_win, vec!["-d", "-h", "20", "-w", "500", "example.com"]);
    let t_win2 = tracert_args_windows(30, 1000, true, "8.8.8.8");
    assert_eq!(t_win2, vec!["-h", "30", "-w", "1000", "8.8.8.8"]);

    let t_unix = traceroute_args_unix(16, 1, false, "example.com");
    assert_eq!(t_unix, vec!["-n", "-m", "16", "-w", "1", "example.com"]);
    let t_unix2 = traceroute_args_unix(32, 1501, true, "8.8.8.8");
    assert_eq!(t_unix2, vec!["-m", "32", "-w", "2", "8.8.8.8"]);
}

#[test]
fn test_parse_ports_simple_and_range() {
    let v = parse_ports("22, 80,443").unwrap();
    assert_eq!(v, vec![22, 80, 443]);
    let v2 = parse_ports("8000-8003").unwrap();
    assert_eq!(v2, vec![8000, 8001, 8002, 8003]);
}

#[test]
fn test_parse_ports_mixed_and_dedup() {
    let v = parse_ports("22,80,80,79-81,22").unwrap();
    // input order, dedup
    assert_eq!(v, vec![22, 80, 79, 81]);
}

#[test]
fn test_parse_ports_invalid() {
    assert!(parse_ports("abc").is_err());
    assert!(parse_ports("10-5").is_err());
    assert!(parse_ports("65536").is_err());
}

#[test]
fn test_ping_args_for_cidr_tab() {
    let a = ping_args_windows(1, 1000, "192.168.1.10");
    assert_eq!(a, vec!["-n", "1", "-w", "1000", "192.168.1.10"]);
    let b = ping_args_unix(3, 2500, "10.0.0.5");
    assert_eq!(b, vec!["-c", "3", "-W", "3", "10.0.0.5"]);
}

#[test]
fn test_ms_to_secs_in_cidr() {
    assert_eq!(ms_to_secs_ceil(1), 1);
    assert_eq!(ms_to_secs_ceil(1000), 1);
    assert_eq!(ms_to_secs_ceil(1001), 2);
}

#[test]
fn test_tracert_line_sanitization_in_main() {
    assert_eq!(sanitize_line("   abc   "), Some("abc".into()));
    assert!(sanitize_line("   ").is_none());
}

#[test]
fn test_traceroute_args_for_tracert_tab() {
    let w = tracert_args_windows(30, 1000, true, "8.8.8.8");
    assert_eq!(w, vec!["-h", "30", "-w", "1000", "8.8.8.8"]);
    let w2 = tracert_args_windows(20, 500, false, "example.com");
    assert_eq!(w2, vec!["-d", "-h", "20", "-w", "500", "example.com"]);

    let u = traceroute_args_unix(16, 1, false, "example.com");
    assert_eq!(u, vec!["-n", "-m", "16", "-w", "1", "example.com"]);
    let u2 = traceroute_args_unix(32, 1500, true, "8.8.8.8");
    assert_eq!(u2, vec!["-m", "32", "-w", "2", "8.8.8.8"]);
}

#[test]
fn test_parse_ports_error_carries_token() {
    match parse_ports("22,4x4,80") {
        Err(search_devices::errors::ScanError::InvalidSpec(t)) => assert_eq!(t, "4x4"),
        _ => panic!("expected the offending token"),
    }
    match parse_ports("30-20") {
        Err(search_devices::errors::ScanError::InvalidSpec(t)) => assert_eq!(t, "30-20"),
        _ => panic!("expected the offending token"),
    }
}

#[test]
fn test_parse_ports_blank_tokens_and_spaced_range() {
    let v = parse_ports(" , 10 - 12 ,, 11 ").unwrap();
    assert_eq!(v, vec![10, 11, 12]);
    let v2 = parse_ports("").unwrap();
    assert_eq!(v2, Vec::<u16>::new());
}
