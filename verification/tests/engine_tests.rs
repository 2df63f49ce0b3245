use search_devices::addr::parse_cidr;
use search_devices::config::{config_value, ProbeConfig, ProbeKind};
use search_devices::engine::{Dispatch, RunState, ScanController, StartOutcome};
use search_devices::sink::{ProbeOutcome, ResultSink, SinkRecord};
use search_devices::target::{Target, TargetSpec};

/// Runs a whole scan with a stub probe that reports every target with the
/// given reachability, and returns the records pushed after the header.
fn run_with_stub(
    c: &mut ScanController,
    sink: &mut ResultSink,
    what: &TargetSpec,
    kind: ProbeKind,
    reachable: bool,
    detail: &str,
) -> (StartOutcome, Vec<SinkRecord>, usize) {
    let started = c.start(what, kind, ProbeConfig::default(), sink);
    let mut probes: usize = 0;
    if matches!(started, StartOutcome::Started) {
        loop {
            match c.next_dispatch(sink) {
                Dispatch::Probe(_) => {
                    probes += 1;
                    c.record_outcome(reachable, detail, sink);
                }
                Dispatch::Reported => {}
                Dispatch::Finished => break,
            }
        }
    }
    let mut records = Vec::new();
    while let Some(r) = sink.recv() {
        records.push(r);
    }
    (started, records, probes)
}

fn outcome(r: &SinkRecord) -> &ProbeOutcome {
    match r {
        SinkRecord::Outcome(o) => o,
        _ => panic!("expected an outcome record"),
    }
}

#[test]
fn test_explicit_list_reports_invalid_lines_in_order() {
    let mut c = ScanController::new();
    let mut sink = ResultSink::new();
    let lines = vec![
        "192.168.0.1".to_string(),
        "not-an-ip".to_string(),
        "192.168.0.2".to_string(),
    ];
    let what = TargetSpec::ExplicitList(lines);
    let (started, records, probes) =
        run_with_stub(&mut c, &mut sink, &what, ProbeKind::Icmp, false, "");
    assert!(matches!(started, StartOutcome::Started));
    assert_eq!(c.current_state(), RunState::Completed);
    // a header, then exactly three outcomes in input order
    assert!(matches!(records[0], SinkRecord::Header));
    assert_eq!(records.len(), 4);
    assert_eq!(outcome(&records[1]).target, "192.168.0.1");
    assert!(!outcome(&records[1]).reachable);
    assert_eq!(outcome(&records[2]).target, "not-an-ip");
    assert_eq!(outcome(&records[2]).detail, "invalid target");
    assert!(!outcome(&records[2]).reachable);
    assert_eq!(outcome(&records[3]).target, "192.168.0.2");
    // the invalid line was reported, not probed
    assert_eq!(probes, 2);
}

#[test]
fn test_empty_input_emits_one_notice_and_no_probe() {
    let mut c = ScanController::new();
    let mut sink = ResultSink::new();
    let what = TargetSpec::ExplicitList(vec!["   ".to_string(), "".to_string()]);
    let (started, records, probes) =
        run_with_stub(&mut c, &mut sink, &what, ProbeKind::Icmp, true, "");
    assert!(matches!(started, StartOutcome::EmptyInput));
    assert_eq!(probes, 0);
    assert_eq!(records.len(), 1);
    match &records[0] {
        SinkRecord::Notice(m) => assert_eq!(m, "no targets to scan"),
        _ => panic!("expected a notice"),
    }
    assert_eq!(c.current_state(), RunState::Idle);
}

#[test]
fn test_stop_dispatches_no_further_target() {
    let mut c = ScanController::new();
    let mut sink = ResultSink::new();
    let lines = vec![
        "10.0.0.1".to_string(),
        "10.0.0.2".to_string(),
        "10.0.0.3".to_string(),
    ];
    let what = TargetSpec::ExplicitList(lines);
    let started = c.start(&what, ProbeKind::Icmp, ProbeConfig::default(), &mut sink);
    assert!(matches!(started, StartOutcome::Started));
    // first target goes out and, as the probe in flight, may still finish
    match c.next_dispatch(&mut sink) {
        Dispatch::Probe(Target::Address(a)) => assert_eq!(a, 0x0A00_0001),
        _ => panic!("expected the first address"),
    }
    c.stop();
    c.record_outcome(true, "answered", &mut sink);
    let after_first = sink.len();
    // from here on: no new dispatch, nothing more on the sink
    assert!(matches!(c.next_dispatch(&mut sink), Dispatch::Finished));
    assert_eq!(c.current_state(), RunState::Cancelled);
    assert!(matches!(c.next_dispatch(&mut sink), Dispatch::Finished));
    assert_eq!(sink.len(), after_first);
}

#[test]
fn test_start_while_running_is_a_noop() {
    let mut c = ScanController::new();
    let mut sink = ResultSink::new();
    let what = TargetSpec::ExplicitList(vec!["10.0.0.1".to_string()]);
    assert!(matches!(
        c.start(&what, ProbeKind::Icmp, ProbeConfig::default(), &mut sink),
        StartOutcome::Started
    ));
    let before = sink.len();
    assert!(matches!(
        c.start(&what, ProbeKind::Icmp, ProbeConfig::default(), &mut sink),
        StartOutcome::AlreadyRunning
    ));
    assert_eq!(sink.len(), before);
}

#[test]
fn test_cidr_run_probes_every_host() {
    let mut c = ScanController::new();
    let mut sink = ResultSink::new();
    let block = parse_cidr("10.0.0.0/30").unwrap();
    let what = TargetSpec::CidrBlock(block);
    let (_, records, probes) =
        run_with_stub(&mut c, &mut sink, &what, ProbeKind::Icmp, true, "gw.local");
    assert_eq!(probes, 2);
    assert_eq!(records.len(), 3);
    assert_eq!(outcome(&records[1]).target, "10.0.0.1");
    assert!(outcome(&records[1]).reachable);
    assert_eq!(outcome(&records[1]).detail, "gw.local");
    assert_eq!(outcome(&records[2]).target, "10.0.0.2");
}

#[test]
fn test_port_scan_details_and_order() {
    let mut c = ScanController::new();
    let mut sink = ResultSink::new();
    let ports = search_devices::utils::parse_ports("22,80,80,443").unwrap();
    let what = TargetSpec::PortRange(0x7F00_0001, ports);
    let (_, records, probes) =
        run_with_stub(&mut c, &mut sink, &what, ProbeKind::TcpConnect, false, "");
    assert_eq!(probes, 3);
    assert_eq!(records.len(), 4);
    assert_eq!(outcome(&records[1]).target, "127.0.0.1");
    assert_eq!(outcome(&records[1]).detail, "22/tcp");
    assert_eq!(outcome(&records[2]).detail, "80/tcp");
    assert_eq!(outcome(&records[3]).detail, "443/tcp");
}

#[test]
fn test_trace_lines_are_sanitized_and_ordered() {
    let mut c = ScanController::new();
    let mut sink = ResultSink::new();
    let what = TargetSpec::SingleHost("8.8.8.8".to_string());
    let started = c.start(&what, ProbeKind::RouteTrace, ProbeConfig::default(), &mut sink);
    assert!(matches!(started, StartOutcome::Started));
    match c.next_dispatch(&mut sink) {
        Dispatch::Probe(Target::Hostname(h)) => assert_eq!(h, "8.8.8.8"),
        _ => panic!("expected the host"),
    }
    assert!(c.record_trace_line("  1   gw [192.168.0.1]  ", &mut sink));
    assert!(c.record_trace_line("     ", &mut sink));
    assert!(c.record_trace_line("2  isp.example", &mut sink));
    c.record_trace_end();
    assert!(matches!(c.next_dispatch(&mut sink), Dispatch::Finished));
    assert_eq!(c.current_state(), RunState::Completed);
    let mut records = Vec::new();
    while let Some(r) = sink.recv() {
        records.push(r);
    }
    // the header and the two non-blank lines; the blank line is suppressed
    assert_eq!(records.len(), 3);
    assert_eq!(outcome(&records[1]).detail, "1   gw [192.168.0.1]");
    assert!(!outcome(&records[1]).reachable);
    assert_eq!(outcome(&records[2]).detail, "2  isp.example");
}

#[test]
fn test_trace_stop_kills_the_stream() {
    let mut c = ScanController::new();
    let mut sink = ResultSink::new();
    let what = TargetSpec::SingleHost("example.com".to_string());
    c.start(&what, ProbeKind::RouteTrace, ProbeConfig::default(), &mut sink);
    assert!(matches!(c.next_dispatch(&mut sink), Dispatch::Probe(_)));
    assert!(c.record_trace_line("1 gw", &mut sink));
    c.stop();
    let before = sink.len();
    // the stream must be killed: the line is refused and nothing is pushed
    assert!(!c.record_trace_line("2 isp", &mut sink));
    assert_eq!(sink.len(), before);
    c.record_trace_end();
    assert!(matches!(c.next_dispatch(&mut sink), Dispatch::Finished));
    assert_eq!(c.current_state(), RunState::Cancelled);
}

#[test]
fn test_trace_start_failure_emits_one_outcome_and_ends() {
    let mut c = ScanController::new();
    let mut sink = ResultSink::new();
    let what = TargetSpec::SingleHost("example.com".to_string());
    c.start(&what, ProbeKind::RouteTrace, ProbeConfig::default(), &mut sink);
    assert!(matches!(c.next_dispatch(&mut sink), Dispatch::Probe(_)));
    c.record_trace_failure("failed to start traceroute: not found", &mut sink);
    assert!(matches!(c.next_dispatch(&mut sink), Dispatch::Finished));
    assert_eq!(c.current_state(), RunState::Completed);
    let mut records = Vec::new();
    while let Some(r) = sink.recv() {
        records.push(r);
    }
    assert_eq!(records.len(), 2);
    assert_eq!(outcome(&records[1]).target, "example.com");
    assert_eq!(
        outcome(&records[1]).detail,
        "failed to start traceroute: not found"
    );
    assert!(!outcome(&records[1]).reachable);
}

#[test]
fn test_config_value_falls_back_to_defaults() {
    assert_eq!(config_value("5", 1), 5);
    assert_eq!(config_value("1000", 800), 1000);
    assert_eq!(config_value("0", 30), 30);
    assert_eq!(config_value("", 1000), 1000);
    assert_eq!(config_value("abc", 64), 64);
    assert_eq!(config_value("12x", 128), 128);
    assert_eq!(config_value("99999999999999999999", 7), 7);
}

#[test]
fn test_default_config_matches_documented_defaults() {
    let c = ProbeConfig::default();
    assert_eq!(c.repeat_count, 1);
    assert_eq!(c.timeout_ms, 1000);
    assert_eq!(c.interval_ms, 0);
    assert_eq!(c.payload_size, 64);
    assert_eq!(c.time_to_live, 128);
    assert_eq!(c.max_hops, 30);
    assert!(c.resolve_dns);
}

#[test]
fn test_live_reconfiguration_mid_scan() {
    let mut c = ScanController::new();
    let mut sink = ResultSink::new();
    let what = TargetSpec::ExplicitList(vec!["10.0.0.1".to_string(), "10.0.0.2".to_string()]);
    c.start(&what, ProbeKind::Icmp, ProbeConfig::default(), &mut sink);
    assert!(matches!(c.next_dispatch(&mut sink), Dispatch::Probe(_)));
    c.record_outcome(true, "", &mut sink);
    let mut fresh = ProbeConfig::default();
    fresh.timeout_ms = 250;
    c.set_config(fresh);
    assert_eq!(c.current_config().timeout_ms, 250);
    assert!(matches!(c.next_dispatch(&mut sink), Dispatch::Probe(_)));
    c.record_outcome(true, "", &mut sink);
    assert!(matches!(c.next_dispatch(&mut sink), Dispatch::Finished));
    assert_eq!(c.current_state(), RunState::Completed);
    assert_eq!(c.current_kind(), ProbeKind::Icmp);
}
