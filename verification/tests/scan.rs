use port_sniffer::config::{Address, Arguments, ConfigError, Protocol, ScanConfig, Timeout};
use port_sniffer::probe::{ConnectError, ProbeOutcome, ScanTarget};
use port_sniffer::scan::{Scan, Step};

fn config(start: u16, end: u16, threads: usize) -> ScanConfig {
    let mut args = Arguments::fallback();
    args.start_port = start;
    args.end_port = end;
    args.threads = threads;
    ScanConfig::from_arguments(args).unwrap()
}

fn probe(port: u16) -> Step {
    Step::Probe(ScanTarget {
        address: Address::localhost(),
        port,
        protocol: Protocol::Tcp,
        timeout: Timeout::from_secs(1),
    })
}

fn outcome(port: u16, open: &[u16]) -> ProbeOutcome {
    if open.contains(&port) {
        ProbeOutcome::Open(port)
    } else {
        ProbeOutcome::Closed(port)
    }
}

/// Runs a whole scan against a host on which the ports of `open` listen.
/// When the scan waits, the running probe at `pick` (counted from the
/// oldest, wrapping round) reports. Returns the ports handed out, the
/// greatest number of probes that ran at once, and the result.
fn run(start: u16, end: u16, threads: usize, open: &[u16], pick: usize) -> (Vec<u16>, usize, Vec<u16>) {
    let mut scan = Scan::new(&config(start, end, threads));
    let mut running: Vec<u16> = Vec::new();
    let mut handed_out: Vec<u16> = Vec::new();
    let mut most = 0;
    loop {
        let (next, step) = scan.advance();
        scan = next;
        match step {
            Step::Probe(target) => {
                running.push(target.port);
                handed_out.push(target.port);
                assert_eq!(scan.in_flight(), running.len());
                most = most.max(running.len());
            }
            Step::Wait => {
                let port = running.remove(pick % running.len());
                let (next, accepted) = scan.complete(outcome(port, open));
                assert!(accepted);
                scan = next;
            }
            Step::Done => break,
        }
    }
    assert!(running.is_empty());
    assert!(scan.is_drained());
    (handed_out, most, scan.finish().unwrap())
}

#[test]
fn every_port_of_the_range_is_handed_out_once() {
    let (handed_out, _, _) = run(7999, 8002, 2, &[], 0);
    assert_eq!(handed_out, vec![7999, 8000, 8001, 8002]);
    let (handed_out, _, _) = run(100, 355, 7, &[], 3);
    assert_eq!(handed_out.len(), 355 - 100 + 1);
    assert_eq!(handed_out, (100..=355).collect::<Vec<u16>>());
}

#[test]
fn the_whole_port_space_is_handed_out_once() {
    let (handed_out, most, ports) = run(1, 65535, 10, &[22, 80, 443, 65535], 4);
    assert_eq!(handed_out.len(), 65535);
    assert_eq!(handed_out, (1..=65535).collect::<Vec<u16>>());
    assert_eq!(most, 10);
    assert_eq!(ports, vec![22, 80, 443, 65535]);
}

#[test]
fn result_is_strictly_ascending() {
    let open = [9, 3, 7, 1, 5];
    let (_, _, ports) = run(1, 10, 4, &open, 2);
    assert_eq!(ports, vec![1, 3, 5, 7, 9]);
    for pair in ports.windows(2) {
        assert!(pair[0] < pair[1]);
    }
}

#[test]
fn closed_ports_never_appear() {
    let (_, _, ports) = run(1, 50, 5, &[10, 20, 30], 1);
    assert_eq!(ports, vec![10, 20, 30]);
    let (_, _, ports) = run(1, 50, 5, &[], 1);
    assert_eq!(ports, Vec::<u16>::new());
}

#[test]
fn open_ports_outside_the_range_never_appear() {
    let (_, _, ports) = run(100, 110, 3, &[80, 105, 443], 0);
    assert_eq!(ports, vec![105]);
}

#[test]
fn scanning_twice_gives_the_same_result() {
    let open = [8000, 8001];
    let (_, _, first) = run(7999, 8002, 10, &open, 0);
    let (_, _, second) = run(7999, 8002, 10, &open, 0);
    assert_eq!(first, vec![8000, 8001]);
    assert_eq!(second, vec![8000, 8001]);
}

#[test]
fn arrival_order_leaves_no_trace() {
    let open = [8000, 8001];
    for threads in 1..=5 {
        for pick in 0..5 {
            let (_, _, ports) = run(7999, 8002, threads, &open, pick);
            assert_eq!(ports, vec![8000, 8001]);
        }
    }
}

#[test]
fn single_closed_port_gives_an_empty_result() {
    let (handed_out, most, ports) = run(1, 1, 10, &[], 0);
    assert_eq!(handed_out, vec![1]);
    assert_eq!(most, 1);
    assert_eq!(ports, Vec::<u16>::new());
}

#[test]
fn single_open_port_gives_that_port() {
    let (_, _, ports) = run(65535, 65535, 1, &[65535], 0);
    assert_eq!(ports, vec![65535]);
}

#[test]
fn start_after_end_is_refused_before_any_step() {
    let mut args = Arguments::fallback();
    args.start_port = 2;
    args.end_port = 1;
    assert_eq!(ScanConfig::from_arguments(args), Err(ConfigError::StartAfterEnd));
}

#[test]
fn never_more_probes_at_once_than_allowed() {
    for threads in [1usize, 2, 3, 10, 64] {
        let (_, most, _) = run(1, 100, threads, &[50], 0);
        assert_eq!(most, threads);
    }
    let (_, most, _) = run(1, 4, 10, &[], 0);
    assert_eq!(most, 4);
}

#[test]
fn a_full_scan_waits_until_a_probe_reports() {
    let scan = Scan::new(&config(10, 20, 2));
    assert_eq!(scan.in_flight(), 0);
    assert_eq!(scan.submitted(), 0);
    let (scan, step) = scan.advance();
    assert_eq!(step, probe(10));
    let (scan, step) = scan.advance();
    assert_eq!(step, probe(11));
    assert_eq!(scan.in_flight(), 2);
    assert_eq!(scan.submitted(), 2);
    let (scan, step) = scan.advance();
    assert_eq!(step, Step::Wait);
    let (scan, step) = scan.advance();
    assert_eq!(step, Step::Wait);
    assert_eq!(scan.submitted(), 2);
    let (scan, accepted) = scan.complete(ProbeOutcome::Closed(11));
    assert!(accepted);
    assert_eq!(scan.in_flight(), 1);
    let (scan, step) = scan.advance();
    assert_eq!(step, probe(12));
    assert_eq!(scan.in_flight(), 2);
    assert_eq!(scan.submitted(), 3);
}

#[test]
fn an_outcome_is_taken_once() {
    let scan = Scan::new(&config(1, 3, 3));
    let (scan, _) = scan.advance();
    let (scan, _) = scan.advance();
    let (scan, accepted) = scan.complete(ProbeOutcome::Open(1));
    assert!(accepted);
    let (scan, accepted) = scan.complete(ProbeOutcome::Open(1));
    assert!(!accepted);
    let (scan, accepted) = scan.complete(ProbeOutcome::Closed(1));
    assert!(!accepted);
    assert_eq!(scan.in_flight(), 1);
    let (scan, accepted) = scan.complete(ProbeOutcome::Closed(2));
    assert!(accepted);
    let (scan, step) = scan.advance();
    assert_eq!(step, probe(3));
    let (scan, accepted) = scan.complete(ProbeOutcome::Error(3, ConnectError::Exhausted));
    assert!(accepted);
    assert_eq!(scan.finish(), Some(vec![1]));
}

#[test]
fn an_outcome_nobody_asked_for_is_refused() {
    let scan = Scan::new(&config(10, 12, 2));
    let (scan, accepted) = scan.complete(ProbeOutcome::Open(10));
    assert!(!accepted);
    let (scan, step) = scan.advance();
    assert_eq!(step, probe(10));
    let (scan, accepted) = scan.complete(ProbeOutcome::Open(11));
    assert!(!accepted);
    let (scan, accepted) = scan.complete(ProbeOutcome::Open(9));
    assert!(!accepted);
    let (scan, accepted) = scan.complete(ProbeOutcome::Open(13));
    assert!(!accepted);
    assert_eq!(scan.in_flight(), 1);
    let (scan, accepted) = scan.complete(ProbeOutcome::Closed(10));
    assert!(accepted);
    let (scan, _) = scan.advance();
    let (scan, _) = scan.advance();
    let (scan, _) = scan.complete(ProbeOutcome::Closed(11));
    let (scan, _) = scan.complete(ProbeOutcome::Closed(12));
    assert_eq!(scan.finish(), Some(Vec::new()));
}

#[test]
fn no_result_before_the_scan_is_drained() {
    let scan = Scan::new(&config(1, 2, 1));
    assert!(!scan.is_drained());
    assert_eq!(scan.finish(), None);

    let scan = Scan::new(&config(1, 2, 1));
    let (scan, _) = scan.advance();
    assert!(!scan.is_drained());
    assert_eq!(scan.finish(), None);

    let scan = Scan::new(&config(1, 2, 1));
    let (scan, _) = scan.advance();
    let (scan, _) = scan.complete(ProbeOutcome::Open(1));
    assert!(!scan.is_drained());
    let (scan, step) = scan.advance();
    assert_eq!(step, probe(2));
    assert!(!scan.is_drained());
    assert_eq!(scan.finish(), None);
}

#[test]
fn every_target_carries_what_the_configuration_says() {
    let mut args = Arguments::fallback();
    args.address = Address::V4([10, 0, 0, 7]);
    args.start_port = 53;
    args.end_port = 54;
    args.timeout = Timeout::new(2, 5).unwrap();
    args.protocol = "udp".to_string();
    let scan = Scan::new(&ScanConfig::from_arguments(args).unwrap());
    let (scan, step) = scan.advance();
    let expected = ScanTarget {
        address: Address::V4([10, 0, 0, 7]),
        port: 53,
        protocol: Protocol::Udp,
        timeout: Timeout::new(2, 5).unwrap(),
    };
    assert_eq!(step, Step::Probe(expected));
    let (_, step) = scan.advance();
    assert_eq!(step, Step::Probe(ScanTarget { port: 54, ..expected }));
}

#[test]
fn done_is_said_again_and_again() {
    let scan = Scan::new(&config(5, 5, 1));
    let (scan, step) = scan.advance();
    assert_eq!(step, probe(5));
    let (scan, accepted) = scan.complete(ProbeOutcome::Open(5));
    assert!(accepted);
    let (scan, step) = scan.advance();
    assert_eq!(step, Step::Done);
    let (scan, step) = scan.advance();
    assert_eq!(step, Step::Done);
    assert!(scan.is_drained());
    assert_eq!(scan.submitted(), 1);
    assert_eq!(scan.finish(), Some(vec![5]));
}

#[test]
fn a_failed_probe_does_not_stop_the_others() {
    let scan = Scan::new(&config(1, 3, 3));
    let (scan, _) = scan.advance();
    let (scan, _) = scan.advance();
    let (scan, _) = scan.advance();
    let (scan, accepted) = scan.complete(ProbeOutcome::Error(2, ConnectError::Aborted));
    assert!(accepted);
    let (scan, accepted) = scan.complete(ProbeOutcome::Open(3));
    assert!(accepted);
    let (scan, accepted) = scan.complete(ProbeOutcome::Open(1));
    assert!(accepted);
    assert_eq!(scan.finish(), Some(vec![1, 3]));
}
