use proxysvpn::ping::{
    best_latency_ms, clear_target, ping_after_lookup, ping_after_probe, set_target, tcp_ping,
    IpAddress, PingError, PingState, PingStep, ProbeProgress, SocketAddress,
};

fn addr() -> SocketAddress {
    SocketAddress { ip: IpAddress::V4(10, 0, 0, 1), port: 443 }
}

#[test]
fn best_latency_rounds_to_nearest_millisecond() {
    assert_eq!(best_latency_ms(&vec![1499]), Ok(1));
    assert_eq!(best_latency_ms(&vec![1500]), Ok(2));
    assert_eq!(best_latency_ms(&vec![3000, 2000, 5000]), Ok(2));
    assert_eq!(best_latency_ms(&vec![123_456]), Ok(123));
}

#[test]
fn best_latency_is_at_least_one() {
    assert_eq!(best_latency_ms(&vec![400]), Ok(1));
    assert_eq!(best_latency_ms(&vec![0]), Ok(1));
}

#[test]
fn best_latency_saturates() {
    assert_eq!(best_latency_ms(&vec![u64::MAX]), Ok(u32::MAX));
}

#[test]
fn no_samples_is_an_error() {
    assert_eq!(best_latency_ms(&vec![]), Err(PingError::AllProbesFailed));
}

#[test]
fn ping_without_target() {
    let st = PingState::new();
    assert!(matches!(tcp_ping(&st), PingStep::Done(Err(PingError::NoTarget))));
    assert_eq!(PingError::NoTarget.message(), "no target set");
}

#[test]
fn ping_looks_up_then_probes_three_times() {
    let mut st = PingState::new();
    set_target(&mut st, "vpn.example".to_string(), 443);
    let (host, port) = match tcp_ping(&st) {
        PingStep::Lookup { host, port } => (host, port),
        _ => panic!("expected a lookup"),
    };
    assert_eq!((host.as_str(), port), ("vpn.example", 443));
    let mut step = ping_after_lookup(&mut st, host, port, Ok(Some(addr())));
    assert_eq!(st.target.as_ref().unwrap().addr, Some(addr()));
    let outcomes = [Some(2600u64), None, Some(2200)];
    let mut k = 0;
    loop {
        match step {
            PingStep::Probe { addr: a, progress } => {
                assert_eq!(a, addr());
                step = ping_after_probe(a, progress, outcomes[k]);
                k += 1;
            }
            PingStep::Done(r) => {
                assert_eq!(r, Ok(2));
                break;
            }
            PingStep::Lookup { .. } => panic!("unexpected lookup"),
        }
    }
    assert_eq!(k, 3);
}

#[test]
fn cached_address_skips_lookup() {
    let mut st = PingState::new();
    set_target(&mut st, "vpn.example".to_string(), 443);
    let _ = ping_after_lookup(&mut st, "vpn.example".to_string(), 443, Ok(Some(addr())));
    match tcp_ping(&st) {
        PingStep::Probe { addr: a, progress } => {
            assert_eq!(a, addr());
            assert_eq!(progress.attempts, 0);
        }
        _ => panic!("expected a probe"),
    }
}

#[test]
fn all_probes_failing() {
    let mut step = PingStep::Probe { addr: addr(), progress: ProbeProgress { attempts: 0, samples: vec![] } };
    for _ in 0..3 {
        step = match step {
            PingStep::Probe { addr, progress } => ping_after_probe(addr, progress, None),
            other => other,
        };
    }
    match step {
        PingStep::Done(r) => assert_eq!(r, Err(PingError::AllProbesFailed)),
        _ => panic!("expected the end"),
    }
    assert_eq!(PingError::AllProbesFailed.message(), "all probes failed");
}

#[test]
fn lookup_failures() {
    let mut st = PingState::new();
    set_target(&mut st, "h".to_string(), 8443);
    match ping_after_lookup(&mut st, "h".to_string(), 8443, Err(())) {
        PingStep::Done(Err(e)) => assert_eq!(e.message(), "resolve h:8443"),
        _ => panic!("expected a failure"),
    }
    match ping_after_lookup(&mut st, "h".to_string(), 8443, Ok(None)) {
        PingStep::Done(Err(e)) => assert_eq!(e.message(), "no addresses for h:8443"),
        _ => panic!("expected a failure"),
    }
    assert_eq!(st.target.as_ref().unwrap().addr, None);
}

#[test]
fn clearing_the_target() {
    let mut st = PingState::new();
    set_target(&mut st, "h".to_string(), 1);
    clear_target(&mut st);
    assert!(st.target.is_none());
}
