//! TCP latency probing of the VPN server: the target kept between probes,
//! and the decisions of one measurement (look the host up unless its address
//! is cached, connect three times, report the best time in milliseconds).
use vstd::prelude::*;

use crate::text::{push_char, push_padded_unsigned, push_str, to_owned_string};

verus! {

/// Connect attempts per measurement.
pub const PROBES_PER_PING: usize = 3;

/// Connect timeout of one probe, in milliseconds.
pub const PROBE_TIMEOUT_MS: u64 = 2000;

/// An IP address.
#[derive(Debug, Clone, Copy, PartialEq, Eq, Structural)]
pub enum IpAddress {
    V4(u8, u8, u8, u8),
    V6(u16, u16, u16, u16, u16, u16, u16, u16),
}

/// An IP address and a port.
#[derive(Debug, Clone, Copy, PartialEq, Eq, Structural)]
pub struct SocketAddress {
    pub ip: IpAddress,
    pub port: u16,
}

/// The server to probe, with its address once looked up.
pub struct PingTarget {
    pub host: String,
    pub port: u16,
    pub addr: Option<SocketAddress>,
}

pub struct PingTargetView {
    pub host: Seq<char>,
    pub port: u16,
    pub addr: Option<SocketAddress>,
}

/// The current probe target, if any.
pub struct PingState {
    pub target: Option<PingTarget>,
}

pub open spec fn target_view(t: Option<PingTarget>) -> Option<PingTargetView> {
    match t {
        Some(t) => Some(PingTargetView { host: t.host@, port: t.port, addr: t.addr }),
        None => None,
    }
}

impl PingState {
    pub fn new() -> (r: PingState)
        ensures
            r.target is None,
    {
        PingState { target: None }
    }
}

/// Sets the server to probe; a new target has no cached address.
pub fn set_target(state: &mut PingState, host: String, port: u16)
    ensures
        target_view(final(state).target) == Some(PingTargetView { host: host@, port, addr: None }),
{
    state.target = Some(PingTarget { host, port, addr: None });
}

/// Forgets the server to probe.
pub fn clear_target(state: &mut PingState)
    ensures
        final(state).target is None,
{
    state.target = None;
}

/// Why a measurement gave no latency.
#[derive(Debug, PartialEq, Eq)]
pub enum PingError {
    NoTarget,
    /// The host name could not be looked up.
    Resolve { host: String, port: u16 },
    /// The lookup gave no address.
    NoAddresses { host: String, port: u16 },
    AllProbesFailed,
}

/// The text shown for an error.
pub open spec fn ping_error_message(e: PingError) -> Seq<char> {
    match e {
        PingError::NoTarget => "no target set"@,
        PingError::Resolve { host, port } => "resolve "@ + host@ + seq![':'] + crate::text::decimal(
            port as int,
        ),
        PingError::NoAddresses { host, port } => "no addresses for "@ + host@ + seq![':']
            + crate::text::decimal(port as int),
        PingError::AllProbesFailed => "all probes failed"@,
    }
}

impl PingError {
    pub fn message(&self) -> (r: String)
        ensures
            r@ == ping_error_message(*self),
    {
        match self {
            PingError::NoTarget => to_owned_string("no target set"),
            PingError::Resolve { host, port } => {
                let mut s = to_owned_string("resolve ");
                push_str(&mut s, host.as_str());
                push_char(&mut s, ':');
                push_padded_unsigned(&mut s, *port as u64, 0);
                proof {
                    reveal_strlit("resolve ");
                }
                assert(s@ =~= ping_error_message(*self));
                s
            },
            PingError::NoAddresses { host, port } => {
                let mut s = to_owned_string("no addresses for ");
                push_str(&mut s, host.as_str());
                push_char(&mut s, ':');
                push_padded_unsigned(&mut s, *port as u64, 0);
                proof {
                    reveal_strlit("no addresses for ");
                }
                assert(s@ =~= ping_error_message(*self));
                s
            },
            PingError::AllProbesFailed => to_owned_string("all probes failed"),
        }
    }
}

/// The smallest of the samples.
pub open spec fn seq_min(s: Seq<u64>) -> int
    decreases s.len(),
{
    if s.len() <= 1 {
        if s.len() == 1 {
            s[0] as int
        } else {
            0
        }
    } else {
        let m = seq_min(s.drop_last());
        if s.last() < m {
            s.last() as int
        } else {
            m
        }
    }
}

/// Microseconds rounded to the nearest millisecond (halves up), capped at
/// `u32::MAX`, and at least 1.
pub open spec fn latency_ms(us: int) -> int {
    let ms = (us + 500) / 1000;
    let capped = if ms > u32::MAX { u32::MAX as int } else { ms };
    if capped < 1 {
        1
    } else {
        capped
    }
}

/// The latency reported for the successful probe times `samples`
/// (microseconds): the best of them in milliseconds, or an error where every
/// probe failed.
pub fn best_latency_ms(samples: &Vec<u64>) -> (r: Result<u32, PingError>)
    ensures
        samples@.len() == 0 ==> r == Err::<u32, PingError>(PingError::AllProbesFailed),
        samples@.len() > 0 ==> (r matches Ok(ms) && ms as int == latency_ms(seq_min(samples@))),
{
    if samples.len() == 0 {
        return Err(PingError::AllProbesFailed);
    }
    let mut best = samples[0];
    let mut i: usize = 1;
    assert(samples@.take(1).drop_last() =~= Seq::<u64>::empty());
    while i < samples.len()
        invariant
            1 <= i <= samples@.len(),
            best as int == seq_min(samples@.take(i as int)),
        decreases samples@.len() - i,
    {
        assert(samples@.take(i + 1).drop_last() =~= samples@.take(i as int));
        if samples[i] < best {
            best = samples[i];
        }
        i = i + 1;
    }
    assert(samples@.take(samples@.len() as int) =~= samples@);
    let ms = best / 1000 + if best % 1000 >= 500 {
        1
    } else {
        0
    };
    assert(ms as int == (best as int + 500) / 1000) by (nonlinear_arith)
        requires
            ms as int == best as int / 1000 + if best as int % 1000 >= 500 {
                1int
            } else {
                0int
            },
            best >= 0,
    ;
    let capped: u32 = if ms > u32::MAX as u64 {
        u32::MAX
    } else {
        ms as u32
    };
    Ok(
        if capped < 1 {
            1
        } else {
            capped
        },
    )
}

/// Probes still to run and the times of those that succeeded.
pub struct ProbeProgress {
    pub attempts: usize,
    pub samples: Vec<u64>,
}

/// What a measurement asks for next.
pub enum PingStep {
    /// Look `host:port` up (the first address it resolves to is wanted).
    Lookup { host: String, port: u16 },
    /// Connect to `addr` once and report the time it took.
    Probe { addr: SocketAddress, progress: ProbeProgress },
    /// The measurement is over.
    Done(Result<u32, PingError>),
}

/// How a measurement starts.
pub enum PingStart {
    NoTarget,
    Lookup(Seq<char>, u16),
    Probe(SocketAddress),
}

/// Without a target a measurement fails; with a cached address it probes
/// at once; otherwise it looks the host up.
pub open spec fn ping_start(t: Option<PingTargetView>) -> PingStart {
    match t {
        None => PingStart::NoTarget,
        Some(t) => match t.addr {
            Some(a) => PingStart::Probe(a),
            None => PingStart::Lookup(t.host, t.port),
        },
    }
}

/// `r` is the first step that `s` describes.
pub open spec fn starts_as(r: PingStep, s: PingStart) -> bool {
    match (s, r) {
        (PingStart::NoTarget, PingStep::Done(Err(PingError::NoTarget))) => true,
        (PingStart::Lookup(h, p), PingStep::Lookup { host, port }) => host@ == h && port == p,
        (PingStart::Probe(a), PingStep::Probe { addr, progress }) => addr == a && progress.attempts
            == 0 && progress.samples@.len() == 0,
        _ => false,
    }
}

/// Once a lookup found the server, later measurements probe the cached
/// address without looking the host up again; a new target starts over
/// with a lookup.
pub proof fn lemma_cached_address_skips_lookup(t: PingTargetView, a: SocketAddress, host: Seq<char>, port: u16)
    ensures
        ping_start(Some(PingTargetView { addr: Some(a), ..t })) == PingStart::Probe(a),
        ping_start(Some(PingTargetView { host, port, addr: None })) == PingStart::Lookup(host, port),
{
}

/// Starts a measurement (see `ping_start`).
pub fn tcp_ping(state: &PingState) -> (r: PingStep)
    ensures
        starts_as(r, ping_start(target_view(state.target))),
        state.target is None ==> r matches PingStep::Done(Err(PingError::NoTarget)),
        state.target matches Some(t) ==> match t.addr {
            Some(a) => r matches PingStep::Probe { addr, progress } && addr == a
                && progress.attempts == 0 && progress.samples@.len() == 0,
            None => r matches PingStep::Lookup { host, port } && host@ == t.host@ && port
                == t.port,
        },
{
    match &state.target {
        None => PingStep::Done(Err(PingError::NoTarget)),
        Some(t) => match t.addr {
            Some(a) => PingStep::Probe {
                addr: a,
                progress: ProbeProgress { attempts: 0, samples: Vec::new() },
            },
            None => PingStep::Lookup { host: t.host.clone(), port: t.port },
        },
    }
}

/// The outcome of a lookup of `host:port`: `Err(())` where it failed, else
/// the first address it gave, if any. A found address is cached in the
/// target and probed. The target must still be set.
pub fn ping_after_lookup(
    state: &mut PingState,
    host: String,
    port: u16,
    lookup: Result<Option<SocketAddress>, ()>,
) -> (r: PingStep)
    requires
        old(state).target is Some,
    ensures
        lookup is Err ==> (r matches PingStep::Done(Err(PingError::Resolve { host: h, port: p }))
            && h@ == host@ && p == port),
        lookup == Ok::<Option<SocketAddress>, ()>(None) ==> (r matches PingStep::Done(
            Err(PingError::NoAddresses { host: h, port: p }),
        ) && h@ == host@ && p == port),
        lookup matches Ok(Some(a)) ==> r matches PingStep::Probe { addr, progress } && addr == a
            && progress.attempts == 0 && progress.samples@.len() == 0,
        lookup matches Ok(Some(a)) ==> target_view(final(state).target) == Some(
            PingTargetView {
                addr: Some(a),
                ..target_view(old(state).target)->0
            },
        ),
        !(lookup matches Ok(Some(_))) ==> target_view(final(state).target) == target_view(
            old(state).target,
        ),
{
    match lookup {
        Err(()) => PingStep::Done(Err(PingError::Resolve { host, port })),
        Ok(None) => PingStep::Done(Err(PingError::NoAddresses { host, port })),
        Ok(Some(a)) => {
            let t = state.target.take();
            match t {
                Some(mut t) => {
                    t.addr = Some(a);
                    state.target = Some(t);
                },
                None => {},
            }
            PingStep::Probe { addr: a, progress: ProbeProgress { attempts: 0, samples: Vec::new() } }
        },
    }
}

/// The outcome of one probe (`Some(µs)` on success): probes again until
/// three were made, then reports the best time.
pub fn ping_after_probe(addr: SocketAddress, progress: ProbeProgress, outcome: Option<u64>) -> (r:
    PingStep)
    requires
        progress.attempts < PROBES_PER_PING,
    ensures
        ({
            let samples = match outcome {
                Some(us) => progress.samples@.push(us),
                None => progress.samples@,
            };
            if progress.attempts + 1 < PROBES_PER_PING {
                r matches PingStep::Probe { addr: a, progress: p } && a == addr && p.attempts
                    == progress.attempts + 1 && p.samples@ == samples
            } else {
                &&& r matches PingStep::Done(res)
                &&& samples.len() == 0 ==> res == Err::<u32, PingError>(PingError::AllProbesFailed)
                &&& samples.len() > 0 ==> (res matches Ok(ms) && ms as int == latency_ms(
                    seq_min(samples),
                ))
            }
        }),
{
    let mut samples = progress.samples;
    match outcome {
        Some(us) => samples.push(us),
        None => {},
    }
    let attempts = progress.attempts + 1;
    if attempts < PROBES_PER_PING {
        PingStep::Probe { addr, progress: ProbeProgress { attempts, samples } }
    } else {
        PingStep::Done(best_latency_ms(&samples))
    }
}

} // verus!
