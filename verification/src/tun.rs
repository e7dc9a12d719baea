//! The system-wide tunnel: a TUN device fed by the `tun2socks` bridge, with
//! split default routes through it and a host route that keeps the VPN
//! server itself on the original gateway.
//!
//! Bringing the tunnel up alternates decisions with outside work (lookups,
//! commands, a child process), so it is a state machine: `tun_start_step`
//! takes the outcome of the previous action and returns the next action.
use vstd::prelude::*;
use vstd::arithmetic::power2::{lemma2_to64, pow2};

use crate::command::{command, ArgList, CommandSpec, CommandView};
use crate::ping::{IpAddress, SocketAddress};
use crate::text::{
    chars_of, dec_digits, decimal, has_prefix, line_bounds, push_char, push_padded_unsigned, push_str,
    range_starts_with, split_lines, string_from_chars, to_owned_string, trim, trim_bounds,
};

verus! {

/// Name of the TUN device.
pub open spec fn tun_name() -> Seq<char> {
    "utun225"@
}

/// Local address of the TUN device.
pub open spec fn tun_addr() -> Seq<char> {
    "198.18.0.1"@
}

/// The SOCKS port that the bridge forwards to.
pub const SOCKS_PORT: u16 = 10808;

/// How many times the device is checked, 100 ms apart, before giving up.
pub const INTERFACE_CHECKS: usize = 50;

/// Delay before each device check, in milliseconds.
pub const INTERFACE_CHECK_DELAY_MS: u64 = 100;

// ---------------------------------------------------------------------------
// Addresses and command output
// ---------------------------------------------------------------------------

/// Dotted-decimal text of an IPv4 address.
pub open spec fn ipv4_text(a: u8, b: u8, c: u8, d: u8) -> Seq<char> {
    decimal(a as int) + seq!['.'] + decimal(b as int) + seq!['.'] + decimal(c as int) + seq!['.']
        + decimal(d as int)
}

/// The first IPv4 address among `addrs`, as text.
pub open spec fn first_ipv4_text(addrs: Seq<SocketAddress>) -> Option<Seq<char>>
    decreases addrs.len(),
{
    if addrs.len() == 0 {
        None
    } else {
        match addrs[0].ip {
            IpAddress::V4(a, b, c, d) => Some(ipv4_text(a, b, c, d)),
            IpAddress::V6(..) => first_ipv4_text(addrs.drop_first()),
        }
    }
}

/// Picks the first IPv4 address of a lookup (see `first_ipv4_text`).
pub fn pick_ipv4(addrs: &Vec<SocketAddress>) -> (r: Option<String>)
    ensures
        r.deep_view() == first_ipv4_text(addrs@),
{
    let mut i: usize = 0;
    proof {
        assert(addrs@.skip(0) =~= addrs@);
    }
    while i < addrs.len()
        invariant
            i <= addrs@.len(),
            first_ipv4_text(addrs@) == first_ipv4_text(addrs@.skip(i as int)),
        decreases addrs@.len() - i,
    {
        assert(addrs@.skip(i as int)[0] == addrs@[i as int]);
        match addrs[i].ip {
            IpAddress::V4(a, b, c, d) => {
                let mut s = String::new();
                push_padded_unsigned(&mut s, a as u64, 0);
                push_char(&mut s, '.');
                push_padded_unsigned(&mut s, b as u64, 0);
                push_char(&mut s, '.');
                push_padded_unsigned(&mut s, c as u64, 0);
                push_char(&mut s, '.');
                push_padded_unsigned(&mut s, d as u64, 0);
                assert(s@ =~= ipv4_text(a, b, c, d));
                return Some(s);
            },
            IpAddress::V6(..) => {},
        }
        assert(addrs@.skip(i as int).drop_first() =~= addrs@.skip(i + 1));
        i = i + 1;
    }
    None
}

/// The gateway named by the first line that, trimmed, starts with
/// `gateway:`; the rest of that line, trimmed.
pub open spec fn gateway_in(lines: Seq<Seq<char>>) -> Option<Seq<char>>
    decreases lines.len(),
{
    if lines.len() == 0 {
        None
    } else if has_prefix(trim(lines[0]), "gateway:"@) {
        Some(trim(trim(lines[0]).skip(8)))
    } else {
        gateway_in(lines.drop_first())
    }
}

/// The default gateway in the output of `route -n get default`.
pub open spec fn default_gateway(output: Seq<char>) -> Option<Seq<char>> {
    gateway_in(split_lines(output))
}

/// Reads the default gateway out of `route -n get default` output.
pub fn parse_default_gateway(output: &str) -> (r: Option<String>)
    ensures
        r.deep_view() == default_gateway(output@),
{
    let v = chars_of(output);
    let bounds = line_bounds(&v);
    let ghost lines = split_lines(v@);
    let mut i: usize = 0;
    proof {
        reveal_strlit("gateway:");
        assert(lines.skip(0) =~= lines);
    }
    while i < bounds.len()
        invariant
            i <= bounds@.len(),
            bounds@.len() == lines.len(),
            lines == split_lines(v@),
            v@ == output@,
            forall|j: int|
                0 <= j < bounds@.len() ==> {
                    &&& (#[trigger] bounds@[j]).0 <= bounds@[j].1 <= v@.len()
                    &&& v@.subrange(bounds@[j].0 as int, bounds@[j].1 as int) == lines[j]
                },
            gateway_in(lines) == gateway_in(lines.skip(i as int)),
        decreases bounds@.len() - i,
    {
        proof {
            reveal_strlit("gateway:");
        }
        let (lo, hi) = bounds[i];
        let (tlo, thi) = trim_bounds(&v, lo, hi);
        assert(lines.skip(i as int)[0] == lines[i as int]);
        if range_starts_with(&v, tlo, thi, "gateway:") {
            let (glo, ghi) = trim_bounds(&v, tlo + 8, thi);
            assert(v@.subrange(tlo + 8, thi as int) =~= v@.subrange(tlo as int, thi as int).skip(8));
            return Some(string_from_chars(&v, glo, ghi));
        }
        assert(lines.skip(i as int).drop_first() =~= lines.skip(i + 1));
        i = i + 1;
    }
    None
}

// ---------------------------------------------------------------------------
// Commands
// ---------------------------------------------------------------------------

pub open spec fn cmd(program: Seq<char>, args: Seq<Seq<char>>) -> CommandView {
    CommandView { program, args }
}

pub open spec fn route_program() -> Seq<char> {
    "/sbin/route"@
}

pub open spec fn ifconfig_program() -> Seq<char> {
    "/sbin/ifconfig"@
}

/// The command that prints the current default route.
pub open spec fn default_route_query() -> CommandView {
    cmd("route"@, seq!["-n"@, "get"@, "default"@])
}

pub open spec fn delete_host_route(ip: Seq<char>) -> CommandView {
    cmd(route_program(), seq!["-n"@, "delete"@, "-host"@, ip])
}

pub open spec fn add_host_route(ip: Seq<char>, gateway: Seq<char>) -> CommandView {
    cmd(route_program(), seq!["-n"@, "add"@, "-host"@, ip, gateway])
}

/// The arguments of the bridge: device, SOCKS proxy and log level.
pub open spec fn bridge_args() -> Seq<Seq<char>> {
    seq![
        "-device"@,
        tun_name(),
        "-proxy"@,
        "socks5://127.0.0.1:"@ + decimal(SOCKS_PORT as int),
        "-loglevel"@,
        "info"@,
    ]
}

pub open spec fn check_interface() -> CommandView {
    cmd(ifconfig_program(), seq![tun_name()])
}

pub open spec fn assign_address() -> CommandView {
    cmd(ifconfig_program(), seq![tun_name(), tun_addr(), tun_addr(), "up"@])
}

pub open spec fn add_net_route(net: Seq<char>) -> CommandView {
    cmd(route_program(), seq!["-n"@, "add"@, "-net"@, net, "-interface"@, tun_name()])
}

pub open spec fn delete_net_route(net: Seq<char>) -> CommandView {
    cmd(route_program(), seq!["-n"@, "delete"@, "-net"@, net])
}

pub open spec fn low_half() -> Seq<char> {
    "0.0.0.0/1"@
}

pub open spec fn high_half() -> Seq<char> {
    "128.0.0.0/1"@
}

pub open spec fn interface_down() -> CommandView {
    cmd(ifconfig_program(), seq![tun_name(), "down"@])
}

pub open spec fn kill_bridges() -> CommandView {
    cmd("/usr/bin/pkill"@, seq!["-x"@, "tun2socks"@])
}

fn route_delete_host(ip: &str) -> (r: CommandSpec)
    ensures
        r@ == delete_host_route(ip@),
{
    let mut a = ArgList::new();
    a.push("-n");
    a.push("delete");
    a.push("-host");
    a.push(ip);
    assert(a.items.deep_view() =~= (delete_host_route(ip@)).args);
    command("/sbin/route", a)
}

fn route_add_host(ip: &str, gateway: &str) -> (r: CommandSpec)
    ensures
        r@ == add_host_route(ip@, gateway@),
{
    let mut a = ArgList::new();
    a.push("-n");
    a.push("add");
    a.push("-host");
    a.push(ip);
    a.push(gateway);
    assert(a.items.deep_view() =~= (add_host_route(ip@, gateway@)).args);
    command("/sbin/route", a)
}

fn route_add_net(net: &str) -> (r: CommandSpec)
    ensures
        r@ == add_net_route(net@),
{
    let mut a = ArgList::new();
    a.push("-n");
    a.push("add");
    a.push("-net");
    a.push(net);
    a.push("-interface");
    a.push("utun225");
    assert(a.items.deep_view() =~= (add_net_route(net@)).args);
    command("/sbin/route", a)
}

fn route_delete_net(net: &str) -> (r: CommandSpec)
    ensures
        r@ == delete_net_route(net@),
{
    let mut a = ArgList::new();
    a.push("-n");
    a.push("delete");
    a.push("-net");
    a.push(net);
    assert(a.items.deep_view() =~= (delete_net_route(net@)).args);
    command("/sbin/route", a)
}

fn default_route_command() -> (r: CommandSpec)
    ensures
        r@ == default_route_query(),
{
    let mut a = ArgList::new();
    a.push("-n");
    a.push("get");
    a.push("default");
    assert(a.items.deep_view() =~= (default_route_query()).args);
    command("route", a)
}

fn interface_check_command() -> (r: CommandSpec)
    ensures
        r@ == check_interface(),
{
    let mut a = ArgList::new();
    a.push("utun225");
    assert(a.items.deep_view() =~= (check_interface()).args);
    command("/sbin/ifconfig", a)
}

fn assign_address_command() -> (r: CommandSpec)
    ensures
        r@ == assign_address(),
{
    let mut a = ArgList::new();
    a.push("utun225");
    a.push("198.18.0.1");
    a.push("198.18.0.1");
    a.push("up");
    assert(a.items.deep_view() =~= (assign_address()).args);
    command("/sbin/ifconfig", a)
}

fn interface_down_command() -> (r: CommandSpec)
    ensures
        r@ == interface_down(),
{
    let mut a = ArgList::new();
    a.push("utun225");
    a.push("down");
    assert(a.items.deep_view() =~= (interface_down()).args);
    command("/sbin/ifconfig", a)
}

fn kill_bridges_command() -> (r: CommandSpec)
    ensures
        r@ == kill_bridges(),
{
    let mut a = ArgList::new();
    a.push("-x");
    a.push("tun2socks");
    assert(a.items.deep_view() =~= (kill_bridges()).args);
    command("/usr/bin/pkill", a)
}

/// The arguments of the bridge process (see `bridge_args`).
pub fn tun2socks_args() -> (r: Vec<String>)
    ensures
        r.deep_view() == bridge_args(),
{
    let mut proxy = to_owned_string("socks5://127.0.0.1:");
    push_padded_unsigned(&mut proxy, SOCKS_PORT as u64, 0);
    let mut a = ArgList::new();
    a.push("-device");
    a.push("utun225");
    a.push("-proxy");
    a.push(proxy.as_str());
    a.push("-loglevel");
    a.push("info");
    assert(a.items.deep_view() =~= bridge_args());
    a.items
}

// ---------------------------------------------------------------------------
// Bringing the tunnel up
// ---------------------------------------------------------------------------

/// Where a start of the tunnel stands.
#[derive(Clone, Copy, PartialEq, Eq, Structural)]
pub enum TunPhase {
    Init,
    Locating,
    LookingUp,
    ReadingRoute,
    DeletingStale,
    AddingHostRoute,
    Spawning,
    Waiting,
    Killing,
    RemovingHostRoute,
    Assigning,
    RoutingLow,
    RoutingHigh,
    Finished,
}

/// A start of the tunnel: what it was given and what it learned so far.
pub struct TunStart {
    phase: TunPhase,
    is_root: bool,
    already_running: bool,
    host: String,
    server_ip: String,
    gateway: String,
    checks: usize,
}

pub struct TunStartView {
    pub phase: TunPhase,
    pub is_root: bool,
    pub already_running: bool,
    pub host: Seq<char>,
    pub server_ip: Seq<char>,
    pub gateway: Seq<char>,
    pub checks: nat,
}

impl View for TunStart {
    type V = TunStartView;

    closed spec fn view(&self) -> TunStartView {
        TunStartView {
            phase: self.phase,
            is_root: self.is_root,
            already_running: self.already_running,
            host: self.host@,
            server_ip: self.server_ip@,
            gateway: self.gateway@,
            checks: self.checks as nat,
        }
    }
}

/// The outcome of the previous action.
pub enum TunEvent {
    /// No action yet.
    Begin,
    /// The bridge binary was found, or not (with the caller's description).
    Located(Result<(), String>),
    /// The lookup's addresses, or `None` where the lookup failed.
    LookedUp(Option<Vec<SocketAddress>>),
    /// The output of the default-route query, or why it could not run.
    DefaultRoute(Result<String, String>),
    /// A command, the spawn, an interface check or the kill finished;
    /// `true` when it succeeded.
    Finished(bool),
}

pub enum TunEventView {
    Begin,
    Located(Result<(), Seq<char>>),
    LookedUp(Option<Seq<SocketAddress>>),
    DefaultRoute(Result<Seq<char>, Seq<char>>),
    Finished(bool),
}

impl View for TunEvent {
    type V = TunEventView;

    open spec fn view(&self) -> TunEventView {
        match self {
            TunEvent::Begin => TunEventView::Begin,
            TunEvent::Located(r) => TunEventView::Located(
                match r {
                    Ok(()) => Ok(()),
                    Err(m) => Err(m@),
                },
            ),
            TunEvent::LookedUp(a) => TunEventView::LookedUp(
                match a {
                    Some(v) => Some(v@),
                    None => None,
                },
            ),
            TunEvent::DefaultRoute(r) => TunEventView::DefaultRoute(
                match r {
                    Ok(o) => Ok(o@),
                    Err(m) => Err(m@),
                },
            ),
            TunEvent::Finished(b) => TunEventView::Finished(*b),
        }
    }
}

/// Why the tunnel did not come up.
pub enum TunError {
    NotRoot,
    AlreadyRunning,
    BridgeNotFound(String),
    LookupFailed(String),
    NoIpv4(String),
    GatewayCommand(String),
    GatewayNotFound,
    AddHostRoute,
    SpawnBridge,
    InterfaceTimeout,
    AssignAddress,
    RouteLow,
    RouteHigh,
    /// The caller reported an outcome that does not answer the last action.
    UnexpectedEvent,
}

pub enum TunErrorView {
    NotRoot,
    AlreadyRunning,
    BridgeNotFound(Seq<char>),
    LookupFailed(Seq<char>),
    NoIpv4(Seq<char>),
    GatewayCommand(Seq<char>),
    GatewayNotFound,
    AddHostRoute,
    SpawnBridge,
    InterfaceTimeout,
    AssignAddress,
    RouteLow,
    RouteHigh,
    UnexpectedEvent,
}

impl View for TunError {
    type V = TunErrorView;

    open spec fn view(&self) -> TunErrorView {
        match self {
            TunError::NotRoot => TunErrorView::NotRoot,
            TunError::AlreadyRunning => TunErrorView::AlreadyRunning,
            TunError::BridgeNotFound(m) => TunErrorView::BridgeNotFound(m@),
            TunError::LookupFailed(h) => TunErrorView::LookupFailed(h@),
            TunError::NoIpv4(h) => TunErrorView::NoIpv4(h@),
            TunError::GatewayCommand(m) => TunErrorView::GatewayCommand(m@),
            TunError::GatewayNotFound => TunErrorView::GatewayNotFound,
            TunError::AddHostRoute => TunErrorView::AddHostRoute,
            TunError::SpawnBridge => TunErrorView::SpawnBridge,
            TunError::InterfaceTimeout => TunErrorView::InterfaceTimeout,
            TunError::AssignAddress => TunErrorView::AssignAddress,
            TunError::RouteLow => TunErrorView::RouteLow,
            TunError::RouteHigh => TunErrorView::RouteHigh,
            TunError::UnexpectedEvent => TunErrorView::UnexpectedEvent,
        }
    }
}

pub open spec fn tun_error_message(e: TunErrorView) -> Seq<char> {
    match e {
        TunErrorView::NotRoot => "приложение не запущено от root — перезапустите через ProxysVPN Launcher"@,
        TunErrorView::AlreadyRunning => "tun already running"@,
        TunErrorView::BridgeNotFound(m) => m,
        TunErrorView::LookupFailed(h) => "dns lookup failed for "@ + h,
        TunErrorView::NoIpv4(h) => "no ipv4 address for "@ + h,
        TunErrorView::GatewayCommand(m) => m,
        TunErrorView::GatewayNotFound => "could not parse default gateway"@,
        TunErrorView::AddHostRoute => "add host route for VPN server"@,
        TunErrorView::SpawnBridge => "spawn tun2socks"@,
        TunErrorView::InterfaceTimeout => "utun225 did not come up within 5s"@,
        TunErrorView::AssignAddress => "assign IP to utun225"@,
        TunErrorView::RouteLow => "add route 0.0.0.0/1"@,
        TunErrorView::RouteHigh => "add route 128.0.0.0/1"@,
        TunErrorView::UnexpectedEvent => "unexpected event while starting the tunnel"@,
    }
}

impl TunError {
    /// The text shown for this error.
    pub fn message(&self) -> (r: String)
        ensures
            r@ == tun_error_message(self@),
    {
        match self {
            TunError::NotRoot => to_owned_string(
                "приложение не запущено от root — перезапустите через ProxysVPN Launcher",
            ),
            TunError::AlreadyRunning => to_owned_string("tun already running"),
            TunError::BridgeNotFound(m) => m.clone(),
            TunError::LookupFailed(h) => {
                let mut s = to_owned_string("dns lookup failed for ");
                push_str(&mut s, h.as_str());
                s
            },
            TunError::NoIpv4(h) => {
                let mut s = to_owned_string("no ipv4 address for ");
                push_str(&mut s, h.as_str());
                s
            },
            TunError::GatewayCommand(m) => m.clone(),
            TunError::GatewayNotFound => to_owned_string("could not parse default gateway"),
            TunError::AddHostRoute => to_owned_string("add host route for VPN server"),
            TunError::SpawnBridge => to_owned_string("spawn tun2socks"),
            TunError::InterfaceTimeout => to_owned_string("utun225 did not come up within 5s"),
            TunError::AssignAddress => to_owned_string("assign IP to utun225"),
            TunError::RouteLow => to_owned_string("add route 0.0.0.0/1"),
            TunError::RouteHigh => to_owned_string("add route 128.0.0.0/1"),
            TunError::UnexpectedEvent => to_owned_string("unexpected event while starting the tunnel"),
        }
    }
}

/// A tunnel that came up: the server's address and the original gateway.
pub struct TunUp {
    pub server_ip: String,
    pub gateway: String,
}

/// What the caller does next.
pub enum TunAction {
    /// Find the bridge binary; answer with `Located`.
    LocateBridge,
    /// Look up `host:443`; answer with `LookedUp`.
    Lookup(String),
    /// Run the default-route query and capture its output; answer with
    /// `DefaultRoute`.
    ReadDefaultRoute(CommandSpec),
    /// Run a command; answer with `Finished(success)`.
    Run(CommandSpec),
    /// Spawn the bridge with these arguments; answer with `Finished(spawned)`.
    SpawnBridge(Vec<String>),
    /// Wait `delay_ms`, then run `check`; answer with `Finished(success)`.
    CheckInterface { delay_ms: u64, check: CommandSpec },
    /// Kill the bridge; answer with `Finished(_)`.
    KillBridge,
    /// Done. On an error after the bridge was spawned, the caller drops
    /// (and so kills) it.
    Finish(Result<TunUp, TunError>),
}

pub enum TunActionView {
    LocateBridge,
    Lookup(Seq<char>),
    ReadDefaultRoute(CommandView),
    Run(CommandView),
    SpawnBridge(Seq<Seq<char>>),
    CheckInterface { delay_ms: u64, check: CommandView },
    KillBridge,
    Finish(Result<(Seq<char>, Seq<char>), TunErrorView>),
}

impl View for TunAction {
    type V = TunActionView;

    open spec fn view(&self) -> TunActionView {
        match self {
            TunAction::LocateBridge => TunActionView::LocateBridge,
            TunAction::Lookup(t) => TunActionView::Lookup(t@),
            TunAction::ReadDefaultRoute(c) => TunActionView::ReadDefaultRoute(c@),
            TunAction::Run(c) => TunActionView::Run(c@),
            TunAction::SpawnBridge(a) => TunActionView::SpawnBridge(a.deep_view()),
            TunAction::CheckInterface { delay_ms, check } => TunActionView::CheckInterface {
                delay_ms: *delay_ms,
                check: check@,
            },
            TunAction::KillBridge => TunActionView::KillBridge,
            TunAction::Finish(r) => TunActionView::Finish(
                match r {
                    Ok(up) => Ok((up.server_ip@, up.gateway@)),
                    Err(e) => Err(e@),
                },
            ),
        }
    }
}

pub open spec fn in_phase(m: TunStartView, p: TunPhase) -> TunStartView {
    TunStartView { phase: p, ..m }
}

pub open spec fn fail(m: TunStartView, e: TunErrorView) -> (TunStartView, TunActionView) {
    (in_phase(m, TunPhase::Finished), TunActionView::Finish(Err(e)))
}

/// One step of bringing the tunnel up: from the state and the outcome of
/// the previous action, the next state and action. The order is: check for
/// root and for a running tunnel, find the bridge, look the server up and
/// keep its first IPv4 address, read the default gateway, replace the host
/// route of the server through that gateway, spawn the bridge, check the
/// device up to 50 times 100 ms apart (on a timeout kill the bridge and
/// remove the host route), give the device its address, add the two
/// half-default routes through it.
pub open spec fn tun_next(m: TunStartView, e: TunEventView) -> (TunStartView, TunActionView) {
    match (m.phase, e) {
        (TunPhase::Init, TunEventView::Begin) => if !m.is_root {
            fail(m, TunErrorView::NotRoot)
        } else if m.already_running {
            fail(m, TunErrorView::AlreadyRunning)
        } else {
            (in_phase(m, TunPhase::Locating), TunActionView::LocateBridge)
        },
        (TunPhase::Locating, TunEventView::Located(Err(msg))) => fail(m, TunErrorView::BridgeNotFound(msg)),
        (TunPhase::Locating, TunEventView::Located(Ok(()))) => (
            in_phase(m, TunPhase::LookingUp),
            TunActionView::Lookup(m.host + ":443"@),
        ),
        (TunPhase::LookingUp, TunEventView::LookedUp(None)) => fail(m, TunErrorView::LookupFailed(m.host)),
        (TunPhase::LookingUp, TunEventView::LookedUp(Some(addrs))) => match first_ipv4_text(addrs) {
            None => fail(m, TunErrorView::NoIpv4(m.host)),
            Some(ip) => (
                TunStartView { phase: TunPhase::ReadingRoute, server_ip: ip, ..m },
                TunActionView::ReadDefaultRoute(default_route_query()),
            ),
        },
        (TunPhase::ReadingRoute, TunEventView::DefaultRoute(Err(msg))) => fail(m, TunErrorView::GatewayCommand(msg)),
        (TunPhase::ReadingRoute, TunEventView::DefaultRoute(Ok(out))) => match default_gateway(out) {
            None => fail(m, TunErrorView::GatewayNotFound),
            Some(gw) => (
                TunStartView { phase: TunPhase::DeletingStale, gateway: gw, ..m },
                TunActionView::Run(delete_host_route(m.server_ip)),
            ),
        },
        (TunPhase::DeletingStale, TunEventView::Finished(_)) => (
            in_phase(m, TunPhase::AddingHostRoute),
            TunActionView::Run(add_host_route(m.server_ip, m.gateway)),
        ),
        (TunPhase::AddingHostRoute, TunEventView::Finished(ok)) => if ok {
            (in_phase(m, TunPhase::Spawning), TunActionView::SpawnBridge(bridge_args()))
        } else {
            fail(m, TunErrorView::AddHostRoute)
        },
        (TunPhase::Spawning, TunEventView::Finished(ok)) => if ok {
            (
                TunStartView { phase: TunPhase::Waiting, checks: 1, ..m },
                TunActionView::CheckInterface { delay_ms: 100, check: check_interface() },
            )
        } else {
            fail(m, TunErrorView::SpawnBridge)
        },
        (TunPhase::Waiting, TunEventView::Finished(up)) => if up {
            (in_phase(m, TunPhase::Assigning), TunActionView::Run(assign_address()))
        } else if m.checks < INTERFACE_CHECKS {
            (
                TunStartView { checks: m.checks + 1, ..m },
                TunActionView::CheckInterface { delay_ms: 100, check: check_interface() },
            )
        } else {
            (in_phase(m, TunPhase::Killing), TunActionView::KillBridge)
        },
        (TunPhase::Killing, TunEventView::Finished(_)) => (
            in_phase(m, TunPhase::RemovingHostRoute),
            TunActionView::Run(delete_host_route(m.server_ip)),
        ),
        (TunPhase::RemovingHostRoute, TunEventView::Finished(_)) => fail(m, TunErrorView::InterfaceTimeout),
        (TunPhase::Assigning, TunEventView::Finished(ok)) => if ok {
            (in_phase(m, TunPhase::RoutingLow), TunActionView::Run(add_net_route(low_half())))
        } else {
            fail(m, TunErrorView::AssignAddress)
        },
        (TunPhase::RoutingLow, TunEventView::Finished(ok)) => if ok {
            (in_phase(m, TunPhase::RoutingHigh), TunActionView::Run(add_net_route(high_half())))
        } else {
            fail(m, TunErrorView::RouteLow)
        },
        (TunPhase::RoutingHigh, TunEventView::Finished(ok)) => if ok {
            (in_phase(m, TunPhase::Finished), TunActionView::Finish(Ok((m.server_ip, m.gateway))))
        } else {
            fail(m, TunErrorView::RouteHigh)
        },
        _ => fail(m, TunErrorView::UnexpectedEvent),
    }
}

impl TunStart {
    /// A start for the server `host`, given whether the process is root and
    /// whether a tunnel is already running.
    pub fn new(is_root: bool, already_running: bool, host: String) -> (r: TunStart)
        ensures
            r@ == (TunStartView {
                phase: TunPhase::Init,
                is_root,
                already_running,
                host: host@,
                server_ip: Seq::empty(),
                gateway: Seq::empty(),
                checks: 0,
            }),
    {
        TunStart {
            phase: TunPhase::Init,
            is_root,
            already_running,
            host,
            server_ip: String::new(),
            gateway: String::new(),
            checks: 0,
        }
    }

    pub fn phase(&self) -> (r: TunPhase)
        ensures
            r == self@.phase,
    {
        self.phase
    }
}

fn finish_err(m: &mut TunStart, e: TunError) -> (r: TunAction)
    ensures
        (final(m)@, r@) == fail(old(m)@, e@),
{
    m.phase = TunPhase::Finished;
    TunAction::Finish(Err(e))
}

/// One step of bringing the tunnel up (see `tun_next`).
pub fn tun_start_step(m: &mut TunStart, event: TunEvent) -> (r: TunAction)
    requires
        old(m)@.checks <= INTERFACE_CHECKS,
    ensures
        (final(m)@, r@) == tun_next(old(m)@, event@),
        final(m)@.checks <= INTERFACE_CHECKS,
{
    let ghost e = event@;
    match (m.phase, event) {
        (TunPhase::Init, TunEvent::Begin) => {
            if !m.is_root {
                finish_err(m, TunError::NotRoot)
            } else if m.already_running {
                finish_err(m, TunError::AlreadyRunning)
            } else {
                m.phase = TunPhase::Locating;
                TunAction::LocateBridge
            }
        },
        (TunPhase::Locating, TunEvent::Located(Err(msg))) => finish_err(m, TunError::BridgeNotFound(msg)),
        (TunPhase::Locating, TunEvent::Located(Ok(()))) => {
            m.phase = TunPhase::LookingUp;
            let mut target = m.host.clone();
            push_str(&mut target, ":443");
            TunAction::Lookup(target)
        },
        (TunPhase::LookingUp, TunEvent::LookedUp(None)) => {
            let h = m.host.clone();
            finish_err(m, TunError::LookupFailed(h))
        },
        (TunPhase::LookingUp, TunEvent::LookedUp(Some(addrs))) => match pick_ipv4(&addrs) {
            None => {
                let h = m.host.clone();
                finish_err(m, TunError::NoIpv4(h))
            },
            Some(ip) => {
                m.phase = TunPhase::ReadingRoute;
                m.server_ip = ip;
                TunAction::ReadDefaultRoute(default_route_command())
            },
        },
        (TunPhase::ReadingRoute, TunEvent::DefaultRoute(Err(msg))) => finish_err(m, TunError::GatewayCommand(msg)),
        (TunPhase::ReadingRoute, TunEvent::DefaultRoute(Ok(out))) => match parse_default_gateway(out.as_str()) {
            None => finish_err(m, TunError::GatewayNotFound),
            Some(gw) => {
                m.phase = TunPhase::DeletingStale;
                m.gateway = gw;
                TunAction::Run(route_delete_host(m.server_ip.as_str()))
            },
        },
        (TunPhase::DeletingStale, TunEvent::Finished(_)) => {
            m.phase = TunPhase::AddingHostRoute;
            TunAction::Run(route_add_host(m.server_ip.as_str(), m.gateway.as_str()))
        },
        (TunPhase::AddingHostRoute, TunEvent::Finished(ok)) => {
            if ok {
                m.phase = TunPhase::Spawning;
                TunAction::SpawnBridge(tun2socks_args())
            } else {
                finish_err(m, TunError::AddHostRoute)
            }
        },
        (TunPhase::Spawning, TunEvent::Finished(ok)) => {
            if ok {
                m.phase = TunPhase::Waiting;
                m.checks = 1;
                TunAction::CheckInterface {
                    delay_ms: INTERFACE_CHECK_DELAY_MS,
                    check: interface_check_command(),
                }
            } else {
                finish_err(m, TunError::SpawnBridge)
            }
        },
        (TunPhase::Waiting, TunEvent::Finished(up)) => {
            if up {
                m.phase = TunPhase::Assigning;
                TunAction::Run(assign_address_command())
            } else if m.checks < INTERFACE_CHECKS {
                m.checks = m.checks + 1;
                TunAction::CheckInterface {
                    delay_ms: INTERFACE_CHECK_DELAY_MS,
                    check: interface_check_command(),
                }
            } else {
                m.phase = TunPhase::Killing;
                TunAction::KillBridge
            }
        },
        (TunPhase::Killing, TunEvent::Finished(_)) => {
            m.phase = TunPhase::RemovingHostRoute;
            TunAction::Run(route_delete_host(m.server_ip.as_str()))
        },
        (TunPhase::RemovingHostRoute, TunEvent::Finished(_)) => finish_err(m, TunError::InterfaceTimeout),
        (TunPhase::Assigning, TunEvent::Finished(ok)) => {
            if ok {
                m.phase = TunPhase::RoutingLow;
                TunAction::Run(route_add_net("0.0.0.0/1"))
            } else {
                finish_err(m, TunError::AssignAddress)
            }
        },
        (TunPhase::RoutingLow, TunEvent::Finished(ok)) => {
            if ok {
                m.phase = TunPhase::RoutingHigh;
                TunAction::Run(route_add_net("128.0.0.0/1"))
            } else {
                finish_err(m, TunError::RouteLow)
            }
        },
        (TunPhase::RoutingHigh, TunEvent::Finished(ok)) => {
            if ok {
                m.phase = TunPhase::Finished;
                TunAction::Finish(Ok(TunUp { server_ip: m.server_ip.clone(), gateway: m.gateway.clone() }))
            } else {
                finish_err(m, TunError::RouteHigh)
            }
        },
        _ => finish_err(m, TunError::UnexpectedEvent),
    }
}

// ---------------------------------------------------------------------------
// Taking the tunnel down
// ---------------------------------------------------------------------------

/// One step of taking the tunnel down.
pub enum StopStep {
    Run(CommandSpec),
    /// Kill the bridge process held by the caller, if any, and wait for it.
    KillBridge,
}

pub enum StopStepView {
    Run(CommandView),
    KillBridge,
}

impl View for StopStep {
    type V = StopStepView;

    open spec fn view(&self) -> StopStepView {
        match self {
            StopStep::Run(c) => StopStepView::Run(c@),
            StopStep::KillBridge => StopStepView::KillBridge,
        }
    }
}

/// Taking the tunnel down: remove both half-default routes, the server's
/// host route where one was added, bring the device down, kill the bridge,
/// and any stray bridge process.
pub open spec fn stop_plan(server_ip: Option<Seq<char>>) -> Seq<StopStepView> {
    seq![
        StopStepView::Run(delete_net_route(low_half())),
        StopStepView::Run(delete_net_route(high_half())),
    ] + match server_ip {
        Some(ip) => seq![StopStepView::Run(delete_host_route(ip))],
        None => Seq::empty(),
    } + seq![
        StopStepView::Run(interface_down()),
        StopStepView::KillBridge,
        StopStepView::Run(kill_bridges()),
    ]
}

/// The steps of taking the tunnel down (see `stop_plan`).
pub fn tun_stop_plan(server_ip: &Option<String>) -> (r: Vec<StopStep>)
    ensures
        r@.map_values(|s: StopStep| s@) == stop_plan(server_ip.deep_view()),
{
    let mut steps: Vec<StopStep> = Vec::new();
    steps.push(StopStep::Run(route_delete_net("0.0.0.0/1")));
    steps.push(StopStep::Run(route_delete_net("128.0.0.0/1")));
    match server_ip {
        Some(ip) => steps.push(StopStep::Run(route_delete_host(ip.as_str()))),
        None => {},
    }
    steps.push(StopStep::Run(interface_down_command()));
    steps.push(StopStep::KillBridge);
    steps.push(StopStep::Run(kill_bridges_command()));
    assert(steps@.map_values(|s: StopStep| s@) =~= stop_plan(server_ip.deep_view()));
    steps
}

/// Rank of a phase along the way to `Finished`.
pub open spec fn phase_rank(p: TunPhase) -> int {
    match p {
        TunPhase::Init => 0,
        TunPhase::Locating => 1,
        TunPhase::LookingUp => 2,
        TunPhase::ReadingRoute => 3,
        TunPhase::DeletingStale => 4,
        TunPhase::AddingHostRoute => 5,
        TunPhase::Spawning => 6,
        TunPhase::Waiting => 7,
        TunPhase::Killing => 8,
        TunPhase::RemovingHostRoute => 9,
        TunPhase::Assigning => 10,
        TunPhase::RoutingLow => 11,
        TunPhase::RoutingHigh => 12,
        TunPhase::Finished => 13,
    }
}

/// Steps left at most before a start finishes.
pub open spec fn steps_left(m: TunStartView) -> int {
    (13 - phase_rank(m.phase)) * 100 + if m.phase == TunPhase::Waiting {
        INTERFACE_CHECKS - m.checks
    } else {
        0
    }
}

/// Every start of the tunnel ends: each step before `Finished` brings it
/// strictly closer, whatever the outcome reported, so it finishes after at
/// most `steps_left` steps; once finished it stays finished.
pub proof fn lemma_tun_start_ends(m: TunStartView, e: TunEventView)
    requires
        m.checks <= INTERFACE_CHECKS,
    ensures
        m.phase != TunPhase::Finished ==> 0 <= steps_left(tun_next(m, e).0) < steps_left(m),
        m.phase == TunPhase::Finished ==> tun_next(m, e).0.phase == TunPhase::Finished,
        tun_next(m, e).0.checks <= INTERFACE_CHECKS,
{
}

/// A start finishes exactly when it says so: the state is `Finished` after a
/// step if and only if the action is `Finish`.
pub proof fn lemma_finish_action_iff_finished(m: TunStartView, e: TunEventView)
    ensures
        (tun_next(m, e).0.phase == TunPhase::Finished) == (tun_next(m, e).1 is Finish),
{
}

/// Taking the tunnel down undoes the routes that bringing it up added: the
/// server's host route and both half-default routes are deleted, for the
/// same destinations.
pub proof fn lemma_stop_removes_start_routes(ip: Seq<char>, gateway: Seq<char>)
    ensures
        stop_plan(Some(ip)).contains(StopStepView::Run(delete_host_route(ip))),
        stop_plan(Some(ip)).contains(StopStepView::Run(delete_net_route(low_half()))),
        stop_plan(Some(ip)).contains(StopStepView::Run(delete_net_route(high_half()))),
        add_host_route(ip, gateway).args[3] == delete_host_route(ip).args[3],
        add_net_route(low_half()).args[3] == delete_net_route(low_half()).args[3],
        add_net_route(high_half()).args[3] == delete_net_route(high_half()).args[3],
        stop_plan(Some(ip)).contains(StopStepView::KillBridge),
{
    let p = stop_plan(Some(ip));
    assert(p[0] == StopStepView::Run(delete_net_route(low_half())));
    assert(p[1] == StopStepView::Run(delete_net_route(high_half())));
    assert(p[2] == StopStepView::Run(delete_host_route(ip)));
    assert(p[4] == StopStepView::KillBridge);
}

/// The text `a.b.c.d/len` of an IPv4 network.
pub open spec fn cidr_text(net: (u8, u8, u8, u8), len: nat) -> Seq<char> {
    ipv4_text(net.0, net.1, net.2, net.3) + seq!['/'] + decimal(len as int)
}

/// An IPv4 address as a 32-bit number.
pub open spec fn ipv4_number(ip: (u8, u8, u8, u8)) -> int {
    ip.0 * 0x100_0000 + ip.1 * 0x1_0000 + ip.2 * 0x100 + ip.3
}

/// `ip` lies in the network `net/len`: both agree on the first `len` bits.
pub open spec fn in_cidr(net: (u8, u8, u8, u8), len: nat, ip: (u8, u8, u8, u8)) -> bool {
    &&& len <= 32
    &&& ipv4_number(ip) / (pow2((32 - len) as nat) as int) == ipv4_number(net) / (pow2(
        (32 - len) as nat,
    ) as int)
}

/// The tunnel takes all IPv4 traffic: the two half-default routes it adds
/// are `0.0.0.0/1` and `128.0.0.0/1`, and every address lies in exactly one
/// of them.
pub proof fn lemma_half_routes_cover_all(ip: (u8, u8, u8, u8))
    ensures
        low_half() == cidr_text((0, 0, 0, 0), 1),
        high_half() == cidr_text((128, 0, 0, 0), 1),
        in_cidr((0, 0, 0, 0), 1, ip) != in_cidr((128, 0, 0, 0), 1, ip),
{
    reveal_strlit("0.0.0.0/1");
    reveal_strlit("128.0.0.0/1");
    reveal_with_fuel(dec_digits, 3);
    assert(decimal(0) =~= seq!['0']);
    assert(decimal(1) =~= seq!['1']);
    assert(decimal(128) =~= seq!['1', '2', '8']);
    assert(low_half() =~= cidr_text((0, 0, 0, 0), 1));
    assert(high_half() =~= cidr_text((128, 0, 0, 0), 1));
    lemma2_to64();
    assert(pow2(31) == 0x8000_0000);
    let n = ipv4_number(ip);
    assert(0 <= n < 0x1_0000_0000);
    assert(ipv4_number((128, 0, 0, 0)) == 0x8000_0000);
    assert(((32 - 1) as nat) == 31);
    assert(0x8000_0000int / 0x8000_0000int == 1);
    if ip.0 < 128 {
        assert(n < 0x8000_0000);
        assert(n / 0x8000_0000int == 0);
    } else {
        assert(0x8000_0000 <= n < 0x1_0000_0000);
        assert(n / 0x8000_0000int == 1);
    }
}

/// A start reports the tunnel up only after its last three commands
/// succeeded: `Finish(Ok)` answers a successful `128.0.0.0/1` route; that
/// route is run only after the `0.0.0.0/1` route succeeded, which is run
/// only after the device's address was assigned, which is run only once the
/// device came up. Any of these commands failing ends the start with an
/// error, and a successful start reports the server address and gateway it
/// routed.
pub proof fn lemma_tun_up_only_after_routes(m: TunStartView, e: TunEventView)
    ensures
        ({
            let (m2, a) = tun_next(m, e);
            &&& a matches TunActionView::Finish(Ok(r)) ==> (m.phase == TunPhase::RoutingHigh && e
                == TunEventView::Finished(true) && r == (m.server_ip, m.gateway))
            &&& a == TunActionView::Run(add_net_route(high_half())) ==> (m.phase
                == TunPhase::RoutingLow && e == TunEventView::Finished(true)
                && m2.phase == TunPhase::RoutingHigh)
            &&& m2.phase == TunPhase::RoutingHigh && m.phase != TunPhase::RoutingHigh ==> a
                == TunActionView::Run(add_net_route(high_half()))
            &&& a == TunActionView::Run(add_net_route(low_half())) ==> (m.phase == TunPhase::Assigning
                && e == TunEventView::Finished(true) && m2.phase == TunPhase::RoutingLow)
            &&& m2.phase == TunPhase::RoutingLow && m.phase != TunPhase::RoutingLow ==> a
                == TunActionView::Run(add_net_route(low_half()))
            &&& a == TunActionView::Run(assign_address()) ==> (m.phase == TunPhase::Waiting && e
                == TunEventView::Finished(true) && m2.phase == TunPhase::Assigning)
            &&& m2.phase == TunPhase::Assigning && m.phase != TunPhase::Assigning ==> a
                == TunActionView::Run(assign_address())
            &&& (m.phase == TunPhase::Assigning || m.phase == TunPhase::RoutingLow || m.phase
                == TunPhase::RoutingHigh) && e == TunEventView::Finished(false) ==> (a is Finish
                && a->Finish_0 is Err)
        }),
{
    reveal_strlit("0.0.0.0/1");
    reveal_strlit("128.0.0.0/1");
    reveal_strlit("/sbin/route");
    reveal_strlit("/sbin/ifconfig");
    assert(low_half().len() != high_half().len());
    assert(add_net_route(low_half()).args[3] != add_net_route(high_half()).args[3]);
    assert(route_program().len() != ifconfig_program().len());
    assert forall|ip: Seq<char>, gw: Seq<char>|
        #![trigger delete_host_route(ip), add_host_route(ip, gw)]
        delete_host_route(ip).args.len() == 4 && add_host_route(ip, gw).args.len() == 5 by {}
    assert forall|net: Seq<char>| #![trigger add_net_route(net)] add_net_route(net).args.len() == 6 by {}
}

/// The tunnel start routes around the server it looked up, through the
/// gateway it read: the server address is set only from a lookup's first
/// IPv4 address, the gateway only from the default-route output, the
/// lookup is of the given host at port 443, and every host-route command
/// names that server address (and, when adding, that gateway).
pub proof fn lemma_tun_routes_looked_up_server(m: TunStartView, e: TunEventView)
    ensures
        ({
            let (m2, a) = tun_next(m, e);
            &&& m2.host == m.host
            &&& m2.server_ip != m.server_ip ==> (e is LookedUp && e->LookedUp_0 is Some
                && first_ipv4_text(e->LookedUp_0->0) == Some(m2.server_ip))
            &&& m2.gateway != m.gateway ==> (e is DefaultRoute && e->DefaultRoute_0 is Ok
                && default_gateway(e->DefaultRoute_0->Ok_0) == Some(m2.gateway))
            &&& a matches TunActionView::Lookup(t) ==> t == m.host + ":443"@
            &&& forall|ip: Seq<char>, gw: Seq<char>|
                #[trigger] add_host_route(ip, gw) == a->Run_0 && a is Run ==> ip == m.server_ip
                    && gw == m.gateway
            &&& forall|ip: Seq<char>|
                #[trigger] delete_host_route(ip) == a->Run_0 && a is Run ==> ip == m.server_ip
        }),
{
    reveal_strlit("/sbin/route");
    reveal_strlit("/sbin/ifconfig");
    reveal_strlit("-host");
    reveal_strlit("-net");
    assert(route_program().len() != ifconfig_program().len());
    let (m2, a) = tun_next(m, e);
    if a is Run {
        let c = a->Run_0;
        assert(c == delete_host_route(m.server_ip) || c == add_host_route(m.server_ip, m.gateway) || c
            == assign_address() || c == add_net_route(low_half()) || c == add_net_route(high_half()));
        assert forall|ip: Seq<char>, gw: Seq<char>| #[trigger] add_host_route(ip, gw) == c implies ip
            == m.server_ip && gw == m.gateway by {
            assert(add_host_route(ip, gw).args.len() == 5);
            assert(c.args[3] == ip && c.args[4] == gw);
        }
        assert forall|ip: Seq<char>| #[trigger] delete_host_route(ip) == c implies ip == m.server_ip by {
            assert(delete_host_route(ip).args.len() == 4);
            assert(delete_host_route(ip).args[2] == "-host"@);
            assert(add_net_route(low_half()).args.len() == 6);
            assert(add_net_route(high_half()).args.len() == 6);
            assert(c.args[3] == ip);
        }
    }
}

/// The address a lookup yields for the tunnel is its first IPv4 address:
/// every address before it is IPv6; none is found only when all are IPv6.
pub proof fn lemma_first_ipv4(addrs: Seq<SocketAddress>)
    ensures
        first_ipv4_text(addrs) is None <==> forall|i: int| 0 <= i < addrs.len() ==> (#[trigger] addrs[i]).ip is V6,
        first_ipv4_text(addrs) matches Some(t) ==> exists|i: int|
            0 <= i < addrs.len() && (#[trigger] addrs[i]).ip is V4 && t == ipv4_text(
                addrs[i].ip->V4_0,
                addrs[i].ip->V4_1,
                addrs[i].ip->V4_2,
                addrs[i].ip->V4_3,
            ) && forall|j: int| 0 <= j < i ==> (#[trigger] addrs[j]).ip is V6,
    decreases addrs.len(),
{
    if addrs.len() > 0 {
        let rest = addrs.drop_first();
        lemma_first_ipv4(rest);
        if addrs[0].ip is V6 {
            assert forall|i: int| 0 < i < addrs.len() implies addrs[i] == rest[i - 1] by {}
            if first_ipv4_text(addrs) is Some {
                let t = first_ipv4_text(addrs)->0;
                let k = choose|k: int|
                    0 <= k < rest.len() && (#[trigger] rest[k]).ip is V4 && t == ipv4_text(
                        rest[k].ip->V4_0,
                        rest[k].ip->V4_1,
                        rest[k].ip->V4_2,
                        rest[k].ip->V4_3,
                    ) && forall|j: int| 0 <= j < k ==> (#[trigger] rest[j]).ip is V6;
                assert(addrs[k + 1] == rest[k]);
                assert forall|j: int| 0 <= j < k + 1 implies (#[trigger] addrs[j]).ip is V6 by {
                    if j > 0 {
                        assert(addrs[j] == rest[j - 1]);
                    }
                }
            }
            if forall|i: int| 0 <= i < rest.len() ==> (#[trigger] rest[i]).ip is V6 {
                assert forall|i: int| 0 <= i < addrs.len() implies (#[trigger] addrs[i]).ip is V6 by {
                    if i > 0 {
                        assert(addrs[i] == rest[i - 1]);
                    }
                }
            }
        }
    }
}

} // verus!
