//! The connection session: the PID file that records the server's host
//! route, the clean-up run at launch and at exit, and the result reported
//! to the user interface.
use vstd::prelude::*;

use crate::command::{command, ArgList, CommandSpec, CommandView};
use crate::json::{json_view, Json, JsonView};
use crate::subscription::{build_xray_config, xray_config, VlessConfig, VlessConfigView};
use crate::text::{
    chars_of, find_line_end, has_prefix, lemma_line_end, line_end, push_padded_unsigned,
    push_str, range_starts_with, string_from_chars, to_owned_string,
};
use crate::tun::{cmd, delete_host_route, delete_net_route, high_half, interface_down, low_half};

verus! {

/// Where the PID file is kept.
pub open spec fn pid_file_path() -> Seq<char> {
    "/tmp/proxysvpn-desktop.pid"@
}

pub fn pid_file_location() -> (r: String)
    ensures
        r@ == pid_file_path(),
{
    to_owned_string("/tmp/proxysvpn-desktop.pid")
}

/// The PID file: the process id and the server address whose host route was
/// added, one `key=value` per line.
pub open spec fn pid_file_text(pid: u32, server_ip: Seq<char>) -> Seq<char> {
    "pid="@ + crate::text::decimal(pid as int) + "\n"@ + "server_ip="@ + server_ip + "\n"@
}

/// Writes the PID file text (see `pid_file_text`).
pub fn pid_file_contents(pid: u32, server_ip: &str) -> (r: String)
    ensures
        r@ == pid_file_text(pid, server_ip@),
{
    let mut s = to_owned_string("pid=");
    push_padded_unsigned(&mut s, pid as u64, 0);
    push_str(&mut s, "\n");
    push_str(&mut s, "server_ip=");
    push_str(&mut s, server_ip);
    push_str(&mut s, "\n");
    s
}

/// The lines of `s` as `str::lines` yields them: split at `'\n'`, a `'\r'`
/// right before a `'\n'` removed, no empty line after a final `'\n'`.
pub open spec fn std_lines(s: Seq<char>) -> Seq<Seq<char>>
    decreases s.len(),
{
    if s.len() == 0 {
        Seq::empty()
    } else {
        let e = line_end(s);
        if e >= s.len() {
            seq![s]
        } else {
            proof {
                lemma_line_end(s);
            }
            let l = s.take(e);
            let l2 = if l.len() > 0 && l.last() == '\r' {
                l.drop_last()
            } else {
                l
            };
            seq![l2] + std_lines(s.skip(e + 1))
        }
    }
}

/// The values of the `server_ip=` lines, in order.
pub open spec fn server_ip_values(lines: Seq<Seq<char>>) -> Seq<Seq<char>>
    decreases lines.len(),
{
    if lines.len() == 0 {
        Seq::empty()
    } else {
        (if has_prefix(lines[0], "server_ip="@) {
            seq![lines[0].skip(10)]
        } else {
            Seq::empty()
        }) + server_ip_values(lines.drop_first())
    }
}

/// The server addresses recorded in a PID file.
pub open spec fn pid_file_server_ips(contents: Seq<char>) -> Seq<Seq<char>> {
    server_ip_values(std_lines(contents))
}

/// Reads the server addresses out of a PID file (see `pid_file_server_ips`).
pub fn read_pid_file_server_ips(contents: &str) -> (r: Vec<String>)
    ensures
        r.deep_view() == pid_file_server_ips(contents@),
{
    let v = chars_of(contents);
    let mut out: Vec<String> = Vec::new();
    let mut start: usize = 0;
    proof {
        assert(v@.skip(0) =~= v@);
        assert(out.deep_view() =~= Seq::<Seq<char>>::empty());
    }
    while start < v.len()
        invariant
            start <= v@.len(),
            v@ == contents@,
            pid_file_server_ips(contents@) == out.deep_view() + server_ip_values(
                std_lines(v@.skip(start as int)),
            ),
        decreases v@.len() - start,
    {
        proof {
            reveal_strlit("server_ip=");
        }
        let ghost s = v@.skip(start as int);
        let ghost prev = out.deep_view();
        let e = find_line_end(&v, start);
        proof {
            lemma_line_end(s);
        }
        let mut hi = e;
        if e < v.len() && e > start && v[e - 1] == '\r' {
            hi = e - 1;
        }
        let ghost line = v@.subrange(start as int, hi as int);
        proof {
            if e < v@.len() {
                assert(s.take(e - start) =~= v@.subrange(start as int, e as int));
                if e > start && v@[e - 1] == '\r' {
                    assert(s.take(e - start).drop_last() =~= line);
                } else {
                    assert(s.take(e - start) =~= line);
                }
                assert(std_lines(s) == seq![line] + std_lines(s.skip(e - start + 1)));
                assert(s.skip(e - start + 1) =~= v@.skip(e + 1));
            } else {
                assert(s =~= line);
                assert(std_lines(s) == seq![line]);
            }
            assert(std_lines(s)[0] == line);
            assert(std_lines(s).drop_first() =~= std_lines(v@.skip(e + 1)) || e >= v@.len());
        }
        if range_starts_with(&v, start, hi, "server_ip=") {
            out.push(string_from_chars(&v, start + 10, hi));
            assert(v@.subrange(start + 10, hi as int) =~= line.skip(10));
            assert(out.deep_view() =~= prev + seq![line.skip(10)]);
        }
        if e >= v.len() {
            proof {
                let one = seq![line];
                assert(one[0] == line);
                assert(one.drop_first() =~= Seq::<Seq<char>>::empty());
                assert(server_ip_values(Seq::<Seq<char>>::empty()) == Seq::<Seq<char>>::empty());
                assert(server_ip_values(one) =~= (if has_prefix(line, "server_ip="@) {
                    seq![line.skip(10)]
                } else {
                    Seq::empty()
                }));
                assert(pid_file_server_ips(contents@) =~= out.deep_view());
                assert(v@.skip(v@.len() as int) =~= Seq::<char>::empty());
            }
            start = v.len();
        } else {
            proof {
                let rest = std_lines(v@.skip(e + 1));
                assert((seq![line] + rest).drop_first() =~= rest);
                assert((seq![line] + rest)[0] == line);
            }
            start = e + 1;
        }
    }
    proof {
        assert(v@.skip(start as int) =~= Seq::<char>::empty());
        assert(out.deep_view() + Seq::<Seq<char>>::empty() =~= out.deep_view());
    }
    out
}

/// A written PID file reads back as the one server address it recorded.
pub proof fn lemma_pid_file_round_trip(pid: u32, server_ip: Seq<char>)
    requires
        forall|i: int| 0 <= i < server_ip.len() ==> server_ip[i] != '\n',
        server_ip.len() == 0 || server_ip.last() != '\r',
    ensures
        pid_file_server_ips(pid_file_text(pid, server_ip)) == seq![server_ip],
{
    reveal_strlit("pid=");
    reveal_strlit("\n");
    reveal_strlit("server_ip=");
    let d = crate::text::decimal(pid as int);
    crate::text::lemma_decimal_no_newline(pid as int);
    let first = "pid="@ + d;
    let second = "server_ip="@ + server_ip;
    let text = pid_file_text(pid, server_ip);
    assert(text =~= first + seq!['\n'] + second + seq!['\n']);
    lemma_line_end_at(first + seq!['\n'] + second + seq!['\n'], first.len() as int);
    let rest = text.skip(first.len() as int + 1);
    assert(rest =~= second + seq!['\n']);
    lemma_line_end_at(rest, second.len() as int);
    assert(text.take(first.len() as int) =~= first);
    assert(rest.take(second.len() as int) =~= second);
    assert(rest.skip(second.len() as int + 1) =~= Seq::<char>::empty());
    assert(second.last() != '\r');
    assert(first.last() == d.last());
    assert(std_lines(Seq::<char>::empty()) == Seq::<Seq<char>>::empty());
    assert(std_lines(rest) =~= seq![second]);
    assert(std_lines(text) =~= seq![first, second]);
    assert(!has_prefix(first, "server_ip="@));
    assert(second.take(10) =~= "server_ip="@);
    assert(second.skip(10) =~= server_ip);
    assert(seq![first, second].drop_first() =~= seq![second]);
    assert(seq![second].drop_first() =~= Seq::<Seq<char>>::empty());
    let two = seq![first, second];
    assert(two[0] == first && two[1] == second);
    assert(two.drop_first() =~= seq![second]);
    assert(server_ip_values(Seq::<Seq<char>>::empty()) == Seq::<Seq<char>>::empty());
    assert(server_ip_values(seq![second]) =~= seq![server_ip]);
    assert(server_ip_values(two) =~= seq![server_ip]);
}

proof fn lemma_line_end_at(s: Seq<char>, k: int)
    requires
        0 <= k < s.len(),
        s[k] == '\n',
        forall|j: int| 0 <= j < k ==> s[j] != '\n',
    ensures
        line_end(s) == k,
    decreases k,
{
    if k > 0 {
        lemma_line_end_at(s.drop_first(), k - 1);
    }
}

// ---------------------------------------------------------------------------
// Clean-up
// ---------------------------------------------------------------------------

pub open spec fn pkill9(name: Seq<char>) -> CommandView {
    cmd("/usr/bin/pkill"@, seq!["-9"@, "-x"@, name])
}

/// The clean-up run at launch, on a termination signal and at exit: kill
/// the bridge and Xray, remove both half-default routes, bring the TUN
/// device down, then remove the host route of each server recorded in the
/// PID file (where it could be read).
pub open spec fn cleanup_commands(pid_file: Option<Seq<char>>) -> Seq<CommandView> {
    seq![
        pkill9("tun2socks"@),
        pkill9("xray"@),
        delete_net_route(low_half()),
        delete_net_route(high_half()),
        interface_down(),
    ] + match pid_file {
        Some(c) => pid_file_server_ips(c).map_values(|ip: Seq<char>| delete_host_route(ip)),
        None => Seq::empty(),
    }
}

/// The commands of the clean-up, and whether the PID file is removed
/// afterwards (it is, whenever it could be read).
pub struct CleanupPlan {
    pub commands: Vec<CommandSpec>,
    pub remove_pid_file: bool,
}

fn pkill9_command(name: &str) -> (r: CommandSpec)
    ensures
        r@ == pkill9(name@),
{
    let mut a = ArgList::new();
    a.push("-9");
    a.push("-x");
    a.push(name);
    assert(a.items.deep_view() =~= seq!["-9"@, "-x"@, name@]);
    command("/usr/bin/pkill", a)
}

fn route_command(args: ArgList) -> (r: CommandSpec)
    ensures
        r@ == cmd("/sbin/route"@, args.items.deep_view()),
{
    command("/sbin/route", args)
}

/// Plans the clean-up (see `cleanup_commands`); `pid_file` is the PID file's
/// text where it could be read.
pub fn cleanup_plan(pid_file: &Option<String>) -> (r: CleanupPlan)
    ensures
        r.commands@.map_values(|c: CommandSpec| c@) == cleanup_commands(pid_file.deep_view()),
        r.remove_pid_file == pid_file.is_some(),
{
    let mut cmds: Vec<CommandSpec> = Vec::new();
    cmds.push(pkill9_command("tun2socks"));
    cmds.push(pkill9_command("xray"));
    let mut a = ArgList::new();
    a.push("-n");
    a.push("delete");
    a.push("-net");
    a.push("0.0.0.0/1");
    assert(a.items.deep_view() =~= delete_net_route(low_half()).args);
    cmds.push(route_command(a));
    let mut b = ArgList::new();
    b.push("-n");
    b.push("delete");
    b.push("-net");
    b.push("128.0.0.0/1");
    assert(b.items.deep_view() =~= delete_net_route(high_half()).args);
    cmds.push(route_command(b));
    let mut c = ArgList::new();
    c.push("utun225");
    c.push("down");
    assert(c.items.deep_view() =~= interface_down().args);
    cmds.push(command("/sbin/ifconfig", c));
    let ghost base = cmds@.map_values(|c: CommandSpec| c@);
    assert(base =~= cleanup_commands(None));
    match pid_file {
        None => {
            assert(cmds@.map_values(|c: CommandSpec| c@) =~= cleanup_commands(pid_file.deep_view()));
            CleanupPlan { commands: cmds, remove_pid_file: false }
        },
        Some(text) => {
            let ips = read_pid_file_server_ips(text.as_str());
            let ghost ipv = ips.deep_view();
            let mut i: usize = 0;
            while i < ips.len()
                invariant
                    i <= ips@.len(),
                    ipv == ips.deep_view(),
                    cmds@.map_values(|c: CommandSpec| c@) == base + ipv.take(i as int).map_values(
                        |ip: Seq<char>| delete_host_route(ip),
                    ),
                decreases ips@.len() - i,
            {
                let mut h = ArgList::new();
                h.push("-n");
                h.push("delete");
                h.push("-host");
                h.push(ips[i].as_str());
                assert(h.items.deep_view() =~= delete_host_route(ipv[i as int]).args);
                let ghost prev = cmds@.map_values(|c: CommandSpec| c@);
                cmds.push(route_command(h));
                assert(cmds@.map_values(|c: CommandSpec| c@) =~= prev.push(delete_host_route(ipv[i as int])));
                assert(ipv.take(i + 1).map_values(|ip: Seq<char>| delete_host_route(ip))
                    =~= ipv.take(i as int).map_values(|ip: Seq<char>| delete_host_route(ip)).push(delete_host_route(ipv[i as int])));
                i = i + 1;
            }
            assert(ipv.take(ipv.len() as int) =~= ipv);
            assert(cmds@.map_values(|c: CommandSpec| c@) =~= cleanup_commands(pid_file.deep_view()));
            CleanupPlan { commands: cmds, remove_pid_file: true }
        },
    }
}

// ---------------------------------------------------------------------------
// Connecting
// ---------------------------------------------------------------------------

/// What a successful connection reports to the user interface.
pub struct ConnectResult {
    pub ok: bool,
    pub remark: String,
    pub host: String,
    pub port: u16,
}

/// The report of a connection made with `cfg`.
pub fn connect_result(cfg: &VlessConfig) -> (r: ConnectResult)
    ensures
        r.ok,
        r.remark@ == cfg.remark@,
        r.host@ == cfg.host@,
        r.port == cfg.port,
{
    ConnectResult { ok: true, remark: cfg.remark.clone(), host: cfg.host.clone(), port: cfg.port }
}

/// The stage of a connection attempt that failed.
#[derive(Debug, Clone, Copy, PartialEq, Eq, Structural)]
pub enum ConnectStage {
    Subscription,
    XrayLocate,
    XrayStart,
    TunStart,
}

/// The text reported when a stage fails with `detail`.
pub open spec fn connect_error_text(stage: ConnectStage, detail: Seq<char>) -> Seq<char> {
    match stage {
        ConnectStage::Subscription => "subscription: "@ + detail,
        ConnectStage::XrayLocate => detail,
        ConnectStage::XrayStart => "xray start: "@ + detail,
        ConnectStage::TunStart => "tun start: "@ + detail,
    }
}

/// Formats the failure of a connection stage (see `connect_error_text`).
pub fn connect_error(stage: ConnectStage, detail: &str) -> (r: String)
    ensures
        r@ == connect_error_text(stage, detail@),
{
    let mut s = match stage {
        ConnectStage::Subscription => to_owned_string("subscription: "),
        ConnectStage::XrayLocate => String::new(),
        ConnectStage::XrayStart => to_owned_string("xray start: "),
        ConnectStage::TunStart => to_owned_string("tun start: "),
    };
    push_str(&mut s, detail);
    s
}

/// The clean-up that follows a connection removes the host route of the
/// server that the connection recorded in the PID file.
pub proof fn lemma_cleanup_removes_recorded_route(pid: u32, server_ip: Seq<char>)
    requires
        forall|i: int| 0 <= i < server_ip.len() ==> server_ip[i] != '\n',
        server_ip.len() == 0 || server_ip.last() != '\r',
    ensures
        cleanup_commands(Some(pid_file_text(pid, server_ip))).last() == delete_host_route(server_ip),
        cleanup_commands(Some(pid_file_text(pid, server_ip))).len() == 6,
{
    lemma_pid_file_round_trip(pid, server_ip);
    let m = seq![server_ip].map_values(|ip: Seq<char>| delete_host_route(ip));
    assert(m =~= seq![delete_host_route(server_ip)]);
}

// ---------------------------------------------------------------------------
// The connect sequence
// ---------------------------------------------------------------------------

/// How long to let Xray settle before the tunnel is brought up.
pub const XRAY_WARMUP_MS: u64 = 400;

/// Where a connection attempt stands.
#[derive(Clone, Copy, PartialEq, Eq, Structural)]
pub enum ConnectPhase {
    Init,
    StoppingTun,
    StoppingXray,
    Fetching,
    Locating,
    StartingXray,
    Settling,
    StartingTun,
    RollingBack,
    ReadingServerIp,
    WritingPidFile,
    SettingPingTarget,
    Finished,
}

/// A connection attempt: the subscription URL, and the configuration once
/// fetched.
pub struct ConnectFlow {
    phase: ConnectPhase,
    sub_url: String,
    config: Option<VlessConfig>,
    failure: String,
}

pub struct ConnectFlowView {
    pub phase: ConnectPhase,
    pub sub_url: Seq<char>,
    pub config: Option<VlessConfigView>,
    pub failure: Seq<char>,
}

impl View for ConnectFlow {
    type V = ConnectFlowView;

    closed spec fn view(&self) -> ConnectFlowView {
        ConnectFlowView {
            phase: self.phase,
            sub_url: self.sub_url@,
            config: match self.config {
                Some(c) => Some(c@),
                None => None,
            },
            failure: self.failure@,
        }
    }
}

/// The outcome of the previous action.
pub enum ConnectEvent {
    Begin,
    /// A stop, the wait, the PID file write or the ping target update is done.
    Done,
    /// The subscription was fetched and read, or why not.
    Fetched(Result<VlessConfig, String>),
    /// The Xray binary was found, or why not.
    Located(Result<(), String>),
    /// Xray started, or why not.
    XrayStarted(Result<(), String>),
    /// The tunnel came up, or why not.
    TunStarted(Result<(), String>),
    /// The server address the tunnel routes around, if it recorded one.
    ServerIp(Option<String>),
}

pub enum ConnectEventView {
    Begin,
    Done,
    Fetched(Result<VlessConfigView, Seq<char>>),
    Located(Result<(), Seq<char>>),
    XrayStarted(Result<(), Seq<char>>),
    TunStarted(Result<(), Seq<char>>),
    ServerIp(Option<Seq<char>>),
}

pub open spec fn unit_result_view(r: Result<(), String>) -> Result<(), Seq<char>> {
    match r {
        Ok(()) => Ok(()),
        Err(e) => Err(e@),
    }
}

impl View for ConnectEvent {
    type V = ConnectEventView;

    open spec fn view(&self) -> ConnectEventView {
        match self {
            ConnectEvent::Begin => ConnectEventView::Begin,
            ConnectEvent::Done => ConnectEventView::Done,
            ConnectEvent::Fetched(r) => ConnectEventView::Fetched(
                match r {
                    Ok(c) => Ok(c@),
                    Err(e) => Err(e@),
                },
            ),
            ConnectEvent::Located(r) => ConnectEventView::Located(unit_result_view(*r)),
            ConnectEvent::XrayStarted(r) => ConnectEventView::XrayStarted(unit_result_view(*r)),
            ConnectEvent::TunStarted(r) => ConnectEventView::TunStarted(unit_result_view(*r)),
            ConnectEvent::ServerIp(ip) => ConnectEventView::ServerIp(ip.deep_view()),
        }
    }
}

/// What the caller does next.
pub enum ConnectAction {
    /// Take the tunnel down; answer `Done`.
    StopTun,
    /// Stop Xray; answer `Done`.
    StopXray,
    /// Fetch the subscription at this URL and read it; answer `Fetched`.
    Fetch(String),
    /// Find the Xray binary; answer `Located`.
    LocateXray,
    /// Start Xray with this configuration; answer `XrayStarted`.
    StartXray(Json),
    /// Wait this many milliseconds; answer `Done`.
    Wait(u64),
    /// Bring the tunnel up around this server; answer `TunStarted`.
    StartTun(String),
    /// Report the server address of the tunnel; answer `ServerIp`.
    ReadServerIp,
    /// Write the PID file recording this server address; answer `Done`.
    WritePidFile(String),
    /// Make this server the ping target; answer `Done`.
    SetPingTarget(String, u16),
    /// The attempt is over.
    Finish(Result<ConnectResult, String>),
}

pub enum ConnectActionView {
    StopTun,
    StopXray,
    Fetch(Seq<char>),
    LocateXray,
    StartXray(JsonView),
    Wait(u64),
    StartTun(Seq<char>),
    ReadServerIp,
    WritePidFile(Seq<char>),
    SetPingTarget(Seq<char>, u16),
    /// On success: remark, host, port.
    Finish(Result<(Seq<char>, Seq<char>, u16), Seq<char>>),
}

impl View for ConnectAction {
    type V = ConnectActionView;

    open spec fn view(&self) -> ConnectActionView {
        match self {
            ConnectAction::StopTun => ConnectActionView::StopTun,
            ConnectAction::StopXray => ConnectActionView::StopXray,
            ConnectAction::Fetch(u) => ConnectActionView::Fetch(u@),
            ConnectAction::LocateXray => ConnectActionView::LocateXray,
            ConnectAction::StartXray(j) => ConnectActionView::StartXray(json_view(*j)),
            ConnectAction::Wait(ms) => ConnectActionView::Wait(*ms),
            ConnectAction::StartTun(h) => ConnectActionView::StartTun(h@),
            ConnectAction::ReadServerIp => ConnectActionView::ReadServerIp,
            ConnectAction::WritePidFile(ip) => ConnectActionView::WritePidFile(ip@),
            ConnectAction::SetPingTarget(h, p) => ConnectActionView::SetPingTarget(h@, *p),
            ConnectAction::Finish(r) => ConnectActionView::Finish(
                match r {
                    Ok(c) => if c.ok {
                        Ok((c.remark@, c.host@, c.port))
                    } else {
                        Err(Seq::empty())
                    },
                    Err(e) => Err(e@),
                },
            ),
        }
    }
}

pub open spec fn connect_in(m: ConnectFlowView, p: ConnectPhase) -> ConnectFlowView {
    ConnectFlowView { phase: p, ..m }
}

pub open spec fn connect_fail(m: ConnectFlowView, text: Seq<char>) -> (ConnectFlowView, ConnectActionView) {
    (connect_in(m, ConnectPhase::Finished), ConnectActionView::Finish(Err(text)))
}

/// One step of connecting: take the tunnel down and stop Xray (whatever
/// runs), fetch the subscription, find and start Xray with the
/// configuration built from it, wait for it to settle, bring the tunnel up
/// (on failure stop Xray again), record the server address in the PID file
/// when the tunnel reports one, make the server the ping target, and report
/// the remark, host and port. Failures are reported with the stage's
/// prefix (see `connect_error_text`).
pub open spec fn connect_next(m: ConnectFlowView, e: ConnectEventView) -> (ConnectFlowView, ConnectActionView) {
    match (m.phase, e) {
        (ConnectPhase::Init, ConnectEventView::Begin) => (
            connect_in(m, ConnectPhase::StoppingTun),
            ConnectActionView::StopTun,
        ),
        (ConnectPhase::StoppingTun, ConnectEventView::Done) => (
            connect_in(m, ConnectPhase::StoppingXray),
            ConnectActionView::StopXray,
        ),
        (ConnectPhase::StoppingXray, ConnectEventView::Done) => (
            connect_in(m, ConnectPhase::Fetching),
            ConnectActionView::Fetch(m.sub_url),
        ),
        (ConnectPhase::Fetching, ConnectEventView::Fetched(Err(d))) => connect_fail(
            m,
            connect_error_text(ConnectStage::Subscription, d),
        ),
        (ConnectPhase::Fetching, ConnectEventView::Fetched(Ok(c))) => (
            ConnectFlowView { phase: ConnectPhase::Locating, config: Some(c), ..m },
            ConnectActionView::LocateXray,
        ),
        (ConnectPhase::Locating, ConnectEventView::Located(Err(d))) => connect_fail(
            m,
            connect_error_text(ConnectStage::XrayLocate, d),
        ),
        (ConnectPhase::Locating, ConnectEventView::Located(Ok(()))) => match m.config {
            Some(c) => (
                connect_in(m, ConnectPhase::StartingXray),
                ConnectActionView::StartXray(xray_config(c)),
            ),
            None => connect_fail(m, unexpected_connect_event()),
        },
        (ConnectPhase::StartingXray, ConnectEventView::XrayStarted(Err(d))) => connect_fail(
            m,
            connect_error_text(ConnectStage::XrayStart, d),
        ),
        (ConnectPhase::StartingXray, ConnectEventView::XrayStarted(Ok(()))) => (
            connect_in(m, ConnectPhase::Settling),
            ConnectActionView::Wait(XRAY_WARMUP_MS),
        ),
        (ConnectPhase::Settling, ConnectEventView::Done) => match m.config {
            Some(c) => (connect_in(m, ConnectPhase::StartingTun), ConnectActionView::StartTun(c.host)),
            None => connect_fail(m, unexpected_connect_event()),
        },
        (ConnectPhase::StartingTun, ConnectEventView::TunStarted(Err(d))) => (
            ConnectFlowView { phase: ConnectPhase::RollingBack, failure: d, ..m },
            ConnectActionView::StopXray,
        ),
        (ConnectPhase::RollingBack, ConnectEventView::Done) => connect_fail(
            m,
            connect_error_text(ConnectStage::TunStart, m.failure),
        ),
        (ConnectPhase::StartingTun, ConnectEventView::TunStarted(Ok(()))) => (
            connect_in(m, ConnectPhase::ReadingServerIp),
            ConnectActionView::ReadServerIp,
        ),
        (ConnectPhase::ReadingServerIp, ConnectEventView::ServerIp(Some(ip))) => (
            connect_in(m, ConnectPhase::WritingPidFile),
            ConnectActionView::WritePidFile(ip),
        ),
        (ConnectPhase::ReadingServerIp, ConnectEventView::ServerIp(None)) => match m.config {
            Some(c) => (
                connect_in(m, ConnectPhase::SettingPingTarget),
                ConnectActionView::SetPingTarget(c.host, c.port),
            ),
            None => connect_fail(m, unexpected_connect_event()),
        },
        (ConnectPhase::WritingPidFile, ConnectEventView::Done) => match m.config {
            Some(c) => (
                connect_in(m, ConnectPhase::SettingPingTarget),
                ConnectActionView::SetPingTarget(c.host, c.port),
            ),
            None => connect_fail(m, unexpected_connect_event()),
        },
        (ConnectPhase::SettingPingTarget, ConnectEventView::Done) => match m.config {
            Some(c) => (
                connect_in(m, ConnectPhase::Finished),
                ConnectActionView::Finish(Ok((c.remark, c.host, c.port))),
            ),
            None => connect_fail(m, unexpected_connect_event()),
        },
        _ => connect_fail(m, unexpected_connect_event()),
    }
}

pub open spec fn unexpected_connect_event() -> Seq<char> {
    "unexpected event while connecting"@
}

impl ConnectFlow {
    /// A connection attempt for the subscription at `sub_url`.
    pub fn new(sub_url: String) -> (r: ConnectFlow)
        ensures
            r@ == (ConnectFlowView {
                phase: ConnectPhase::Init,
                sub_url: sub_url@,
                config: None,
                failure: Seq::empty(),
            }),
    {
        ConnectFlow { phase: ConnectPhase::Init, sub_url, config: None, failure: String::new() }
    }

    pub fn phase(&self) -> (r: ConnectPhase)
        ensures
            r == self@.phase,
    {
        self.phase
    }
}

fn connect_finish_err(m: &mut ConnectFlow, text: String) -> (r: ConnectAction)
    ensures
        (final(m)@, r@) == connect_fail(old(m)@, text@),
{
    m.phase = ConnectPhase::Finished;
    ConnectAction::Finish(Err(text))
}

fn unexpected(m: &mut ConnectFlow) -> (r: ConnectAction)
    ensures
        (final(m)@, r@) == connect_fail(old(m)@, unexpected_connect_event()),
{
    connect_finish_err(m, to_owned_string("unexpected event while connecting"))
}

/// One step of connecting (see `connect_next`).
pub fn connect_step(m: &mut ConnectFlow, event: ConnectEvent) -> (r: ConnectAction)
    ensures
        (final(m)@, r@) == connect_next(old(m)@, event@),
{
    match (m.phase, event) {
        (ConnectPhase::Init, ConnectEvent::Begin) => {
            m.phase = ConnectPhase::StoppingTun;
            ConnectAction::StopTun
        },
        (ConnectPhase::StoppingTun, ConnectEvent::Done) => {
            m.phase = ConnectPhase::StoppingXray;
            ConnectAction::StopXray
        },
        (ConnectPhase::StoppingXray, ConnectEvent::Done) => {
            m.phase = ConnectPhase::Fetching;
            ConnectAction::Fetch(m.sub_url.clone())
        },
        (ConnectPhase::Fetching, ConnectEvent::Fetched(Err(d))) => {
            let text = connect_error(ConnectStage::Subscription, d.as_str());
            connect_finish_err(m, text)
        },
        (ConnectPhase::Fetching, ConnectEvent::Fetched(Ok(c))) => {
            m.phase = ConnectPhase::Locating;
            m.config = Some(c);
            ConnectAction::LocateXray
        },
        (ConnectPhase::Locating, ConnectEvent::Located(Err(d))) => {
            let text = connect_error(ConnectStage::XrayLocate, d.as_str());
            connect_finish_err(m, text)
        },
        (ConnectPhase::Locating, ConnectEvent::Located(Ok(()))) => {
            let j = match &m.config {
                Some(c) => Some(build_xray_config(c)),
                None => None,
            };
            match j {
                Some(j) => {
                    m.phase = ConnectPhase::StartingXray;
                    ConnectAction::StartXray(j)
                },
                None => unexpected(m),
            }
        },
        (ConnectPhase::StartingXray, ConnectEvent::XrayStarted(Err(d))) => {
            let text = connect_error(ConnectStage::XrayStart, d.as_str());
            connect_finish_err(m, text)
        },
        (ConnectPhase::StartingXray, ConnectEvent::XrayStarted(Ok(()))) => {
            m.phase = ConnectPhase::Settling;
            ConnectAction::Wait(XRAY_WARMUP_MS)
        },
        (ConnectPhase::Settling, ConnectEvent::Done) => {
            let host = match &m.config {
                Some(c) => Some(c.host.clone()),
                None => None,
            };
            match host {
                Some(h) => {
                    m.phase = ConnectPhase::StartingTun;
                    ConnectAction::StartTun(h)
                },
                None => unexpected(m),
            }
        },
        (ConnectPhase::StartingTun, ConnectEvent::TunStarted(Err(d))) => {
            m.phase = ConnectPhase::RollingBack;
            m.failure = d;
            ConnectAction::StopXray
        },
        (ConnectPhase::RollingBack, ConnectEvent::Done) => {
            let text = connect_error(ConnectStage::TunStart, m.failure.as_str());
            connect_finish_err(m, text)
        },
        (ConnectPhase::StartingTun, ConnectEvent::TunStarted(Ok(()))) => {
            m.phase = ConnectPhase::ReadingServerIp;
            ConnectAction::ReadServerIp
        },
        (ConnectPhase::ReadingServerIp, ConnectEvent::ServerIp(Some(ip))) => {
            m.phase = ConnectPhase::WritingPidFile;
            ConnectAction::WritePidFile(ip)
        },
        (ConnectPhase::ReadingServerIp, ConnectEvent::ServerIp(None)) | (
            ConnectPhase::WritingPidFile,
            ConnectEvent::Done,
        ) => {
            let target = match &m.config {
                Some(c) => Some((c.host.clone(), c.port)),
                None => None,
            };
            match target {
                Some((h, p)) => {
                    m.phase = ConnectPhase::SettingPingTarget;
                    ConnectAction::SetPingTarget(h, p)
                },
                None => unexpected(m),
            }
        },
        (ConnectPhase::SettingPingTarget, ConnectEvent::Done) => {
            let result = match &m.config {
                Some(c) => Some(connect_result(c)),
                None => None,
            };
            match result {
                Some(r) => {
                    m.phase = ConnectPhase::Finished;
                    ConnectAction::Finish(Ok(r))
                },
                None => unexpected(m),
            }
        },
        _ => unexpected(m),
    }
}

/// A failed tunnel never leaves Xray running: after the tunnel reports a
/// failure, the next action stops Xray, and the one after it reports the
/// failure with the tunnel prefix.
pub proof fn lemma_tun_failure_rolls_back(m: ConnectFlowView, d: Seq<char>)
    requires
        m.phase == ConnectPhase::StartingTun,
    ensures
        connect_next(m, ConnectEventView::TunStarted(Err(d))).1 == ConnectActionView::StopXray,
        connect_next(connect_next(m, ConnectEventView::TunStarted(Err(d))).0, ConnectEventView::Done)
            == connect_fail(
            connect_next(m, ConnectEventView::TunStarted(Err(d))).0,
            connect_error_text(ConnectStage::TunStart, d),
        ),
{
}

/// Xray is started with the configuration built from the fetched
/// subscription, and the tunnel around that subscription's server.
pub proof fn lemma_connect_uses_fetched_config(m: ConnectFlowView, c: VlessConfigView)
    requires
        m.phase == ConnectPhase::Fetching,
    ensures
        ({
            let (m1, _) = connect_next(m, ConnectEventView::Fetched(Ok(c)));
            let (m2, a2) = connect_next(m1, ConnectEventView::Located(Ok(())));
            let (m3, _) = connect_next(m2, ConnectEventView::XrayStarted(Ok(())));
            let (_, a4) = connect_next(m3, ConnectEventView::Done);
            &&& a2 == ConnectActionView::StartXray(xray_config(c))
            &&& a4 == ConnectActionView::StartTun(c.host)
        }),
{
}

/// The connect sequence works on what it fetched: the configuration is set
/// only by a successful fetch (and then to what was fetched), the
/// subscription URL never changes, and every action that names a server
/// names the fetched configuration's: Xray is started with the
/// configuration built from it, the tunnel is brought up around its host,
/// the ping target is its host and port, and success reports its remark,
/// host and port.
pub proof fn lemma_connect_acts_on_fetched_config(m: ConnectFlowView, e: ConnectEventView)
    ensures
        ({
            let (m2, a) = connect_next(m, e);
            &&& m2.sub_url == m.sub_url
            &&& m2.config != m.config ==> e == ConnectEventView::Fetched(Ok(m2.config->0))
                && m2.config is Some
            &&& a matches ConnectActionView::Fetch(u) ==> u == m.sub_url
            &&& a matches ConnectActionView::StartXray(j) ==> (m.config is Some && j == xray_config(
                m.config->0,
            ))
            &&& a matches ConnectActionView::StartTun(h) ==> (m.config is Some && h == m.config->0.host)
            &&& a matches ConnectActionView::SetPingTarget(h, p) ==> (m.config is Some && h
                == m.config->0.host && p == m.config->0.port)
            &&& a matches ConnectActionView::Finish(Ok(r)) ==> (m.config is Some && r == (
                m.config->0.remark,
                m.config->0.host,
                m.config->0.port,
            ))
        }),
{
}

} // verus!
