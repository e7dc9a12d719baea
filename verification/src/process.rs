//! Launching and watching the proxy cores (Xray and Hysteria): their
//! arguments, and what a poll of the child process means.
use vstd::prelude::*;

use crate::command::{command, ArgList, CommandSpec, CommandView};
use crate::text::{push_str, to_owned_string};
use crate::tun::cmd;

verus! {

/// The environment variable that tells Xray where its geo data lives.
pub open spec fn xray_asset_env() -> Seq<char> {
    "XRAY_LOCATION_ASSET"@
}

pub fn xray_asset_env_name() -> (r: &'static str)
    ensures
        r@ == xray_asset_env(),
{
    "XRAY_LOCATION_ASSET"
}

/// How long to let Xray come up before checking that it still runs.
pub const XRAY_SETTLE_MS: u64 = 500;

/// How long to let Hysteria open its SOCKS listener.
pub const HYSTERIA_SETTLE_MS: u64 = 600;

/// Xray reads its configuration from standard input.
pub open spec fn xray_args() -> Seq<Seq<char>> {
    seq!["run"@, "-config"@, "stdin:"@]
}

pub fn xray_run_args() -> (r: Vec<String>)
    ensures
        r.deep_view() == xray_args(),
{
    let mut a = ArgList::new();
    a.push("run");
    a.push("-config");
    a.push("stdin:");
    assert(a.items.deep_view() =~= xray_args());
    a.items
}

/// Where the Hysteria configuration is written (a fixed path, so that it is
/// the same under `sudo`).
pub open spec fn hysteria_config_path() -> Seq<char> {
    "/tmp/proxysvpn-hy2.yaml"@
}

pub fn hysteria_config_location() -> (r: String)
    ensures
        r@ == hysteria_config_path(),
{
    to_owned_string("/tmp/proxysvpn-hy2.yaml")
}

/// Hysteria runs as a client with the written configuration.
pub open spec fn hysteria_args() -> Seq<Seq<char>> {
    seq!["client"@, "-c"@, hysteria_config_path()]
}

pub fn hysteria_run_args() -> (r: Vec<String>)
    ensures
        r.deep_view() == hysteria_args(),
{
    let mut a = ArgList::new();
    a.push("client");
    a.push("-c");
    a.push("/tmp/proxysvpn-hy2.yaml");
    assert(a.items.deep_view() =~= hysteria_args());
    a.items
}

/// The command that kills stray Hysteria processes.
pub open spec fn kill_hysteria() -> CommandView {
    cmd("/usr/bin/pkill"@, seq!["-x"@, "hysteria"@])
}

pub fn kill_hysteria_command() -> (r: CommandSpec)
    ensures
        r@ == kill_hysteria(),
{
    let mut a = ArgList::new();
    a.push("-x");
    a.push("hysteria");
    assert(a.items.deep_view() =~= kill_hysteria().args);
    command("/usr/bin/pkill", a)
}

/// A non-blocking poll of a child process.
pub enum ChildPoll {
    Running,
    /// It exited, with this status text.
    Exited(String),
    /// The poll failed, with this error text.
    Failed(String),
}

/// Why a proxy core did not start.
#[derive(Debug, PartialEq, Eq)]
pub enum CoreError {
    AlreadyRunning,
    Exited(String),
    PollFailed(String),
}

/// Whether a core may be started: not while one is held already.
pub fn start_allowed(has_child: bool) -> (r: Result<(), CoreError>)
    ensures
        r == (if has_child {
            Err::<(), CoreError>(CoreError::AlreadyRunning)
        } else {
            Ok(())
        }),
{
    if has_child {
        Err(CoreError::AlreadyRunning)
    } else {
        Ok(())
    }
}

/// The result of a start of Xray, given the poll made after it had time to
/// settle: it must still run.
pub open spec fn settled_outcome(poll: ChildPoll) -> Result<(), CoreError> {
    match poll {
        ChildPoll::Running => Ok(()),
        ChildPoll::Exited(s) => Err(CoreError::Exited(s)),
        ChildPoll::Failed(e) => Err(CoreError::PollFailed(e)),
    }
}

/// Judges a start of Xray after it settled (see `settled_outcome`).
pub fn check_xray_started(poll: ChildPoll) -> (r: Result<(), CoreError>)
    ensures
        r == settled_outcome(poll),
{
    match poll {
        ChildPoll::Running => Ok(()),
        ChildPoll::Exited(s) => Err(CoreError::Exited(s)),
        ChildPoll::Failed(e) => Err(CoreError::PollFailed(e)),
    }
}

/// Whether a core still runs: it was started and the poll says it runs.
/// When this is false, the caller forgets the child.
pub fn core_running(has_child: bool, poll: &ChildPoll) -> (r: bool)
    ensures
        r == (has_child && poll is Running),
{
    has_child && match poll {
        ChildPoll::Running => true,
        _ => false,
    }
}

pub open spec fn core_error_message(core: Seq<char>, e: CoreError) -> Seq<char> {
    match e {
        CoreError::AlreadyRunning => core + " already running"@,
        CoreError::Exited(s) => core + " exited with status: "@ + s@,
        CoreError::PollFailed(m) => core + " try_wait failed: "@ + m@,
    }
}

/// The text shown for a core error; `core` is the core's name.
pub fn core_error_text(core: &str, e: &CoreError) -> (r: String)
    ensures
        r@ == core_error_message(core@, *e),
{
    let mut s = to_owned_string(core);
    match e {
        CoreError::AlreadyRunning => push_str(&mut s, " already running"),
        CoreError::Exited(st) => {
            push_str(&mut s, " exited with status: ");
            push_str(&mut s, st.as_str());
        },
        CoreError::PollFailed(m) => {
            push_str(&mut s, " try_wait failed: ");
            push_str(&mut s, m.as_str());
        },
    }
    s
}

/// Whether Xray and the tunnel are both up.
pub fn vpn_status(xray_up: bool, tun_up: bool) -> (r: bool)
    ensures
        r == (xray_up && tun_up),
{
    xray_up && tun_up
}

} // verus!
