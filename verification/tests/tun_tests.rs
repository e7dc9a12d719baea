use proxysvpn::command::CommandSpec;
use proxysvpn::ping::{IpAddress, SocketAddress};
use proxysvpn::tun::{
    parse_default_gateway, pick_ipv4, tun2socks_args, tun_start_step, tun_stop_plan, StopStep,
    TunAction, TunError, TunEvent, TunPhase, TunStart,
};

fn cmd_line(c: &CommandSpec) -> String {
    let mut s = c.program.clone();
    for a in &c.args {
        s.push(' ');
        s.push_str(a);
    }
    s
}

fn v6() -> SocketAddress {
    SocketAddress { ip: IpAddress::V6(0x2001, 0xdb8, 0, 0, 0, 0, 0, 1), port: 443 }
}

fn v4(a: u8, b: u8, c: u8, d: u8) -> SocketAddress {
    SocketAddress { ip: IpAddress::V4(a, b, c, d), port: 443 }
}

#[test]
fn first_ipv4_is_picked() {
    assert_eq!(pick_ipv4(&vec![v6(), v4(203, 0, 113, 7), v4(1, 2, 3, 4)]), Some("203.0.113.7".to_string()));
    assert_eq!(pick_ipv4(&vec![v6()]), None);
    assert_eq!(pick_ipv4(&vec![]), None);
}

#[test]
fn gateway_is_read_from_route_output() {
    let out = "   route to: default\ndestination: default\n       mask: default\n    gateway: 192.168.1.1\n  interface: en0\n";
    assert_eq!(parse_default_gateway(out), Some("192.168.1.1".to_string()));
    assert_eq!(parse_default_gateway("gateway:10.0.0.1\r\n"), Some("10.0.0.1".to_string()));
    assert_eq!(parse_default_gateway("route: bad\n"), None);
    assert_eq!(parse_default_gateway(""), None);
}

#[test]
fn bridge_arguments() {
    assert_eq!(
        tun2socks_args(),
        vec!["-device", "utun225", "-proxy", "socks5://127.0.0.1:10808", "-loglevel", "info"]
    );
}

fn run_line(a: &TunAction) -> String {
    match a {
        TunAction::Run(c) => cmd_line(c),
        TunAction::ReadDefaultRoute(c) => cmd_line(c),
        TunAction::CheckInterface { delay_ms, check } => format!("wait {} {}", delay_ms, cmd_line(check)),
        TunAction::LocateBridge => "locate".to_string(),
        TunAction::Lookup(t) => format!("lookup {}", t),
        TunAction::SpawnBridge(args) => format!("spawn {}", args.join(" ")),
        TunAction::KillBridge => "kill".to_string(),
        TunAction::Finish(Ok(up)) => format!("up {} {}", up.server_ip, up.gateway),
        TunAction::Finish(Err(e)) => format!("error {}", e.message()),
    }
}

#[test]
fn tunnel_comes_up() {
    let mut m = TunStart::new(true, false, "vpn.example".to_string());
    let mut seen = Vec::new();
    seen.push(run_line(&tun_start_step(&mut m, TunEvent::Begin)));
    seen.push(run_line(&tun_start_step(&mut m, TunEvent::Located(Ok(())))));
    seen.push(run_line(&tun_start_step(&mut m, TunEvent::LookedUp(Some(vec![v6(), v4(198, 51, 100, 2)])))));
    seen.push(run_line(&tun_start_step(
        &mut m,
        TunEvent::DefaultRoute(Ok("    gateway: 192.168.0.1\n".to_string())),
    )));
    seen.push(run_line(&tun_start_step(&mut m, TunEvent::Finished(false))));
    seen.push(run_line(&tun_start_step(&mut m, TunEvent::Finished(true))));
    seen.push(run_line(&tun_start_step(&mut m, TunEvent::Finished(true))));
    seen.push(run_line(&tun_start_step(&mut m, TunEvent::Finished(false))));
    seen.push(run_line(&tun_start_step(&mut m, TunEvent::Finished(true))));
    seen.push(run_line(&tun_start_step(&mut m, TunEvent::Finished(true))));
    seen.push(run_line(&tun_start_step(&mut m, TunEvent::Finished(true))));
    seen.push(run_line(&tun_start_step(&mut m, TunEvent::Finished(true))));
    assert_eq!(
        seen,
        vec![
            "locate",
            "lookup vpn.example:443",
            "route -n get default",
            "/sbin/route -n delete -host 198.51.100.2",
            "/sbin/route -n add -host 198.51.100.2 192.168.0.1",
            "spawn -device utun225 -proxy socks5://127.0.0.1:10808 -loglevel info",
            "wait 100 /sbin/ifconfig utun225",
            "wait 100 /sbin/ifconfig utun225",
            "/sbin/ifconfig utun225 198.18.0.1 198.18.0.1 up",
            "/sbin/route -n add -net 0.0.0.0/1 -interface utun225",
            "/sbin/route -n add -net 128.0.0.0/1 -interface utun225",
            "up 198.51.100.2 192.168.0.1",
        ]
    );
    assert!(m.phase() == TunPhase::Finished);
}

#[test]
fn tunnel_needs_root() {
    let mut m = TunStart::new(false, false, "h".to_string());
    assert!(matches!(tun_start_step(&mut m, TunEvent::Begin), TunAction::Finish(Err(TunError::NotRoot))));
}

#[test]
fn tunnel_already_running() {
    let mut m = TunStart::new(true, true, "h".to_string());
    let a = tun_start_step(&mut m, TunEvent::Begin);
    assert_eq!(run_line(&a), "error tun already running");
}

#[test]
fn device_timeout_cleans_up() {
    let mut m = TunStart::new(true, false, "h".to_string());
    tun_start_step(&mut m, TunEvent::Begin);
    tun_start_step(&mut m, TunEvent::Located(Ok(())));
    tun_start_step(&mut m, TunEvent::LookedUp(Some(vec![v4(1, 2, 3, 4)])));
    tun_start_step(&mut m, TunEvent::DefaultRoute(Ok("gateway: 9.9.9.9".to_string())));
    tun_start_step(&mut m, TunEvent::Finished(true));
    tun_start_step(&mut m, TunEvent::Finished(true));
    let mut checks_issued = 0;
    let mut a = tun_start_step(&mut m, TunEvent::Finished(true));
    while let TunAction::CheckInterface { .. } = a {
        checks_issued += 1;
        a = tun_start_step(&mut m, TunEvent::Finished(false));
    }
    assert_eq!(checks_issued, 50);
    assert_eq!(run_line(&a), "kill");
    let a = tun_start_step(&mut m, TunEvent::Finished(true));
    assert_eq!(run_line(&a), "/sbin/route -n delete -host 1.2.3.4");
    let a = tun_start_step(&mut m, TunEvent::Finished(true));
    assert_eq!(run_line(&a), "error utun225 did not come up within 5s");
}

#[test]
fn start_errors() {
    let mut m = TunStart::new(true, false, "h".to_string());
    tun_start_step(&mut m, TunEvent::Begin);
    let a = tun_start_step(&mut m, TunEvent::Located(Err("tun2socks binary not found".to_string())));
    assert_eq!(run_line(&a), "error tun2socks binary not found");

    let mut m = TunStart::new(true, false, "h".to_string());
    tun_start_step(&mut m, TunEvent::Begin);
    tun_start_step(&mut m, TunEvent::Located(Ok(())));
    assert_eq!(run_line(&tun_start_step(&mut m, TunEvent::LookedUp(None))), "error dns lookup failed for h");

    let mut m = TunStart::new(true, false, "h".to_string());
    tun_start_step(&mut m, TunEvent::Begin);
    tun_start_step(&mut m, TunEvent::Located(Ok(())));
    assert_eq!(run_line(&tun_start_step(&mut m, TunEvent::LookedUp(Some(vec![v6()])))), "error no ipv4 address for h");

    let mut m = TunStart::new(true, false, "h".to_string());
    tun_start_step(&mut m, TunEvent::Begin);
    tun_start_step(&mut m, TunEvent::Located(Ok(())));
    tun_start_step(&mut m, TunEvent::LookedUp(Some(vec![v4(1, 1, 1, 1)])));
    assert_eq!(
        run_line(&tun_start_step(&mut m, TunEvent::DefaultRoute(Ok("nothing".to_string())))),
        "error could not parse default gateway"
    );

    let mut m = TunStart::new(true, false, "h".to_string());
    tun_start_step(&mut m, TunEvent::Begin);
    tun_start_step(&mut m, TunEvent::Located(Ok(())));
    tun_start_step(&mut m, TunEvent::LookedUp(Some(vec![v4(1, 1, 1, 1)])));
    tun_start_step(&mut m, TunEvent::DefaultRoute(Ok("gateway: 2.2.2.2".to_string())));
    tun_start_step(&mut m, TunEvent::Finished(true));
    assert_eq!(run_line(&tun_start_step(&mut m, TunEvent::Finished(false))), "error add host route for VPN server");
}

#[test]
fn unexpected_event_ends_the_start() {
    let mut m = TunStart::new(true, false, "h".to_string());
    let a = tun_start_step(&mut m, TunEvent::Finished(true));
    assert!(matches!(a, TunAction::Finish(Err(TunError::UnexpectedEvent))));
}

#[test]
fn error_texts() {
    assert_eq!(TunError::SpawnBridge.message(), "spawn tun2socks");
    assert_eq!(TunError::AssignAddress.message(), "assign IP to utun225");
    assert_eq!(TunError::RouteLow.message(), "add route 0.0.0.0/1");
    assert_eq!(TunError::RouteHigh.message(), "add route 128.0.0.0/1");
    assert_eq!(
        TunError::NotRoot.message(),
        "приложение не запущено от root — перезапустите через ProxysVPN Launcher"
    );
}

#[test]
fn stop_plan_with_and_without_server() {
    let lines = |steps: Vec<StopStep>| -> Vec<String> {
        steps
            .iter()
            .map(|s| match s {
                StopStep::Run(c) => cmd_line(c),
                StopStep::KillBridge => "kill".to_string(),
            })
            .collect()
    };
    assert_eq!(
        lines(tun_stop_plan(&Some("1.2.3.4".to_string()))),
        vec![
            "/sbin/route -n delete -net 0.0.0.0/1",
            "/sbin/route -n delete -net 128.0.0.0/1",
            "/sbin/route -n delete -host 1.2.3.4",
            "/sbin/ifconfig utun225 down",
            "kill",
            "/usr/bin/pkill -x tun2socks",
        ]
    );
    assert_eq!(lines(tun_stop_plan(&None)).len(), 5);
}
