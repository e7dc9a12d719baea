use proxysvpn::command::CommandSpec;
use proxysvpn::session::{
    cleanup_plan, connect_error, connect_result, connect_step, pid_file_contents, pid_file_location,
    read_pid_file_server_ips, ConnectAction, ConnectEvent, ConnectFlow, ConnectPhase, ConnectStage,
};
use proxysvpn::subscription::{build_xray_config, VlessConfig};

fn cmd_line(c: &CommandSpec) -> String {
    let mut s = c.program.clone();
    for a in &c.args {
        s.push(' ');
        s.push_str(a);
    }
    s
}

#[test]
fn pid_file_format() {
    assert_eq!(pid_file_contents(4242, "203.0.113.9"), "pid=4242\nserver_ip=203.0.113.9\n");
    assert_eq!(pid_file_location(), "/tmp/proxysvpn-desktop.pid");
}

#[test]
fn pid_file_round_trip() {
    let text = pid_file_contents(7, "198.51.100.1");
    assert_eq!(read_pid_file_server_ips(&text), vec!["198.51.100.1".to_string()]);
}

#[test]
fn pid_file_lines_are_read_like_str_lines() {
    assert_eq!(
        read_pid_file_server_ips("pid=1\r\nserver_ip=1.1.1.1\r\nserver_ip=2.2.2.2"),
        vec!["1.1.1.1".to_string(), "2.2.2.2".to_string()]
    );
    assert_eq!(read_pid_file_server_ips(""), Vec::<String>::new());
    assert_eq!(read_pid_file_server_ips(" server_ip=x\n"), Vec::<String>::new());
}

#[test]
fn cleanup_without_pid_file() {
    let plan = cleanup_plan(&None);
    assert!(!plan.remove_pid_file);
    let lines: Vec<String> = plan.commands.iter().map(cmd_line).collect();
    assert_eq!(
        lines,
        vec![
            "/usr/bin/pkill -9 -x tun2socks",
            "/usr/bin/pkill -9 -x xray",
            "/sbin/route -n delete -net 0.0.0.0/1",
            "/sbin/route -n delete -net 128.0.0.0/1",
            "/sbin/ifconfig utun225 down",
        ]
    );
}

#[test]
fn cleanup_with_pid_file() {
    let plan = cleanup_plan(&Some("pid=9\nserver_ip=5.6.7.8\n".to_string()));
    assert!(plan.remove_pid_file);
    assert_eq!(plan.commands.len(), 6);
    assert_eq!(cmd_line(&plan.commands[5]), "/sbin/route -n delete -host 5.6.7.8");
}

#[test]
fn connect_report() {
    let cfg = VlessConfig {
        uuid: "u".to_string(),
        host: "vpn.example".to_string(),
        port: 443,
        encryption: "none".to_string(),
        public_key: "k".to_string(),
        short_id: String::new(),
        sni: "vpn.example".to_string(),
        fingerprint: "chrome".to_string(),
        flow: String::new(),
        spider_x: String::new(),
        remark: "Main".to_string(),
    };
    let r = connect_result(&cfg);
    assert!(r.ok);
    assert_eq!((r.remark.as_str(), r.host.as_str(), r.port), ("Main", "vpn.example", 443));
}

#[test]
fn connect_error_texts() {
    assert_eq!(connect_error(ConnectStage::Subscription, "missing port"), "subscription: missing port");
    assert_eq!(connect_error(ConnectStage::XrayStart, "boom"), "xray start: boom");
    assert_eq!(connect_error(ConnectStage::TunStart, "x"), "tun start: x");
    assert_eq!(connect_error(ConnectStage::XrayLocate, "not found"), "not found");
}

fn sample_config() -> VlessConfig {
    VlessConfig {
        uuid: "u".to_string(),
        host: "vpn.example".to_string(),
        port: 443,
        encryption: "none".to_string(),
        public_key: "k".to_string(),
        short_id: String::new(),
        sni: "vpn.example".to_string(),
        fingerprint: "chrome".to_string(),
        flow: String::new(),
        spider_x: String::new(),
        remark: "Main".to_string(),
    }
}

fn to_fetching(flow: &mut ConnectFlow) {
    assert!(matches!(connect_step(flow, ConnectEvent::Begin), ConnectAction::StopTun));
    assert!(matches!(connect_step(flow, ConnectEvent::Done), ConnectAction::StopXray));
    match connect_step(flow, ConnectEvent::Done) {
        ConnectAction::Fetch(url) => assert_eq!(url, "https://sub.example/s"),
        _ => panic!("expected a fetch"),
    }
}

#[test]
fn connect_sequence_succeeds() {
    let mut flow = ConnectFlow::new("https://sub.example/s".to_string());
    assert!(flow.phase() == ConnectPhase::Init);
    to_fetching(&mut flow);
    assert!(matches!(
        connect_step(&mut flow, ConnectEvent::Fetched(Ok(sample_config()))),
        ConnectAction::LocateXray
    ));
    match connect_step(&mut flow, ConnectEvent::Located(Ok(()))) {
        ConnectAction::StartXray(j) => assert!(j == build_xray_config(&sample_config())),
        _ => panic!("expected xray start"),
    }
    match connect_step(&mut flow, ConnectEvent::XrayStarted(Ok(()))) {
        ConnectAction::Wait(ms) => assert_eq!(ms, 400),
        _ => panic!("expected a wait"),
    }
    match connect_step(&mut flow, ConnectEvent::Done) {
        ConnectAction::StartTun(h) => assert_eq!(h, "vpn.example"),
        _ => panic!("expected tunnel start"),
    }
    assert!(matches!(connect_step(&mut flow, ConnectEvent::TunStarted(Ok(()))), ConnectAction::ReadServerIp));
    match connect_step(&mut flow, ConnectEvent::ServerIp(Some("203.0.113.5".to_string()))) {
        ConnectAction::WritePidFile(ip) => assert_eq!(ip, "203.0.113.5"),
        _ => panic!("expected a PID file write"),
    }
    match connect_step(&mut flow, ConnectEvent::Done) {
        ConnectAction::SetPingTarget(h, p) => assert_eq!((h.as_str(), p), ("vpn.example", 443)),
        _ => panic!("expected the ping target"),
    }
    match connect_step(&mut flow, ConnectEvent::Done) {
        ConnectAction::Finish(Ok(r)) => {
            assert!(r.ok);
            assert_eq!((r.remark.as_str(), r.host.as_str(), r.port), ("Main", "vpn.example", 443));
        }
        _ => panic!("expected success"),
    }
    assert!(flow.phase() == ConnectPhase::Finished);
}

#[test]
fn connect_without_server_ip_skips_pid_file() {
    let mut flow = ConnectFlow::new("https://sub.example/s".to_string());
    to_fetching(&mut flow);
    connect_step(&mut flow, ConnectEvent::Fetched(Ok(sample_config())));
    connect_step(&mut flow, ConnectEvent::Located(Ok(())));
    connect_step(&mut flow, ConnectEvent::XrayStarted(Ok(())));
    connect_step(&mut flow, ConnectEvent::Done);
    connect_step(&mut flow, ConnectEvent::TunStarted(Ok(())));
    assert!(matches!(
        connect_step(&mut flow, ConnectEvent::ServerIp(None)),
        ConnectAction::SetPingTarget(_, 443)
    ));
}

#[test]
fn connect_subscription_failure() {
    let mut flow = ConnectFlow::new("https://sub.example/s".to_string());
    to_fetching(&mut flow);
    match connect_step(&mut flow, ConnectEvent::Fetched(Err("no vless:// link found".to_string()))) {
        ConnectAction::Finish(Err(e)) => assert_eq!(e, "subscription: no vless:// link found"),
        _ => panic!("expected failure"),
    }
}

#[test]
fn connect_xray_failures() {
    let mut flow = ConnectFlow::new("https://sub.example/s".to_string());
    to_fetching(&mut flow);
    connect_step(&mut flow, ConnectEvent::Fetched(Ok(sample_config())));
    match connect_step(&mut flow, ConnectEvent::Located(Err("xray not found".to_string()))) {
        ConnectAction::Finish(Err(e)) => assert_eq!(e, "xray not found"),
        _ => panic!("expected failure"),
    }
    let mut flow = ConnectFlow::new("https://sub.example/s".to_string());
    to_fetching(&mut flow);
    connect_step(&mut flow, ConnectEvent::Fetched(Ok(sample_config())));
    connect_step(&mut flow, ConnectEvent::Located(Ok(())));
    match connect_step(&mut flow, ConnectEvent::XrayStarted(Err("exited".to_string()))) {
        ConnectAction::Finish(Err(e)) => assert_eq!(e, "xray start: exited"),
        _ => panic!("expected failure"),
    }
}

#[test]
fn connect_tun_failure_stops_xray() {
    let mut flow = ConnectFlow::new("https://sub.example/s".to_string());
    to_fetching(&mut flow);
    connect_step(&mut flow, ConnectEvent::Fetched(Ok(sample_config())));
    connect_step(&mut flow, ConnectEvent::Located(Ok(())));
    connect_step(&mut flow, ConnectEvent::XrayStarted(Ok(())));
    connect_step(&mut flow, ConnectEvent::Done);
    assert!(matches!(
        connect_step(&mut flow, ConnectEvent::TunStarted(Err("must run as root".to_string()))),
        ConnectAction::StopXray
    ));
    match connect_step(&mut flow, ConnectEvent::Done) {
        ConnectAction::Finish(Err(e)) => assert_eq!(e, "tun start: must run as root"),
        _ => panic!("expected failure"),
    }
}

#[test]
fn connect_unexpected_event() {
    let mut flow = ConnectFlow::new("https://sub.example/s".to_string());
    match connect_step(&mut flow, ConnectEvent::Done) {
        ConnectAction::Finish(Err(e)) => assert_eq!(e, "unexpected event while connecting"),
        _ => panic!("expected failure"),
    }
    assert!(flow.phase() == ConnectPhase::Finished);
}
