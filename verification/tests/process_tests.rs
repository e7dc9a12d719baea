use proxysvpn::hysteria::{build_config, Hy2Config};
use proxysvpn::process::{
    check_xray_started, core_error_text, core_running, hysteria_run_args, kill_hysteria_command,
    start_allowed, vpn_status, xray_asset_env_name, xray_run_args, ChildPoll, CoreError,
};

#[test]
fn hysteria_yaml_minimal() {
    let cfg = Hy2Config {
        host: "hy.example".to_string(),
        port: 8443,
        password: "secret".to_string(),
        sni: "hy.example".to_string(),
        insecure: false,
        pin_sha256: String::new(),
    };
    assert_eq!(
        build_config(&cfg),
        "server: hy.example:8443\nauth: secret\ntls:\n  sni: hy.example\nsocks5:\n  listen: 127.0.0.1:10809\nfastOpen: true\n"
    );
}

#[test]
fn hysteria_yaml_with_options() {
    let cfg = Hy2Config {
        host: "h".to_string(),
        port: 1,
        password: "p".to_string(),
        sni: "s".to_string(),
        insecure: true,
        pin_sha256: "AB:CD".to_string(),
    };
    assert_eq!(
        build_config(&cfg),
        "server: h:1\nauth: p\ntls:\n  sni: s\n  insecure: true\n  pinSHA256: AB:CD\nsocks5:\n  listen: 127.0.0.1:10809\nfastOpen: true\n"
    );
}

#[test]
fn core_arguments() {
    assert_eq!(xray_run_args(), vec!["run", "-config", "stdin:"]);
    assert_eq!(xray_asset_env_name(), "XRAY_LOCATION_ASSET");
    assert_eq!(hysteria_run_args(), vec!["client", "-c", "/tmp/proxysvpn-hy2.yaml"]);
    let k = kill_hysteria_command();
    assert_eq!(k.program, "/usr/bin/pkill");
    assert_eq!(k.args, vec!["-x", "hysteria"]);
}

#[test]
fn xray_start_check() {
    assert_eq!(check_xray_started(ChildPoll::Running), Ok(()));
    assert_eq!(
        check_xray_started(ChildPoll::Exited("exit status: 23".to_string())),
        Err(CoreError::Exited("exit status: 23".to_string()))
    );
    assert_eq!(
        core_error_text("xray", &CoreError::Exited("exit status: 23".to_string())),
        "xray exited with status: exit status: 23"
    );
    assert_eq!(core_error_text("xray", &CoreError::AlreadyRunning), "xray already running");
    assert_eq!(core_error_text("xray", &CoreError::PollFailed("e".to_string())), "xray try_wait failed: e");
}

#[test]
fn running_and_status() {
    assert!(core_running(true, &ChildPoll::Running));
    assert!(!core_running(false, &ChildPoll::Running));
    assert!(!core_running(true, &ChildPoll::Failed("x".to_string())));
    assert!(vpn_status(true, true));
    assert!(!vpn_status(true, false));
}

#[test]
fn a_second_start_is_refused() {
    assert_eq!(start_allowed(true), Err(CoreError::AlreadyRunning));
    assert_eq!(start_allowed(false), Ok(()));
}
