use proxysvpn::command::CommandSpec;
use proxysvpn::system_proxy::{
    disable_socks_commands, enable_socks_commands, list_services, parse_network_services,
    ProxyError,
};

fn cmd_line(c: &CommandSpec) -> String {
    let mut s = c.program.clone();
    for a in &c.args {
        s.push(' ');
        s.push_str(a);
    }
    s
}

#[test]
fn services_listing_is_parsed() {
    let out = "An asterisk (*) denotes that a network service is disabled.\nWi-Fi\n*Bluetooth PAN\n  \nThunderbolt Bridge \nUSB 10/100/1000 LAN\n";
    assert_eq!(
        parse_network_services(out),
        vec!["Wi-Fi".to_string(), "Thunderbolt Bridge".to_string(), "USB 10/100/1000 LAN".to_string()]
    );
    assert_eq!(parse_network_services(""), Vec::<String>::new());
    assert_eq!(parse_network_services("header only"), Vec::<String>::new());
    assert_eq!(cmd_line(&list_services()), "networksetup -listallnetworkservices");
}

#[test]
fn enabling_needs_a_service() {
    assert_eq!(enable_socks_commands(&vec![], "127.0.0.1", 10808).err(), Some(ProxyError::NoActiveServices));
    assert_eq!(ProxyError::NoActiveServices.message(), "no active network services found");
}

#[test]
fn enabling_and_disabling() {
    let services = vec!["Wi-Fi".to_string(), "Ethernet".to_string()];
    let on: Vec<String> = enable_socks_commands(&services, "127.0.0.1", 10808).unwrap().iter().map(cmd_line).collect();
    assert_eq!(
        on,
        vec![
            "networksetup -setsocksfirewallproxy Wi-Fi 127.0.0.1 10808",
            "networksetup -setsocksfirewallproxystate Wi-Fi on",
            "networksetup -setsocksfirewallproxy Ethernet 127.0.0.1 10808",
            "networksetup -setsocksfirewallproxystate Ethernet on",
        ]
    );
    let off: Vec<String> = disable_socks_commands(&services).iter().map(cmd_line).collect();
    assert_eq!(
        off,
        vec!["networksetup -setsocksfirewallproxystate Wi-Fi off", "networksetup -setsocksfirewallproxystate Ethernet off"]
    );
}
