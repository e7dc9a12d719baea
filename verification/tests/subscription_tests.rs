use proxysvpn::json::Json;
use proxysvpn::subscription::{
    build_xray_config, decode_remark, decode_subscription_body, find_vless_line,
    parse_subscription, parse_vless_url, strip_whitespace, subscription_text_after_decode,
    vless_config_from_url, SubscriptionError, UrlParts, VlessConfig, VlessError,
};

fn full_link() -> &'static str {
    "vless://1d5c2a3e-0000-4000-8000-0123456789ab@vpn.example.com:443?encryption=none&pbk=PUBKEY&sid=ab12&sni=cdn.example.net&fp=firefox&flow=xtls-rprx-vision&spx=%2Fpath&type=tcp&security=reality#My%20Server"
}

#[test]
fn parses_every_parameter() {
    let c = parse_vless_url(full_link()).unwrap();
    assert_eq!(c.uuid, "1d5c2a3e-0000-4000-8000-0123456789ab");
    assert_eq!(c.host, "vpn.example.com");
    assert_eq!(c.port, 443);
    assert_eq!(c.encryption, "none");
    assert_eq!(c.public_key, "PUBKEY");
    assert_eq!(c.short_id, "ab12");
    assert_eq!(c.sni, "cdn.example.net");
    assert_eq!(c.fingerprint, "firefox");
    assert_eq!(c.flow, "xtls-rprx-vision");
    assert_eq!(c.spider_x, "/path");
    assert_eq!(c.remark, "My Server");
}

#[test]
fn defaults_when_parameters_are_absent() {
    let c = parse_vless_url("vless://user@host.example:8443?pbk=K").unwrap();
    assert_eq!(c.encryption, "none");
    assert_eq!(c.fingerprint, "chrome");
    assert_eq!(c.sni, "host.example");
    assert_eq!(c.short_id, "");
    assert_eq!(c.flow, "");
    assert_eq!(c.spider_x, "");
    assert_eq!(c.remark, "");
}

#[test]
fn empty_sni_falls_back_to_host() {
    let c = parse_vless_url("vless://user@host.example:8443?pbk=K&sni=").unwrap();
    assert_eq!(c.sni, "host.example");
}

#[test]
fn last_duplicate_parameter_wins() {
    let c = parse_vless_url("vless://user@h.example:1?pbk=A&pbk=B&fp=x&fp=y").unwrap();
    assert_eq!(c.public_key, "B");
    assert_eq!(c.fingerprint, "y");
}

#[test]
fn invalid_url_is_refused() {
    assert_eq!(parse_vless_url("not a url").unwrap_err(), VlessError::InvalidUrl);
}

#[test]
fn missing_uuid_is_refused() {
    assert_eq!(parse_vless_url("vless://h.example:443?pbk=K").unwrap_err(), VlessError::MissingUuid);
}

#[test]
fn missing_port_is_refused() {
    assert_eq!(parse_vless_url("vless://u@h.example?pbk=K").unwrap_err(), VlessError::MissingPort);
}

#[test]
fn missing_public_key_is_refused() {
    assert_eq!(
        parse_vless_url("vless://u@h.example:443?sni=x").unwrap_err(),
        VlessError::MissingPublicKey
    );
    assert_eq!(
        parse_vless_url("vless://u@h.example:443?pbk=").unwrap_err(),
        VlessError::MissingPublicKey
    );
}

#[test]
fn missing_host_is_refused() {
    let parts = UrlParts {
        username: "u".to_string(),
        host: None,
        port: Some(1),
        query_pairs: vec![("pbk".to_string(), "K".to_string())],
        fragment: None,
    };
    assert_eq!(vless_config_from_url(parts).unwrap_err(), VlessError::MissingHost);
}

#[test]
fn error_messages() {
    assert_eq!(VlessError::InvalidUrl.message(), "invalid vless url");
    assert_eq!(VlessError::MissingUuid.message(), "missing uuid in vless url");
    assert_eq!(VlessError::MissingHost.message(), "missing host");
    assert_eq!(VlessError::MissingPort.message(), "missing port");
    assert_eq!(VlessError::MissingPublicKey.message(), "missing pbk (public key) in vless url");
    assert_eq!(SubscriptionError::NoVlessConfig.message(), "no vless config in subscription");
    assert_eq!(
        SubscriptionError::Vless(VlessError::MissingPort).message(),
        "missing port"
    );
}

#[test]
fn remark_is_percent_decoded_when_utf8() {
    assert_eq!(decode_remark(&Some("My%20Server".to_string())), "My Server");
    assert_eq!(decode_remark(&Some("%D0%9C%D0%BE%D1%81%D0%BA%D0%B2%D0%B0".to_string())), "Москва");
    assert_eq!(decode_remark(&Some("a+b".to_string())), "a+b");
    assert_eq!(decode_remark(&None), "");
}

#[test]
fn remark_stays_encoded_when_not_utf8() {
    assert_eq!(decode_remark(&Some("%FF".to_string())), "%FF");
}

#[test]
fn whitespace_is_stripped() {
    assert_eq!(strip_whitespace(" a\tb\nc\r\u{3000}d "), "abcd");
}

#[test]
fn base64_body_is_decoded() {
    assert_eq!(decode_subscription_body("dmxlc3M6Ly8="), "vless://");
    assert_eq!(decode_subscription_body("dmxlc3M6\n Ly8="), "vless://");
}

#[test]
fn plain_body_is_kept() {
    assert_eq!(decode_subscription_body("vless://a@b:1?pbk=k"), "vless://a@b:1?pbk=k");
    assert_eq!(decode_subscription_body("hello world"), "hello world");
}

#[test]
fn base64_of_non_utf8_keeps_body() {
    assert_eq!(decode_subscription_body("//4="), "//4=");
    assert_eq!(subscription_text_after_decode("body", Some(vec![0xff, 0xfe])), "body");
    assert_eq!(subscription_text_after_decode("body", Some(b"ok".to_vec())), "ok");
    assert_eq!(subscription_text_after_decode("body", None), "body");
}

#[test]
fn first_vless_line_is_found_and_trimmed() {
    let text = "trojan://x@y:1\r\n   vless://first  \r\nvless://second\n";
    assert_eq!(find_vless_line(text), Some("vless://first".to_string()));
    assert_eq!(find_vless_line("ss://a\nhttp://b"), None);
    assert_eq!(find_vless_line(""), None);
    assert_eq!(find_vless_line("vless://last-without-newline"), Some("vless://last-without-newline".to_string()));
}

#[test]
fn subscription_yields_first_vless_config() {
    let body = "dHJvamFuOi8veEB5OjEKdmxlc3M6Ly91QGguZXhhbXBsZTo0NDM/cGJrPUtFWSNNYWluCg==";
    let c = parse_subscription(body).unwrap();
    assert_eq!(c.uuid, "u");
    assert_eq!(c.host, "h.example");
    assert_eq!(c.port, 443);
    assert_eq!(c.public_key, "KEY");
    assert_eq!(c.remark, "Main");
}

#[test]
fn subscription_without_vless_line() {
    assert_eq!(parse_subscription("trojan://a@b:1").unwrap_err(), SubscriptionError::NoVlessConfig);
}

#[test]
fn subscription_with_bad_vless_line() {
    assert_eq!(
        parse_subscription("vless://u@h:1").unwrap_err(),
        SubscriptionError::Vless(VlessError::MissingPublicKey)
    );
}

fn field<'a>(j: &'a Json, key: &str) -> &'a Json {
    match j {
        Json::Object(fields) => &fields.iter().find(|(k, _)| k == key).expect("missing key").1,
        _ => panic!("not an object"),
    }
}

fn items(j: &Json) -> &Vec<Json> {
    match j {
        Json::Array(v) => v,
        _ => panic!("not an array"),
    }
}

fn keys(j: &Json) -> Vec<String> {
    match j {
        Json::Object(fields) => fields.iter().map(|(k, _)| k.clone()).collect(),
        _ => panic!("not an object"),
    }
}

fn string(j: &Json) -> &str {
    match j {
        Json::Str(s) => s.as_str(),
        _ => panic!("not a string"),
    }
}

fn config(flow: &str, spider_x: &str) -> VlessConfig {
    VlessConfig {
        uuid: "id-1".to_string(),
        host: "vpn.example.com".to_string(),
        port: 8443,
        encryption: "none".to_string(),
        public_key: "PK".to_string(),
        short_id: "s1".to_string(),
        sni: "sni.example".to_string(),
        fingerprint: "chrome".to_string(),
        flow: flow.to_string(),
        spider_x: spider_x.to_string(),
        remark: "r".to_string(),
    }
}

#[test]
fn xray_config_layout() {
    let j = build_xray_config(&config("xtls-rprx-vision", "/"));
    assert_eq!(keys(&j), vec!["log", "inbounds", "outbounds", "routing"]);
    assert_eq!(string(field(field(&j, "log"), "loglevel")), "warning");
    let inbound = &items(field(&j, "inbounds"))[0];
    assert!(matches!(field(inbound, "port"), Json::Number(10808)));
    assert_eq!(string(field(inbound, "listen")), "127.0.0.1");
    let outbounds = items(field(&j, "outbounds"));
    assert_eq!(outbounds.len(), 3);
    let proxy = &outbounds[0];
    assert_eq!(string(field(proxy, "protocol")), "vless");
    let vnext = &items(field(field(proxy, "settings"), "vnext"))[0];
    assert_eq!(string(field(vnext, "address")), "vpn.example.com");
    assert!(matches!(field(vnext, "port"), Json::Number(8443)));
    let user = &items(field(vnext, "users"))[0];
    assert_eq!(keys(user), vec!["id", "encryption", "flow"]);
    let reality = field(field(proxy, "streamSettings"), "realitySettings");
    assert_eq!(keys(reality), vec!["serverName", "fingerprint", "publicKey", "shortId", "spiderX"]);
    assert_eq!(string(field(reality, "publicKey")), "PK");
    let rules = items(field(field(&j, "routing"), "rules"));
    assert_eq!(rules.len(), 4);
    assert_eq!(string(field(&rules[0], "port")), "443");
    let domains = items(field(&rules[3], "domain"));
    assert_eq!(domains.len(), 52);
    assert_eq!(string(&domains[0]), "domain:yandex.ru");
    assert_eq!(string(&domains[51]), "domain:proxysvpn.com");
}

#[test]
fn optional_fields_are_left_out_when_empty() {
    let j = build_xray_config(&config("", ""));
    let proxy = &items(field(&j, "outbounds"))[0];
    let vnext = &items(field(field(proxy, "settings"), "vnext"))[0];
    let user = &items(field(vnext, "users"))[0];
    assert_eq!(keys(user), vec!["id", "encryption"]);
    let reality = field(field(proxy, "streamSettings"), "realitySettings");
    assert_eq!(keys(reality), vec!["serverName", "fingerprint", "publicKey", "shortId"]);
}
