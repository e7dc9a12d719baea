//! Client configuration of the Hysteria 2 transport, written as YAML.
use vstd::prelude::*;

use crate::text::{decimal, push_padded_unsigned, push_str};

verus! {

/// SOCKS port of the Hysteria client; distinct from Xray's 10808.
pub const HY2_SOCKS_PORT: u16 = 10809;

/// The parameters of a Hysteria 2 server.
pub struct Hy2Config {
    pub host: String,
    pub port: u16,
    pub password: String,
    pub sni: String,
    pub insecure: bool,
    pub pin_sha256: String,
}

/// The YAML client configuration: server, auth, TLS (with `insecure` and
/// `pinSHA256` only where set), a SOCKS5 listener on 127.0.0.1:10809 and
/// fast open.
pub open spec fn hysteria_yaml(
    host: Seq<char>,
    port: u16,
    password: Seq<char>,
    sni: Seq<char>,
    insecure: bool,
    pin_sha256: Seq<char>,
) -> Seq<char> {
    "server: "@ + host + ":"@ + decimal(port as int) + "\n"@ + "auth: "@ + password + "\n"@
        + "tls:\n"@ + "  sni: "@ + sni + "\n"@ + (if insecure {
        "  insecure: true\n"@
    } else {
        Seq::empty()
    }) + (if pin_sha256.len() > 0 {
        "  pinSHA256: "@ + pin_sha256 + "\n"@
    } else {
        Seq::empty()
    }) + "socks5:\n"@ + "  listen: 127.0.0.1:"@ + decimal(HY2_SOCKS_PORT as int) + "\n"@
        + "fastOpen: true\n"@
}

/// Builds the YAML client configuration for `cfg` (see `hysteria_yaml`).
pub fn build_config(cfg: &Hy2Config) -> (r: String)
    ensures
        r@ == hysteria_yaml(cfg.host@, cfg.port, cfg.password@, cfg.sni@, cfg.insecure, cfg.pin_sha256@),
{
    let mut yaml = String::new();
    push_str(&mut yaml, "server: ");
    push_str(&mut yaml, cfg.host.as_str());
    push_str(&mut yaml, ":");
    push_padded_unsigned(&mut yaml, cfg.port as u64, 0);
    push_str(&mut yaml, "\n");
    push_str(&mut yaml, "auth: ");
    push_str(&mut yaml, cfg.password.as_str());
    push_str(&mut yaml, "\n");
    push_str(&mut yaml, "tls:\n");
    push_str(&mut yaml, "  sni: ");
    push_str(&mut yaml, cfg.sni.as_str());
    push_str(&mut yaml, "\n");
    let ghost a = yaml@;
    if cfg.insecure {
        push_str(&mut yaml, "  insecure: true\n");
    }
    let ghost b = yaml@;
    if !cfg.pin_sha256.as_str().is_empty() {
        push_str(&mut yaml, "  pinSHA256: ");
        push_str(&mut yaml, cfg.pin_sha256.as_str());
        push_str(&mut yaml, "\n");
    }
    let ghost c = yaml@;
    push_str(&mut yaml, "socks5:\n");
    push_str(&mut yaml, "  listen: 127.0.0.1:");
    push_padded_unsigned(&mut yaml, HY2_SOCKS_PORT as u64, 0);
    push_str(&mut yaml, "\n");
    push_str(&mut yaml, "fastOpen: true\n");
    assert(yaml@ =~= hysteria_yaml(cfg.host@, cfg.port, cfg.password@, cfg.sni@, cfg.insecure, cfg.pin_sha256@));
    yaml
}

/// The Hysteria SOCKS listener never collides with the one Xray opens for
/// the TUN bridge.
pub proof fn lemma_socks_ports_distinct()
    ensures
        HY2_SOCKS_PORT != crate::tun::SOCKS_PORT,
{
}

} // verus!
