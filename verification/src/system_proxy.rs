//! The macOS system SOCKS proxy, set and unset through `networksetup` on
//! every active network service.
use vstd::prelude::*;

use crate::command::{command, ArgList, CommandSpec, CommandView};
use crate::session::std_lines;
use crate::text::{
    chars_of, find_line_end, lemma_line_end, push_padded_unsigned, string_from_chars,
    to_owned_string, trim, trim_bounds, decimal,
};
use crate::tun::cmd;

verus! {

/// The command that lists the network services.
pub open spec fn list_services_command() -> CommandView {
    cmd("networksetup"@, seq!["-listallnetworkservices"@])
}

pub fn list_services() -> (r: CommandSpec)
    ensures
        r@ == list_services_command(),
{
    let mut a = ArgList::new();
    a.push("-listallnetworkservices");
    assert(a.items.deep_view() =~= seq!["-listallnetworkservices"@]);
    command("networksetup", a)
}

/// The services among `lines`: lines that are not blank and do not start
/// with `*` (a disabled service), trimmed.
pub open spec fn active_services(lines: Seq<Seq<char>>) -> Seq<Seq<char>>
    decreases lines.len(),
{
    if lines.len() == 0 {
        Seq::empty()
    } else {
        let l = lines[0];
        (if trim(l).len() > 0 && !(l.len() > 0 && l[0] == '*') {
            seq![trim(l)]
        } else {
            Seq::empty()
        }) + active_services(lines.drop_first())
    }
}

/// The active services in `networksetup -listallnetworkservices` output;
/// its first line is a header.
pub open spec fn network_services(output: Seq<char>) -> Seq<Seq<char>> {
    active_services(without_first(std_lines(output)))
}

/// `lines` without its first element (empty stays empty).
pub open spec fn without_first(lines: Seq<Seq<char>>) -> Seq<Seq<char>> {
    if lines.len() == 0 {
        lines
    } else {
        lines.skip(1)
    }
}

/// Reads the active services out of the listing (see `network_services`).
pub fn parse_network_services(output: &str) -> (r: Vec<String>)
    ensures
        r.deep_view() == network_services(output@),
{
    let v = chars_of(output);
    let mut out: Vec<String> = Vec::new();
    let mut start: usize = 0;
    let mut first = true;
    proof {
        assert(v@.skip(0) =~= v@);
        assert(out.deep_view() =~= Seq::<Seq<char>>::empty());
    }
    while start < v.len()
        invariant
            start <= v@.len(),
            v@ == output@,
            first ==> start == 0,
            network_services(output@) == out.deep_view() + if first {
                active_services(without_first(std_lines(v@.skip(start as int))))
            } else {
                active_services(std_lines(v@.skip(start as int)))
            },
        decreases v@.len() - start,
    {
        let ghost s = v@.skip(start as int);
        let ghost prev = out.deep_view();
        let e = find_line_end(&v, start);
        proof {
            lemma_line_end(s);
        }
        let mut hi = e;
        if e < v.len() && e > start && v[e - 1] == '\r' {
            hi = e - 1;
        }
        let ghost line = v@.subrange(start as int, hi as int);
        let ghost rest = if e < v@.len() { std_lines(v@.skip(e + 1)) } else { Seq::<Seq<char>>::empty() };
        proof {
            if e < v@.len() {
                assert(s.take(e - start) =~= v@.subrange(start as int, e as int));
                if e > start && v@[e - 1] == '\r' {
                    assert(s.take(e - start).drop_last() =~= line);
                } else {
                    assert(s.take(e - start) =~= line);
                }
                assert(s.skip(e - start + 1) =~= v@.skip(e + 1));
            } else {
                assert(s =~= line);
            }
            assert(std_lines(s) =~= seq![line] + rest);
            assert((seq![line] + rest).skip(1) =~= rest);
            assert((seq![line] + rest)[0] == line);
            assert((seq![line] + rest).drop_first() =~= rest);
        }
        if !first {
            let (lo, thi) = trim_bounds(&v, start, hi);
            let starred = hi > start && v[start] == '*';
            if lo < thi && !starred {
                out.push(string_from_chars(&v, lo, thi));
                assert(out.deep_view() =~= prev + seq![trim(line)]);
            }
            proof {
                assert(active_services(seq![line] + rest) =~= (if trim(line).len() > 0 && !(line.len()
                    > 0 && line[0] == '*') {
                    seq![trim(line)]
                } else {
                    Seq::empty()
                }) + active_services(rest));
            }
        }
        first = false;
        if e >= v.len() {
            proof {
                assert(active_services(Seq::<Seq<char>>::empty()) == Seq::<Seq<char>>::empty());
                assert(v@.skip(v@.len() as int) =~= Seq::<char>::empty());
                assert(std_lines(Seq::<char>::empty()) == Seq::<Seq<char>>::empty());
            }
            start = v.len();
        } else {
            start = e + 1;
        }
    }
    proof {
        assert(v@.skip(start as int) =~= Seq::<char>::empty());
        assert(std_lines(Seq::<char>::empty()) == Seq::<Seq<char>>::empty());
        assert(active_services(Seq::<Seq<char>>::empty()) == Seq::<Seq<char>>::empty());
        assert(out.deep_view() + Seq::<Seq<char>>::empty() =~= out.deep_view());
    }
    out
}

/// Why the proxy could not be set.
#[derive(Debug, Clone, Copy, PartialEq, Eq, Structural)]
pub enum ProxyError {
    NoActiveServices,
}

impl ProxyError {
    pub fn message(&self) -> (r: String)
        ensures
            r@ == "no active network services found"@,
    {
        to_owned_string("no active network services found")
    }
}

pub open spec fn set_proxy(service: Seq<char>, host: Seq<char>, port: u16) -> CommandView {
    cmd("networksetup"@, seq!["-setsocksfirewallproxy"@, service, host, decimal(port as int)])
}

pub open spec fn set_proxy_state(service: Seq<char>, state: Seq<char>) -> CommandView {
    cmd("networksetup"@, seq!["-setsocksfirewallproxystate"@, service, state])
}

/// Enabling the proxy: on each service, point the SOCKS proxy at
/// `host:port`, then switch it on.
pub open spec fn enable_commands(services: Seq<Seq<char>>, host: Seq<char>, port: u16) -> Seq<CommandView>
    decreases services.len(),
{
    if services.len() == 0 {
        Seq::empty()
    } else {
        enable_commands(services.drop_last(), host, port).push(set_proxy(services.last(), host, port)).push(
            set_proxy_state(services.last(), "on"@),
        )
    }
}

/// Disabling the proxy: switch it off on each service.
pub open spec fn disable_commands(services: Seq<Seq<char>>) -> Seq<CommandView>
    decreases services.len(),
{
    if services.len() == 0 {
        Seq::empty()
    } else {
        disable_commands(services.drop_last()).push(set_proxy_state(services.last(), "off"@))
    }
}

fn state_command(service: &str, state: &str) -> (r: CommandSpec)
    ensures
        r@ == set_proxy_state(service@, state@),
{
    let mut a = ArgList::new();
    a.push("-setsocksfirewallproxystate");
    a.push(service);
    a.push(state);
    assert(a.items.deep_view() =~= seq!["-setsocksfirewallproxystate"@, service@, state@]);
    command("networksetup", a)
}

/// The commands that enable the proxy on `services`; an error where there
/// is no active service.
pub fn enable_socks_commands(services: &Vec<String>, host: &str, port: u16) -> (r: Result<
    Vec<CommandSpec>,
    ProxyError,
>)
    ensures
        services@.len() == 0 <==> r is Err,
        r matches Ok(cmds) ==> cmds@.map_values(|c: CommandSpec| c@) == enable_commands(
            services.deep_view(),
            host@,
            port,
        ),
{
    if services.len() == 0 {
        return Err(ProxyError::NoActiveServices);
    }
    let mut port_text = String::new();
    push_padded_unsigned(&mut port_text, port as u64, 0);
    let mut out: Vec<CommandSpec> = Vec::new();
    let ghost sv = services.deep_view();
    let mut i: usize = 0;
    assert(sv.take(0) =~= Seq::<Seq<char>>::empty());
    while i < services.len()
        invariant
            i <= services@.len(),
            sv == services.deep_view(),
            port_text@ == decimal(port as int),
            out@.map_values(|c: CommandSpec| c@) == enable_commands(sv.take(i as int), host@, port),
        decreases services@.len() - i,
    {
        let svc = services[i].as_str();
        let mut a = ArgList::new();
        a.push("-setsocksfirewallproxy");
        a.push(svc);
        a.push(host);
        a.push(port_text.as_str());
        assert(a.items.deep_view() =~= set_proxy(sv[i as int], host@, port).args);
        let ghost prev = out@.map_values(|c: CommandSpec| c@);
        out.push(command("networksetup", a));
        out.push(state_command(svc, "on"));
        assert(sv.take(i + 1).drop_last() =~= sv.take(i as int));
        assert(out@.map_values(|c: CommandSpec| c@) =~= prev.push(set_proxy(sv[i as int], host@, port)).push(
            set_proxy_state(sv[i as int], "on"@),
        ));
        i = i + 1;
    }
    assert(sv.take(sv.len() as int) =~= sv);
    Ok(out)
}

/// The commands that disable the proxy on `services`.
pub fn disable_socks_commands(services: &Vec<String>) -> (r: Vec<CommandSpec>)
    ensures
        r@.map_values(|c: CommandSpec| c@) == disable_commands(services.deep_view()),
{
    let mut out: Vec<CommandSpec> = Vec::new();
    let ghost sv = services.deep_view();
    let mut i: usize = 0;
    assert(sv.take(0) =~= Seq::<Seq<char>>::empty());
    while i < services.len()
        invariant
            i <= services@.len(),
            sv == services.deep_view(),
            out@.map_values(|c: CommandSpec| c@) == disable_commands(sv.take(i as int)),
        decreases services@.len() - i,
    {
        let ghost prev = out@.map_values(|c: CommandSpec| c@);
        out.push(state_command(services[i].as_str(), "off"));
        assert(sv.take(i + 1).drop_last() =~= sv.take(i as int));
        assert(out@.map_values(|c: CommandSpec| c@) =~= prev.push(set_proxy_state(sv[i as int], "off"@)));
        i = i + 1;
    }
    assert(sv.take(sv.len() as int) =~= sv);
    out
}

} // verus!
