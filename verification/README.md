# proxysvpn

The core of a desktop VPN client (VLESS Reality through Xray, a TUN device fed
by `tun2socks`, split default routes), written in Verus and proved against its
contracts.

## Layout

- `src/` — the verified library.
  - `subscription` — subscription bodies (Base64 or plain), `vless://` links,
    and the Xray configuration built from them.
  - `tun` — bringing the tunnel up (a state machine driven by the caller) and
    taking it down; the default-gateway parser.
  - `session` — the connect sequence (a state machine), the PID file and the
    clean-up at launch and exit.
  - `logger` — the bounded log buffer, the daily rotation of the log file,
    its line formats and the export.
  - `calendar` — civil dates of day numbers and ISO-8601 timestamps.
  - `ping` — the TCP latency measurement: target, lookup, probes, best time.
  - `hysteria`, `process`, `platform`, `system_proxy` — helper configuration,
    arguments, binary locations and the system SOCKS proxy commands.
  - `text`, `json`, `command` — strings, a JSON tree, command descriptions.
- `app/` — the program around the library: the user interface, processes,
  files, sockets and timers. It performs the actions that the library's state
  machines ask for and hands the outcomes back.
- `tests/` — tests of the library on concrete values.
