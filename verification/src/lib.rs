//! Verified core of a desktop VPN client.
pub mod calendar;
pub mod command;
pub mod hysteria;
pub mod json;
pub mod logger;
pub mod ping;
pub mod platform;
pub mod process;
pub mod session;
pub mod subscription;
pub mod system_proxy;
pub mod text;
pub mod tun;
