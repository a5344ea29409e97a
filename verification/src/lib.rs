//! Verified core of the NetHound network appliance: packet decoding,
//! firewall bookkeeping, DHCP lease lookup, hostapd event handling and
//! the challenge/response authentication rules.

pub mod text;
pub mod wire;
pub mod packet_data;
pub mod command;
pub mod firewall;
pub mod pairs;
pub mod hostapd;
pub mod monitor;
pub mod traffic_log;
pub mod netlab;
pub mod auth;
pub mod services;
