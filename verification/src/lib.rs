//! Verified core of a LAN link-speed tester built around iperf3:
//! text handling, byte formatting, iperf3 command construction, output
//! parsing, test history and report bookkeeping.

pub mod text;
pub mod units;
pub mod clock;
pub mod history;
pub mod platform;
pub mod windows_path;
pub mod network;
pub mod iperf;
pub mod report;
pub mod config;
pub mod web;
pub mod api;
