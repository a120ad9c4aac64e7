//! Decision logic of a transparent TCP forwarder that diverts outbound
//! connections through a SOCKS5 proxy.
//!
//! Every part that touches the operating system (sockets, child processes,
//! signal handlers, firewall commands) lives with the caller. This crate holds
//! the rules: which destinations are redirected, how an original destination
//! is recovered, what is sent to the proxy, and in which order the firewall is
//! installed and removed whatever goes wrong in between.
//!
//! The parts that wait on the outside world are written as machines: the
//! caller performs the action a machine asks for and hands back what happened.

pub mod client;
pub mod command;
pub mod coordinator;
pub mod firewall;
pub mod forwarder;
pub mod listener;
pub mod machine;
pub mod network;
pub mod text;
pub mod tunnel;
