//! Core of a software-KVM input-sharing daemon: pointer capture with
//! edge-crossing detection, a peer-discovery registry, and per-peer session
//! and mouse-ownership arbitration. The surrounding daemon (device polling,
//! mDNS networking, configuration files) lives outside this library and
//! drives it with plain values.

pub mod config;
pub mod discovery;
pub mod input;
pub mod sequtil;
pub mod session;
pub mod strutil;
pub mod timesource;
