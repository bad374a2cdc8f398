//! Typed configuration for the daemon, with the documented defaults.
//!
//! Loading and persisting the configuration file is I/O and lives outside the
//! library; this module owns the validated shape and the default values.

use vstd::prelude::*;

verus! {

/// Host-local settings: an optional node name and the screen-edge threshold
/// (in pixels) at which a pointer movement counts as an edge crossing.
pub struct HostConfig {
    pub name: Option<String>,
    pub display_edge_threshold: u32,
}

/// Network ports and the subnets from which peers are accepted.
pub struct NetworkConfig {
    pub discovery_port: u16,
    pub control_port: u16,
    pub allowed_subnets: Vec<String>,
}

/// Streaming tunables consumed by the (outside) stream engine.
pub struct StreamingConfig {
    pub max_fps: u32,
    pub codec: String,
    pub bitrate_mbps: u32,
    pub hardware_encode: bool,
}

/// Security and session-lifetime settings.
pub struct SecurityConfig {
    pub require_pairing: bool,
    pub session_timeout_minutes: u64,
    pub cert_path: Option<String>,
    pub key_path: Option<String>,
}

/// Input-pipeline settings. Pointer acceleration is a real-valued tunable
/// applied outside the verified pipeline and is not represented here.
pub struct InputConfig {
    pub enable_smooth_scroll: bool,
    pub edge_activation_delay_ms: u32,
}

/// The whole configuration surface recognized by the daemon.
pub struct Config {
    pub host: HostConfig,
    pub network: NetworkConfig,
    pub streaming: StreamingConfig,
    pub security: SecurityConfig,
    pub input: InputConfig,
}

pub fn default_edge_threshold() -> (r: u32)
    ensures
        r == 10,
{
    10
}

pub fn default_discovery_port() -> (r: u16)
    ensures
        r == 5353,
{
    5353
}

pub fn default_control_port() -> (r: u16)
    ensures
        r == 8443,
{
    8443
}

pub fn default_max_fps() -> (r: u32)
    ensures
        r == 60,
{
    60
}

pub fn default_codec() -> (r: String)
    ensures
        r@ == "h264"@,
{
    String::from_str("h264")
}

pub fn default_bitrate() -> (r: u32)
    ensures
        r == 10,
{
    10
}

pub fn default_session_timeout() -> (r: u64)
    ensures
        r == 60,
{
    60
}

pub fn default_edge_activation_delay() -> (r: u32)
    ensures
        r == 100,
{
    100
}

pub fn default_true() -> (r: bool)
    ensures
        r,
{
    true
}

impl Default for HostConfig {
    fn default() -> (r: Self)
        ensures
            r.name is None,
            r.display_edge_threshold == 10,
    {
        HostConfig { name: None, display_edge_threshold: default_edge_threshold() }
    }
}

impl Default for NetworkConfig {
    fn default() -> (r: Self)
        ensures
            r.discovery_port == 5353,
            r.control_port == 8443,
            r.allowed_subnets@.len() == 2,
            r.allowed_subnets@[0]@ == "192.168.0.0/16"@,
            r.allowed_subnets@[1]@ == "10.0.0.0/8"@,
    {
        let mut subnets: Vec<String> = Vec::new();
        subnets.push(String::from_str("192.168.0.0/16"));
        subnets.push(String::from_str("10.0.0.0/8"));
        NetworkConfig {
            discovery_port: default_discovery_port(),
            control_port: default_control_port(),
            allowed_subnets: subnets,
        }
    }
}

impl Default for StreamingConfig {
    fn default() -> (r: Self)
        ensures
            r.max_fps == 60,
            r.codec@ == "h264"@,
            r.bitrate_mbps == 10,
            r.hardware_encode,
    {
        StreamingConfig {
            max_fps: default_max_fps(),
            codec: default_codec(),
            bitrate_mbps: default_bitrate(),
            hardware_encode: default_true(),
        }
    }
}

impl Default for SecurityConfig {
    fn default() -> (r: Self)
        ensures
            r.require_pairing,
            r.session_timeout_minutes == 60,
            r.cert_path is None,
            r.key_path is None,
    {
        SecurityConfig {
            require_pairing: default_true(),
            session_timeout_minutes: default_session_timeout(),
            cert_path: None,
            key_path: None,
        }
    }
}

impl Default for InputConfig {
    fn default() -> (r: Self)
        ensures
            r.enable_smooth_scroll,
            r.edge_activation_delay_ms == 100,
    {
        InputConfig {
            enable_smooth_scroll: default_true(),
            edge_activation_delay_ms: default_edge_activation_delay(),
        }
    }
}

impl Default for Config {
    fn default() -> (r: Self)
        ensures
            r.host.name is None,
            r.host.display_edge_threshold == 10,
            r.network.discovery_port == 5353,
            r.network.control_port == 8443,
            r.security.session_timeout_minutes == 60,
    {
        Config {
            host: HostConfig::default(),
            network: NetworkConfig::default(),
            streaming: StreamingConfig::default(),
            security: SecurityConfig::default(),
            input: InputConfig::default(),
        }
    }
}

} // verus!
