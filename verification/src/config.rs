//! Streaming configuration as the application's settings file provides it:
//! the ZoneMinder installation and the WebRTC STUN/TURN settings.

use vstd::prelude::*;

verus! {

/// A TURN relay.
#[derive(Debug, Clone, PartialEq, Eq)]
pub struct TurnConfig {
    pub enabled: bool,
    pub server: String,
    pub username: String,
    pub password: String,
}

/// The `[streaming.webrtc]` settings.
#[derive(Debug, Clone, PartialEq, Eq)]
pub struct WebRtcConfig {
    pub stun_servers: Vec<String>,
    pub turn: Option<TurnConfig>,
    pub max_connections: u32,
}

impl Default for WebRtcConfig {
    /// No STUN servers, no TURN relay, 100 connections.
    fn default() -> (r: Self)
        ensures
            r.stun_servers@.len() == 0,
            r.turn is None,
            r.max_connections == 100,
    {
        WebRtcConfig { stun_servers: Vec::new(), turn: None, max_connections: 100 }
    }
}

/// The ZoneMinder installation the streams come from.
#[derive(Debug, Clone, PartialEq, Eq)]
pub struct ZoneMinderConfig {
    pub enabled: bool,
    /// Directory of the media FIFOs.
    pub fifo_base_path: String,
    /// Video FIFO name suffix (`/video_fifo_` selects the
    /// `video_fifo_{id}.{codec}` naming).
    pub video_fifo_suffix: String,
    /// Audio FIFO name suffix; empty for no audio FIFO.
    pub audio_fifo_suffix: String,
    pub fifo_read_timeout_ms: u64,
    pub reconnect_delay_ms: u64,
    /// Where ZoneMinder stores event recordings.
    pub events_dir: String,
    /// Directory of zmc's per-monitor stream sockets (`PATH_SOCKS`).
    pub socks_path: String,
    /// Stream-socket read timeout.
    pub read_timeout_ms: u64,
}

fn owned(s: &str) -> (r: String)
    ensures
        r@ == s@,
{
    s.to_string()
}

impl Default for ZoneMinderConfig {
    /// ZoneMinder's standard layout: FIFOs and sockets under `/run/zm`,
    /// 5 s read timeouts, 1 s reconnect delay.
    fn default() -> (r: Self)
        ensures
            r.enabled,
            r.fifo_base_path@ == "/run/zm"@,
            r.video_fifo_suffix@ == "/video_fifo_"@,
            r.audio_fifo_suffix@ == "/audio_fifo_"@,
            r.fifo_read_timeout_ms == 5000,
            r.reconnect_delay_ms == 1000,
            r.events_dir@ == "/var/lib/zoneminder/events"@,
            r.socks_path@ == "/run/zm"@,
            r.read_timeout_ms == 5000,
    {
        ZoneMinderConfig {
            enabled: true,
            fifo_base_path: owned("/run/zm"),
            video_fifo_suffix: owned("/video_fifo_"),
            audio_fifo_suffix: owned("/audio_fifo_"),
            fifo_read_timeout_ms: 5000,
            reconnect_delay_ms: 1000,
            events_dir: owned("/var/lib/zoneminder/events"),
            socks_path: owned("/run/zm"),
            read_timeout_ms: 5000,
        }
    }
}

} // verus!
