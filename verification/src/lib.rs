//! Streaming building blocks for ZoneMinder monitors: Annex B / ADTS
//! bitstream helpers, the stream-socket wire protocol, fMP4 (HLS) segment
//! generation, access-unit assembly for WebRTC and keyframe caching.

pub mod wire;
pub mod media;
pub mod h264;
pub mod protocol;
pub mod fmp4;
pub mod segmenter;
pub mod config;
pub mod webrtc;
pub mod fifo;
pub mod stream_socket;
pub mod text;
pub mod router;
pub mod snapshot;
pub mod vod;
pub mod worker_status;
pub mod coordinator;
pub mod mse;
pub mod storage;
pub mod session;
pub mod playlist;
pub mod audio;
pub mod command;
