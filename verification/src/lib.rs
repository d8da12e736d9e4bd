//! Live video segmentation for HTTP Live Streaming: the rolling segment
//! store and its playlist, the growing byte buffer that lets a response
//! stream a segment while it is still being written, and the per-tick
//! decisions of the encoding pipeline.

pub mod rawbytes;
pub mod lazybytes;
pub mod shared;
pub mod text;
pub mod hls;
pub mod mpegts;
pub mod timing;
pub mod camcoder;
pub mod realtimeoutput;
pub mod segment;
pub mod service;
