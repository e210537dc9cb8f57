//! Mirrors the mixing state of an audio-mixing device into a streaming
//! application: a status mirror fed by full snapshots and patches, a
//! change detector that emits only the volume and mute updates that matter,
//! and the pure rules (volume curve, mute resolution) underneath.

pub mod channels;
pub mod config;
pub mod curve;
pub mod detector;
pub mod discovery;
pub mod engine;
pub mod mirror;
pub mod mute;
pub mod patch;
pub mod pointer;
pub mod snapshot;
