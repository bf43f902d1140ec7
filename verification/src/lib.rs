//! Streaming track-lifecycle and zone-dwell event engine.
//!
//! A video pipeline feeds this library once per frame: an external detector
//! proposes bounding boxes, an external matcher assigns stable track
//! identities, and this crate keeps the per-track metadata table consistent
//! with the matcher's track table, evaluates every track against configured
//! polygonal zones, and emits at most one dwell event per (track, zone)
//! registration cycle.

pub mod app_error;
pub mod app_settings;
pub mod clock;
pub mod detection;
pub mod events;
pub mod geometry;
pub mod laws;
pub mod publisher;
pub mod strfmt;
pub mod tracker;
pub mod video_capture;
pub mod zones;
