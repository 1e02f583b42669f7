//! Verified core of a telemetry-overlay video render pipeline.
//!
//! Decoded raw RGBA frames flow through a compositor that overlays
//! time-indexed telemetry text and pre-rendered OSD graphics, and the
//! composited frames are handed to an encoder process. This crate holds
//! the verified logic: telemetry data model, text formatting and layout,
//! the frame compositor with its cursor-based merge of time-ordered
//! sources, the message protocol, and the construction of the decoder
//! and encoder command lines. Process spawning, glyph rasterization and
//! file parsing live outside, around this library.

pub mod channel;
pub mod command;
pub mod compositor;
pub mod messages;
pub mod overlay;
pub mod srt_data;
pub mod text;
