//! Core state of a chat overlay for a real-time 3D scene: a chronologically
//! ordered, channel-tagged message log with a channel registry and a
//! prune/restore retention policy, together with the display-filter rule the
//! overlay applies when one channel is selected.
//!
//! The rendering, windowing and camera layers sit outside this crate and talk
//! to it through plain values.

pub mod chat_history;
pub mod display;
pub mod laws;
