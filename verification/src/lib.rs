//! Signal transforms for two-channel, 16-bit PCM audio: channel
//! de-interleaving, first-order finite differences with wraparound
//! arithmetic, and block-wise spectral aggregation.

// The `wav` crate marks every one of its items as deprecated.
#![allow(deprecated)]

pub mod blocks;
pub mod channels;
pub mod container;
pub mod difference;
pub mod error;
pub mod output;
pub mod spectral;
