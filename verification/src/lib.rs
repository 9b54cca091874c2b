//! Audio-reactive logic engine.
//!
//! The crate turns a raw audio buffer into an analysis snapshot (beat
//! markers, transients, a loudness contour, a magnitude spectrum and a
//! tempo estimate) and evaluates a user-authored node-and-edge dataflow
//! graph against such a snapshot at a playback instant, emitting discrete
//! effect actions.
//!
//! All quantities are fixed-point integers: one unit is a thousandth
//! (`fixed::SCALE`), so an amplitude of `1.0` is `1000` and a time of
//! `0.5` seconds is `500`.  Beat and transient timestamps are seconds in
//! these units throughout; the feature extractor converts sample indices
//! to seconds at its boundary.

pub mod fixed;
pub mod analysis;
pub mod eval;
pub mod graph;
pub mod laws;
pub mod spectrum;
pub mod values;
