//! Decoder library for DMX-512 lighting-control captures.
//!
//! An external signal-analysis engine reports a capture as a stream of
//! timestamped symbol events (annotations).  This crate folds such a stream
//! into complete 512-channel lighting frames: `annotation` holds the event
//! vocabulary and the parser for raw annotation records, `state_machine` the
//! framing state machine that assembles one frame per acquisition cycle,
//! `supervisor` the cycle loop that drains an event stream and emits the
//! completed frames, and `framebuffer` the pixel buffer used by the
//! downstream display path.

pub mod annotation;
pub mod framebuffer;
pub mod grammar;
pub mod state_machine;
pub mod supervisor;
