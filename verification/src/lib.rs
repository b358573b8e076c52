//! A virtual-creature simulation whose core is verified: the time-driven
//! decay model, the action transitions, the derived mood banding, the
//! persistence record codec, and the interactive event-loop state machine.
//! Reading the clock, drawing to a terminal and touching the disk stay with
//! the caller; this crate computes every decision they act on.

mod ports;

pub mod codec;
pub mod event;
pub mod monster;
pub mod mood;
pub mod render;
