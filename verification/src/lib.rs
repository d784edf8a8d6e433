//! Verified core of two in-game editor tweaks.
//!
//! The tweaks hook a running game, so everything they do to it (reading and
//! writing its memory, arming breakpoints, drawing widgets) happens outside
//! this crate. What is decided about those operations is here: each decision
//! is a function from plain values to plain values, with a contract.

pub mod capture;
pub mod frame;
pub mod frame_end;
pub mod frame_steps;
pub mod frame_writes;
pub mod microcontroller_size;
pub mod pattern;
pub mod property_editor;
pub mod render;
pub mod threads;
pub mod tweak;
pub mod watch;
