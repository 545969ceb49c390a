//! Core logic of a full-screen "blinder" overlay: a surface that stays
//! opaque black for a grace period after the user's last configured input
//! and turns fully transparent once that period has passed.
//!
//! This crate holds the verified core: label normalization, the trigger
//! set, the idle/reveal state machine, the frame compositor, the shared
//! activity signal, key/button resolution and configuration parsing.
//! Window creation, GPU presentation and platform input hooks live in the
//! host program around this library.

pub mod norm;
pub mod trigger_set;
pub mod signal;
pub mod compositor;
pub mod app_state;
pub mod keys;
pub mod config;
