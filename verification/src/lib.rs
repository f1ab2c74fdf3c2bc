//! In-place terminal progress indicators: formatting, throttling, rendering
//! and cursor positioning, as pure functions over plain values.
//!
//! A [`Bar`] is advanced with the current time and the terminal's width,
//! and hands back the bytes to write whenever a frame is due. The module
//! `model` says what each operation does, and `laws` what follows for
//! every bar.

pub mod cursor;
pub mod laws;
pub mod model;
pub mod monitor;
pub mod progress;
pub mod std_bar;
pub mod styles;
pub mod term;
pub mod text;

pub use std_bar::{Bar, BarInternal};
pub use styles::{Animation, Output};
