//! Cycle-accurate layout of instruction streams into fixed-budget windows.

pub mod accumulator;
pub mod block;
pub mod cycles;
pub mod format_helpers;
pub mod helpers;
pub mod matcher;
pub mod models;
pub mod numbers;
pub mod output;
pub mod patterns;
pub mod rewrite;
pub mod scanline;
pub mod template;
pub mod text;
