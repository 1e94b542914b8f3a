//! Verified core of a threshold distortion effect.
//!
//! Samples and the threshold are IEEE-754 binary32 numbers, held here as their
//! bit patterns (`u32`). Everything in this crate is integer code: the store
//! of the one parameter, the text protocol that reads and writes it, the clamp
//! stage of the effect, the digit count of its quantiser, and the bookkeeping
//! of the render loop. The arithmetic on the numbers themselves (parsing and
//! printing them, the division and the rounding to decimal places) belongs to
//! the shell around this crate.

pub mod engine;
pub mod identity;
pub mod protocol;
pub mod render;
pub mod sample;
pub mod store;
