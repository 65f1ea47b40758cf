//! Driver core for a 17x7 LED matrix: a scrolling text buffer, a glyph font,
//! and pluggable display backends (an I2C matrix controller and two terminal
//! backends for development without hardware).

pub mod display;
pub mod font;
pub mod scroller;
pub mod shared;

use vstd::prelude::*;

verus! {

/// The two failure kinds the library reports.
#[derive(Clone, Copy, Debug, PartialEq, Eq, Structural)]
pub enum Error {
    /// A bus operation failed while a frame was being transmitted.
    TransmissionFailure,
    /// The device construction or reset sequence failed.
    InitializationFailure,
}

} // verus!
