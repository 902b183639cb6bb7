//! Locale-aware number formatting options.

use vstd::prelude::*;

verus! {

/// How a floating-point number is rendered: the notations the native
/// formatter takes as a format character.
#[derive(Clone, Copy, Debug, PartialEq, Eq, Structural)]
pub enum FloatFormat {
    /// Fixed notation, e.g. `1234.50`.
    Fixed,
    /// Scientific notation, e.g. `1.2345e+03`.
    Scientific,
    /// The shorter of fixed and scientific.
    General,
}

impl FloatFormat {
    /// The format character: `f`, `e` or `g`.
    pub fn code(self) -> (c: u8)
        ensures
            c == (match self {
                FloatFormat::Fixed => 102u8,
                FloatFormat::Scientific => 101u8,
                FloatFormat::General => 103u8,
            }),
    {
        match self {
            FloatFormat::Fixed => 102u8,
            FloatFormat::Scientific => 101u8,
            FloatFormat::General => 103u8,
        }
    }
}

} // verus!
