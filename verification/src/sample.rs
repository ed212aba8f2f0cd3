//! The sample value that blocks carry, and its silence value.

use vstd::prelude::*;

verus! {

/// A single audio sample value. The engine needs nothing from a sample
/// except that it can be copied and that it has a designated silence
/// (zero) value, used to pad output past the end of the file.
pub trait Sample: Copy + Sized {
    /// The silence value, as a specification-level constant.
    spec fn silence_spec() -> Self;

    /// Returns the silence value.
    fn silence() -> (r: Self)
        ensures
            r == Self::silence_spec(),
    ;
}

impl Sample for u8 {
    open spec fn silence_spec() -> u8 {
        0
    }

    fn silence() -> u8 {
        0
    }
}

impl Sample for i16 {
    open spec fn silence_spec() -> i16 {
        0
    }

    fn silence() -> i16 {
        0
    }
}

impl Sample for i32 {
    open spec fn silence_spec() -> i32 {
        0
    }

    fn silence() -> i32 {
        0
    }
}

impl Sample for i64 {
    open spec fn silence_spec() -> i64 {
        0
    }

    fn silence() -> i64 {
        0
    }
}

} // verus!
