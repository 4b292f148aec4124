//! Integer conversions used by the other modules' specifications.
use vstd::prelude::*;

verus! {

/// A `usize` as a mathematical integer.
pub open spec fn uz(x: usize) -> int {
    x as int
}

/// An `isize` as a mathematical integer.
pub open spec fn iz(x: isize) -> int {
    x as int
}

/// A mathematical integer as a `usize` (meant for integers in `usize`'s range).
pub open spec fn zu(x: int) -> usize {
    x as usize
}

/// A natural number as a mathematical integer.
pub open spec fn nz(x: nat) -> int {
    x as int
}

/// A `usize` reinterpreted as an `isize` (two's complement, as Rust's `as` does).
pub open spec fn wrap_isize(x: usize) -> isize {
    x as isize
}

/// An `isize` reinterpreted as a `usize` (two's complement, as Rust's `as` does).
pub open spec fn wrap_usize(x: isize) -> usize {
    x as usize
}

/// Rust's `x as usize` for an `isize`.
pub fn to_usize_wrapping(x: isize) -> (r: usize)
    ensures
        r == wrap_usize(x),
{
    x as usize
}

/// Rust's `x as isize` for a `usize`.
pub fn to_isize_wrapping(x: usize) -> (r: isize)
    ensures
        r == wrap_isize(x),
{
    x as isize
}

} // verus!

verus! {

/// An `i32` as a mathematical integer.
pub open spec fn i32z(x: i32) -> int {
    x as int
}

/// A `u32` as a mathematical integer.
pub open spec fn u32z(x: u32) -> int {
    x as int
}

} // verus!
