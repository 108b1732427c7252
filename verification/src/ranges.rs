//! The range type that range sampling works on: a pair of inclusive
//! bounds, normalized from whichever bound kinds the caller had.

use vstd::prelude::*;

verus! {

/// An inclusive range of values, `start..=end_inclusive`.
///
/// Sampling demands `start <= end_inclusive`; handing an inverted range
/// to a sampler is a usage error, which the samplers' preconditions
/// reject rather than silently correct.
#[derive(Clone, Copy, Debug, PartialEq, Eq, Structural)]
pub struct GenerateRange<T> {
    pub start: T,
    pub end_inclusive: T,
}

impl<T> GenerateRange<T> {
    /// The range `start..=end_inclusive`.
    pub fn new(start: T, end_inclusive: T) -> (r: Self)
        ensures
            r == (GenerateRange { start, end_inclusive }),
    {
        GenerateRange { start, end_inclusive }
    }
}

impl GenerateRange<u8> {
    /// The half-open range `start..end`; an `end` at the type's
    /// minimum has no inclusive form, which is a usage error.
    pub fn half_open(start: u8, end: u8) -> (r: Self)
        requires
            end >= 1,
        ensures
            r.start == start,
            r.end_inclusive == end - 1,
    {
        GenerateRange { start, end_inclusive: end - 1 }
    }

    /// The unbounded range `..`, covering every value of the type.
    pub fn unbounded() -> (r: Self)
        ensures
            r.start == 0,
            r.end_inclusive == u8::MAX,
    {
        GenerateRange { start: 0, end_inclusive: u8::MAX }
    }

    /// The range `..=end`, unbounded below.
    pub fn up_to_inclusive(end: u8) -> (r: Self)
        ensures
            r.start == 0,
            r.end_inclusive == end,
    {
        GenerateRange { start: 0, end_inclusive: end }
    }
}

impl GenerateRange<u16> {
    /// The half-open range `start..end`; an `end` at the type's
    /// minimum has no inclusive form, which is a usage error.
    pub fn half_open(start: u16, end: u16) -> (r: Self)
        requires
            end >= 1,
        ensures
            r.start == start,
            r.end_inclusive == end - 1,
    {
        GenerateRange { start, end_inclusive: end - 1 }
    }

    /// The unbounded range `..`, covering every value of the type.
    pub fn unbounded() -> (r: Self)
        ensures
            r.start == 0,
            r.end_inclusive == u16::MAX,
    {
        GenerateRange { start: 0, end_inclusive: u16::MAX }
    }

    /// The range `..=end`, unbounded below.
    pub fn up_to_inclusive(end: u16) -> (r: Self)
        ensures
            r.start == 0,
            r.end_inclusive == end,
    {
        GenerateRange { start: 0, end_inclusive: end }
    }
}

impl GenerateRange<u32> {
    /// The half-open range `start..end`; an `end` at the type's
    /// minimum has no inclusive form, which is a usage error.
    pub fn half_open(start: u32, end: u32) -> (r: Self)
        requires
            end >= 1,
        ensures
            r.start == start,
            r.end_inclusive == end - 1,
    {
        GenerateRange { start, end_inclusive: end - 1 }
    }

    /// The unbounded range `..`, covering every value of the type.
    pub fn unbounded() -> (r: Self)
        ensures
            r.start == 0,
            r.end_inclusive == u32::MAX,
    {
        GenerateRange { start: 0, end_inclusive: u32::MAX }
    }

    /// The range `..=end`, unbounded below.
    pub fn up_to_inclusive(end: u32) -> (r: Self)
        ensures
            r.start == 0,
            r.end_inclusive == end,
    {
        GenerateRange { start: 0, end_inclusive: end }
    }
}

impl GenerateRange<u64> {
    /// The half-open range `start..end`; an `end` at the type's
    /// minimum has no inclusive form, which is a usage error.
    pub fn half_open(start: u64, end: u64) -> (r: Self)
        requires
            end >= 1,
        ensures
            r.start == start,
            r.end_inclusive == end - 1,
    {
        GenerateRange { start, end_inclusive: end - 1 }
    }

    /// The unbounded range `..`, covering every value of the type.
    pub fn unbounded() -> (r: Self)
        ensures
            r.start == 0,
            r.end_inclusive == u64::MAX,
    {
        GenerateRange { start: 0, end_inclusive: u64::MAX }
    }

    /// The range `..=end`, unbounded below.
    pub fn up_to_inclusive(end: u64) -> (r: Self)
        ensures
            r.start == 0,
            r.end_inclusive == end,
    {
        GenerateRange { start: 0, end_inclusive: end }
    }
}

impl GenerateRange<u128> {
    /// The half-open range `start..end`; an `end` at the type's
    /// minimum has no inclusive form, which is a usage error.
    pub fn half_open(start: u128, end: u128) -> (r: Self)
        requires
            end >= 1,
        ensures
            r.start == start,
            r.end_inclusive == end - 1,
    {
        GenerateRange { start, end_inclusive: end - 1 }
    }

    /// The unbounded range `..`, covering every value of the type.
    pub fn unbounded() -> (r: Self)
        ensures
            r.start == 0,
            r.end_inclusive == u128::MAX,
    {
        GenerateRange { start: 0, end_inclusive: u128::MAX }
    }

    /// The range `..=end`, unbounded below.
    pub fn up_to_inclusive(end: u128) -> (r: Self)
        ensures
            r.start == 0,
            r.end_inclusive == end,
    {
        GenerateRange { start: 0, end_inclusive: end }
    }
}

impl GenerateRange<usize> {
    /// The half-open range `start..end`; an `end` at the type's
    /// minimum has no inclusive form, which is a usage error.
    pub fn half_open(start: usize, end: usize) -> (r: Self)
        requires
            end >= 1,
        ensures
            r.start == start,
            r.end_inclusive == end - 1,
    {
        GenerateRange { start, end_inclusive: end - 1 }
    }

    /// The unbounded range `..`, covering every value of the type.
    pub fn unbounded() -> (r: Self)
        ensures
            r.start == 0,
            r.end_inclusive == usize::MAX,
    {
        GenerateRange { start: 0, end_inclusive: usize::MAX }
    }

    /// The range `..=end`, unbounded below.
    pub fn up_to_inclusive(end: usize) -> (r: Self)
        ensures
            r.start == 0,
            r.end_inclusive == end,
    {
        GenerateRange { start: 0, end_inclusive: end }
    }
}

impl GenerateRange<i8> {
    /// The half-open range `start..end`; an `end` at the type's
    /// minimum has no inclusive form, which is a usage error.
    pub fn half_open(start: i8, end: i8) -> (r: Self)
        requires
            end > i8::MIN,
        ensures
            r.start == start,
            r.end_inclusive == end - 1,
    {
        GenerateRange { start, end_inclusive: end - 1 }
    }

    /// The unbounded range `..`, covering every value of the type.
    pub fn unbounded() -> (r: Self)
        ensures
            r.start == i8::MIN,
            r.end_inclusive == i8::MAX,
    {
        GenerateRange { start: i8::MIN, end_inclusive: i8::MAX }
    }

    /// The range `..=end`, unbounded below.
    pub fn up_to_inclusive(end: i8) -> (r: Self)
        ensures
            r.start == i8::MIN,
            r.end_inclusive == end,
    {
        GenerateRange { start: i8::MIN, end_inclusive: end }
    }
}

impl GenerateRange<i16> {
    /// The half-open range `start..end`; an `end` at the type's
    /// minimum has no inclusive form, which is a usage error.
    pub fn half_open(start: i16, end: i16) -> (r: Self)
        requires
            end > i16::MIN,
        ensures
            r.start == start,
            r.end_inclusive == end - 1,
    {
        GenerateRange { start, end_inclusive: end - 1 }
    }

    /// The unbounded range `..`, covering every value of the type.
    pub fn unbounded() -> (r: Self)
        ensures
            r.start == i16::MIN,
            r.end_inclusive == i16::MAX,
    {
        GenerateRange { start: i16::MIN, end_inclusive: i16::MAX }
    }

    /// The range `..=end`, unbounded below.
    pub fn up_to_inclusive(end: i16) -> (r: Self)
        ensures
            r.start == i16::MIN,
            r.end_inclusive == end,
    {
        GenerateRange { start: i16::MIN, end_inclusive: end }
    }
}

impl GenerateRange<i32> {
    /// The half-open range `start..end`; an `end` at the type's
    /// minimum has no inclusive form, which is a usage error.
    pub fn half_open(start: i32, end: i32) -> (r: Self)
        requires
            end > i32::MIN,
        ensures
            r.start == start,
            r.end_inclusive == end - 1,
    {
        GenerateRange { start, end_inclusive: end - 1 }
    }

    /// The unbounded range `..`, covering every value of the type.
    pub fn unbounded() -> (r: Self)
        ensures
            r.start == i32::MIN,
            r.end_inclusive == i32::MAX,
    {
        GenerateRange { start: i32::MIN, end_inclusive: i32::MAX }
    }

    /// The range `..=end`, unbounded below.
    pub fn up_to_inclusive(end: i32) -> (r: Self)
        ensures
            r.start == i32::MIN,
            r.end_inclusive == end,
    {
        GenerateRange { start: i32::MIN, end_inclusive: end }
    }
}

impl GenerateRange<i64> {
    /// The half-open range `start..end`; an `end` at the type's
    /// minimum has no inclusive form, which is a usage error.
    pub fn half_open(start: i64, end: i64) -> (r: Self)
        requires
            end > i64::MIN,
        ensures
            r.start == start,
            r.end_inclusive == end - 1,
    {
        GenerateRange { start, end_inclusive: end - 1 }
    }

    /// The unbounded range `..`, covering every value of the type.
    pub fn unbounded() -> (r: Self)
        ensures
            r.start == i64::MIN,
            r.end_inclusive == i64::MAX,
    {
        GenerateRange { start: i64::MIN, end_inclusive: i64::MAX }
    }

    /// The range `..=end`, unbounded below.
    pub fn up_to_inclusive(end: i64) -> (r: Self)
        ensures
            r.start == i64::MIN,
            r.end_inclusive == end,
    {
        GenerateRange { start: i64::MIN, end_inclusive: end }
    }
}

impl GenerateRange<i128> {
    /// The half-open range `start..end`; an `end` at the type's
    /// minimum has no inclusive form, which is a usage error.
    pub fn half_open(start: i128, end: i128) -> (r: Self)
        requires
            end > i128::MIN,
        ensures
            r.start == start,
            r.end_inclusive == end - 1,
    {
        GenerateRange { start, end_inclusive: end - 1 }
    }

    /// The unbounded range `..`, covering every value of the type.
    pub fn unbounded() -> (r: Self)
        ensures
            r.start == i128::MIN,
            r.end_inclusive == i128::MAX,
    {
        GenerateRange { start: i128::MIN, end_inclusive: i128::MAX }
    }

    /// The range `..=end`, unbounded below.
    pub fn up_to_inclusive(end: i128) -> (r: Self)
        ensures
            r.start == i128::MIN,
            r.end_inclusive == end,
    {
        GenerateRange { start: i128::MIN, end_inclusive: end }
    }
}

impl GenerateRange<isize> {
    /// The half-open range `start..end`; an `end` at the type's
    /// minimum has no inclusive form, which is a usage error.
    pub fn half_open(start: isize, end: isize) -> (r: Self)
        requires
            end > isize::MIN,
        ensures
            r.start == start,
            r.end_inclusive == end - 1,
    {
        GenerateRange { start, end_inclusive: end - 1 }
    }

    /// The unbounded range `..`, covering every value of the type.
    pub fn unbounded() -> (r: Self)
        ensures
            r.start == isize::MIN,
            r.end_inclusive == isize::MAX,
    {
        GenerateRange { start: isize::MIN, end_inclusive: isize::MAX }
    }

    /// The range `..=end`, unbounded below.
    pub fn up_to_inclusive(end: isize) -> (r: Self)
        ensures
            r.start == isize::MIN,
            r.end_inclusive == end,
    {
        GenerateRange { start: isize::MIN, end_inclusive: end }
    }
}

} // verus!
