//! Coordinates and gains as formulas over single-precision values.
//!
//! A metadata ramp asks for a value between two others. Which two, and how far
//! along, is decided here; the arithmetic itself is carried out on the formula
//! by whoever owns a floating-point unit. Signs and bounds of a plain value are
//! resolved at once.
use crate::numeric::{clamp, clamped, negate, negated, MINUS_ONE, ONE};
use vstd::prelude::*;

verus! {

/// One coordinate or gain.
#[derive(Debug, PartialEq, Eq)]
pub enum Level {
    /// The value with this bit pattern.
    Exact(u32),
    /// `from + (to - from) * (elapsed / duration)`, each step in single precision.
    Blend { from: Box<Level>, to: Box<Level>, elapsed: u32, duration: u32 },
    /// The value with the opposite sign.
    Negated(Box<Level>),
    /// The value brought into `[-1, 1]`.
    Unit(Box<Level>),
}

impl Level {
    pub fn dup(&self) -> (r: Level)
        ensures
            r == *self,
        decreases self,
    {
        match self {
            Level::Exact(bits) => Level::Exact(*bits),
            Level::Blend { from, to, elapsed, duration } => Level::Blend {
                from: Box::new(from.dup()),
                to: Box::new(to.dup()),
                elapsed: *elapsed,
                duration: *duration,
            },
            Level::Negated(inner) => Level::Negated(Box::new(inner.dup())),
            Level::Unit(inner) => Level::Unit(Box::new(inner.dup())),
        }
    }

    pub open spec fn opposite(self) -> Level {
        match self {
            Level::Exact(bits) => Level::Exact(negated(bits)),
            _ => Level::Negated(Box::new(self)),
        }
    }

    pub open spec fn unit(self) -> Level {
        match self {
            Level::Exact(bits) => Level::Exact(clamped(bits, MINUS_ONE, ONE)),
            _ => Level::Unit(Box::new(self)),
        }
    }

    pub fn into_opposite(self) -> (r: Level)
        ensures
            r == self.opposite(),
    {
        match self {
            Level::Exact(bits) => Level::Exact(negate(bits)),
            other => Level::Negated(Box::new(other)),
        }
    }

    pub fn into_unit(self) -> (r: Level)
        ensures
            r == self.unit(),
    {
        match self {
            Level::Exact(bits) => Level::Exact(clamp(bits, MINUS_ONE, ONE)),
            other => Level::Unit(Box::new(other)),
        }
    }
}

pub fn dup_level(level: &Option<Level>) -> (r: Option<Level>)
    ensures
        r == *level,
{
    match level {
        Some(level) => Some(level.dup()),
        None => None,
    }
}

impl Level {
    /// The number that a formula stands for, where `reading` tells what number a bit
    /// pattern stands for. Rounding is left out.
    pub open spec fn value(self, reading: spec_fn(u32) -> real) -> real
        decreases self,
    {
        match self {
            Level::Exact(bits) => reading(bits),
            Level::Blend { from, to, elapsed, duration } => from.value(reading) + (to.value(reading)
                - from.value(reading)) * (elapsed as real / duration as real),
            Level::Negated(inner) => 0real - inner.value(reading),
            Level::Unit(inner) => if inner.value(reading) < 0real - 1real {
                0real - 1real
            } else if inner.value(reading) > 1real {
                1real
            } else {
                inner.value(reading)
            },
        }
    }
}

/// Turning a level over gives the number with the opposite sign, and turning it over
/// twice gives the level's own number.
pub proof fn the_opposite_of_a_level_has_the_opposite_number(
    level: Level,
    reading: spec_fn(u32) -> real,
)
    requires
        forall|bits: u32| reading(#[trigger] negated(bits)) == 0real - reading(bits),
    ensures
        level.opposite().value(reading) == 0real - level.value(reading),
        level.opposite().opposite().value(reading) == level.value(reading),
{
    reveal_with_fuel(Level::value, 3);
}

/// A unit level lies within one of zero. A level that lies there already keeps its
/// number, and one that does not stops at the nearer end.
pub proof fn a_unit_level_stays_within_one(level: Level, reading: spec_fn(u32) -> real)
    requires
        reading(0x3f80_0000) == 1real,
        reading(0xbf80_0000) == 0real - 1real,
        forall|a: u32, b: u32|
            #![trigger reading(a), reading(b)]
            crate::numeric::below(a, b) <==> reading(a) < reading(b),
    ensures
        0real - 1real <= level.unit().value(reading) <= 1real,
        0real - 1real <= level.value(reading) <= 1real ==> level.unit().value(reading)
            == level.value(reading),
        level.value(reading) > 1real ==> level.unit().value(reading) == 1real,
        level.value(reading) < 0real - 1real ==> level.unit().value(reading) == 0real - 1real,
{
    match level {
        Level::Exact(bits) => {
            assert(crate::numeric::below(bits, MINUS_ONE) <==> reading(bits) < reading(MINUS_ONE));
            assert(crate::numeric::below(ONE, bits) <==> reading(ONE) < reading(bits));
        },
        _ => {},
    }
}

} // verus!
