//! Grid positions and the four directions of travel.

use std::ops::Add;
use vstd::prelude::*;
use vstd::std_specs::ops::AddSpecImpl;

verus! {

/// A cell of the grid as `(x, y)`, or a step from one cell to another.
///
/// `x` grows to the right and `y` grows downwards.
#[derive(Debug, PartialEq, Eq, Copy, Clone, Structural)]
pub struct Pos(pub i32, pub i32);

/// The step one cell to the right, `(1, 0)`.
#[verifier::when_used_as_spec(spec_direction_right)]
pub fn direction_right() -> (d: Pos)
    ensures
        d == spec_direction_right(),
{
    Pos(1, 0)
}

/// The step one cell to the left, `(-1, 0)`.
#[verifier::when_used_as_spec(spec_direction_left)]
pub fn direction_left() -> (d: Pos)
    ensures
        d == spec_direction_left(),
{
    Pos(-1, 0)
}

/// The step one cell up, `(0, -1)`.
#[verifier::when_used_as_spec(spec_direction_up)]
pub fn direction_up() -> (d: Pos)
    ensures
        d == spec_direction_up(),
{
    Pos(0, -1)
}

/// The step one cell down, `(0, 1)`.
#[verifier::when_used_as_spec(spec_direction_down)]
pub fn direction_down() -> (d: Pos)
    ensures
        d == spec_direction_down(),
{
    Pos(0, 1)
}

/// The step one cell to the right, `(1, 0)`, for use in contracts.
pub open spec fn spec_direction_right() -> Pos {
    Pos(1, 0)
}

/// The step one cell to the left, `(-1, 0)`, for use in contracts.
pub open spec fn spec_direction_left() -> Pos {
    Pos(-1i32, 0)
}

/// The step one cell up, `(0, -1)`, for use in contracts.
pub open spec fn spec_direction_up() -> Pos {
    Pos(0, -1i32)
}

/// The step one cell down, `(0, 1)`, for use in contracts.
pub open spec fn spec_direction_down() -> Pos {
    Pos(0, 1)
}

impl Pos {
    /// The vector sum of two positions, where both coordinates fit.
    pub open spec fn plus(self, other: Pos) -> Pos {
        Pos((self.0 + other.0) as i32, (self.1 + other.1) as i32)
    }

    /// Whether both coordinates of the sum with `other` fit in an `i32`.
    pub open spec fn can_add(self, other: Pos) -> bool {
        &&& i32::MIN <= self.0 + other.0 <= i32::MAX
        &&& i32::MIN <= self.1 + other.1 <= i32::MAX
    }

    /// Whether this is one of the four unit steps.
    pub open spec fn is_direction(self) -> bool {
        ||| self == direction_right()
        ||| self == direction_left()
        ||| self == direction_up()
        ||| self == direction_down()
    }

    /// Whether `other` undoes this step exactly: the two sum to `(0, 0)`.
    pub open spec fn is_reverse_of(self, other: Pos) -> bool {
        self.0 + other.0 == 0 && self.1 + other.1 == 0
    }
}

/// Builds the position `(x, y)`.
pub fn pos(x: i32, y: i32) -> (p: Pos)
    ensures
        p == Pos(x, y),
{
    Pos(x, y)
}

impl AddSpecImpl for Pos {
    open spec fn obeys_add_spec() -> bool {
        true
    }

    open spec fn add_req(self, other: Pos) -> bool {
        self.can_add(other)
    }

    open spec fn add_spec(self, other: Pos) -> Pos {
        self.plus(other)
    }
}

impl Add for Pos {
    type Output = Pos;

    /// Adds coordinate by coordinate.
    fn add(self, other: Pos) -> (sum: Pos) {
        Pos(self.0 + other.0, self.1 + other.1)
    }
}

} // verus!
