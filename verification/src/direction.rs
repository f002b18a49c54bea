//! Face-normal directions.
//!
//! One fixed convention is used everywhere: Forward is +Z, Back is -Z, Up is
//! +Y, Down is -Y, Right is +X and Left is -X.

use vstd::prelude::*;

verus! {

/// One of the six axis-aligned face directions of a voxel.
#[derive(Clone, Copy, PartialEq, Eq, Structural, Debug, Hash)]
pub enum Direction {
    /// Positive Z.
    Forward,
    /// Negative Z.
    Back,
    /// Positive Y.
    Up,
    /// Negative Y.
    Down,
    /// Positive X.
    Right,
    /// Negative X.
    Left,
}

impl Direction {
    /// Position of this direction in the face lookup table, in `[0, 6)`.
    pub open spec fn spec_index(self) -> int {
        match self {
            Direction::Forward => 0,
            Direction::Back => 1,
            Direction::Up => 2,
            Direction::Down => 3,
            Direction::Right => 4,
            Direction::Left => 5,
        }
    }

    /// Position of this direction in the face lookup table.
    pub fn index(self) -> (i: usize)
        ensures
            i == self.spec_index(),
    {
        match self {
            Direction::Forward => 0,
            Direction::Back => 1,
            Direction::Up => 2,
            Direction::Down => 3,
            Direction::Right => 4,
            Direction::Left => 5,
        }
    }

    /// The direction of the opposite face.
    pub open spec fn spec_opposite(self) -> Direction {
        match self {
            Direction::Forward => Direction::Back,
            Direction::Back => Direction::Forward,
            Direction::Up => Direction::Down,
            Direction::Down => Direction::Up,
            Direction::Right => Direction::Left,
            Direction::Left => Direction::Right,
        }
    }

    /// Unit offset toward the cell this face borders.
    pub open spec fn spec_offset(self) -> (int, int, int) {
        match self {
            Direction::Forward => (0, 0, 1),
            Direction::Back => (0, 0, -1),
            Direction::Up => (0, 1, 0),
            Direction::Down => (0, -1, 0),
            Direction::Right => (1, 0, 0),
            Direction::Left => (-1, 0, 0),
        }
    }
}

} // verus!
