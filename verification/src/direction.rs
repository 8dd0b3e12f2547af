//! Eight-way logical movement direction, plus a neutral rest value.
//!
//! A direction converts to a pair of axis components and can be shifted one
//! step towards a compass point, following a fixed adjacency table: shifting
//! up from `Neutral` gives `Up`, from `Down` gives `Neutral`, from `Right`
//! gives `UpRight`, and a direction already pointing up is left unchanged.

use vstd::prelude::*;

verus! {

#[derive(Debug, Clone, Copy, PartialEq, Eq, Structural)]
pub enum Direction {
    Up,
    Right,
    Down,
    Left,
    UpLeft,
    UpRight,
    DownLeft,
    DownRight,
    Neutral,
}

impl Default for Direction {
    fn default() -> (r: Self)
        ensures
            r == Direction::Neutral,
    {
        Direction::Neutral
    }
}

impl Direction {
    /// Horizontal axis component; positive points left in world space.
    pub open spec fn spec_x(self) -> i8 {
        match self {
            Direction::Left | Direction::UpLeft | Direction::DownLeft => 1,
            Direction::Right | Direction::UpRight | Direction::DownRight => -1i8,
            Direction::Neutral | Direction::Up | Direction::Down => 0,
        }
    }

    /// Vertical axis component; positive points up in world space.
    pub open spec fn spec_y(self) -> i8 {
        match self {
            Direction::Up | Direction::UpLeft | Direction::UpRight => 1,
            Direction::Down | Direction::DownLeft | Direction::DownRight => -1i8,
            Direction::Neutral | Direction::Left | Direction::Right => 0,
        }
    }

    pub fn x(&self) -> (r: i8)
        ensures
            r == self.spec_x(),
    {
        match self {
            Direction::Left | Direction::UpLeft | Direction::DownLeft => 1,
            Direction::Right | Direction::UpRight | Direction::DownRight => -1,
            Direction::Neutral | Direction::Up | Direction::Down => 0,
        }
    }

    pub fn y(&self) -> (r: i8)
        ensures
            r == self.spec_y(),
    {
        match self {
            Direction::Up | Direction::UpLeft | Direction::UpRight => 1,
            Direction::Down | Direction::DownLeft | Direction::DownRight => -1,
            Direction::Neutral | Direction::Left | Direction::Right => 0,
        }
    }

    pub open spec fn spec_shift_up(self) -> Direction {
        match self {
            Direction::Neutral => Direction::Up,
            Direction::Down => Direction::Neutral,
            Direction::Right => Direction::UpRight,
            Direction::Left => Direction::UpLeft,
            Direction::DownLeft => Direction::Left,
            Direction::DownRight => Direction::Right,
            Direction::Up | Direction::UpLeft | Direction::UpRight => self,
        }
    }

    pub open spec fn spec_shift_down(self) -> Direction {
        match self {
            Direction::Neutral => Direction::Down,
            Direction::Up => Direction::Neutral,
            Direction::Right => Direction::DownRight,
            Direction::Left => Direction::DownLeft,
            Direction::UpLeft => Direction::Left,
            Direction::UpRight => Direction::Right,
            Direction::Down | Direction::DownLeft | Direction::DownRight => self,
        }
    }

    pub open spec fn spec_shift_left(self) -> Direction {
        match self {
            Direction::Neutral => Direction::Left,
            Direction::Right => Direction::Neutral,
            Direction::Down => Direction::DownLeft,
            Direction::Up => Direction::UpLeft,
            Direction::UpRight => Direction::Up,
            Direction::DownRight => Direction::Down,
            Direction::Left | Direction::UpLeft | Direction::DownLeft => self,
        }
    }

    pub open spec fn spec_shift_right(self) -> Direction {
        match self {
            Direction::Neutral => Direction::Right,
            Direction::Left => Direction::Neutral,
            Direction::Down => Direction::DownRight,
            Direction::Up => Direction::UpRight,
            Direction::UpLeft => Direction::Up,
            Direction::DownLeft => Direction::Down,
            Direction::Right | Direction::UpRight | Direction::DownRight => self,
        }
    }

    pub fn shift_up(&self) -> (r: Direction)
        ensures
            r == self.spec_shift_up(),
    {
        match self {
            Direction::Neutral => Direction::Up,
            Direction::Down => Direction::Neutral,
            Direction::Right => Direction::UpRight,
            Direction::Left => Direction::UpLeft,
            Direction::DownLeft => Direction::Left,
            Direction::DownRight => Direction::Right,
            Direction::Up | Direction::UpLeft | Direction::UpRight => *self,
        }
    }

    pub fn shift_down(&self) -> (r: Direction)
        ensures
            r == self.spec_shift_down(),
    {
        match self {
            Direction::Neutral => Direction::Down,
            Direction::Up => Direction::Neutral,
            Direction::Right => Direction::DownRight,
            Direction::Left => Direction::DownLeft,
            Direction::UpLeft => Direction::Left,
            Direction::UpRight => Direction::Right,
            Direction::Down | Direction::DownLeft | Direction::DownRight => *self,
        }
    }

    pub fn shift_left(&self) -> (r: Direction)
        ensures
            r == self.spec_shift_left(),
    {
        match self {
            Direction::Neutral => Direction::Left,
            Direction::Right => Direction::Neutral,
            Direction::Down => Direction::DownLeft,
            Direction::Up => Direction::UpLeft,
            Direction::UpRight => Direction::Up,
            Direction::DownRight => Direction::Down,
            Direction::Left | Direction::UpLeft | Direction::DownLeft => *self,
        }
    }

    pub fn shift_right(&self) -> (r: Direction)
        ensures
            r == self.spec_shift_right(),
    {
        match self {
            Direction::Neutral => Direction::Right,
            Direction::Left => Direction::Neutral,
            Direction::Down => Direction::DownRight,
            Direction::Up => Direction::UpRight,
            Direction::UpLeft => Direction::Up,
            Direction::DownLeft => Direction::Down,
            Direction::Right | Direction::UpRight | Direction::DownRight => *self,
        }
    }
}

impl Direction {
    /// Picks one of the nine directions uniformly at random.
    pub fn pick_random(&self) -> (r: Self) {
        match crate::rng::sample_inclusive(0, 8) {
            0 => Direction::Up,
            1 => Direction::Right,
            2 => Direction::Down,
            3 => Direction::Left,
            4 => Direction::UpLeft,
            5 => Direction::UpRight,
            6 => Direction::DownLeft,
            7 => Direction::DownRight,
            _ => Direction::Neutral,
        }
    }
}

/// Shifting up four times in a row always lands on an upward-pointing
/// direction, never back on `Neutral`, and that direction is a fixed point of
/// further upward shifts.
pub proof fn lemma_shift_up_four_is_stable(d: Direction)
    ensures
        ({
            let r = d.spec_shift_up().spec_shift_up().spec_shift_up().spec_shift_up();
            (r == Direction::Up || r == Direction::UpLeft || r == Direction::UpRight)
                && r.spec_shift_up() == r
        }),
{
}

} // verus!
