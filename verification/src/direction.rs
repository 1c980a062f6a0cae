use vstd::prelude::*;

verus! {

/// A step between squares by index: north is +8, east is +1.
#[derive(Debug, Clone, Copy, PartialEq, Eq, Structural)]
pub struct Direction(pub i8);

pub const NORTH: i8 = 8;
pub const SOUTH: i8 = -8;
pub const WEST: i8 = -1;
pub const EAST: i8 = 1;
pub const NORTHWEST: i8 = 7;
pub const SOUTHEAST: i8 = -7;
pub const NORTHEAST: i8 = 9;
pub const SOUTHWEST: i8 = -9;

/// Rank and file change of a step, `(0, 0)` for a value that is no direction.
pub open spec fn dir_deltas(v: i8) -> (int, int) {
    if v == 8 {
        (1, 0)
    } else if v == -8 {
        (-1, 0)
    } else if v == -1 {
        (0, -1)
    } else if v == 1 {
        (0, 1)
    } else if v == 9 {
        (1, 1)
    } else if v == -7 {
        (-1, 1)
    } else if v == -9 {
        (-1, -1)
    } else if v == 7 {
        (1, -1)
    } else {
        (0, 0)
    }
}

/// Position of a direction in the order N, S, W, E, NE, SE, SW, NW; 8 for none.
pub open spec fn dir_index(v: i8) -> int {
    if v == 8 {
        0
    } else if v == -8 {
        1
    } else if v == -1 {
        2
    } else if v == 1 {
        3
    } else if v == 9 {
        4
    } else if v == -7 {
        5
    } else if v == -9 {
        6
    } else if v == 7 {
        7
    } else {
        8
    }
}


/// The straight-line direction from square `from` to square `to`, or 0 when they are not
/// on one rank, file or diagonal (or are equal to each other in rank and the file step is 0).
pub open spec fn spec_get_dir(from: int, to: int) -> i8 {
    let rd = to / 8 - from / 8;
    let fd = to % 8 - from % 8;
    if rd == 0 {
        if fd > 0 { 1 } else { -1i8 }
    } else if fd == 0 {
        if rd > 0 { 8 } else { -8i8 }
    } else if rd == fd {
        if rd > 0 { 9 } else { -9i8 }
    } else if rd == -fd {
        if rd > 0 { 7 } else { -7i8 }
    } else {
        0
    }
}

impl Direction {
    pub fn value(&self) -> (r: i8)
        ensures
            r == self.0,
    {
        self.0
    }

    /// North, south, west or east.
    pub fn is_ortho(dir: Direction) -> (r: bool)
        ensures
            r == (dir.0 == 8 || dir.0 == -8 || dir.0 == -1 || dir.0 == 1),
    {
        dir.0 == 8 || dir.0 == -8 || dir.0 == -1 || dir.0 == 1
    }

    /// One of the four diagonals.
    pub fn is_diag(dir: Direction) -> (r: bool)
        ensures
            r == (dir.0 == 7 || dir.0 == -7 || dir.0 == 9 || dir.0 == -9),
    {
        dir.0 == 7 || dir.0 == -7 || dir.0 == 9 || dir.0 == -9
    }

    /// The direction of the line from `from` to `to`, or `Direction(0)` when there is none.
    pub fn get_dir(from: usize, to: usize) -> (r: Direction)
        requires
            from < 64,
            to < 64,
        ensures
            r.0 == spec_get_dir(from as int, to as int),
    {
        let rank_diff = (to / 8) as i8 - (from / 8) as i8;
        let file_diff = (to % 8) as i8 - (from % 8) as i8;
        if rank_diff == 0 {
            if file_diff > 0 { Direction(EAST) } else { Direction(WEST) }
        } else if file_diff == 0 {
            if rank_diff > 0 { Direction(NORTH) } else { Direction(SOUTH) }
        } else if rank_diff == file_diff {
            if rank_diff > 0 { Direction(NORTHEAST) } else { Direction(SOUTHWEST) }
        } else if rank_diff == -file_diff {
            if rank_diff > 0 { Direction(NORTHWEST) } else { Direction(SOUTHEAST) }
        } else {
            Direction(0)
        }
    }

    /// Rank and file change of one step.
    pub fn deltas(&self) -> (r: (i8, i8))
        ensures
            r.0 as int == dir_deltas(self.0).0,
            r.1 as int == dir_deltas(self.0).1,
    {
        match self.0 {
            8 => (1, 0),
            -8 => (-1, 0),
            -1 => (0, -1),
            1 => (0, 1),
            9 => (1, 1),
            -7 => (-1, 1),
            -9 => (-1, -1),
            7 => (1, -1),
            _ => (0, 0),
        }
    }

    /// Position in the order N, S, W, E, NE, SE, SW, NW; 8 for a value that is no direction.
    pub fn index(&self) -> (r: usize)
        ensures
            r as int == dir_index(self.0),
    {
        match self.0 {
            8 => 0,
            -8 => 1,
            -1 => 2,
            1 => 3,
            9 => 4,
            -7 => 5,
            -9 => 6,
            7 => 7,
            _ => 8,
        }
    }

    /// The opposite direction.
    pub fn neg(self) -> (r: Direction)
        requires
            self.0 > i8::MIN,
        ensures
            r.0 == -self.0,
    {
        Direction(-self.0)
    }

    /// `k` steps at once.
    pub fn mul(self, k: i8) -> (r: Direction)
        requires
            i8::MIN <= self.0 * k <= i8::MAX,
        ensures
            r.0 == self.0 * k,
    {
        Direction(self.0 * k)
    }
}

} // verus!
