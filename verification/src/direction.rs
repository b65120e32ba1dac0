//! Facing directions and the per-direction row table of a sprite sheet.

use vstd::prelude::*;

verus! {

/// The way a character faces. The order of the variants is the order of the
/// rows that most sheets use, and gives each direction its ordinal.
#[derive(Clone, Copy, Debug, PartialEq, Eq, Structural)]
pub enum Direction {
    Down,
    Right,
    Up,
    Left,
}

impl Direction {
    /// The ordinal of a direction: Down 0, Right 1, Up 2, Left 3.
    pub open spec fn ordinal_spec(self) -> u8 {
        match self {
            Direction::Down => 0,
            Direction::Right => 1,
            Direction::Up => 2,
            Direction::Left => 3,
        }
    }

    /// Gives the ordinal of the direction.
    #[verifier::when_used_as_spec(ordinal_spec)]
    pub fn ordinal(self) -> (n: u8)
        ensures
            n == self.ordinal_spec(),
    {
        match self {
            Direction::Down => 0,
            Direction::Right => 1,
            Direction::Up => 2,
            Direction::Left => 3,
        }
    }

    /// The direction with the given ordinal, if there is one.
    pub open spec fn from_ordinal_spec(n: u8) -> Option<Direction> {
        if n == 0 {
            Some(Direction::Down)
        } else if n == 1 {
            Some(Direction::Right)
        } else if n == 2 {
            Some(Direction::Up)
        } else if n == 3 {
            Some(Direction::Left)
        } else {
            None
        }
    }

    /// Finds the direction with the given ordinal.
    #[verifier::when_used_as_spec(from_ordinal_spec)]
    pub fn from_ordinal(n: u8) -> (dir: Option<Direction>)
        ensures
            dir == Self::from_ordinal_spec(n),
    {
        if n == 0 {
            Some(Direction::Down)
        } else if n == 1 {
            Some(Direction::Right)
        } else if n == 2 {
            Some(Direction::Up)
        } else if n == 3 {
            Some(Direction::Left)
        } else {
            None
        }
    }

    /// The direction that a cutscene script's facing code stands for. Scripts
    /// count clockwise from Up (0 Up, 1 Right, 2 Down, 3 Left), which is not
    /// the order of the ordinals.
    pub open spec fn from_script_code_spec(code: u8) -> Option<Direction> {
        if code == 0 {
            Some(Direction::Up)
        } else if code == 1 {
            Some(Direction::Right)
        } else if code == 2 {
            Some(Direction::Down)
        } else if code == 3 {
            Some(Direction::Left)
        } else {
            None
        }
    }

    /// Translates a script's facing code.
    #[verifier::when_used_as_spec(from_script_code_spec)]
    pub fn from_script_code(code: u8) -> (dir: Option<Direction>)
        ensures
            dir == Self::from_script_code_spec(code),
    {
        if code == 0 {
            Some(Direction::Up)
        } else if code == 1 {
            Some(Direction::Right)
        } else if code == 2 {
            Some(Direction::Down)
        } else if code == 3 {
            Some(Direction::Left)
        } else {
            None
        }
    }
}

/// For each direction, the row block of a sheet that holds its art, or `None`
/// where the sheet has no art for that direction.
#[derive(Clone, Copy, Debug, PartialEq, Eq, Structural)]
pub struct DirectionTable {
    pub down: Option<u32>,
    pub right: Option<u32>,
    pub up: Option<u32>,
    pub left: Option<u32>,
}

impl DirectionTable {
    /// The entry for `dir`.
    pub open spec fn row_spec(self, dir: Direction) -> Option<u32> {
        match dir {
            Direction::Down => self.down,
            Direction::Right => self.right,
            Direction::Up => self.up,
            Direction::Left => self.left,
        }
    }

    /// Looks up the entry for `dir`.
    #[verifier::when_used_as_spec(row_spec)]
    pub fn row(self, dir: Direction) -> (entry: Option<u32>)
        ensures
            entry == self.row_spec(dir),
    {
        match dir {
            Direction::Down => self.down,
            Direction::Right => self.right,
            Direction::Up => self.up,
            Direction::Left => self.left,
        }
    }

    /// Whether art drawn for `dir` has to be mirrored: only when facing Left
    /// on a sheet whose Left entry is its Right entry, so that the one set of
    /// right-facing frames serves both.
    pub open spec fn mirrored_spec(self, dir: Direction) -> bool {
        dir == Direction::Left && self.left == self.right
    }

    /// Tests whether art drawn for `dir` has to be mirrored.
    #[verifier::when_used_as_spec(mirrored_spec)]
    pub fn mirrored(self, dir: Direction) -> (flip: bool)
        ensures
            flip == self.mirrored_spec(dir),
    {
        match dir {
            Direction::Left => match (self.left, self.right) {
                (Some(l), Some(r)) => l == r,
                (None, None) => true,
                _ => false,
            },
            _ => false,
        }
    }

    /// A table in the order of the ordinals: Down, Right, Up, Left.
    pub fn from_rows(rows: [Option<u32>; 4]) -> (table: DirectionTable)
        ensures
            table.down == rows[0],
            table.right == rows[1],
            table.up == rows[2],
            table.left == rows[3],
    {
        DirectionTable { down: rows[0], right: rows[1], up: rows[2], left: rows[3] }
    }
}

/// Ordinals and directions correspond one to one.
pub proof fn lemma_ordinal_round_trip(dir: Direction, n: u8)
    ensures
        Direction::from_ordinal_spec(dir.ordinal_spec()) == Some(dir),
        Direction::from_ordinal_spec(n) matches Some(d) ==> d.ordinal_spec() == n,
        Direction::from_ordinal_spec(n) is Some <==> n < 4,
{
}

/// A script's facing code and the ordinal of the direction it stands for
/// differ exactly on the vertical directions, which the two orders swap.
pub proof fn lemma_script_code_translation(code: u8)
    ensures
        Direction::from_script_code_spec(code) is Some <==> code < 4,
        Direction::from_script_code_spec(code) matches Some(d) ==> (d.ordinal_spec() == (if code
            == 0 {
            2u8
        } else if code == 2 {
            0u8
        } else {
            code
        })),
{
}

} // verus!
