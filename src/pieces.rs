use vstd::prelude::*;

verus! {

/// One of the two sides of the game.
#[derive(Debug, Clone, Copy, PartialEq, Eq, Structural, Hash)]
pub enum PlayerID {
    Host,
    Guest,
}

impl PlayerID {
    /// The other side.
    pub open spec fn opponent(self) -> PlayerID {
        match self {
            PlayerID::Host => PlayerID::Guest,
            PlayerID::Guest => PlayerID::Host,
        }
    }

    /// Index of the side in the action encoding.
    pub open spec fn index(self) -> nat {
        match self {
            PlayerID::Host => 0,
            PlayerID::Guest => 1,
        }
    }

    /// The player who moved before this one: with two players, the opponent.
    pub fn prev(&self) -> (r: PlayerID)
        ensures
            r == self.opponent(),
    {
        match self {
            PlayerID::Host => PlayerID::Guest,
            PlayerID::Guest => PlayerID::Host,
        }
    }

    /// The player who moves after this one: with two players, the opponent.
    pub fn next(&self) -> (r: PlayerID)
        ensures
            r == self.opponent(),
    {
        self.prev()
    }

    /// One-letter label: `H` for the host, `G` for the guest.
    pub fn symbol(&self) -> (r: char)
        ensures
            r == (if *self == PlayerID::Host { 'H' } else { 'G' }),
    {
        match self {
            PlayerID::Host => 'H',
            PlayerID::Guest => 'G',
        }
    }
}

/// The eight compass directions. North is towards row 0, east towards column 16.
#[derive(Debug, Clone, Copy, PartialEq, Eq, Structural, Hash)]
pub enum Direction {
    North,
    NorthEast,
    East,
    SouthEast,
    South,
    SouthWest,
    West,
    NorthWest,
}

impl Direction {
    /// Position of the direction in clockwise order from north, in `0..8`.
    pub open spec fn index(self) -> nat {
        match self {
            Direction::North => 0,
            Direction::NorthEast => 1,
            Direction::East => 2,
            Direction::SouthEast => 3,
            Direction::South => 4,
            Direction::SouthWest => 5,
            Direction::West => 6,
            Direction::NorthWest => 7,
        }
    }

    /// The direction at clockwise position `i`, for `i` in `0..8`.
    pub open spec fn at(i: int) -> Direction {
        if i == 0 {
            Direction::North
        } else if i == 1 {
            Direction::NorthEast
        } else if i == 2 {
            Direction::East
        } else if i == 3 {
            Direction::SouthEast
        } else if i == 4 {
            Direction::South
        } else if i == 5 {
            Direction::SouthWest
        } else if i == 6 {
            Direction::West
        } else {
            Direction::NorthWest
        }
    }

    /// Row change of one step.
    pub open spec fn dr(self) -> int {
        match self {
            Direction::North | Direction::NorthEast | Direction::NorthWest => -1,
            Direction::South | Direction::SouthEast | Direction::SouthWest => 1,
            _ => 0,
        }
    }

    /// Column change of one step.
    pub open spec fn dc(self) -> int {
        match self {
            Direction::East | Direction::NorthEast | Direction::SouthEast => 1,
            Direction::West | Direction::NorthWest | Direction::SouthWest => -1,
            _ => 0,
        }
    }

    /// Row reached after `k` steps from row `r`.
    pub open spec fn row_after(self, r: int, k: int) -> int {
        if self.dr() < 0 {
            r - k
        } else if self.dr() > 0 {
            r + k
        } else {
            r
        }
    }

    /// Column reached after `k` steps from column `c`.
    pub open spec fn col_after(self, c: int, k: int) -> int {
        if self.dc() < 0 {
            c - k
        } else if self.dc() > 0 {
            c + k
        } else {
            c
        }
    }

    pub fn from_index(i: usize) -> (r: Direction)
        requires
            i < 8,
        ensures
            r == Direction::at(i as int),
            r.index() == i,
    {
        if i == 0 {
            Direction::North
        } else if i == 1 {
            Direction::NorthEast
        } else if i == 2 {
            Direction::East
        } else if i == 3 {
            Direction::SouthEast
        } else if i == 4 {
            Direction::South
        } else if i == 5 {
            Direction::SouthWest
        } else if i == 6 {
            Direction::West
        } else {
            Direction::NorthWest
        }
    }

    /// Square reached after `k` steps from `(r, c)`.
    pub fn advance(&self, r: i64, c: i64, k: i64) -> (res: (i64, i64))
        requires
            -1000 <= r <= 1000,
            -1000 <= c <= 1000,
            0 <= k <= 1000,
        ensures
            res.0 == self.row_after(r as int, k as int),
            res.1 == self.col_after(c as int, k as int),
    {
        let nr: i64 = match self {
            Direction::North | Direction::NorthEast | Direction::NorthWest => r - k,
            Direction::South | Direction::SouthEast | Direction::SouthWest => r + k,
            _ => r,
        };
        let nc: i64 = match self {
            Direction::East | Direction::NorthEast | Direction::SouthEast => c + k,
            Direction::West | Direction::NorthWest | Direction::SouthWest => c - k,
            _ => c,
        };
        (nr, nc)
    }
}

/// A tile on the board: a kind and the side that owns it, or the marker that
/// fills the squares outside the playing area.
#[derive(Debug, Clone, Copy, PartialEq, Eq, Structural, Hash)]
pub enum Piece {
    Lotus { player: PlayerID },
    Ginseng { player: PlayerID },
    LionTurtle { player: PlayerID },
    Dragon { player: PlayerID },
    SkyBison { player: PlayerID },
    BadgerMole { player: PlayerID },
    Koi { player: PlayerID },
    Orchid { player: PlayerID },
    Wheel { player: PlayerID },
    OutOfBounds,
}

/// The kinds a tile can be exchanged into: every kind but the Lotus.
#[derive(Debug, Clone, Copy, PartialEq, Eq, Structural, Hash)]
pub enum MortalPiece {
    Ginseng { player: PlayerID },
    LionTurtle { player: PlayerID },
    Dragon { player: PlayerID },
    SkyBison { player: PlayerID },
    BadgerMole { player: PlayerID },
    Koi { player: PlayerID },
    Orchid { player: PlayerID },
    Wheel { player: PlayerID },
}

/// The kind of a tile built from its kind number (`0..9`) and owner.
pub open spec fn piece_of(kind: int, player: PlayerID) -> Piece {
    if kind == 0 {
        Piece::Lotus { player }
    } else if kind == 1 {
        Piece::Ginseng { player }
    } else if kind == 2 {
        Piece::LionTurtle { player }
    } else if kind == 3 {
        Piece::Dragon { player }
    } else if kind == 4 {
        Piece::SkyBison { player }
    } else if kind == 5 {
        Piece::BadgerMole { player }
    } else if kind == 6 {
        Piece::Koi { player }
    } else if kind == 7 {
        Piece::Orchid { player }
    } else {
        Piece::Wheel { player }
    }
}

/// The exchange target built from its kind number (`1..9`) and owner.
pub open spec fn mortal_of(kind: int, player: PlayerID) -> MortalPiece {
    if kind == 1 {
        MortalPiece::Ginseng { player }
    } else if kind == 2 {
        MortalPiece::LionTurtle { player }
    } else if kind == 3 {
        MortalPiece::Dragon { player }
    } else if kind == 4 {
        MortalPiece::SkyBison { player }
    } else if kind == 5 {
        MortalPiece::BadgerMole { player }
    } else if kind == 6 {
        MortalPiece::Koi { player }
    } else if kind == 7 {
        MortalPiece::Orchid { player }
    } else {
        MortalPiece::Wheel { player }
    }
}

impl Piece {
    /// Kind number: 0 Lotus, 1 Ginseng, 2 Lion Turtle, 3 Dragon, 4 Sky Bison,
    /// 5 Badgermole, 6 Koi, 7 Orchid, 8 Wheel, 9 the out-of-bounds marker.
    pub open spec fn kind(self) -> nat {
        match self {
            Piece::Lotus { .. } => 0,
            Piece::Ginseng { .. } => 1,
            Piece::LionTurtle { .. } => 2,
            Piece::Dragon { .. } => 3,
            Piece::SkyBison { .. } => 4,
            Piece::BadgerMole { .. } => 5,
            Piece::Koi { .. } => 6,
            Piece::Orchid { .. } => 7,
            Piece::Wheel { .. } => 8,
            Piece::OutOfBounds => 9,
        }
    }

    /// The side that owns the tile; none for the out-of-bounds marker.
    pub open spec fn owner(self) -> Option<PlayerID> {
        match self {
            Piece::Lotus { player }
            | Piece::Ginseng { player }
            | Piece::LionTurtle { player }
            | Piece::Dragon { player }
            | Piece::SkyBison { player }
            | Piece::BadgerMole { player }
            | Piece::Koi { player }
            | Piece::Orchid { player }
            | Piece::Wheel { player } => Some(player),
            Piece::OutOfBounds => None,
        }
    }

    pub fn kind_index(&self) -> (r: u8)
        ensures
            r == self.kind(),
    {
        match self {
            Piece::Lotus { .. } => 0,
            Piece::Ginseng { .. } => 1,
            Piece::LionTurtle { .. } => 2,
            Piece::Dragon { .. } => 3,
            Piece::SkyBison { .. } => 4,
            Piece::BadgerMole { .. } => 5,
            Piece::Koi { .. } => 6,
            Piece::Orchid { .. } => 7,
            Piece::Wheel { .. } => 8,
            Piece::OutOfBounds => 9,
        }
    }

    pub fn owner_of(&self) -> (r: Option<PlayerID>)
        ensures
            r == self.owner(),
    {
        match self {
            Piece::Lotus { player }
            | Piece::Ginseng { player }
            | Piece::LionTurtle { player }
            | Piece::Dragon { player }
            | Piece::SkyBison { player }
            | Piece::BadgerMole { player }
            | Piece::Koi { player }
            | Piece::Orchid { player }
            | Piece::Wheel { player } => Some(*player),
            Piece::OutOfBounds => None,
        }
    }

    /// The tile of kind number `kind` owned by `player`.
    pub fn of_kind(kind: u8, player: PlayerID) -> (r: Piece)
        requires
            kind < 9,
        ensures
            r == piece_of(kind as int, player),
            r.kind() == kind,
            r.owner() == Some(player),
    {
        if kind == 0 {
            Piece::Lotus { player }
        } else if kind == 1 {
            Piece::Ginseng { player }
        } else if kind == 2 {
            Piece::LionTurtle { player }
        } else if kind == 3 {
            Piece::Dragon { player }
        } else if kind == 4 {
            Piece::SkyBison { player }
        } else if kind == 5 {
            Piece::BadgerMole { player }
        } else if kind == 6 {
            Piece::Koi { player }
        } else if kind == 7 {
            Piece::Orchid { player }
        } else {
            Piece::Wheel { player }
        }
    }
}

impl MortalPiece {
    /// Kind number, as for `Piece` (`1..9`).
    pub open spec fn kind(self) -> nat {
        match self {
            MortalPiece::Ginseng { .. } => 1,
            MortalPiece::LionTurtle { .. } => 2,
            MortalPiece::Dragon { .. } => 3,
            MortalPiece::SkyBison { .. } => 4,
            MortalPiece::BadgerMole { .. } => 5,
            MortalPiece::Koi { .. } => 6,
            MortalPiece::Orchid { .. } => 7,
            MortalPiece::Wheel { .. } => 8,
        }
    }

    pub open spec fn owner(self) -> PlayerID {
        match self {
            MortalPiece::Ginseng { player }
            | MortalPiece::LionTurtle { player }
            | MortalPiece::Dragon { player }
            | MortalPiece::SkyBison { player }
            | MortalPiece::BadgerMole { player }
            | MortalPiece::Koi { player }
            | MortalPiece::Orchid { player }
            | MortalPiece::Wheel { player } => player,
        }
    }

    /// The board tile this exchange target becomes.
    pub open spec fn as_piece(self) -> Piece {
        piece_of(self.kind() as int, self.owner())
    }

    pub fn kind_index(&self) -> (r: u8)
        ensures
            r == self.kind(),
    {
        match self {
            MortalPiece::Ginseng { .. } => 1,
            MortalPiece::LionTurtle { .. } => 2,
            MortalPiece::Dragon { .. } => 3,
            MortalPiece::SkyBison { .. } => 4,
            MortalPiece::BadgerMole { .. } => 5,
            MortalPiece::Koi { .. } => 6,
            MortalPiece::Orchid { .. } => 7,
            MortalPiece::Wheel { .. } => 8,
        }
    }

    /// The exchange target of kind number `kind` owned by `player`.
    pub fn of_kind(kind: u8, player: PlayerID) -> (r: MortalPiece)
        requires
            1 <= kind < 9,
        ensures
            r == mortal_of(kind as int, player),
            r.kind() == kind,
            r.owner() == player,
    {
        if kind == 1 {
            MortalPiece::Ginseng { player }
        } else if kind == 2 {
            MortalPiece::LionTurtle { player }
        } else if kind == 3 {
            MortalPiece::Dragon { player }
        } else if kind == 4 {
            MortalPiece::SkyBison { player }
        } else if kind == 5 {
            MortalPiece::BadgerMole { player }
        } else if kind == 6 {
            MortalPiece::Koi { player }
        } else if kind == 7 {
            MortalPiece::Orchid { player }
        } else {
            MortalPiece::Wheel { player }
        }
    }

    /// The board tile this exchange target becomes.
    pub fn to_piece(&self) -> (r: Piece)
        ensures
            r == self.as_piece(),
            r.kind() == self.kind(),
            r.owner() == Some(self.owner()),
    {
        match self {
            MortalPiece::Ginseng { player } => Piece::Ginseng { player: *player },
            MortalPiece::LionTurtle { player } => Piece::LionTurtle { player: *player },
            MortalPiece::Dragon { player } => Piece::Dragon { player: *player },
            MortalPiece::SkyBison { player } => Piece::SkyBison { player: *player },
            MortalPiece::BadgerMole { player } => Piece::BadgerMole { player: *player },
            MortalPiece::Koi { player } => Piece::Koi { player: *player },
            MortalPiece::Orchid { player } => Piece::Orchid { player: *player },
            MortalPiece::Wheel { player } => Piece::Wheel { player: *player },
        }
    }
}

} // verus!
