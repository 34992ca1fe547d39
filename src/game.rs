use vstd::prelude::*;
use crate::board::{in_bounds, is_in_bounds, NUM_CELLS};
use crate::pieces::{Piece, PlayerID, piece_of};

verus! {

/// Turns after which the driving search ends a game that has not finished.
pub const NUM_MAX_TURNS: usize = 256;

/// A game in progress: the grid, cell `(r, c)` at position `17 * r + c`, and
/// the side to move.
#[derive(Debug, Clone, Copy, Hash)]
pub struct Ginseng {
    pub board: [Option<Piece>; 289],
    pub player: PlayerID,
}

/// Kind number of the host's tile at `(r, c)` in the starting layout, or -1.
/// The host's tiles stand in the west, symmetric about row 8.
pub open spec fn host_start_kind(r: int, c: int) -> int {
    let d = if r >= 8 {
        r - 8
    } else {
        8 - r
    };
    if d == 0 && c == 1 {
        0
    } else if d == 0 && c == 2 {
        2
    } else if d == 1 && c == 1 {
        1
    } else if d == 1 && c == 2 {
        8
    } else if d == 2 && c == 1 {
        6
    } else if d == 2 && c == 2 {
        3
    } else if d == 3 && c == 2 {
        7
    } else if d == 3 && c == 3 {
        5
    } else if d == 4 && c == 3 {
        4
    } else {
        -1
    }
}

/// What cell `(r, c)` holds in the starting layout: the guest's tiles mirror
/// the host's across column 8, and cells outside the playing area hold the marker.
pub open spec fn start_cell(r: int, c: int) -> Option<Piece> {
    if !in_bounds(r, c) {
        Some(Piece::OutOfBounds)
    } else if host_start_kind(r, c) >= 0 {
        Some(piece_of(host_start_kind(r, c), PlayerID::Host))
    } else if host_start_kind(r, 16 - c) >= 0 {
        Some(piece_of(host_start_kind(r, 16 - c), PlayerID::Guest))
    } else {
        None
    }
}

fn host_start_kind_exec(r: usize, c: usize) -> (k: i8)
    requires
        r < 17,
        c < 17,
    ensures
        k == host_start_kind(r as int, c as int),
{
    let d: usize = if r >= 8 {
        r - 8
    } else {
        8 - r
    };
    if d == 0 && c == 1 {
        0
    } else if d == 0 && c == 2 {
        2
    } else if d == 1 && c == 1 {
        1
    } else if d == 1 && c == 2 {
        8
    } else if d == 2 && c == 1 {
        6
    } else if d == 2 && c == 2 {
        3
    } else if d == 3 && c == 2 {
        7
    } else if d == 3 && c == 3 {
        5
    } else if d == 4 && c == 3 {
        4
    } else {
        -1
    }
}

fn start_cell_exec(r: usize, c: usize) -> (res: Option<Piece>)
    requires
        r < 17,
        c < 17,
    ensures
        res == start_cell(r as int, c as int),
{
    if !is_in_bounds(r as i64, c as i64) {
        return Some(Piece::OutOfBounds);
    }
    let h = host_start_kind_exec(r, c);
    if h >= 0 {
        return Some(Piece::of_kind(h as u8, PlayerID::Host));
    }
    let g = host_start_kind_exec(r, 16 - c);
    if g >= 0 {
        Some(Piece::of_kind(g as u8, PlayerID::Guest))
    } else {
        None
    }
}

/// Who has won at cell `i`: a host Lotus east of column 8, or a guest Lotus
/// west of it.
pub open spec fn win_at(g: Ginseng, i: int) -> Option<PlayerID> {
    if g.board@[i] == Some(Piece::Lotus { player: PlayerID::Host }) && i % 17 > 8 {
        Some(PlayerID::Host)
    } else if g.board@[i] == Some(Piece::Lotus { player: PlayerID::Guest }) && i % 17 < 8 {
        Some(PlayerID::Guest)
    } else {
        None
    }
}

/// The first win found scanning the cells from `i` on in row-major order.
pub open spec fn first_win(g: Ginseng, i: int) -> Option<PlayerID>
    decreases 289 - i,
{
    if i >= 289 || i < 0 {
        None
    } else if win_at(g, i) is Some {
        win_at(g, i)
    } else {
        first_win(g, i + 1)
    }
}

/// Score of `player` at a position: 1 for a win, -1 for a loss, else 0.
pub open spec fn reward_of(winner: Option<PlayerID>, player: PlayerID) -> int {
    match winner {
        None => 0,
        Some(w) => if w == player {
            1
        } else {
            -1
        },
    }
}

impl Ginseng {
    /// The contents of cell `(r, c)`; cells off the grid read as the marker.
    pub open spec fn cell(self, r: int, c: int) -> Option<Piece> {
        if 0 <= r < 17 && 0 <= c < 17 {
            self.board@[17 * r + c]
        } else {
            Some(Piece::OutOfBounds)
        }
    }

    /// The starting position: the fixed layout, the guest to move.
    pub open spec fn is_start(self) -> bool {
        &&& self.player == PlayerID::Guest
        &&& forall|r: int, c: int|
            0 <= r < 17 && 0 <= c < 17 ==> #[trigger] self.cell(r, c) == start_cell(r, c)
    }

    /// The winner, scanning the grid in row-major order.
    pub open spec fn winner_spec(self) -> Option<PlayerID> {
        first_win(self, 0)
    }

    /// The starting position.
    pub fn new() -> (g: Ginseng)
        ensures
            g.is_start(),
    {
        let mut board: [Option<Piece>; 289] = [None; 289];
        let mut i: usize = 0;
        while i < NUM_CELLS
            invariant
                i <= 289,
                forall|j: int| 0 <= j < i ==> board@[j] == start_cell(j / 17, j % 17),
            decreases 289 - i,
        {
            board[i] = start_cell_exec(i / 17, i % 17);
            i = i + 1;
        }
        let g = Ginseng { board, player: PlayerID::Guest };
        assert forall|r: int, c: int| 0 <= r < 17 && 0 <= c < 17 implies #[trigger] g.cell(r, c)
            == start_cell(r, c) by {
            let j = 17 * r + c;
            assert(j / 17 == r && j % 17 == c) by (nonlinear_arith)
                requires
                    j == 17 * r + c,
                    0 <= c < 17,
            ;
        }
        g
    }

    /// The side to move.
    pub fn player(&self) -> (p: PlayerID)
        ensures
            p == self.player,
    {
        self.player
    }

    /// What stands on cell `(r, c)`.
    pub fn occupant(&self, r: usize, c: usize) -> (res: Option<Piece>)
        requires
            r < 17,
            c < 17,
        ensures
            res == self.cell(r as int, c as int),
    {
        self.board[17 * r + c]
    }

    /// Puts `piece` on the playable square `(r, c)`, replacing what was there.
    pub fn place(&mut self, r: usize, c: usize, piece: Piece)
        requires
            in_bounds(r as int, c as int),
            piece != Piece::OutOfBounds,
        ensures
            final(self).player == old(self).player,
            final(self).board@ == old(self).board@.update(17 * r + c, Some(piece)),
    {
        self.board[17 * r + c] = Some(piece);
    }

    /// Empties the playable square `(r, c)` and returns what stood there.
    pub fn remove(&mut self, r: usize, c: usize) -> (res: Option<Piece>)
        requires
            in_bounds(r as int, c as int),
        ensures
            res == old(self).cell(r as int, c as int),
            final(self).player == old(self).player,
            final(self).board@ == old(self).board@.update(17 * r + c, None),
    {
        let prior = self.board[17 * r + c];
        self.board[17 * r + c] = None;
        prior
    }

    /// The side whose Lotus has crossed the middle column: the first found in
    /// row-major order, if any.
    pub fn winner(&self) -> (w: Option<PlayerID>)
        ensures
            w == self.winner_spec(),
    {
        let mut i: usize = 0;
        while i < NUM_CELLS
            invariant
                i <= 289,
                first_win(*self, 0) == first_win(*self, i as int),
            decreases 289 - i,
        {
            let c = i % 17;
            match self.board[i] {
                Some(Piece::Lotus { player: PlayerID::Host }) => {
                    if c > 8 {
                        return Some(PlayerID::Host);
                    }
                },
                Some(Piece::Lotus { player: PlayerID::Guest }) => {
                    if c < 8 {
                        return Some(PlayerID::Guest);
                    }
                },
                _ => {},
            }
            i = i + 1;
        }
        None
    }

    /// 1 if `player` has won, -1 if the opponent has, 0 otherwise.
    pub fn reward(&self, player: PlayerID) -> (r: i8)
        ensures
            r == reward_of(self.winner_spec(), player),
    {
        match self.winner() {
            None => 0,
            Some(w) => if w == player {
                1
            } else {
                -1
            },
        }
    }
}

/// A Lotus of either side standing on its winning side of the middle column
/// means the game has a winner, whatever else is on the board.
pub proof fn lemma_win_detected(g: Ginseng, i: int)
    requires
        0 <= i < 289,
        win_at(g, i) is Some,
    ensures
        g.winner_spec() is Some,
{
    lemma_first_win_from(g, 0, i);
}

proof fn lemma_first_win_from(g: Ginseng, j: int, i: int)
    requires
        0 <= j <= i < 289,
        win_at(g, i) is Some,
    ensures
        first_win(g, j) is Some,
    decreases i - j,
{
    if j < i && win_at(g, j) is None {
        lemma_first_win_from(g, j + 1, i);
    }
}

/// A win found by the scan is a real one: the winner's Lotus stands on its
/// winning side at some cell.
pub proof fn lemma_winner_sound(g: Ginseng)
    ensures
        match g.winner_spec() {
            Some(w) => exists|i: int| 0 <= i < 289 && win_at(g, i) == Some(w),
            None => forall|i: int| 0 <= i < 289 ==> win_at(g, i) is None,
        },
{
    lemma_first_win_sound(g, 0);
}

proof fn lemma_first_win_sound(g: Ginseng, j: int)
    requires
        0 <= j <= 289,
    ensures
        match first_win(g, j) {
            Some(w) => exists|i: int| j <= i < 289 && win_at(g, i) == Some(w),
            None => forall|i: int| j <= i < 289 ==> win_at(g, i) is None,
        },
    decreases 289 - j,
{
    if j < 289 {
        lemma_first_win_sound(g, j + 1);
        if win_at(g, j) is Some {
            assert(win_at(g, j) == first_win(g, j));
        }
    }
}

/// Two starting positions agree cell by cell and on the side to move.
pub proof fn lemma_start_deterministic(a: Ginseng, b: Ginseng)
    requires
        a.is_start(),
        b.is_start(),
    ensures
        a.player == b.player,
        forall|i: int| 0 <= i < 289 ==> a.board@[i] == b.board@[i],
{
    assert forall|i: int| 0 <= i < 289 implies a.board@[i] == b.board@[i] by {
        let r = i / 17;
        let c = i % 17;
        assert(i == 17 * r + c && 0 <= r < 17 && 0 <= c < 17) by (nonlinear_arith)
            requires
                r == i / 17,
                c == i % 17,
                0 <= i < 289,
        ;
        assert(a.cell(r, c) == start_cell(r, c));
        assert(b.cell(r, c) == start_cell(r, c));
    }
}

} // verus!
