use vstd::prelude::*;
use crate::board::{in_bounds, square_col, square_of, square_row};
use crate::codec::Move;
use crate::game::{lemma_win_detected, win_at, Ginseng};
use crate::movegen::{exchange_target, lemma_legal_moves_ok, legal_moves_spec, move_ok};
use crate::pieces::{Piece, PlayerID};

verus! {

/// The tile a move leaves on its destination: the exchange target if any,
/// else the moving tile.
pub open spec fn placed_piece(m: Move) -> Piece {
    match m.exchange_into {
        Some(x) => x.as_piece(),
        None => m.piece,
    }
}

/// The cells after move `m`: the origin empties, the destination takes the
/// placed tile, then an effect along `d` pushes the tile next to the
/// destination one square further along `d`.
pub open spec fn board_after(g: Ginseng, m: Move) -> Seq<Option<Piece>> {
    let fr = square_row(m.from as int);
    let fc = square_col(m.from as int);
    let tr = square_row(m.to as int);
    let tc = square_col(m.to as int);
    let moved = g.board@.update(17 * fr + fc, None).update(17 * tr + tc, Some(placed_piece(m)));
    match m.effect {
        None => moved,
        Some(d) => {
            let a = 17 * d.row_after(tr, 1) + d.col_after(tc, 1);
            let b = 17 * d.row_after(tr, 2) + d.col_after(tc, 2);
            moved.update(b, moved[a]).update(a, None)
        },
    }
}

/// Whether the game has ended: a side has won, or the side to move has no move.
pub open spec fn is_over_spec(g: Ginseng) -> bool {
    g.winner_spec() is Some || legal_moves_spec(g).len() == 0
}

/// A Lotus on its winning side of the middle column ends the game: the
/// position is terminal and has a winner, whatever else stands on the board.
pub proof fn lemma_win_is_terminal(g: Ginseng, i: int)
    requires
        0 <= i < 289,
        win_at(g, i) is Some,
    ensures
        g.winner_spec() is Some,
        is_over_spec(g),
{
    lemma_win_detected(g, i);
}

/// 1 if `x` is a Lotus of `pl`, else 0.
pub open spec fn lotus_of(x: Option<Piece>, pl: PlayerID) -> int {
    if x == Some(Piece::Lotus { player: pl }) {
        1
    } else {
        0
    }
}

/// How many of the first `n` cells of `s` hold a Lotus of `pl`.
pub open spec fn lotus_count(s: Seq<Option<Piece>>, pl: PlayerID, n: int) -> int
    decreases n,
{
    if n <= 0 {
        0
    } else {
        lotus_count(s, pl, n - 1) + lotus_of(s[n - 1], pl)
    }
}

proof fn lemma_lotus_count_update(s: Seq<Option<Piece>>, pl: PlayerID, n: int, j: int, x: Option<Piece>)
    requires
        0 <= j < n <= s.len(),
    ensures
        lotus_count(s.update(j, x), pl, n) == lotus_count(s, pl, n) - lotus_of(s[j], pl) + lotus_of(
            x,
            pl,
        ),
    decreases n,
{
    if j < n - 1 {
        lemma_lotus_count_update(s, pl, n - 1, j, x);
    } else {
        lemma_lotus_count_unchanged(s, s.update(j, x), pl, n - 1);
    }
}

proof fn lemma_lotus_count_unchanged(s: Seq<Option<Piece>>, t: Seq<Option<Piece>>, pl: PlayerID, n: int)
    requires
        0 <= n <= s.len(),
        n <= t.len(),
        forall|i: int| 0 <= i < n ==> s[i] == t[i],
    ensures
        lotus_count(s, pl, n) == lotus_count(t, pl, n),
    decreases n,
{
    if n > 0 {
        lemma_lotus_count_unchanged(s, t, pl, n - 1);
    }
}

/// A move neither creates nor removes a Lotus: each side keeps as many as it had.
pub proof fn lemma_step_keeps_lotus_count(g: Ginseng, m: Move, pl: PlayerID)
    requires
        legal_moves_spec(g).contains(m),
    ensures
        lotus_count(board_after(g, m), pl, 289) == lotus_count(g.board@, pl, 289),
{
    lemma_legal_moves_ok(g);
    let i = choose|i: int| 0 <= i < legal_moves_spec(g).len() && legal_moves_spec(g)[i] == m;
    assert(move_ok(g, legal_moves_spec(g)[i]));
    let fr = square_row(m.from as int);
    let fc = square_col(m.from as int);
    let tr = square_row(m.to as int);
    let tc = square_col(m.to as int);
    let s0 = g.board@;
    let s1 = s0.update(17 * fr + fc, None);
    let s2 = s1.update(17 * tr + tc, Some(placed_piece(m)));
    lemma_lotus_count_update(s0, pl, 289, 17 * fr + fc, None);
    lemma_lotus_count_update(s1, pl, 289, 17 * tr + tc, Some(placed_piece(m)));
    if m.piece.kind() == 0 {
        assert(exchange_target(g, m.piece, tr, tc) is None);
        assert(m.exchange_into is None);
        assert(s0[17 * tr + tc] is None);
        assert(17 * tr + tc != 17 * fr + fc);
    } else {
        match m.exchange_into {
            Some(x) => {
                assert(x.kind() >= 1);
            },
            None => {},
        }
        assert(lotus_of(s1[17 * tr + tc], pl) == 0);
    }
    match m.effect {
        Some(d) => {
            let a = 17 * d.row_after(tr, 1) + d.col_after(tc, 1);
            let b = 17 * d.row_after(tr, 2) + d.col_after(tc, 2);
            let s3 = s2.update(b, s2[a]);
            assert(a != 17 * fr + fc && a != 17 * tr + tc);
            assert(b != 17 * fr + fc && b != 17 * tr + tc && b != a);
            lemma_lotus_count_update(s2, pl, 289, b, s2[a]);
            lemma_lotus_count_update(s3, pl, 289, a, None);
        },
        None => {},
    }
}

/// The legal moves of one turn, handed out one at a time.
pub struct GinsengIterator {
    pub moves: Vec<Move>,
    pub position: usize,
}

impl GinsengIterator {
    /// Hands out `moves` from the first.
    pub fn new(moves: Vec<Move>) -> (it: GinsengIterator)
        ensures
            it.moves@ == moves@,
            it.position == 0,
    {
        GinsengIterator { moves, position: 0 }
    }

    /// The next move, if any is left.
    pub fn next(&mut self) -> (r: Option<Move>)
        ensures
            final(self).moves@ == old(self).moves@,
            old(self).position < old(self).moves@.len() ==> r == Some(old(self).moves@[old(
                self,
            ).position as int]) && final(self).position == old(self).position + 1,
            old(self).position >= old(self).moves@.len() ==> r is None && final(self).position
                == old(self).position,
    {
        if self.position < self.moves.len() {
            let m = self.moves[self.position];
            self.position = self.position + 1;
            Some(m)
        } else {
            None
        }
    }
}

impl Ginseng {
    /// Whether the game has ended: a side has won, or the side to move has no
    /// legal move.
    pub fn is_over(&self) -> (over: bool)
        ensures
            over == is_over_spec(*self),
    {
        self.winner().is_some() || self.legal_moves().len() == 0
    }

    /// The legal moves of the side to move, one at a time.
    pub fn iter_actions(&self) -> (it: GinsengIterator)
        ensures
            it.moves@ == legal_moves_spec(*self),
            it.position == 0,
    {
        GinsengIterator::new(self.legal_moves())
    }

    /// Plays the legal move `m`, passes the turn, and tells whether the game
    /// is now over.
    pub fn step(&mut self, m: &Move) -> (over: bool)
        requires
            legal_moves_spec(*old(self)).contains(*m),
        ensures
            final(self).board@ == board_after(*old(self), *m),
            final(self).player == old(self).player.opponent(),
            over == is_over_spec(*final(self)),
    {
        proof {
            lemma_legal_moves_ok(*self);
            let i = choose|i: int|
                0 <= i < legal_moves_spec(*self).len() && legal_moves_spec(*self)[i] == *m;
            assert(move_ok(*self, legal_moves_spec(*self)[i]));
        }
        let (fr, fc) = match square_of(m.from) {
            Some(sq) => sq,
            None => {
                proof {
                    assert(in_bounds(square_row(m.from as int), square_col(m.from as int)));
                }
                return false;
            },
        };
        let (tr, tc) = match square_of(m.to) {
            Some(sq) => sq,
            None => {
                proof {
                    assert(in_bounds(square_row(m.to as int), square_col(m.to as int)));
                }
                return false;
            },
        };
        let ghost g0 = *self;
        let placed = match m.exchange_into {
            Some(x) => x.to_piece(),
            None => m.piece,
        };
        self.board[17 * fr + fc] = None;
        self.board[17 * tr + tc] = Some(placed);
        match m.effect {
            Some(d) => {
                let (ar, ac) = d.advance(tr as i64, tc as i64, 1);
                let (br, bc) = d.advance(tr as i64, tc as i64, 2);
                let a = (17 * ar + ac) as usize;
                let b = (17 * br + bc) as usize;
                let pushed = self.board[a];
                self.board[b] = pushed;
                self.board[a] = None;
            },
            None => {},
        }
        assert(self.board@ =~= board_after(g0, *m));
        self.player = self.player.next();
        self.is_over()
    }
}

} // verus!
