use vstd::prelude::*;
use vstd::arithmetic::div_mod::{lemma_fundamental_div_mod, lemma_fundamental_div_mod_converse};
use crate::pieces::{Direction, MortalPiece, Piece, PlayerID, piece_of, mortal_of};

verus! {

/// Number of integers the action encoding can produce: player (2) times kind
/// (9) times origin (256) times destination (256) times effect (9) times
/// exchange target (9).
pub const ACTION_SLOTS: usize = 95551488;

/// One move: the tile at `from` goes to `to`, then the optional effect is
/// resolved and the tile is optionally exchanged into another kind.
#[derive(Debug, Clone, Copy, PartialEq, Eq, Structural)]
pub struct Move {
    pub player: PlayerID,
    pub piece: Piece,
    pub from: i8,
    pub to: i8,
    pub effect: Option<Direction>,
    pub exchange_into: Option<MortalPiece>,
}

/// Why an integer is not the index of any move.
#[derive(Debug, Clone, Copy, PartialEq, Eq, Structural)]
pub enum DecodeError {
    /// The integer is at least `ACTION_SLOTS`.
    OutOfRange,
}

/// Index of an optional effect: 0 for none, else one plus the direction's index.
pub open spec fn effect_index(e: Option<Direction>) -> nat {
    match e {
        None => 0,
        Some(d) => d.index() + 1,
    }
}

/// Index of an optional exchange target: 0 for none, else its kind number.
pub open spec fn exchange_index(x: Option<MortalPiece>) -> nat {
    match x {
        None => 0,
        Some(m) => m.kind(),
    }
}

/// The mixed-radix action index of a move, least significant field first.
pub open spec fn encode_spec(m: Move) -> int {
    m.player.index() + 2 * (m.piece.kind() + 9 * ((m.from + 128) + 256 * ((m.to + 128) + 256 * (
    effect_index(m.effect) + 9 * exchange_index(m.exchange_into)))))
}

/// The player encoded by digit `i` of the first radix.
pub open spec fn player_at(i: int) -> PlayerID {
    if i == 0 {
        PlayerID::Host
    } else {
        PlayerID::Guest
    }
}

/// The move whose action index is `v`, field by field.
pub open spec fn decode_spec(v: int) -> Move {
    let player = player_at(v % 2);
    let v1 = v / 2;
    let v2 = v1 / 9;
    let v3 = v2 / 256;
    let v4 = v3 / 256;
    let v5 = v4 / 9;
    Move {
        player,
        piece: piece_of(v1 % 9, player),
        from: (v2 % 256 - 128) as i8,
        to: (v3 % 256 - 128) as i8,
        effect: if v4 % 9 == 0 {
            None
        } else {
            Some(Direction::at(v4 % 9 - 1))
        },
        exchange_into: if v5 % 9 == 0 {
            None
        } else {
            Some(mortal_of(v5 % 9, player))
        },
    }
}

impl Move {
    /// A move the encoding can represent faithfully: a real tile of the mover,
    /// exchanged, if at all, into a tile of the mover.
    pub open spec fn well_formed(self) -> bool {
        &&& self.piece.kind() < 9
        &&& self.piece.owner() == Some(self.player)
        &&& match self.exchange_into {
            Some(x) => x.owner() == self.player,
            None => true,
        }
    }

    /// The dense action index of this move.
    pub fn to_index(&self) -> (r: usize)
        requires
            self.piece.kind() < 9,
        ensures
            r == encode_spec(*self),
            r < ACTION_SLOTS,
    {
        let player_idx: usize = match self.player {
            PlayerID::Host => 0,
            PlayerID::Guest => 1,
        };
        let piece_idx: usize = self.piece.kind_index() as usize;
        let from_idx: usize = (self.from as i16 + 128) as usize;
        let to_idx: usize = (self.to as i16 + 128) as usize;
        let effect_idx: usize = match self.effect {
            None => 0,
            Some(d) => match d {
                Direction::North => 1,
                Direction::NorthEast => 2,
                Direction::East => 3,
                Direction::SouthEast => 4,
                Direction::South => 5,
                Direction::SouthWest => 6,
                Direction::West => 7,
                Direction::NorthWest => 8,
            },
        };
        let exchange_idx: usize = match self.exchange_into {
            None => 0,
            Some(x) => x.kind_index() as usize,
        };
        player_idx + 2 * (piece_idx + 9 * (from_idx + 256 * (to_idx + 256 * (effect_idx + 9
            * exchange_idx))))
    }

    /// The move with action index `value`; an error when `value` is out of range.
    pub fn from_index(value: usize) -> (r: Result<Move, DecodeError>)
        ensures
            value < ACTION_SLOTS ==> r == Ok::<Move, DecodeError>(decode_spec(value as int)),
            value >= ACTION_SLOTS ==> r == Err::<Move, DecodeError>(DecodeError::OutOfRange),
    {
        if value >= ACTION_SLOTS {
            return Err(DecodeError::OutOfRange);
        }
        let player_idx = value % 2;
        let value = value / 2;
        let piece_idx = value % 9;
        let value = value / 9;
        let from_idx = value % 256;
        let value = value / 256;
        let to_idx = value % 256;
        let value = value / 256;
        let effect_idx = value % 9;
        let value = value / 9;
        let exchange_idx = value % 9;
        let player = if player_idx == 0 {
            PlayerID::Host
        } else {
            PlayerID::Guest
        };
        let piece = Piece::of_kind(piece_idx as u8, player);
        let from = (from_idx as i16 - 128) as i8;
        let to = (to_idx as i16 - 128) as i8;
        let effect = if effect_idx == 0 {
            None
        } else {
            Some(Direction::from_index(effect_idx - 1))
        };
        let exchange_into = if exchange_idx == 0 {
            None
        } else {
            Some(MortalPiece::of_kind(exchange_idx as u8, player))
        };
        Ok(Move { player, piece, from, to, effect, exchange_into })
    }
}

proof fn lemma_digit(x: int, d: int, q: int, r: int)
    requires
        d > 0,
        0 <= r < d,
        x == r + d * q,
    ensures
        x % d == r,
        x / d == q,
{
    assert(x == q * d + r) by (nonlinear_arith)
        requires
            x == r + d * q,
    ;
    lemma_fundamental_div_mod_converse(x, d, q, r);
}

/// Decoding the index of a well-formed move gives the move back.
pub proof fn lemma_decode_encode(m: Move)
    requires
        m.well_formed(),
    ensures
        0 <= encode_spec(m) < ACTION_SLOTS,
        decode_spec(encode_spec(m)) == m,
{
    let p = m.player.index() as int;
    let k = m.piece.kind() as int;
    let f = m.from + 128;
    let t = m.to + 128;
    let e = effect_index(m.effect) as int;
    let x = exchange_index(m.exchange_into) as int;
    let v5 = x;
    let v4 = e + 9 * v5;
    let v3 = t + 256 * v4;
    let v2 = f + 256 * v3;
    let v1 = k + 9 * v2;
    let v = p + 2 * v1;
    assert(v == encode_spec(m));
    lemma_digit(v, 2, v1, p);
    lemma_digit(v1, 9, v2, k);
    lemma_digit(v2, 256, v3, f);
    lemma_digit(v3, 256, v4, t);
    lemma_digit(v4, 9, v5, e);
    lemma_digit(v5, 9, 0, x);
    let d = decode_spec(v);
    assert(d.player == m.player);
    assert(d.piece == m.piece);
    assert(d.effect == m.effect);
    assert(d.exchange_into == m.exchange_into);
}

/// Every index in range is the index of exactly the well-formed move it decodes to.
pub proof fn lemma_encode_decode(v: int)
    requires
        0 <= v < ACTION_SLOTS,
    ensures
        decode_spec(v).well_formed(),
        encode_spec(decode_spec(v)) == v,
{
    let v1 = v / 2;
    let v2 = v1 / 9;
    let v3 = v2 / 256;
    let v4 = v3 / 256;
    let v5 = v4 / 9;
    lemma_fundamental_div_mod(v, 2);
    lemma_fundamental_div_mod(v1, 9);
    lemma_fundamental_div_mod(v2, 256);
    lemma_fundamental_div_mod(v3, 256);
    lemma_fundamental_div_mod(v4, 9);
    assert(v5 < 9) by (nonlinear_arith)
        requires
            v == v % 2 + 2 * v1,
            v1 == v1 % 9 + 9 * v2,
            v2 == v2 % 256 + 256 * v3,
            v3 == v3 % 256 + 256 * v4,
            v4 == v4 % 9 + 9 * v5,
            0 <= v % 2,
            0 <= v1 % 9,
            0 <= v2 % 256,
            0 <= v3 % 256,
            0 <= v4 % 9,
            0 <= v,
            v < 95551488,
    ;
    lemma_digit(v5, 9, 0, v5);
    let m = decode_spec(v);
    assert(m.piece.kind() == v1 % 9);
    assert(effect_index(m.effect) == v4 % 9);
    assert(exchange_index(m.exchange_into) == v5 % 9);
}

} // verus!
