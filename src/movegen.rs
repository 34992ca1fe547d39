use vstd::prelude::*;
use crate::board::{
    in_bounds, is_in_bounds, lemma_square_id_injective, lemma_square_id_inverse, square_col,
    square_id, square_id_of, square_row, NUM_CELLS,
};
use crate::codec::{
    decode_spec, effect_index, encode_spec, lemma_decode_encode, Move, ACTION_SLOTS,
};
use crate::game::Ginseng;
use crate::pieces::{Direction, MortalPiece, Piece, PlayerID, mortal_of};

verus! {

/// The most moves a position may offer.
pub const MAX_NUM_POSSIBLE_MOVES: usize = 2034;

/// Steps a tile may take along a line: one for the Lotus, eight for the Wheel,
/// five for the others.
pub open spec fn base_range(p: Piece) -> int {
    if p.kind() == 0 {
        1
    } else if p.kind() == 8 {
        8
    } else {
        5
    }
}

/// Whether the square one step from `(r, c)` in direction number `i` holds a
/// Dragon of `pl`.
pub open spec fn dragon_in_dir(g: Ginseng, r: int, c: int, pl: PlayerID, i: int) -> bool {
    let d = Direction::at(i);
    in_bounds(d.row_after(r, 1), d.col_after(c, 1)) && g.cell(d.row_after(r, 1), d.col_after(c, 1))
        == Some(Piece::Dragon { player: pl })
}

/// Whether a Dragon of `pl` stands next to `(r, c)`.
pub open spec fn dragon_next_to(g: Ginseng, r: int, c: int, pl: PlayerID) -> bool {
    exists|i: int| 0 <= i < 8 && #[trigger] dragon_in_dir(g, r, c, pl, i)
}

/// Steps the mover's tile `p` at `(r, c)` may take: its base range, one more
/// next to a Dragon of its side (the Lotus and the Dragon itself excepted).
pub open spec fn range_of(g: Ginseng, r: int, c: int, p: Piece) -> int {
    base_range(p) + if p.kind() != 0 && p.kind() != 3 && dragon_next_to(g, r, c, g.player) {
        1int
    } else {
        0int
    }
}

/// Whether the mover can take what stands at `(r, c)`: a tile of the
/// opponent other than its Lotus.
pub open spec fn capturable(g: Ginseng, r: int, c: int) -> bool {
    match g.cell(r, c) {
        Some(q) => q.kind() != 0 && q.owner() == Some(g.player.opponent()),
        None => false,
    }
}

/// Whether the mover's tile `p` may end its move on `(r, c)`: an empty
/// playable square, or a capturable tile when `p` is not a Lotus.
pub open spec fn landing_ok(g: Ginseng, p: Piece, r: int, c: int) -> bool {
    in_bounds(r, c) && (g.cell(r, c) is None || (p.kind() != 0 && capturable(g, r, c)))
}

/// Whether the first `k` steps from `(r, c)` along `d` cross only empty
/// playable squares.
pub open spec fn clear(g: Ginseng, r: int, c: int, d: Direction, k: int) -> bool
    decreases k,
{
    if k <= 0 {
        true
    } else {
        clear(g, r, c, d, k - 1) && in_bounds(d.row_after(r, k), d.col_after(c, k)) && g.cell(
            d.row_after(r, k),
            d.col_after(c, k),
        ) is None
    }
}

/// Whether, after a tile moves from `(fr, fc)` to `(tr, tc)`, it may push the
/// tile next to it along `d` one square further: that tile is not the mover
/// nor a Lotus, and the square beyond is empty and playable.
pub open spec fn push_ok(g: Ginseng, fr: int, fc: int, tr: int, tc: int, d: Direction) -> bool {
    let ar = d.row_after(tr, 1);
    let ac = d.col_after(tc, 1);
    let br = d.row_after(tr, 2);
    let bc = d.col_after(tc, 2);
    &&& in_bounds(ar, ac)
    &&& !(ar == fr && ac == fc)
    &&& match g.cell(ar, ac) {
        Some(q) => q.kind() != 0 && q.kind() < 9,
        None => false,
    }
    &&& in_bounds(br, bc)
    &&& g.cell(br, bc) is None
}

/// Whether the kind has a directional effect: the Sky Bison and the Badgermole.
pub open spec fn has_effects(p: Piece) -> bool {
    p.kind() == 4 || p.kind() == 5
}

/// The effect with number `e`: 0 for none, else the direction `e - 1`.
pub open spec fn effect_of(e: int) -> Option<Direction> {
    if e == 0 {
        None
    } else {
        Some(Direction::at(e - 1))
    }
}

/// Whether effect number `e` is open to tile `p` moving from `(fr, fc)` to `(tr, tc)`.
pub open spec fn effect_ok(g: Ginseng, p: Piece, fr: int, fc: int, tr: int, tc: int, e: int) -> bool {
    e == 0 || (has_effects(p) && push_ok(g, fr, fc, tr, tc, Direction::at(e - 1)))
}

/// The kind the mover's tile `p` may be exchanged into on landing at
/// `(tr, tc)`: that of the tile it captures there, when the two kinds differ.
pub open spec fn exchange_target(g: Ginseng, p: Piece, tr: int, tc: int) -> Option<MortalPiece> {
    match g.cell(tr, tc) {
        Some(q) => if p.kind() != 0 && capturable(g, tr, tc) && q.kind() != p.kind() {
            Some(mortal_of(q.kind() as int, g.player))
        } else {
            None
        },
        None => None,
    }
}

/// The move of the mover's tile `p` from `(fr, fc)` to `(tr, tc)`.
pub open spec fn make_move(
    g: Ginseng,
    p: Piece,
    fr: int,
    fc: int,
    tr: int,
    tc: int,
    effect: Option<Direction>,
    exchange_into: Option<MortalPiece>,
) -> Move {
    Move {
        player: g.player,
        piece: p,
        from: square_id_of(fr, fc) as i8,
        to: square_id_of(tr, tc) as i8,
        effect,
        exchange_into,
    }
}

/// The moves with effect number `e`: the plain one, then the exchange if any.
pub open spec fn effect_variants(
    g: Ginseng,
    p: Piece,
    fr: int,
    fc: int,
    tr: int,
    tc: int,
    e: int,
) -> Seq<Move> {
    if effect_ok(g, p, fr, fc, tr, tc, e) {
        seq![make_move(g, p, fr, fc, tr, tc, effect_of(e), None)] + match exchange_target(
            g,
            p,
            tr,
            tc,
        ) {
            Some(x) => seq![make_move(g, p, fr, fc, tr, tc, effect_of(e), Some(x))],
            None => Seq::<Move>::empty(),
        }
    } else {
        Seq::<Move>::empty()
    }
}

/// The moves landing on `(tr, tc)` with effect numbers below `n`.
pub open spec fn effect_acc(
    g: Ginseng,
    p: Piece,
    fr: int,
    fc: int,
    tr: int,
    tc: int,
    n: int,
) -> Seq<Move>
    decreases n,
{
    if n <= 0 {
        Seq::<Move>::empty()
    } else {
        effect_acc(g, p, fr, fc, tr, tc, n - 1) + effect_variants(g, p, fr, fc, tr, tc, n - 1)
    }
}

/// All moves of tile `p` from `(fr, fc)` that land on `(tr, tc)`.
pub open spec fn landing_moves(g: Ginseng, p: Piece, fr: int, fc: int, tr: int, tc: int) -> Seq<
    Move,
> {
    effect_acc(g, p, fr, fc, tr, tc, 9)
}

/// The moves landing `k` steps from `(r, c)` along `d`.
pub open spec fn ray_item(g: Ginseng, p: Piece, r: int, c: int, d: Direction, k: int) -> Seq<Move> {
    if clear(g, r, c, d, k - 1) && landing_ok(g, p, d.row_after(r, k), d.col_after(c, k)) {
        landing_moves(g, p, r, c, d.row_after(r, k), d.col_after(c, k))
    } else {
        Seq::<Move>::empty()
    }
}

/// The moves along `d` of at most `n` steps, nearest first.
pub open spec fn ray_acc(g: Ginseng, p: Piece, r: int, c: int, d: Direction, n: int) -> Seq<Move>
    decreases n,
{
    if n <= 0 {
        Seq::<Move>::empty()
    } else {
        ray_acc(g, p, r, c, d, n - 1) + ray_item(g, p, r, c, d, n)
    }
}

/// The moves of at most `range` steps along the first `n` directions.
pub open spec fn dir_acc(g: Ginseng, p: Piece, r: int, c: int, range: int, n: int) -> Seq<Move>
    decreases n,
{
    if n <= 0 {
        Seq::<Move>::empty()
    } else {
        dir_acc(g, p, r, c, range, n - 1) + ray_acc(g, p, r, c, Direction::at(n - 1), range)
    }
}

/// The moves of the tile `p` standing at `(r, c)`.
pub open spec fn piece_moves(g: Ginseng, r: int, c: int, p: Piece) -> Seq<Move> {
    dir_acc(g, p, r, c, range_of(g, r, c, p), 8)
}

/// The moves of whatever stands at cell `i`, if it is a tile of the mover on
/// a playable square.
pub open spec fn cell_moves(g: Ginseng, i: int) -> Seq<Move> {
    match g.board@[i] {
        Some(p) => if p.owner() == Some(g.player) && in_bounds(i / 17, i % 17) {
            piece_moves(g, i / 17, i % 17, p)
        } else {
            Seq::<Move>::empty()
        },
        None => Seq::<Move>::empty(),
    }
}

/// The moves of the tiles on the first `n` cells.
pub open spec fn square_acc(g: Ginseng, n: int) -> Seq<Move>
    decreases n,
{
    if n <= 0 {
        Seq::<Move>::empty()
    } else {
        square_acc(g, n - 1) + cell_moves(g, n - 1)
    }
}

/// Every move the rules allow the side to move, tile by tile in row-major
/// order, direction by direction clockwise from north, nearest square first,
/// effects in order, each plain move before its exchange.
pub open spec fn candidate_moves(g: Ginseng) -> Seq<Move> {
    square_acc(g, 289)
}

/// The legal moves handed out: the candidates, cut at the bound of the
/// action buffers.
pub open spec fn legal_moves_spec(g: Ginseng) -> Seq<Move> {
    if candidate_moves(g).len() <= 2034 {
        candidate_moves(g)
    } else {
        candidate_moves(g).take(2034)
    }
}

/// Clockwise number of the direction leading from `(fr, fc)` towards `(tr, tc)`.
pub open spec fn dir_index_of(fr: int, fc: int, tr: int, tc: int) -> int {
    if tr < fr {
        if tc < fc {
            7
        } else if tc == fc {
            0
        } else {
            1
        }
    } else if tr == fr {
        if tc > fc {
            2
        } else {
            6
        }
    } else {
        if tc > fc {
            3
        } else if tc == fc {
            4
        } else {
            5
        }
    }
}

/// Steps from `(fr, fc)` to `(tr, tc)` along a line.
pub open spec fn distance_of(fr: int, fc: int, tr: int, tc: int) -> int {
    if tr > fr {
        tr - fr
    } else if tr < fr {
        fr - tr
    } else if tc > fc {
        tc - fc
    } else {
        fc - tc
    }
}

pub proof fn lemma_line_recovered(i: int, fr: int, fc: int, k: int)
    requires
        0 <= i < 8,
        k >= 1,
    ensures
        dir_index_of(fr, fc, Direction::at(i).row_after(fr, k), Direction::at(i).col_after(fc, k))
            == i,
        distance_of(fr, fc, Direction::at(i).row_after(fr, k), Direction::at(i).col_after(fc, k))
            == k,
{
}

pub proof fn lemma_effect_index_of(e: int)
    requires
        0 <= e < 9,
    ensures
        effect_index(effect_of(e)) == e,
{
}

/// The effect of number `effect_index(e)` is `e`.
pub proof fn lemma_effect_of_index(e: Option<Direction>)
    ensures
        effect_of(effect_index(e) as int) == e,
        0 <= effect_index(e) < 9,
{
}

/// The rules of a move for position `g`: a tile of the side to move goes
/// along one of the eight lines, at least one step and at most its range,
/// across empty playable squares only, to a playable square that is empty or
/// holds a capturable tile; its effect and exchange are open to it.
pub open spec fn move_ok(g: Ginseng, m: Move) -> bool {
    let fr = square_row(m.from as int);
    let fc = square_col(m.from as int);
    let tr = square_row(m.to as int);
    let tc = square_col(m.to as int);
    &&& in_bounds(fr, fc)
    &&& in_bounds(tr, tc)
    &&& square_id_of(fr, fc) == m.from
    &&& square_id_of(tr, tc) == m.to
    &&& m.from != m.to
    &&& 1 <= distance_of(fr, fc, tr, tc) <= range_of(g, fr, fc, m.piece)
    &&& tr == Direction::at(dir_index_of(fr, fc, tr, tc)).row_after(fr, distance_of(fr, fc, tr, tc))
    &&& tc == Direction::at(dir_index_of(fr, fc, tr, tc)).col_after(fc, distance_of(fr, fc, tr, tc))
    &&& clear(g, fr, fc, Direction::at(dir_index_of(fr, fc, tr, tc)), distance_of(fr, fc, tr, tc) - 1)
    &&& m.player == g.player
    &&& m.piece.owner() == Some(g.player)
    &&& g.cell(fr, fc) == Some(m.piece)
    &&& landing_ok(g, m.piece, tr, tc)
    &&& match m.effect {
        None => true,
        Some(d) => has_effects(m.piece) && push_ok(g, fr, fc, tr, tc, d),
    }
    &&& match m.exchange_into {
        None => true,
        Some(x) => exchange_target(g, m.piece, tr, tc) == Some(x),
    }
}

/// Whether every move of `s` is one that `move_ok` admits.
pub open spec fn all_ok(g: Ginseng, s: Seq<Move>) -> bool {
    forall|i: int| 0 <= i < s.len() ==> move_ok(g, #[trigger] s[i])
}

proof fn lemma_all_ok_add(g: Ginseng, a: Seq<Move>, b: Seq<Move>)
    requires
        all_ok(g, a),
        all_ok(g, b),
    ensures
        all_ok(g, a + b),
{
    assert forall|i: int| 0 <= i < (a + b).len() implies move_ok(g, #[trigger] (a + b)[i]) by {
        if i < a.len() {
            assert((a + b)[i] == a[i]);
        } else {
            assert((a + b)[i] == b[i - a.len()]);
        }
    }
}

proof fn lemma_effect_acc_ok(g: Ginseng, p: Piece, fr: int, fc: int, i: int, k: int, n: int)
    requires
        in_bounds(fr, fc),
        0 <= i < 8,
        1 <= k <= range_of(g, fr, fc, p),
        clear(g, fr, fc, Direction::at(i), k - 1),
        landing_ok(g, p, Direction::at(i).row_after(fr, k), Direction::at(i).col_after(fc, k)),
        g.cell(fr, fc) == Some(p),
        p.owner() == Some(g.player),
        n <= 9,
    ensures
        all_ok(
            g,
            effect_acc(
                g,
                p,
                fr,
                fc,
                Direction::at(i).row_after(fr, k),
                Direction::at(i).col_after(fc, k),
                n,
            ),
        ),
    decreases n,
{
    let tr = Direction::at(i).row_after(fr, k);
    let tc = Direction::at(i).col_after(fc, k);
    if n > 0 {
        lemma_effect_acc_ok(g, p, fr, fc, i, k, n - 1);
        lemma_square_id_inverse(fr, fc);
        lemma_square_id_inverse(tr, tc);
        lemma_line_recovered(i, fr, fc, k);
        if square_id_of(fr, fc) == square_id_of(tr, tc) {
            lemma_square_id_injective(fr, fc, tr, tc);
        }
        let v = effect_variants(g, p, fr, fc, tr, tc, n - 1);
        assert forall|j: int| 0 <= j < v.len() implies move_ok(g, #[trigger] v[j]) by {
            let m = v[j];
            assert(square_row(m.from as int) == fr);
            assert(square_col(m.from as int) == fc);
            assert(square_row(m.to as int) == tr);
            assert(square_col(m.to as int) == tc);
        }
        lemma_all_ok_add(g, effect_acc(g, p, fr, fc, tr, tc, n - 1), v);
    }
}

proof fn lemma_ray_acc_ok(g: Ginseng, p: Piece, r: int, c: int, i: int, n: int)
    requires
        in_bounds(r, c),
        0 <= i < 8,
        n <= range_of(g, r, c, p),
        g.cell(r, c) == Some(p),
        p.owner() == Some(g.player),
    ensures
        all_ok(g, ray_acc(g, p, r, c, Direction::at(i), n)),
    decreases n,
{
    let d = Direction::at(i);
    if n > 0 {
        lemma_ray_acc_ok(g, p, r, c, i, n - 1);
        if clear(g, r, c, d, n - 1) && landing_ok(g, p, d.row_after(r, n), d.col_after(c, n)) {
            lemma_effect_acc_ok(g, p, r, c, i, n, 9);
        }
        lemma_all_ok_add(g, ray_acc(g, p, r, c, d, n - 1), ray_item(g, p, r, c, d, n));
    }
}

proof fn lemma_dir_acc_ok(g: Ginseng, p: Piece, r: int, c: int, n: int)
    requires
        in_bounds(r, c),
        g.cell(r, c) == Some(p),
        p.owner() == Some(g.player),
        n <= 8,
    ensures
        all_ok(g, dir_acc(g, p, r, c, range_of(g, r, c, p), n)),
    decreases n,
{
    let range = range_of(g, r, c, p);
    if n > 0 {
        lemma_dir_acc_ok(g, p, r, c, n - 1);
        lemma_ray_acc_ok(g, p, r, c, n - 1, range);
        lemma_all_ok_add(
            g,
            dir_acc(g, p, r, c, range, n - 1),
            ray_acc(g, p, r, c, Direction::at(n - 1), range),
        );
    }
}

proof fn lemma_square_acc_ok(g: Ginseng, n: int)
    requires
        n <= 289,
    ensures
        all_ok(g, square_acc(g, n)),
    decreases n,
{
    if n > 0 {
        lemma_square_acc_ok(g, n - 1);
        let i = n - 1;
        match g.board@[i] {
            Some(p) => {
                if p.owner() == Some(g.player) && in_bounds(i / 17, i % 17) {
                    let r = i / 17;
                    let c = i % 17;
                    assert(17 * r + c == i) by (nonlinear_arith)
                        requires
                            r == i / 17,
                            c == i % 17,
                    ;
                    lemma_dir_acc_ok(g, p, r, c, 8);
                }
            },
            None => {},
        }
        lemma_all_ok_add(g, square_acc(g, n - 1), cell_moves(g, i));
    }
}

/// Every move handed out for a position satisfies `move_ok`.
pub proof fn lemma_legal_moves_ok(g: Ginseng)
    ensures
        all_ok(g, legal_moves_spec(g)),
{
    lemma_square_acc_ok(g, 289);
}

proof fn lemma_contains_add(a: Seq<Move>, b: Seq<Move>, x: Move)
    requires
        a.contains(x) || b.contains(x),
    ensures
        (a + b).contains(x),
{
    if a.contains(x) {
        let j = choose|j: int| 0 <= j < a.len() && a[j] == x;
        assert((a + b)[j] == x);
    } else {
        let j = choose|j: int| 0 <= j < b.len() && b[j] == x;
        assert((a + b)[a.len() + j] == x);
    }
}

proof fn lemma_effect_acc_has(
    g: Ginseng,
    p: Piece,
    fr: int,
    fc: int,
    tr: int,
    tc: int,
    n: int,
    j: int,
    x: Move,
)
    requires
        0 <= j < n,
        effect_variants(g, p, fr, fc, tr, tc, j).contains(x),
    ensures
        effect_acc(g, p, fr, fc, tr, tc, n).contains(x),
    decreases n,
{
    if j < n - 1 {
        lemma_effect_acc_has(g, p, fr, fc, tr, tc, n - 1, j, x);
    }
    lemma_contains_add(
        effect_acc(g, p, fr, fc, tr, tc, n - 1),
        effect_variants(g, p, fr, fc, tr, tc, n - 1),
        x,
    );
}

proof fn lemma_ray_acc_has(g: Ginseng, p: Piece, r: int, c: int, d: Direction, n: int, k: int, x: Move)
    requires
        1 <= k <= n,
        ray_item(g, p, r, c, d, k).contains(x),
    ensures
        ray_acc(g, p, r, c, d, n).contains(x),
    decreases n,
{
    if k < n {
        lemma_ray_acc_has(g, p, r, c, d, n - 1, k, x);
    }
    lemma_contains_add(ray_acc(g, p, r, c, d, n - 1), ray_item(g, p, r, c, d, n), x);
}

proof fn lemma_dir_acc_has(g: Ginseng, p: Piece, r: int, c: int, range: int, n: int, j: int, x: Move)
    requires
        0 <= j < n,
        ray_acc(g, p, r, c, Direction::at(j), range).contains(x),
    ensures
        dir_acc(g, p, r, c, range, n).contains(x),
    decreases n,
{
    if j < n - 1 {
        lemma_dir_acc_has(g, p, r, c, range, n - 1, j, x);
    }
    lemma_contains_add(
        dir_acc(g, p, r, c, range, n - 1),
        ray_acc(g, p, r, c, Direction::at(n - 1), range),
        x,
    );
}

proof fn lemma_square_acc_has(g: Ginseng, n: int, j: int, x: Move)
    requires
        0 <= j < n,
        cell_moves(g, j).contains(x),
    ensures
        square_acc(g, n).contains(x),
    decreases n,
{
    if j < n - 1 {
        lemma_square_acc_has(g, n - 1, j, x);
    }
    lemma_contains_add(square_acc(g, n - 1), cell_moves(g, n - 1), x);
}

/// Every move the rules allow is among the candidates: the generator misses none.
pub proof fn lemma_rule_moves_generated(g: Ginseng, m: Move)
    requires
        move_ok(g, m),
    ensures
        candidate_moves(g).contains(m),
{
    let fr = square_row(m.from as int);
    let fc = square_col(m.from as int);
    let tr = square_row(m.to as int);
    let tc = square_col(m.to as int);
    let i = dir_index_of(fr, fc, tr, tc);
    let k = distance_of(fr, fc, tr, tc);
    let d = Direction::at(i);
    let p = m.piece;
    let range = range_of(g, fr, fc, p);
    let e = effect_index(m.effect) as int;
    lemma_effect_of_index(m.effect);
    let v = effect_variants(g, p, fr, fc, tr, tc, e);
    assert(effect_ok(g, p, fr, fc, tr, tc, e));
    assert(v[0] == make_move(g, p, fr, fc, tr, tc, m.effect, None));
    match m.exchange_into {
        None => {
            assert(v[0] == m);
        },
        Some(x) => {
            assert(v[1] == m);
        },
    }
    lemma_effect_acc_has(g, p, fr, fc, tr, tc, 9, e, m);
    assert(ray_item(g, p, fr, fc, d, k) == landing_moves(g, p, fr, fc, tr, tc));
    lemma_ray_acc_has(g, p, fr, fc, d, range, k, m);
    lemma_dir_acc_has(g, p, fr, fc, range, 8, i, m);
    let ci = 17 * fr + fc;
    assert(ci / 17 == fr && ci % 17 == fc) by (nonlinear_arith)
        requires
            ci == 17 * fr + fc,
            0 <= fc < 17,
    ;
    assert(cell_moves(g, ci) == piece_moves(g, fr, fc, p));
    lemma_square_acc_has(g, 289, ci, m);
}

/// The legal moves are exactly the moves the rules allow, as long as they fit
/// the action buffers.
pub proof fn lemma_legal_moves_exact(g: Ginseng, m: Move)
    requires
        candidate_moves(g).len() <= MAX_NUM_POSSIBLE_MOVES,
    ensures
        legal_moves_spec(g).contains(m) <==> move_ok(g, m),
{
    if move_ok(g, m) {
        lemma_rule_moves_generated(g, m);
    }
    if legal_moves_spec(g).contains(m) {
        lemma_legal_moves_ok(g);
        let j = choose|j: int| 0 <= j < legal_moves_spec(g).len() && legal_moves_spec(g)[j] == m;
        assert(move_ok(g, legal_moves_spec(g)[j]));
    }
}

/// No legal move ends on a tile of the side that makes it.
pub proof fn lemma_no_self_capture(g: Ginseng, m: Move)
    requires
        legal_moves_spec(g).contains(m),
    ensures
        match g.cell(square_row(m.to as int), square_col(m.to as int)) {
            Some(q) => q.owner() != Some(m.player),
            None => true,
        },
{
    lemma_legal_moves_ok(g);
    let i = choose|i: int| 0 <= i < legal_moves_spec(g).len() && legal_moves_spec(g)[i] == m;
    assert(move_ok(g, legal_moves_spec(g)[i]));
}

/// A position never offers more moves than the action buffers hold.
pub proof fn lemma_bounded_moves(g: Ginseng)
    ensures
        legal_moves_spec(g).len() <= MAX_NUM_POSSIBLE_MOVES,
{
}

/// Every legal move decodes back from its action index, and that index lies
/// in the action range.
pub proof fn lemma_legal_round_trip(g: Ginseng, m: Move)
    requires
        legal_moves_spec(g).contains(m),
    ensures
        m.well_formed(),
        0 <= encode_spec(m) < ACTION_SLOTS,
        decode_spec(encode_spec(m)) == m,
{
    lemma_legal_moves_ok(g);
    let i = choose|i: int| 0 <= i < legal_moves_spec(g).len() && legal_moves_spec(g)[i] == m;
    assert(move_ok(g, legal_moves_spec(g)[i]));
    lemma_decode_encode(m);
}

fn cell_at(g: &Ginseng, r: i64, c: i64) -> (res: Option<Piece>)
    requires
        0 <= r < 17,
        0 <= c < 17,
    ensures
        res == g.cell(r as int, c as int),
{
    g.board[(17 * r + c) as usize]
}

fn dragon_next_to_exec(g: &Ginseng, r: i64, c: i64) -> (b: bool)
    requires
        0 <= r < 17,
        0 <= c < 17,
    ensures
        b == dragon_next_to(*g, r as int, c as int, g.player),
{
    let mut i: usize = 0;
    while i < 8
        invariant
            0 <= r < 17,
            0 <= c < 17,
            i <= 8,
            forall|j: int| 0 <= j < i ==> !dragon_in_dir(*g, r as int, c as int, g.player, j),
        decreases 8 - i,
    {
        let d = Direction::from_index(i);
        let (ar, ac) = d.advance(r, c, 1);
        if is_in_bounds(ar, ac) && cell_at(g, ar, ac) == Some(Piece::Dragon { player: g.player }) {
            assert(dragon_in_dir(*g, r as int, c as int, g.player, i as int));
            return true;
        }
        i = i + 1;
    }
    false
}

fn range_exec(g: &Ginseng, r: i64, c: i64, p: Piece) -> (n: i64)
    requires
        0 <= r < 17,
        0 <= c < 17,
    ensures
        n == range_of(*g, r as int, c as int, p),
        1 <= n <= 9,
{
    let k = p.kind_index();
    let base: i64 = if k == 0 {
        1
    } else if k == 8 {
        8
    } else {
        5
    };
    if k != 0 && k != 3 && dragon_next_to_exec(g, r, c) {
        base + 1
    } else {
        base
    }
}

fn capturable_exec(g: &Ginseng, r: i64, c: i64) -> (b: bool)
    requires
        0 <= r < 17,
        0 <= c < 17,
    ensures
        b == capturable(*g, r as int, c as int),
{
    match cell_at(g, r, c) {
        Some(q) => q.kind_index() != 0 && q.owner_of() == Some(g.player.next()),
        None => false,
    }
}

fn landing_ok_exec(g: &Ginseng, p: Piece, r: i64, c: i64) -> (b: bool)
    requires
        -100 <= r <= 100,
        -100 <= c <= 100,
    ensures
        b == landing_ok(*g, p, r as int, c as int),
{
    if !is_in_bounds(r, c) {
        return false;
    }
    match cell_at(g, r, c) {
        None => true,
        Some(_) => p.kind_index() != 0 && capturable_exec(g, r, c),
    }
}

fn push_ok_exec(g: &Ginseng, fr: i64, fc: i64, tr: i64, tc: i64, d: Direction) -> (b: bool)
    requires
        0 <= tr < 17,
        0 <= tc < 17,
    ensures
        b == push_ok(*g, fr as int, fc as int, tr as int, tc as int, d),
{
    let (ar, ac) = d.advance(tr, tc, 1);
    let (br, bc) = d.advance(tr, tc, 2);
    if !is_in_bounds(ar, ac) || (ar == fr && ac == fc) {
        return false;
    }
    let occupied = match cell_at(g, ar, ac) {
        Some(q) => q.kind_index() != 0 && q.kind_index() < 9,
        None => false,
    };
    occupied && is_in_bounds(br, bc) && cell_at(g, br, bc).is_none()
}

fn exchange_target_exec(g: &Ginseng, p: Piece, tr: i64, tc: i64) -> (x: Option<MortalPiece>)
    requires
        0 <= tr < 17,
        0 <= tc < 17,
    ensures
        x == exchange_target(*g, p, tr as int, tc as int),
{
    match cell_at(g, tr, tc) {
        Some(q) => {
            if p.kind_index() != 0 && capturable_exec(g, tr, tc) && q.kind_index() != p.kind_index() {
                Some(MortalPiece::of_kind(q.kind_index(), g.player))
            } else {
                None
            }
        },
        None => None,
    }
}

fn push_landing_moves(
    g: &Ginseng,
    p: Piece,
    fr: i64,
    fc: i64,
    tr: i64,
    tc: i64,
    out: &mut Vec<Move>,
)
    requires
        in_bounds(fr as int, fc as int),
        in_bounds(tr as int, tc as int),
    ensures
        final(out)@ == old(out)@ + landing_moves(
            *g,
            p,
            fr as int,
            fc as int,
            tr as int,
            tc as int,
        ),
{
    let from = square_id(fr as usize, fc as usize);
    let to = square_id(tr as usize, tc as usize);
    let exchange = exchange_target_exec(g, p, tr, tc);
    let with_effects = p.kind_index() == 4 || p.kind_index() == 5;
    let ghost start = out@;
    let mut e: usize = 0;
    while e < 9
        invariant
            in_bounds(fr as int, fc as int),
            in_bounds(tr as int, tc as int),
            e <= 9,
            from == square_id_of(fr as int, fc as int),
            to == square_id_of(tr as int, tc as int),
            exchange == exchange_target(*g, p, tr as int, tc as int),
            with_effects == has_effects(p),
            out@ == start + effect_acc(*g, p, fr as int, fc as int, tr as int, tc as int, e as int),
        decreases 9 - e,
    {
        let effect: Option<Direction> = if e == 0 {
            None
        } else {
            Some(Direction::from_index(e - 1))
        };
        let allowed = e == 0 || (with_effects && push_ok_exec(
            g,
            fr,
            fc,
            tr,
            tc,
            Direction::from_index(e - 1),
        ));
        let ghost before = out@;
        if allowed {
            out.push(Move { player: g.player, piece: p, from, to, effect, exchange_into: None });
            match exchange {
                Some(x) => {
                    out.push(Move { player: g.player, piece: p, from, to, effect, exchange_into: Some(x) });
                },
                None => {},
            }
        }
        assert(out@ =~= before + effect_variants(
            *g,
            p,
            fr as int,
            fc as int,
            tr as int,
            tc as int,
            e as int,
        ));
        e = e + 1;
    }
}

fn push_ray(g: &Ginseng, p: Piece, r: i64, c: i64, d: Direction, range: i64, out: &mut Vec<Move>)
    requires
        in_bounds(r as int, c as int),
        1 <= range <= 9,
    ensures
        final(out)@ == old(out)@ + ray_acc(*g, p, r as int, c as int, d, range as int),
{
    let ghost start = out@;
    let mut open = true;
    let mut k: i64 = 1;
    while k <= range
        invariant
            in_bounds(r as int, c as int),
            1 <= k <= range + 1,
            range <= 9,
            open == clear(*g, r as int, c as int, d, k - 1),
            out@ == start + ray_acc(*g, p, r as int, c as int, d, k - 1),
        decreases range + 1 - k,
    {
        let (tr, tc) = d.advance(r, c, k);
        let ghost before = out@;
        if open && landing_ok_exec(g, p, tr, tc) {
            push_landing_moves(g, p, r, c, tr, tc, out);
        }
        assert(out@ =~= before + ray_item(*g, p, r as int, c as int, d, k as int));
        open = open && is_in_bounds(tr, tc) && cell_at(g, tr, tc).is_none();
        k = k + 1;
    }
}

fn push_piece_moves(g: &Ginseng, r: i64, c: i64, p: Piece, out: &mut Vec<Move>)
    requires
        in_bounds(r as int, c as int),
    ensures
        final(out)@ == old(out)@ + piece_moves(*g, r as int, c as int, p),
{
    let range = range_exec(g, r, c, p);
    let ghost start = out@;
    let mut i: usize = 0;
    while i < 8
        invariant
            in_bounds(r as int, c as int),
            i <= 8,
            range == range_of(*g, r as int, c as int, p),
            1 <= range <= 9,
            out@ == start + dir_acc(*g, p, r as int, c as int, range as int, i as int),
        decreases 8 - i,
    {
        let ghost before = out@;
        push_ray(g, p, r, c, Direction::from_index(i), range, out);
        assert(out@ =~= before + ray_acc(
            *g,
            p,
            r as int,
            c as int,
            Direction::at(i as int),
            range as int,
        ));
        i = i + 1;
    }
}

impl Ginseng {
    /// Every move the side to move may make, at most `MAX_NUM_POSSIBLE_MOVES`.
    pub fn legal_moves(&self) -> (moves: Vec<Move>)
        ensures
            moves@ == legal_moves_spec(*self),
            moves@.len() <= MAX_NUM_POSSIBLE_MOVES,
    {
        let mut out: Vec<Move> = Vec::new();
        let mut i: usize = 0;
        while i < NUM_CELLS
            invariant
                i <= 289,
                out@ == square_acc(*self, i as int),
            decreases 289 - i,
        {
            let ghost before = out@;
            match self.board[i] {
                Some(p) => {
                    let r = (i / 17) as i64;
                    let c = (i % 17) as i64;
                    if p.owner_of() == Some(self.player) && is_in_bounds(r, c) {
                        push_piece_moves(self, r, c, p, &mut out);
                    }
                },
                None => {},
            }
            assert(out@ =~= before + cell_moves(*self, i as int));
            i = i + 1;
        }
        if out.len() > MAX_NUM_POSSIBLE_MOVES {
            out.truncate(MAX_NUM_POSSIBLE_MOVES);
        }
        out
    }
}

} // verus!
