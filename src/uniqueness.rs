use vstd::prelude::*;
use crate::board::{in_bounds, lemma_square_id_inverse, square_col, square_row};
use crate::codec::{effect_index, Move};
use crate::game::Ginseng;
use crate::movegen::{
    cell_moves, dir_acc, dir_index_of, distance_of, effect_acc, effect_variants, landing_moves,
    lemma_effect_index_of, lemma_line_recovered, legal_moves_spec, piece_moves, range_of, ray_acc,
    ray_item, square_acc,
};
use crate::pieces::{Direction, Piece};

verus! {

/// The position of a move in the generator's order: origin cell, then
/// direction, then distance, then effect, then plain before exchange.
pub open spec fn move_key(m: Move) -> int {
    let fr = square_row(m.from as int);
    let fc = square_col(m.from as int);
    let tr = square_row(m.to as int);
    let tc = square_col(m.to as int);
    ((((17 * fr + fc) * 8 + dir_index_of(fr, fc, tr, tc)) * 10 + distance_of(fr, fc, tr, tc)) * 9
        + effect_index(m.effect)) * 2 + if m.exchange_into is Some {
        1int
    } else {
        0int
    }
}

/// Whether the keys of `s` strictly increase.
pub open spec fn increasing(s: Seq<Move>) -> bool {
    forall|a: int, b: int|
        0 <= a < b < s.len() ==> move_key(#[trigger] s[a]) < move_key(#[trigger] s[b])
}

/// Whether every key of `s` lies in `[lo, hi)`.
pub open spec fn keys_within(s: Seq<Move>, lo: int, hi: int) -> bool {
    forall|a: int| 0 <= a < s.len() ==> lo <= #[trigger] move_key(s[a]) < hi
}

proof fn lemma_increasing_add(a: Seq<Move>, b: Seq<Move>, lo: int, mid: int, hi: int)
    requires
        lo <= mid <= hi,
        increasing(a),
        increasing(b),
        keys_within(a, lo, mid),
        keys_within(b, mid, hi),
    ensures
        increasing(a + b),
        keys_within(a + b, lo, hi),
{
    let s = a + b;
    assert forall|x: int, y: int| 0 <= x < y < s.len() implies move_key(#[trigger] s[x])
        < move_key(#[trigger] s[y]) by {
        if y < a.len() {
            assert(s[x] == a[x] && s[y] == a[y]);
        } else if x >= a.len() {
            assert(s[x] == b[x - a.len()] && s[y] == b[y - a.len()]);
        } else {
            assert(s[x] == a[x] && s[y] == b[y - a.len()]);
            assert(move_key(a[x]) < mid);
            assert(mid <= move_key(b[y - a.len()]));
        }
    }
    assert forall|x: int| 0 <= x < s.len() implies lo <= #[trigger] move_key(s[x]) < hi by {
        if x < a.len() {
            assert(s[x] == a[x]);
            assert(move_key(a[x]) < mid);
        } else {
            assert(s[x] == b[x - a.len()]);
            assert(mid <= move_key(b[x - a.len()]));
        }
    }
}

proof fn lemma_effect_acc_increasing(
    g: Ginseng,
    p: Piece,
    fr: int,
    fc: int,
    i: int,
    k: int,
    n: int,
)
    requires
        in_bounds(fr, fc),
        in_bounds(Direction::at(i).row_after(fr, k), Direction::at(i).col_after(fc, k)),
        0 <= i < 8,
        1 <= k,
        0 <= n <= 9,
    ensures
        ({
            let tr = Direction::at(i).row_after(fr, k);
            let tc = Direction::at(i).col_after(fc, k);
            let base = (((17 * fr + fc) * 8 + i) * 10 + k) * 18;
            increasing(effect_acc(g, p, fr, fc, tr, tc, n)) && keys_within(
                effect_acc(g, p, fr, fc, tr, tc, n),
                base,
                base + 2 * n,
            )
        }),
    decreases n,
{
    let tr = Direction::at(i).row_after(fr, k);
    let tc = Direction::at(i).col_after(fc, k);
    let base = (((17 * fr + fc) * 8 + i) * 10 + k) * 18;
    if n > 0 {
        lemma_effect_acc_increasing(g, p, fr, fc, i, k, n - 1);
        lemma_square_id_inverse(fr, fc);
        lemma_square_id_inverse(tr, tc);
        lemma_line_recovered(i, fr, fc, k);
        lemma_effect_index_of(n - 1);
        let v = effect_variants(g, p, fr, fc, tr, tc, n - 1);
        assert forall|x: int| 0 <= x < v.len() implies move_key(#[trigger] v[x]) == base + 2 * (n
            - 1) + x by {
            let m = v[x];
            assert(square_row(m.from as int) == fr);
            assert(square_col(m.from as int) == fc);
            assert(square_row(m.to as int) == tr);
            assert(square_col(m.to as int) == tc);
        }
        lemma_increasing_add(
            effect_acc(g, p, fr, fc, tr, tc, n - 1),
            v,
            base,
            base + 2 * (n - 1),
            base + 2 * n,
        );
    }
}

proof fn lemma_ray_acc_increasing(g: Ginseng, p: Piece, r: int, c: int, i: int, n: int)
    requires
        in_bounds(r, c),
        0 <= i < 8,
        0 <= n <= 9,
    ensures
        ({
            let base = ((17 * r + c) * 8 + i) * 180;
            increasing(ray_acc(g, p, r, c, Direction::at(i), n)) && keys_within(
                ray_acc(g, p, r, c, Direction::at(i), n),
                base + 18,
                base + 18 * (n + 1),
            )
        }),
    decreases n,
{
    let d = Direction::at(i);
    let base = ((17 * r + c) * 8 + i) * 180;
    if n > 0 {
        lemma_ray_acc_increasing(g, p, r, c, i, n - 1);
        let item = ray_item(g, p, r, c, d, n);
        if item.len() > 0 {
            lemma_effect_acc_increasing(g, p, r, c, i, n, 9);
            assert(item == landing_moves(g, p, r, c, d.row_after(r, n), d.col_after(c, n)));
        }
        assert((((17 * r + c) * 8 + i) * 10 + n) * 18 == base + 18 * n);
        lemma_increasing_add(
            ray_acc(g, p, r, c, d, n - 1),
            item,
            base + 18,
            base + 18 * n,
            base + 18 * (n + 1),
        );
    }
}

proof fn lemma_dir_acc_increasing(g: Ginseng, p: Piece, r: int, c: int, range: int, n: int)
    requires
        in_bounds(r, c),
        0 <= range <= 9,
        0 <= n <= 8,
    ensures
        increasing(dir_acc(g, p, r, c, range, n)),
        keys_within(dir_acc(g, p, r, c, range, n), (17 * r + c) * 1440, (17 * r + c) * 1440 + 180
            * n),
    decreases n,
{
    if n > 0 {
        lemma_dir_acc_increasing(g, p, r, c, range, n - 1);
        lemma_ray_acc_increasing(g, p, r, c, n - 1, range);
        let base = (17 * r + c) * 1440;
        assert(((17 * r + c) * 8 + (n - 1)) * 180 == base + 180 * (n - 1));
        lemma_increasing_add(
            dir_acc(g, p, r, c, range, n - 1),
            ray_acc(g, p, r, c, Direction::at(n - 1), range),
            base,
            base + 180 * (n - 1),
            base + 180 * n,
        );
    }
}

proof fn lemma_square_acc_increasing(g: Ginseng, n: int)
    requires
        0 <= n <= 289,
    ensures
        increasing(square_acc(g, n)),
        keys_within(square_acc(g, n), 0, 1440 * n),
    decreases n,
{
    if n > 0 {
        lemma_square_acc_increasing(g, n - 1);
        let i = n - 1;
        let s = cell_moves(g, i);
        if s.len() > 0 {
            let r = i / 17;
            let c = i % 17;
            assert(17 * r + c == i && 0 <= c < 17) by (nonlinear_arith)
                requires
                    r == i / 17,
                    c == i % 17,
                    0 <= i,
            ;
            let p = g.board@[i]->Some_0;
            assert(in_bounds(r, c));
            assert(s == piece_moves(g, r, c, p));
            let range = range_of(g, r, c, p);
            assert(range <= 9);
            lemma_dir_acc_increasing(g, p, r, c, range, 8);
        }
        lemma_increasing_add(square_acc(g, n - 1), s, 0, 1440 * (n - 1), 1440 * n);
    }
}

/// No move appears twice among the legal moves of a position.
pub proof fn lemma_legal_moves_distinct(g: Ginseng)
    ensures
        forall|a: int, b: int|
            0 <= a < b < legal_moves_spec(g).len() ==> legal_moves_spec(g)[a]
                != legal_moves_spec(g)[b],
{
    lemma_square_acc_increasing(g, 289);
    let s = legal_moves_spec(g);
    let all = square_acc(g, 289);
    assert forall|a: int, b: int| 0 <= a < b < s.len() implies s[a] != s[b] by {
        assert(s[a] == all[a] && s[b] == all[b]);
        assert(move_key(all[a]) < move_key(all[b]));
    }
}

} // verus!
