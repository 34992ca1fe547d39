use vstd::prelude::*;

verus! {

/// Rows and columns of the grid.
pub const SIZE: usize = 17;

/// Cells of the grid, playable or not.
pub const NUM_CELLS: usize = 289;

/// Playable squares of the grid.
pub const NUM_SQUARES: usize = 249;

/// How many cells at each end of row `r` lie outside the playing area: the
/// four corners of the grid are cut off in steps of one.
pub open spec fn edge(r: int) -> int {
    if r < 4 {
        4 - r
    } else if r > 12 {
        r - 12
    } else {
        0
    }
}

/// Whether `(r, c)` is a playable square.
pub open spec fn in_bounds(r: int, c: int) -> bool {
    0 <= r < 17 && 0 <= c < 17 && edge(r) <= c && c <= 16 - edge(r)
}

/// Playable squares in the rows before row `r`.
pub open spec fn row_start(r: int) -> int {
    if r <= 0 {
        0
    } else if r == 1 {
        9
    } else if r == 2 {
        20
    } else if r == 3 {
        33
    } else if r <= 13 {
        48 + 17 * (r - 4)
    } else if r == 14 {
        216
    } else if r == 15 {
        229
    } else if r == 16 {
        240
    } else {
        249
    }
}

/// Position of a playable square in row-major order over the playable squares.
pub open spec fn square_index(r: int, c: int) -> int {
    row_start(r) + c - edge(r)
}

/// The identifier a move uses for square `(r, c)`: its row-major position,
/// shifted into the range of `i8`.
pub open spec fn square_id_of(r: int, c: int) -> int {
    square_index(r, c) - 128
}

/// The row of the playable square at row-major position `i`.
pub open spec fn row_of_index(i: int) -> int {
    if i < 9 {
        0
    } else if i < 20 {
        1
    } else if i < 33 {
        2
    } else if i < 48 {
        3
    } else if i < 201 {
        4 + (i - 48) / 17
    } else if i < 216 {
        13
    } else if i < 229 {
        14
    } else if i < 240 {
        15
    } else {
        16
    }
}

/// Row of the square with identifier `id`.
pub open spec fn square_row(id: int) -> int {
    row_of_index(id + 128)
}

/// Column of the square with identifier `id`.
pub open spec fn square_col(id: int) -> int {
    id + 128 - row_start(square_row(id)) + edge(square_row(id))
}

/// The identifier of a playable square leads back to the square.
pub proof fn lemma_square_id_inverse(r: int, c: int)
    requires
        in_bounds(r, c),
    ensures
        square_row(square_id_of(r, c)) == r,
        square_col(square_id_of(r, c)) == c,
        -128 <= square_id_of(r, c) < 121,
{
    lemma_square_index_range(r, c);
}

proof fn lemma_square_index_range(r: int, c: int)
    requires
        in_bounds(r, c),
    ensures
        row_start(r) <= square_index(r, c) < row_start(r + 1),
        0 <= square_index(r, c) < 249,
        row_of_index(square_index(r, c)) == r,
{
    if 4 <= r <= 12 {
        let i = square_index(r, c);
        assert(i == 48 + 17 * (r - 4) + c);
        assert((48 + 17 * (r - 4) + c - 48) / 17 == r - 4) by (nonlinear_arith)
            requires
                0 <= c < 17,
                4 <= r <= 12,
        ;
    }
}

/// Two playable squares with the same identifier are the same square.
pub proof fn lemma_square_id_injective(r1: int, c1: int, r2: int, c2: int)
    requires
        in_bounds(r1, c1),
        in_bounds(r2, c2),
        square_id_of(r1, c1) == square_id_of(r2, c2),
    ensures
        r1 == r2,
        c1 == c2,
{
    lemma_square_index_range(r1, c1);
    lemma_square_index_range(r2, c2);
}

/// Whether `(r, c)` is a playable square.
pub fn is_in_bounds(r: i64, c: i64) -> (b: bool)
    ensures
        b == in_bounds(r as int, c as int),
{
    if r < 0 || r >= 17 || c < 0 || c >= 17 {
        return false;
    }
    let e: i64 = if r < 4 {
        4 - r
    } else if r > 12 {
        r - 12
    } else {
        0
    };
    e <= c && c <= 16 - e
}

fn row_start_exec(r: usize) -> (s: usize)
    requires
        r <= 17,
    ensures
        s == row_start(r as int),
{
    if r == 0 {
        0
    } else if r == 1 {
        9
    } else if r == 2 {
        20
    } else if r == 3 {
        33
    } else if r <= 13 {
        48 + 17 * (r - 4)
    } else if r == 14 {
        216
    } else if r == 15 {
        229
    } else if r == 16 {
        240
    } else {
        249
    }
}

fn edge_exec(r: usize) -> (e: usize)
    requires
        r < 17,
    ensures
        e == edge(r as int),
{
    if r < 4 {
        4 - r
    } else if r > 12 {
        r - 12
    } else {
        0
    }
}

/// The identifier of playable square `(r, c)`.
pub fn square_id(r: usize, c: usize) -> (id: i8)
    requires
        in_bounds(r as int, c as int),
    ensures
        id == square_id_of(r as int, c as int),
{
    proof {
        lemma_square_index_range(r as int, c as int);
    }
    let i = row_start_exec(r) + c - edge_exec(r);
    (i as i16 - 128) as i8
}

/// The playable square with identifier `id`, if there is one.
pub fn square_of(id: i8) -> (res: Option<(usize, usize)>)
    ensures
        match res {
            Some((r, c)) => in_bounds(r as int, c as int) && square_id_of(r as int, c as int)
                == id && r == square_row(id as int) && c == square_col(id as int),
            None => id as int + 128 >= 249,
        },
        res is None <==> (forall|r: int, c: int|
            in_bounds(r, c) ==> square_id_of(r, c) != id as int),
{
    let i: usize = (id as i16 + 128) as usize;
    if i >= 249 {
        proof {
            assert forall|r: int, c: int| in_bounds(r, c) implies square_id_of(r, c) != id as int by {
                lemma_square_index_range(r, c);
            }
        }
        return None;
    }
    let r: usize = if i < 9 {
        0
    } else if i < 20 {
        1
    } else if i < 33 {
        2
    } else if i < 48 {
        3
    } else if i < 201 {
        4 + (i - 48) / 17
    } else if i < 216 {
        13
    } else if i < 229 {
        14
    } else if i < 240 {
        15
    } else {
        16
    };
    assert(r as int == row_of_index(i as int));
    proof {
        if 48 <= i < 201 {
            assert(48 + 17 * (r - 4) <= i < 48 + 17 * (r - 3)) by (nonlinear_arith)
                requires
                    r == 4 + (i - 48) / 17,
                    48 <= i < 201,
            ;
        }
    }
    let c = i - row_start_exec(r) + edge_exec(r);
    assert(in_bounds(r as int, c as int) && square_id_of(r as int, c as int) == id as int);
    Some((r, c))
}

} // verus!
