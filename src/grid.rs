//! Cell indexing on a square board of side `width`, and the move from a cell
//! to its neighbour in a direction, wrapping within the same row or column.

use vstd::arithmetic::div_mod::lemma_fundamental_div_mod_converse;
use vstd::prelude::*;

verus! {

/// One of the four directions in which the snake can move.
#[derive(Clone, Copy, Debug, PartialEq, Eq, Structural)]
pub enum Direction {
    Up,
    Right,
    Down,
    Left,
}

/// The direction that undoes a move in `d`.
pub open spec fn opposite(d: Direction) -> Direction {
    match d {
        Direction::Up => Direction::Down,
        Direction::Right => Direction::Left,
        Direction::Down => Direction::Up,
        Direction::Left => Direction::Right,
    }
}

/// A board of side `width` whose cells can all be indexed by `usize`.
pub open spec fn valid_board(width: int) -> bool {
    0 < width && width * width <= usize::MAX
}

/// The neighbour of cell `idx` in direction `d` on a board of side `w`:
/// a horizontal move wraps to the other end of the same row, a vertical
/// move to the other end of the same column.
pub open spec fn neighbor(idx: int, w: int, d: Direction) -> int {
    match d {
        Direction::Right => if (idx + 1) % w == 0 { idx + 1 - w } else { idx + 1 },
        Direction::Left => if idx % w == 0 { idx + w - 1 } else { idx - 1 },
        Direction::Up => if idx < w { idx + w * w - w } else { idx - w },
        Direction::Down => if idx + w >= w * w { idx % w } else { idx + w },
    }
}

/// Index of the cell next to `index` in `direction` on a board of side
/// `width`, wrapping at the board's edges.
pub fn neighbor_index(index: usize, width: usize, direction: Direction) -> (r: usize)
    requires
        valid_board(width as int),
        index < width * width,
    ensures
        r as int == neighbor(index as int, width as int, direction),
        r < width * width,
{
    proof {
        lemma_neighbor_stays_on_line(index as int, width as int, direction);
    }
    let size = width * width;
    assert(width <= size) by (nonlinear_arith)
        requires
            width > 0,
            size == width * width,
    ;
    match direction {
        Direction::Right => {
            if (index + 1) % width == 0 {
                index + 1 - width
            } else {
                index + 1
            }
        },
        Direction::Left => {
            if index % width == 0 {
                index + (width - 1)
            } else {
                index - 1
            }
        },
        Direction::Up => {
            if index < width {
                index + (size - width)
            } else {
                index - width
            }
        },
        Direction::Down => {
            if index >= size - width {
                index % width
            } else {
                index + width
            }
        },
    }
}

/// A move never leaves the board: a horizontal move keeps the row and steps
/// the column by one modulo `w`; a vertical move keeps the column and steps
/// the row by one modulo `w`.
pub proof fn lemma_neighbor_stays_on_line(idx: int, w: int, d: Direction)
    requires
        0 < w,
        0 <= idx < w * w,
    ensures
        0 <= neighbor(idx, w, d) < w * w,
        d == Direction::Right ==> neighbor(idx, w, d) / w == idx / w && neighbor(idx, w, d) % w
            == (idx % w + 1) % w,
        d == Direction::Left ==> neighbor(idx, w, d) / w == idx / w && neighbor(idx, w, d) % w
            == (idx % w + w - 1) % w,
        d == Direction::Down ==> neighbor(idx, w, d) % w == idx % w && neighbor(idx, w, d) / w
            == (idx / w + 1) % w,
        d == Direction::Up ==> neighbor(idx, w, d) % w == idx % w && neighbor(idx, w, d) / w
            == (idx / w + w - 1) % w,
{
    let row = idx / w;
    let col = idx % w;
    let n = neighbor(idx, w, d);
    assert(idx == row * w + col) by {
        vstd::arithmetic::div_mod::lemma_fundamental_div_mod(idx, w);
        vstd::arithmetic::mul::lemma_mul_is_commutative(w, row);
    }
    assert(0 <= col < w);
    assert(0 <= row < w) by {
        assert(row * w <= idx);
        assert(row < w) by (nonlinear_arith)
            requires
                row * w <= idx,
                idx < w * w,
                0 < w,
        ;
        vstd::arithmetic::div_mod::lemma_div_pos_is_pos(idx, w);
    }
    match d {
        Direction::Right => {
            if col + 1 == w {
                assert(idx + 1 == (row + 1) * w) by (nonlinear_arith)
                    requires
                        idx == row * w + col,
                        col + 1 == w,
                ;
                lemma_fundamental_div_mod_converse(idx + 1, w, row + 1, 0);
                lemma_fundamental_div_mod_converse(n, w, row, 0);
                lemma_fundamental_div_mod_converse(col + 1, w, 1, 0);
            } else {
                lemma_fundamental_div_mod_converse(idx + 1, w, row, col + 1);
                lemma_fundamental_div_mod_converse(col + 1, w, 0, col + 1);
            }
            assert(n < w * w) by (nonlinear_arith)
                requires
                    n == row * w + (col + 1) % w,
                    row < w,
                    (col + 1) % w < w,
            ;
        },
        Direction::Left => {
            if col == 0 {
                lemma_fundamental_div_mod_converse(n, w, row, w - 1);
                lemma_fundamental_div_mod_converse(col + w - 1, w, 0, w - 1);
            } else {
                lemma_fundamental_div_mod_converse(n, w, row, col - 1);
                lemma_fundamental_div_mod_converse(col + w - 1, w, 1, col - 1);
            }
            assert(n < w * w) by (nonlinear_arith)
                requires
                    n == row * w + (col + w - 1) % w,
                    row < w,
                    (col + w - 1) % w < w,
            ;
        },
        Direction::Down => {
            if row + 1 == w {
                assert(idx + w >= w * w) by (nonlinear_arith)
                    requires
                        idx == row * w + col,
                        row + 1 == w,
                        col >= 0,
                ;
                lemma_fundamental_div_mod_converse(n, w, 0, col);
                lemma_fundamental_div_mod_converse(row + 1, w, 1, 0);
            } else {
                assert(idx + w < w * w) by (nonlinear_arith)
                    requires
                        idx == row * w + col,
                        row + 1 < w,
                        col < w,
                        0 < w,
                ;
                assert(n == (row + 1) * w + col) by (nonlinear_arith)
                    requires
                        n == idx + w,
                        idx == row * w + col,
                ;
                lemma_fundamental_div_mod_converse(n, w, row + 1, col);
                lemma_fundamental_div_mod_converse(row + 1, w, 0, row + 1);
            }
            assert(n < w * w) by (nonlinear_arith)
                requires
                    n == ((row + 1) % w) * w + col,
                    (row + 1) % w < w,
                    col < w,
            ;
        },
        Direction::Up => {
            if row == 0 {
                assert(idx == col) by (nonlinear_arith)
                    requires
                        idx == row * w + col,
                        row == 0,
                ;
                assert(n == (w - 1) * w + col) by (nonlinear_arith)
                    requires
                        n == idx + w * w - w,
                        idx == row * w + col,
                        row == 0,
                ;
                lemma_fundamental_div_mod_converse(n, w, w - 1, col);
                lemma_fundamental_div_mod_converse(row + w - 1, w, 0, row + w - 1);
            } else {
                assert(idx >= w) by (nonlinear_arith)
                    requires
                        idx == row * w + col,
                        row >= 1,
                        col >= 0,
                        0 < w,
                ;
                assert(n == (row - 1) * w + col) by (nonlinear_arith)
                    requires
                        n == idx - w,
                        idx == row * w + col,
                ;
                lemma_fundamental_div_mod_converse(n, w, row - 1, col);
                lemma_fundamental_div_mod_converse(row + w - 1, w, 1, row - 1);
            }
            assert(n < w * w) by (nonlinear_arith)
                requires
                    n == ((row + w - 1) % w) * w + col,
                    (row + w - 1) % w < w,
                    col < w,
            ;
        },
    }
}

/// Stepping forward and back by one modulo `w` returns to where one started.
proof fn lemma_step_mod_inverse(c: int, w: int)
    requires
        0 <= c < w,
    ensures
        ((c + 1) % w + w - 1) % w == c,
        ((c + w - 1) % w + 1) % w == c,
{
    if c + 1 == w {
        lemma_fundamental_div_mod_converse(c + 1, w, 1, 0);
        lemma_fundamental_div_mod_converse(w - 1, w, 0, c);
    } else {
        lemma_fundamental_div_mod_converse(c + 1, w, 0, c + 1);
        lemma_fundamental_div_mod_converse(c + 1 + w - 1, w, 1, c);
    }
    if c == 0 {
        lemma_fundamental_div_mod_converse(c + w - 1, w, 0, w - 1);
        lemma_fundamental_div_mod_converse(w, w, 1, 0);
    } else {
        lemma_fundamental_div_mod_converse(c + w - 1, w, 1, c - 1);
        lemma_fundamental_div_mod_converse(c, w, 0, c);
    }
}

/// Moving in a direction and then in the opposite one returns to the cell
/// one started from.
pub proof fn lemma_neighbor_inverse(idx: int, w: int, d: Direction)
    requires
        0 < w,
        0 <= idx < w * w,
    ensures
        neighbor(neighbor(idx, w, d), w, opposite(d)) == idx,
{
    let n = neighbor(idx, w, d);
    let m = neighbor(n, w, opposite(d));
    lemma_neighbor_stays_on_line(idx, w, d);
    lemma_neighbor_stays_on_line(n, w, opposite(d));
    lemma_neighbor_stays_on_line(m, w, d);
    vstd::arithmetic::div_mod::lemma_mod_bound(idx, w);
    vstd::arithmetic::div_mod::lemma_div_pos_is_pos(idx, w);
    assert(idx / w < w) by {
        vstd::arithmetic::div_mod::lemma_div_by_multiple_is_strongly_ordered(idx, w * w, w, w);
        vstd::arithmetic::div_mod::lemma_div_multiples_vanish(w, w);
    }
    lemma_step_mod_inverse(idx % w, w);
    lemma_step_mod_inverse(idx / w, w);
    assert(m / w == idx / w && m % w == idx % w);
    vstd::arithmetic::div_mod::lemma_fundamental_div_mod(idx, w);
    vstd::arithmetic::div_mod::lemma_fundamental_div_mod(m, w);
}

} // verus!
