//! Proved laws of the simulator: how neighbor counting wraps around the
//! torus, on every grid large enough for the 8 neighbors to be distinct.

use vstd::prelude::*;
use crate::cell::Cell;
use crate::model::{grid_of, lemma_neighbor_count_grid_of, neighbor_count};

verus! {

/// The pattern with a single alive cell at the origin.
pub open spec fn lone_origin() -> spec_fn(int, int) -> Cell {
    |r: int, c: int|
        if r == 0 && c == 0 {
            Cell::Alive
        } else {
            Cell::Dead
        }
}

/// Neighbor counting wraps: on a grid whose only alive cell is the origin,
/// a cell's neighbor count is 1 exactly when the origin is one of its 8
/// toroidally wrapped neighbors — that is, when both its row and its
/// column lie within one wrapped step of 0 and the cell is not the origin
/// itself — and 0 everywhere else. In particular the far corner
/// `(h - 1, w - 1)` counts the origin through the diagonal wrap, and any
/// cell two or more steps away in a row or column counts nothing.
pub proof fn lemma_lone_origin_neighbor_count(w: int, h: int, r: int, c: int)
    requires
        3 <= w,
        3 <= h,
        0 <= r < h,
        0 <= c < w,
    ensures
        neighbor_count(grid_of(w, h, lone_origin()), w, h, r, c) == (
        if (r == 0 || r == 1 || r == h - 1) && (c == 0 || c == 1 || c == w - 1) && !(r == 0 && c
            == 0) {
            1int
        } else {
            0int
        }),
{
    lemma_neighbor_count_grid_of(w, h, lone_origin(), r, c);
}

/// The diagonal wrap made concrete: with only the origin alive, the
/// opposite corner `(h - 1, w - 1)` has exactly one live neighbor.
pub proof fn lemma_lone_origin_corner(w: int, h: int)
    requires
        3 <= w,
        3 <= h,
    ensures
        neighbor_count(grid_of(w, h, lone_origin()), w, h, h - 1, w - 1) == 1,
{
    lemma_lone_origin_neighbor_count(w, h, h - 1, w - 1);
}

} // verus!
