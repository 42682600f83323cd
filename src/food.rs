//! Food placement: the free cells of the grid, enumerated row by row, and a
//! single draw among them.

use vstd::prelude::*;
use vstd::arithmetic::div_mod::lemma_fundamental_div_mod_converse;
use vstd::set_lib::lemma_len_subset;
use std::collections::VecDeque;
use crate::grid::{Cell, cell_in_grid};

verus! {

/// The cell at row-major position `i` of a grid `width` columns wide.
pub open spec fn grid_cell(width: nat, i: nat) -> Cell {
    Cell { x: (i % width) as u16, y: (i / width) as u16 }
}

/// The row-major position of a cell on a grid `width` columns wide.
pub open spec fn cell_index(width: nat, c: Cell) -> int {
    c.y * width + c.x
}

/// The cells among the first `k` row-major positions that `snake` leaves free,
/// in row-major order.
pub open spec fn free_upto(snake: Seq<Cell>, width: nat, k: nat) -> Seq<Cell>
    decreases k,
{
    if k == 0 {
        Seq::empty()
    } else {
        let prev = free_upto(snake, width, (k - 1) as nat);
        let c = grid_cell(width, (k - 1) as nat);
        if snake.contains(c) {
            prev
        } else {
            prev.push(c)
        }
    }
}

/// The cells of a `width` by `height` grid that `snake` leaves free, row by row.
pub open spec fn free_cells(snake: Seq<Cell>, width: nat, height: nat) -> Seq<Cell> {
    free_upto(snake, width, width * height)
}

/// The cells among the first `k` row-major positions that `snake` covers.
pub open spec fn occupied_upto(snake: Seq<Cell>, width: nat, k: nat) -> Set<Cell>
    decreases k,
{
    if k == 0 {
        Set::empty()
    } else {
        let prev = occupied_upto(snake, width, (k - 1) as nat);
        let c = grid_cell(width, (k - 1) as nat);
        if snake.contains(c) {
            prev.insert(c)
        } else {
            prev
        }
    }
}

/// A position on the grid names a cell of the grid whose index is that position.
pub proof fn lemma_grid_cell(width: nat, height: nat, i: nat)
    requires
        0 < width <= u16::MAX,
        height <= u16::MAX,
        i < width * height,
    ensures
        cell_in_grid(width as int, height as int, grid_cell(width, i)),
        cell_index(width, grid_cell(width, i)) == i,
{
    let q = i / width;
    let r = i % width;
    assert(i == width * q + r) by (nonlinear_arith)
        requires width > 0, q == i / width, r == i % width;
    assert(q < height) by (nonlinear_arith)
        requires i == width * q + r, 0 <= r, i < width * height, q >= 0;
    assert(q * width == width * q) by (nonlinear_arith);
}

/// Every free cell lies on the grid and outside the snake; the free cells and
/// the covered ones together account for every position.
pub proof fn lemma_free_upto(snake: Seq<Cell>, width: nat, height: nat, k: nat)
    requires
        0 < width <= u16::MAX,
        height <= u16::MAX,
        k <= width * height,
    ensures
        occupied_upto(snake, width, k).finite(),
        free_upto(snake, width, k).len() + occupied_upto(snake, width, k).len() == k,
        occupied_upto(snake, width, k).subset_of(snake.to_set()),
        forall|c: Cell| #[trigger]
            occupied_upto(snake, width, k).contains(c) ==> cell_index(width, c) < k,
        forall|j: int|
            0 <= j < free_upto(snake, width, k).len() ==> {
                &&& cell_in_grid(width as int, height as int, #[trigger] free_upto(snake, width, k)[j])
                &&& !snake.contains(free_upto(snake, width, k)[j])
            },
    decreases k,
{
    if k > 0 {
        let k1 = (k - 1) as nat;
        lemma_free_upto(snake, width, height, k1);
        lemma_grid_cell(width, height, k1);
        let c = grid_cell(width, k1);
        let prev = occupied_upto(snake, width, k1);
        assert(!prev.contains(c));
        if snake.contains(c) {
            assert(snake.to_set().contains(c));
        }
    }
}

/// On a grid with more cells than the snake has, some cell is free.
pub proof fn lemma_free_cells_nonempty(snake: Seq<Cell>, width: nat, height: nat)
    requires
        0 < width <= u16::MAX,
        height <= u16::MAX,
        snake.len() < width * height,
    ensures
        free_cells(snake, width, height).len() > 0,
        free_cells(snake, width, height).len() >= width * height - snake.len(),
{
    lemma_free_upto(snake, width, height, width * height);
    lemma_len_subset(occupied_upto(snake, width, width * height), snake.to_set());
    snake.lemma_cardinality_of_set();
}

/// Whether the first `n` cells of `cells` hold `c`.
pub fn contains_cell(cells: &VecDeque<Cell>, n: usize, c: Cell) -> (r: bool)
    requires
        n <= cells@.len(),
    ensures
        r == cells@.subrange(0, n as int).contains(c),
{
    let mut i: usize = 0;
    while i < n
        invariant
            i <= n <= cells@.len(),
            forall|j: int| 0 <= j < i ==> cells@[j] != c,
        decreases n - i,
    {
        if cells[i] == c {
            assert(cells@.subrange(0, n as int)[i as int] == c);
            return true;
        }
        i = i + 1;
    }
    assert(forall|j: int| 0 <= j < n ==> cells@.subrange(0, n as int)[j] == cells@[j]);
    false
}

/// The cells of a `width` by `height` grid that `snake` leaves free, row by row.
pub fn free_cells_of(snake: &VecDeque<Cell>, width: u16, height: u16) -> (r: Vec<Cell>)
    requires
        width > 0,
    ensures
        r@ == free_cells(snake@, width as nat, height as nat),
{
    let ghost w = width as nat;
    assert(width as int * height as int <= 0xffff * 0xffff) by (nonlinear_arith)
        requires width <= 0xffff, height <= 0xffff;
    let total: u32 = width as u32 * height as u32;
    let mut r: Vec<Cell> = Vec::new();
    let mut i: u32 = 0;
    let mut x: u16 = 0;
    let mut y: u16 = 0;
    while i < total
        invariant
            w == width as nat,
            w > 0,
            total == w * height,
            i <= total,
            x < width,
            y <= height,
            i == y * w + x,
            r@ == free_upto(snake@, w, i as nat),
        decreases total - i,
    {
        proof {
            lemma_fundamental_div_mod_converse(i as int, w as int, y as int, x as int);
            if y >= height {
                assert(y * w >= height * w) by (nonlinear_arith)
                    requires y >= height, w > 0;
            }
        }
        let c = Cell { x, y };
        assert(c == grid_cell(w, i as nat));
        assert(snake@.subrange(0, snake@.len() as int) =~= snake@);
        if !contains_cell(snake, snake.len(), c) {
            r.push(c);
        }
        i = i + 1;
        if x + 1 < width {
            x = x + 1;
        } else {
            x = 0;
            proof {
                assert((y + 1) * w == y * w + w) by (nonlinear_arith);
                assert((y + 1) * w <= height * w) by (nonlinear_arith)
                    requires (y + 1) * w == i, i <= w * height;
                assert(y + 1 <= height) by (nonlinear_arith)
                    requires (y + 1) * w <= height * w, w > 0;
            }
            y = y + 1;
        }
    }
    r
}

/// The free cell that a draw selects: the free cells are taken row by row and
/// the draw, reduced modulo their number, indexes them.
pub open spec fn food_for(snake: Seq<Cell>, width: nat, height: nat, draw: u64) -> Cell {
    let free = free_cells(snake, width, height);
    free[(draw as int) % (free.len() as int)]
}

/// Places food on a free cell chosen by `draw`.
pub fn place_food(snake: &VecDeque<Cell>, width: u16, height: u16, draw: u64) -> (r: Cell)
    requires
        width > 0,
        snake@.len() < width * height,
    ensures
        r == food_for(snake@, width as nat, height as nat, draw),
        cell_in_grid(width as int, height as int, r),
        !snake@.contains(r),
{
    let free = free_cells_of(snake, width, height);
    proof {
        lemma_free_cells_nonempty(snake@, width as nat, height as nat);
        lemma_free_upto(snake@, width as nat, height as nat, width as nat * height as nat);
    }
    let n = free.len() as u64;
    let k = (draw % n) as usize;
    free[k]
}

/// Relies on rand's `Rng::gen_range` over the thread-local generator
/// (`rand::thread_rng`): on the half-open range `0..bound` it returns a value
/// of that range. It panics on an empty range, which `bound > 0` rules out;
/// `thread_rng` also panics if the operating system's random source fails
/// when the generator is first seeded, which no argument can prevent.
#[verifier::external_body]
pub(crate) fn random_below(bound: u64) -> (r: u64)
    requires
        bound > 0,
    ensures
        r < bound,
{
    rand::Rng::gen_range(&mut rand::thread_rng(), 0..bound)
}

} // verus!
