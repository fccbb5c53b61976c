//! Layout of the cover scene: a square grid of small spheres around three
//! large ones. Each grid cell gets a material kind from a uniform draw; the
//! exact placement, sizes and colors are continuous and chosen by the
//! caller.
use vstd::prelude::*;

use rand::Rng;

verus! {

/// Cells per side of the grid; cell coordinates run over `-HALF_SPAN..HALF_SPAN`.
pub const HALF_SPAN: i32 = 11;

/// Number of cells of the grid.
pub const CELLS: usize = 484;

/// Resolution of the material draw: a draw is uniform over `0..DRAW_RANGE`.
pub const DRAW_RANGE: u32 = 100;

/// Material kind of a small sphere.
#[derive(PartialEq, Eq, Structural, Clone, Copy, Debug)]
pub enum CoverKind {
    Diffuse,
    Metal,
    Glass,
}

/// One cell of the grid and the material kind drawn for it.
#[derive(PartialEq, Eq, Structural, Clone, Copy, Debug)]
pub struct CoverCell {
    pub a: i32,
    pub b: i32,
    pub kind: CoverKind,
}

/// The kind picked by a draw: 80 draws in 100 are diffuse, 15 metal and
/// 5 glass.
pub open spec fn kind_of(draw: nat) -> CoverKind {
    if draw < 80 {
        CoverKind::Diffuse
    } else if draw < 95 {
        CoverKind::Metal
    } else {
        CoverKind::Glass
    }
}

/// Grid coordinates of cell `k`: `a` in the outer order, `b` in the inner.
pub open spec fn cell_at(k: int) -> (int, int) {
    (-11 + k / 22, -11 + k % 22)
}

/// Relies on `rand::Rng::gen_range` over the thread-local generator: a
/// value of `0..n`; it panics on an empty range.
#[verifier::external_body]
fn draw_below(n: u32) -> (r: u32)
    requires
        n > 0,
    ensures
        r < n,
{
    rand::thread_rng().gen_range(0..n)
}

/// The material kind that a draw picks.
pub fn cover_kind(draw: u32) -> (k: CoverKind)
    ensures
        k == kind_of(draw as nat),
{
    if draw < 80 {
        CoverKind::Diffuse
    } else if draw < 95 {
        CoverKind::Metal
    } else {
        CoverKind::Glass
    }
}

/// The cells of the grid in order, each with the kind that its draw picks.
pub fn cover_cells(draws: &Vec<u32>) -> (cells: Vec<CoverCell>)
    requires
        draws@.len() == CELLS,
    ensures
        cells@.len() == CELLS,
        forall|k: int|
            0 <= k < CELLS ==> {
                &&& (#[trigger] cells@[k]).a == cell_at(k).0
                &&& cells@[k].b == cell_at(k).1
                &&& cells@[k].kind == kind_of(draws@[k] as nat)
            },
{
    let mut cells: Vec<CoverCell> = Vec::new();
    let mut a: i32 = -HALF_SPAN;
    while a < HALF_SPAN
        invariant
            -11 <= a <= 11,
            draws@.len() == CELLS,
            cells@.len() == (a + 11) * 22,
            forall|k: int|
                0 <= k < cells@.len() ==> {
                    &&& (#[trigger] cells@[k]).a == cell_at(k).0
                    &&& cells@[k].b == cell_at(k).1
                    &&& cells@[k].kind == kind_of(draws@[k] as nat)
                },
        decreases 11 - a,
    {
        let mut b: i32 = -HALF_SPAN;
        while b < HALF_SPAN
            invariant
                -11 <= a < 11,
                -11 <= b <= 11,
                draws@.len() == CELLS,
                cells@.len() == (a + 11) * 22 + (b + 11),
                forall|k: int|
                    0 <= k < cells@.len() ==> {
                        &&& (#[trigger] cells@[k]).a == cell_at(k).0
                        &&& cells@[k].b == cell_at(k).1
                        &&& cells@[k].kind == kind_of(draws@[k] as nat)
                    },
            decreases 11 - b,
        {
            let k = cells.len();
            proof {
                let q = a + 11;
                let r = b + 11;
                assert(q * 22 + r < 484) by (nonlinear_arith)
                    requires
                        0 <= q < 22,
                        0 <= r < 22,
                ;
                vstd::arithmetic::div_mod::lemma_fundamental_div_mod_converse(k as int, 22, q as int, r as int);
            }
            let kind = cover_kind(draws[k]);
            cells.push(CoverCell { a, b, kind });
            b = b + 1;
        }
        a = a + 1;
    }
    cells
}

/// The cover scene's grid with a fresh random material kind for every cell.
pub fn make_cover() -> (cells: Vec<CoverCell>)
    ensures
        cells@.len() == CELLS,
        forall|k: int|
            0 <= k < CELLS ==> (#[trigger] cells@[k]).a == cell_at(k).0 && cells@[k].b == cell_at(
                k,
            ).1,
{
    let mut draws: Vec<u32> = Vec::new();
    while draws.len() < CELLS
        invariant
            draws@.len() <= CELLS,
        decreases CELLS - draws@.len(),
    {
        draws.push(draw_below(DRAW_RANGE));
    }
    cover_cells(&draws)
}

} // verus!
