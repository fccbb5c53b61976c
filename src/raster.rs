//! Pixel grid arithmetic: every pixel `(column, row)` of a `width` x `height`
//! image owns the fixed slot `row * width + column` of the row-major output
//! buffer, so the order in which parallel work items finish cannot change
//! where their results land.
use vstd::prelude::*;

verus! {

/// Slot of pixel `(i, j)` (column `i`, row `j`) in a row-major buffer.
pub open spec fn slot(i: int, j: int, width: int) -> int {
    j * width + i
}

/// The pixel whose slot is `k`.
pub open spec fn pixel_at(k: int, width: int) -> (u32, u32) {
    ((k % width) as u32, (k / width) as u32)
}

/// Integer helpers of the renderer.
pub struct MathUtil;

impl MathUtil {
    /// Slot of pixel `(i, j)` in a row-major buffer of rows `width` long.
    pub fn pixel_index(i: u32, j: u32, width: u32) -> (r: usize)
        requires
            i < width,
            (j as int + 1) * width <= usize::MAX,
        ensures
            r == slot(i as int, j as int, width as int),
    {
        proof {
            assert(j as int * width + i < (j as int + 1) * width) by (nonlinear_arith)
                requires
                    i < width,
            ;
        }
        j as usize * width as usize + i as usize
    }

    /// The work items of a render: every pixel of a `width` x `height`
    /// image, row by row, each at its own slot.
    pub fn pixel_grid(width: u32, height: u32) -> (r: Vec<(u32, u32)>)
        requires
            width as int * height <= usize::MAX,
        ensures
            r@.len() == width * height,
            forall|k: int| 0 <= k < r@.len() ==> #[trigger] r@[k] == pixel_at(k, width as int),
    {
        let mut r: Vec<(u32, u32)> = Vec::new();
        let mut j: u32 = 0;
        while j < height
            invariant
                j <= height,
                width as int * height <= usize::MAX,
                r@.len() == j * width,
                forall|k: int| 0 <= k < r@.len() ==> #[trigger] r@[k] == pixel_at(k, width as int),
            decreases height - j,
        {
            let mut i: u32 = 0;
            while i < width
                invariant
                    i <= width,
                    j < height,
                    r@.len() == j * width + i,
                    forall|k: int| 0 <= k < r@.len() ==> #[trigger] r@[k] == pixel_at(k, width as int),
                decreases width - i,
            {
                proof {
                    lemma_slot_inverse(i as int, j as int, width as int);
                }
                r.push((i, j));
                i = i + 1;
            }
            proof {
                assert((j + 1) * width == j * width + width) by (nonlinear_arith);
            }
            j = j + 1;
        }
        proof {
            assert(j * width == width * height) by (nonlinear_arith)
                requires
                    j == height,
            ;
        }
        r
    }
}

/// The pixel at a slot comes back from the slot arithmetic unchanged.
pub proof fn lemma_slot_inverse(i: int, j: int, width: int)
    requires
        0 <= i < width,
        0 <= j,
        j <= u32::MAX,
    ensures
        pixel_at(slot(i, j, width), width) == (i as u32, j as u32),
{
    vstd::arithmetic::div_mod::lemma_fundamental_div_mod_converse(
        slot(i, j, width),
        width,
        j,
        i,
    );
}

/// No two pixels of an image share a slot, and each slot of the buffer
/// belongs to exactly the pixel that the grid lists there.
pub proof fn lemma_slots_disjoint(width: u32, height: u32, k: int)
    requires
        0 <= k < width * height,
    ensures
        ({
            let p = pixel_at(k, width as int);
            &&& p.0 < width
            &&& p.1 < height
            &&& slot(p.0 as int, p.1 as int, width as int) == k
        }),
        forall|i1: u32, j1: u32, i2: u32, j2: u32|
            i1 < width && i2 < width && slot(i1 as int, j1 as int, width as int) == slot(
                i2 as int,
                j2 as int,
                width as int,
            ) ==> i1 == i2 && j1 == j2,
{
    let w = width as int;
    vstd::arithmetic::div_mod::lemma_fundamental_div_mod(k, w);
    vstd::arithmetic::div_mod::lemma_mod_pos_bound(k, w);
    let q = k / w;
    assert(q < height) by (nonlinear_arith)
        requires
            k == w * q + k % w,
            0 <= k % w,
            k < w * height,
            w > 0,
    ;
    assert forall|i1: u32, j1: u32, i2: u32, j2: u32|
        i1 < width && i2 < width && slot(i1 as int, j1 as int, w) == slot(
            i2 as int,
            j2 as int,
            w,
        ) implies i1 == i2 && j1 == j2 by {
        lemma_slot_inverse(i1 as int, j1 as int, w);
        lemma_slot_inverse(i2 as int, j2 as int, w);
    }
}

} // verus!
