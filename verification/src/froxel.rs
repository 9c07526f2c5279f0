//! The froxel grid of the raymarcher: the view frustum cut into cells, each
//! with a mask of the bodies that may touch it.

use vstd::prelude::*;

verus! {

/// Cells across the screen.
pub const FROXEL_WIDTH: usize = 16;

/// Cells down the screen.
pub const FROXEL_HEIGHT: usize = 9;

/// Cells in depth.
pub const FROXEL_DEPTH: usize = 16;

/// All cells of the grid.
pub const FROXEL_COUNT: usize = 2304;

/// The cell index of column `x`, row `y` and slice `z`.
pub open spec fn froxel_index(x: int, y: int, z: int) -> int {
    z * (FROXEL_WIDTH * FROXEL_HEIGHT) + y * FROXEL_WIDTH + x
}

/// The column of cell `i`.
pub open spec fn froxel_x(i: int) -> int {
    i % (FROXEL_WIDTH as int)
}

/// The row of cell `i`.
pub open spec fn froxel_y(i: int) -> int {
    (i / (FROXEL_WIDTH as int)) % (FROXEL_HEIGHT as int)
}

/// The slice of cell `i`.
pub open spec fn froxel_z(i: int) -> int {
    i / ((FROXEL_WIDTH * FROXEL_HEIGHT) as int)
}

/// The cells that a body's bounds cover, as inclusive ranges of columns,
/// rows and slices; they may reach past the grid.
#[derive(Clone, Copy, Debug, PartialEq, Eq, Structural)]
pub struct FroxelBox {
    pub x0: i64,
    pub x1: i64,
    pub y0: i64,
    pub y1: i64,
    pub z0: i64,
    pub z1: i64,
}

/// Whether cell `i` lies in `b`.
pub open spec fn in_box(b: FroxelBox, i: int) -> bool {
    &&& b.x0 <= froxel_x(i) <= b.x1
    &&& b.y0 <= froxel_y(i) <= b.y1
    &&& b.z0 <= froxel_z(i) <= b.z1
}

/// The masks after body `body` was binned into the cells of `b`: its bit is
/// set in each of them, and the other cells are unchanged.
pub open spec fn binned(masks: Seq<u32>, body: u32, b: FroxelBox) -> Seq<u32> {
    Seq::new(
        masks.len(),
        |i: int|
            if in_box(b, i) {
                masks[i] | (1u32 << body)
            } else {
                masks[i]
            },
    )
}

/// Sets the bit of body `body_index` in the mask of every cell of the grid
/// that `b` covers. `masks` holds one mask per cell, in index order.
pub fn bin_body_into_froxels(masks: &mut Vec<u32>, body_index: u32, b: FroxelBox)
    requires
        old(masks)@.len() == FROXEL_COUNT,
        body_index < 32,
    ensures
        final(masks)@ == binned(old(masks)@, body_index, b),
{
    let bit: u32 = 1u32 << body_index;
    let ghost start = masks@;
    let mut i: usize = 0;
    while i < FROXEL_COUNT
        invariant
            i <= FROXEL_COUNT,
            masks@.len() == FROXEL_COUNT,
            start.len() == FROXEL_COUNT,
            bit == 1u32 << body_index,
            forall|j: int|
                0 <= j < i ==> masks@[j] == binned(start, body_index, b)[j],
            forall|j: int| i <= j < FROXEL_COUNT ==> masks@[j] == start[j],
        decreases FROXEL_COUNT - i,
    {
        let x = (i % FROXEL_WIDTH) as i64;
        let y = ((i / FROXEL_WIDTH) % FROXEL_HEIGHT) as i64;
        let z = (i / (FROXEL_WIDTH * FROXEL_HEIGHT)) as i64;
        if b.x0 <= x && x <= b.x1 && b.y0 <= y && y <= b.y1 && b.z0 <= z && z <= b.z1 {
            let w = masks[i] | bit;
            masks.set(i, w);
        }
        i = i + 1;
    }
    proof {
        assert(masks@ =~= binned(start, body_index, b));
    }
}

/// Binning a body a second time changes nothing, and the masks do not
/// depend on the order in which bodies are binned.
pub proof fn law_binning_order_free(
    masks: Seq<u32>,
    a: u32,
    box_a: FroxelBox,
    b: u32,
    box_b: FroxelBox,
)
    ensures
        binned(binned(masks, a, box_a), a, box_a) == binned(masks, a, box_a),
        binned(binned(masks, a, box_a), b, box_b) == binned(binned(masks, b, box_b), a, box_a),
{
    let once = binned(masks, a, box_a);
    assert forall|i: int| 0 <= i < masks.len() implies #[trigger] binned(once, a, box_a)[i]
        == once[i] by {
        let x = masks[i];
        let y = 1u32 << a;
        assert((x | y) | y == x | y) by (bit_vector);
    }
    assert(binned(once, a, box_a) =~= once);
    let ab = binned(once, b, box_b);
    let ba = binned(binned(masks, b, box_b), a, box_a);
    assert forall|i: int| 0 <= i < masks.len() implies #[trigger] ab[i] == ba[i] by {
        let x = masks[i];
        let ya = 1u32 << a;
        let yb = 1u32 << b;
        assert((x | ya) | yb == (x | yb) | ya) by (bit_vector);
    }
    assert(ab =~= ba);
}

/// A column, row and slice inside the grid name one cell, and that cell has
/// that column, row and slice.
pub proof fn law_froxel_index_round_trip(x: int, y: int, z: int)
    requires
        0 <= x < FROXEL_WIDTH,
        0 <= y < FROXEL_HEIGHT,
        0 <= z < FROXEL_DEPTH,
    ensures
        0 <= froxel_index(x, y, z) < FROXEL_COUNT,
        froxel_x(froxel_index(x, y, z)) == x,
        froxel_y(froxel_index(x, y, z)) == y,
        froxel_z(froxel_index(x, y, z)) == z,
{
    let i = froxel_index(x, y, z);
    assert(i == z * 144 + y * 16 + x);
    assert(i == (z * 9 + y) * 16 + x) by (nonlinear_arith)
        requires
            i == z * 144 + y * 16 + x,
    ;
    assert(i % 16 == x && i / 16 == z * 9 + y) by (nonlinear_arith)
        requires
            i == (z * 9 + y) * 16 + x,
            0 <= x < 16,
            0 <= y,
            0 <= z,
    ;
    assert((z * 9 + y) % 9 == y && (z * 9 + y) / 9 == z) by (nonlinear_arith)
        requires
            0 <= y < 9,
            0 <= z,
    ;
    assert(i / 144 == z) by (nonlinear_arith)
        requires
            i == z * 144 + y * 16 + x,
            0 <= x < 16,
            0 <= y < 9,
            0 <= z,
    ;
    assert(0 <= i < 2304) by (nonlinear_arith)
        requires
            i == z * 144 + y * 16 + x,
            0 <= x < 16,
            0 <= y < 9,
            0 <= z < 16,
    ;
}

} // verus!
