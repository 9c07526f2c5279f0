use aquarium::froxel::{
    bin_body_into_froxels, FroxelBox, FROXEL_COUNT, FROXEL_DEPTH, FROXEL_HEIGHT, FROXEL_WIDTH,
};

fn index(x: usize, y: usize, z: usize) -> usize {
    z * FROXEL_WIDTH * FROXEL_HEIGHT + y * FROXEL_WIDTH + x
}

#[test]
fn grid_size() {
    assert_eq!(FROXEL_COUNT, FROXEL_WIDTH * FROXEL_HEIGHT * FROXEL_DEPTH);
    assert_eq!(FROXEL_COUNT % 4, 0);
}

#[test]
fn box_sets_exactly_its_cells() {
    let mut masks = vec![0u32; FROXEL_COUNT];
    let b = FroxelBox { x0: 2, x1: 3, y0: 4, y1: 4, z0: 1, z1: 2 };
    bin_body_into_froxels(&mut masks, 5, b);
    let mut set = 0;
    for z in 0..FROXEL_DEPTH {
        for y in 0..FROXEL_HEIGHT {
            for x in 0..FROXEL_WIDTH {
                let inside = (2..=3).contains(&x) && y == 4 && (1..=2).contains(&z);
                let m = masks[index(x, y, z)];
                assert_eq!(m, if inside { 1 << 5 } else { 0 }, "{x} {y} {z}");
                if inside {
                    set += 1;
                }
            }
        }
    }
    assert_eq!(set, 4);
}

#[test]
fn box_is_clipped_to_the_grid() {
    let mut masks = vec![0u32; FROXEL_COUNT];
    let b = FroxelBox { x0: -5, x1: 0, y0: -1, y1: 100, z0: 15, z1: 40 };
    bin_body_into_froxels(&mut masks, 0, b);
    let count = masks.iter().filter(|m| **m != 0).count();
    assert_eq!(count, FROXEL_HEIGHT);
    assert_eq!(masks[index(0, 8, 15)], 1);
    assert_eq!(masks[index(1, 8, 15)], 0);
}

#[test]
fn bodies_share_cells() {
    let mut masks = vec![0u32; FROXEL_COUNT];
    let b = FroxelBox { x0: 0, x1: 0, y0: 0, y1: 0, z0: 0, z1: 0 };
    bin_body_into_froxels(&mut masks, 0, b);
    bin_body_into_froxels(&mut masks, 31, b);
    bin_body_into_froxels(&mut masks, 31, b);
    assert_eq!(masks[0], 1 | (1 << 31));
    let empty = FroxelBox { x0: 3, x1: 2, y0: 0, y1: 8, z0: 0, z1: 15 };
    bin_body_into_froxels(&mut masks, 7, empty);
    assert_eq!(masks.iter().filter(|m| **m != 0).count(), 1);
}

#[test]
fn binning_order_does_not_matter() {
    let a = FroxelBox { x0: 0, x1: 9, y0: 1, y1: 5, z0: 2, z1: 7 };
    let b = FroxelBox { x0: 4, x1: 15, y0: 0, y1: 3, z0: 5, z1: 20 };
    let mut first = vec![0u32; FROXEL_COUNT];
    bin_body_into_froxels(&mut first, 1, a);
    bin_body_into_froxels(&mut first, 6, b);
    let mut second = vec![0u32; FROXEL_COUNT];
    bin_body_into_froxels(&mut second, 6, b);
    bin_body_into_froxels(&mut second, 1, a);
    bin_body_into_froxels(&mut second, 1, a);
    assert_eq!(first, second);
}
