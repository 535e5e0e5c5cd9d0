use cells::Kernel;
use cells::Kernel1D;
use cells::Kernel2D;

#[test]
fn kernel1_wraps_left_edge() {
    let kernel = Kernel1D::new(0, 5);
    assert_eq!(kernel.num_indices(), 3);
    assert_eq!(kernel.index_at(0), 4);
    assert_eq!(kernel.index_at(1), 0);
    assert_eq!(kernel.index_at(2), 1);
}

#[test]
fn kernel1_wraps_right_edge() {
    let kernel = Kernel1D::new(4, 5);
    assert_eq!(kernel.index_at(0), 3);
    assert_eq!(kernel.index_at(1), 4);
    assert_eq!(kernel.index_at(2), 0);
}

#[test]
fn kernel1_interior_is_adjacent() {
    let kernel = Kernel1D::new(2, 5);
    assert_eq!(kernel.index_at(0), 1);
    assert_eq!(kernel.index_at(1), 2);
    assert_eq!(kernel.index_at(2), 3);
}

#[test]
fn kernel1_eval_packs_msb_first() {
    // Indices [0, 1, 2] read cells true, false, true: 1*4 + 0*2 + 1*1.
    let space = vec![true, false, true];
    let kernel = Kernel1D::new(1, 3);
    assert_eq!(kernel.eval(&space), 5);
}

#[test]
fn kernel1_eval_weights_each_position() {
    // Only the left neighbor is alive: it lands on the most significant bit.
    let space = vec![false, true, false, false];
    let kernel = Kernel1D::new(2, 4);
    assert_eq!(kernel.eval(&space), 4);
    // Only the right neighbor is alive: it lands on the least significant bit.
    let kernel = Kernel1D::new(0, 4);
    assert_eq!(kernel.eval(&space), 1);
}

#[test]
fn kernel2_moore_neighborhood_wraps_corner() {
    // On a 3x3 grid the neighborhood of the corner (0, 0) wraps on both
    // axes: rows 2, 0, 1 and columns 2, 0, 1, row-major.
    let kernel = Kernel2D::new(0, 0, 3);
    assert_eq!(kernel.num_indices(), 9);
    let expected = [8, 6, 7, 2, 0, 1, 5, 3, 4];
    for (j, want) in expected.iter().enumerate() {
        assert_eq!(kernel.index_at(j), *want);
    }
}

#[test]
fn kernel2_interior_indices() {
    let kernel = Kernel2D::new(1, 1, 3);
    let expected = [0, 1, 2, 3, 4, 5, 6, 7, 8];
    for (j, want) in expected.iter().enumerate() {
        assert_eq!(kernel.index_at(j), *want);
    }
}

#[test]
fn kernel2_eval_keeps_all_nine_bits() {
    let space = vec![true; 9];
    let kernel = Kernel2D::new(1, 1, 3);
    assert_eq!(kernel.eval(&space), 511);
}

#[test]
fn kernel2_eval_packs_row_major() {
    // Only the cell above (x=1, y=0), index 1, is alive: position 1 of the
    // kernel, weight 2^(9 - 1 - 1).
    let mut space = vec![false; 9];
    space[1] = true;
    let kernel = Kernel2D::new(1, 1, 3);
    assert_eq!(kernel.eval(&space), 128);
}
