//! Chunk-grid index arithmetic.

use netmux::grid::{
    local_cells, neighbors, uniform_idx_as_vec2, uphill, vec2_as_uniform_idx, GridSize, Vec2i,
};

fn grid(x: usize, y: usize) -> GridSize {
    GridSize { x, y }
}

#[test]
fn index_and_position_invert_each_other() {
    let size = grid(4, 3);
    for posi in 0..12usize {
        let pos = uniform_idx_as_vec2(size, posi);
        assert_eq!(vec2_as_uniform_idx(size, pos), posi);
    }
    assert_eq!(uniform_idx_as_vec2(size, 7), Vec2i { x: 3, y: 1 });
    assert_eq!(vec2_as_uniform_idx(size, Vec2i { x: 3, y: 1 }), 7);
}

#[test]
fn neighbors_of_an_interior_cell_are_all_eight() {
    let size = grid(4, 3);
    // Cell 5 is at (1, 1): every neighbor is on the grid, ascending.
    assert_eq!(neighbors(size, 5), vec![0, 1, 2, 4, 6, 8, 9, 10]);
}

#[test]
fn neighbors_of_a_corner_are_clipped() {
    let size = grid(4, 3);
    // Cell 0 is the top-left corner.
    assert_eq!(neighbors(size, 0), vec![1, 4, 5]);
    // Cell 11 is the bottom-right corner.
    assert_eq!(neighbors(size, 11), vec![6, 7, 10]);
}

#[test]
fn local_cells_cover_the_interpolation_block() {
    let size = grid(16, 16);
    // The center of a large grid keeps the whole 7-by-7 block.
    let center = vec2_as_uniform_idx(size, Vec2i { x: 8, y: 8 });
    let cells = local_cells(size, center);
    assert_eq!(cells.len(), 49);
    assert_eq!(cells[0], vec2_as_uniform_idx(size, Vec2i { x: 5, y: 5 }));
    assert_eq!(cells[48], vec2_as_uniform_idx(size, Vec2i { x: 11, y: 11 }));
    // A corner keeps only the quarter that lies on the grid.
    let corner = local_cells(size, 0);
    assert_eq!(corner.len(), 16);
}

#[test]
fn uphill_keeps_the_neighbors_that_drain_here() {
    let size = grid(4, 3);
    // Every cell drains to cell 5, except 5 itself which is a pit.
    let mut dh = vec![5i64; 12];
    dh[5] = -1;
    let up = uphill(size, &dh, 5);
    assert_eq!(up, neighbors(size, 5));
    // No neighbor of cell 0 drains to cell 0.
    assert!(uphill(size, &dh, 0).is_empty());
}
