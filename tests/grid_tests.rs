use immersions_control_engine::error::ConfigError;
use immersions_control_engine::grid::Grid;

#[test]
fn zero_segments_are_rejected() {
    assert_eq!(Grid::new(0, 4), Err(ConfigError::ZeroSegments));
    assert_eq!(Grid::new(4, 0), Err(ConfigError::ZeroSegments));
    assert_eq!(Grid::new(0, 0), Err(ConfigError::ZeroSegments));
}

#[test]
fn oversized_grid_is_rejected() {
    assert_eq!(Grid::new(65536, 65536), Err(ConfigError::GridTooLarge));
    assert_eq!(Grid::new(usize::MAX, 1), Err(ConfigError::GridTooLarge));
}

#[test]
fn largest_addressable_grid_is_accepted() {
    // 65536 * 65536 nodes: exactly the number a u32 index can address.
    let g = Grid::new(65535, 65535).unwrap();
    assert_eq!(g.node_count(), 4294967296);
    assert_eq!(Grid::new(65535, 65536), Err(ConfigError::GridTooLarge));
}

#[test]
fn counts_of_a_small_grid() {
    let g = Grid::new(3, 2).unwrap();
    assert_eq!(g.node_count(), 12);
    assert_eq!(g.index_count(), 36);
    assert_eq!(g.triangle_indices().len(), 36);
}

#[test]
fn single_cell_indices() {
    let g = Grid::new(1, 1).unwrap();
    assert_eq!(g.triangle_indices(), vec![0, 1, 3, 3, 2, 0]);
}

#[test]
fn two_by_one_indices() {
    let g = Grid::new(2, 1).unwrap();
    assert_eq!(
        g.triangle_indices(),
        vec![0, 1, 3, 3, 2, 0, 2, 3, 5, 5, 4, 2]
    );
}

#[test]
fn one_by_two_indices() {
    let g = Grid::new(1, 2).unwrap();
    assert_eq!(
        g.triangle_indices(),
        vec![0, 1, 4, 4, 3, 0, 1, 2, 5, 5, 4, 1]
    );
}

#[test]
fn every_index_names_a_node() {
    for (us, vs) in [(1, 1), (4, 4), (32, 24), (7, 3), (1, 9)] {
        let g = Grid::new(us, vs).unwrap();
        let idx = g.triangle_indices();
        assert_eq!(idx.len(), 6 * us * vs);
        for k in idx {
            assert!((k as usize) < (us + 1) * (vs + 1));
        }
    }
}

#[test]
fn triangles_have_three_distinct_corners() {
    let g = Grid::new(5, 6).unwrap();
    let idx = g.triangle_indices();
    for t in idx.chunks(3) {
        assert_ne!(t[0], t[1]);
        assert_ne!(t[1], t[2]);
        assert_ne!(t[0], t[2]);
    }
}

#[test]
fn same_diagonal_in_every_cell() {
    let g = Grid::new(3, 4).unwrap();
    let idx = g.triangle_indices();
    let row = 5u32;
    for (c, cell) in idx.chunks(6).enumerate() {
        let i = (c / 4) as u32;
        let j = (c % 4) as u32;
        let a = j + i * row;
        assert_eq!(cell, &[a, a + 1, a + 1 + row, a + 1 + row, a + row, a]);
    }
}
