use immersions_control_engine::grid::Grid;
use immersions_control_engine::mesh::{
    sample_cells, sample_grid, simple_surface_positions, CornerOrder, Mesh, Shading,
};

fn torus(u: f32, v: f32, r_major: f32, r_minor: f32) -> [f32; 3] {
    let x = (r_major + r_minor * v.cos()) * u.cos();
    let y = r_minor * v.sin();
    let z = (r_major + r_minor * v.cos()) * u.sin();
    [x, y, z]
}

fn sphere(r: f32, theta_deg: f32, phi_deg: f32) -> [f32; 3] {
    let t = theta_deg.to_radians();
    let p = phi_deg.to_radians();
    [r * t.sin() * p.cos(), r * t.cos(), -r * t.sin() * p.sin()]
}

#[test]
fn nodes_are_sampled_in_row_major_order() {
    let g = Grid::new(2, 3).unwrap();
    let s = sample_grid(&g, |i, j| (i, j));
    assert_eq!(s.len(), 12);
    for i in 0..=2 {
        for j in 0..=3 {
            assert_eq!(s[j + i * 4], (i, j));
        }
    }
}

#[test]
fn cells_are_sampled_in_row_major_order() {
    let g = Grid::new(3, 2).unwrap();
    let s = sample_cells(&g, |i, j| 10 * i + j);
    assert_eq!(s, vec![0, 1, 10, 11, 20, 21]);
}

#[test]
fn sphere_with_one_cell_each_way() {
    let g = Grid::new(1, 1).unwrap();
    let m = Mesh::smooth(&g, |i, j| sphere(1.0, 180.0 * i as f32, 360.0 * j as f32));
    assert_eq!(m.shading, Shading::Smooth);
    assert_eq!(m.vertices.len(), 4);
    assert_eq!(m.indices.len(), 6);
    assert_eq!(m.indices.len() / 3, 2);
}

#[test]
fn torus_four_by_four() {
    let (r_major, r_minor, scale) = (1.0f32, 0.3f32, 1.5f32);
    let two_pi = 2.0 * std::f32::consts::PI;
    let g = Grid::new(4, 4).unwrap();
    let du = two_pi / 4.0;
    let dv = two_pi / 4.0;
    let m = Mesh::smooth(&g, |i, j| {
        let p = torus(i as f32 * du, j as f32 * dv, r_major, r_minor);
        [p[0] * scale, p[1] * scale, p[2] * scale]
    });
    assert_eq!(m.vertices.len(), 25);
    assert_eq!(m.indices.len(), 96);
    let direct = torus(0.0, 0.0, r_major, r_minor);
    assert_eq!(m.vertices[0], [direct[0] * scale, direct[1] * scale, direct[2] * scale]);
    assert!((m.vertices[0][0] - 1.95).abs() < 1e-6);
    for k in &m.indices {
        assert!((*k as usize) < m.vertices.len());
    }
}

#[test]
fn tessellating_twice_gives_the_same_mesh() {
    let g = Grid::new(6, 5).unwrap();
    let f = |i: usize, j: usize| torus(0.3 * i as f32, 0.7 * j as f32, 1.0, 0.3);
    let a = Mesh::smooth(&g, f);
    let b = Mesh::smooth(&g, f);
    assert_eq!(a.vertices, b.vertices);
    assert_eq!(a.indices, b.indices);
    assert_eq!(a.shading, b.shading);
}

#[test]
fn flat_mesh_lists_the_smooth_mesh_corners() {
    let g = Grid::new(3, 2).unwrap();
    let smooth = Mesh::smooth(&g, |i, j| 100 * i + j);
    let faces = sample_cells(&g, |i, j| (i, j));
    let flat = Mesh::flat(&g, &smooth.vertices, &faces);
    assert_eq!(flat.shading, Shading::Flat);
    assert!(flat.indices.is_empty());
    assert_eq!(flat.vertices.len(), 36);
    for (k, v) in flat.vertices.iter().enumerate() {
        assert_eq!(v.0, smooth.vertices[smooth.indices[k] as usize]);
        assert_eq!(v.1, faces[k / 6]);
    }
    assert_eq!(flat.vertices[0], (0, (0, 0)));
    assert_eq!(flat.vertices[2], (101, (0, 0)));
    assert_eq!(flat.vertices[10], (101, (0, 1)));
}

#[test]
fn quad_list_of_a_point_grid() {
    let pts: Vec<Vec<(usize, usize)>> =
        (0..3).map(|i| (0..3).map(|j| (i, j)).collect()).collect();
    let r = simple_surface_positions(&pts, 3, 3);
    assert_eq!(r.len(), 24);
    assert_eq!(
        &r[0..6],
        &[(0, 0), (0, 1), (1, 1), (1, 1), (1, 0), (0, 0)]
    );
    assert_eq!(
        &r[18..24],
        &[(1, 1), (1, 2), (2, 2), (2, 2), (2, 1), (1, 1)]
    );
}

#[test]
fn quad_list_of_a_single_row_is_empty() {
    let pts = vec![vec![[0.0f32, 1.0, 2.0]; 4]];
    assert!(simple_surface_positions(&pts, 1, 4).is_empty());
}

fn ordered_corners(order: CornerOrder) -> Vec<(usize, usize)> {
    let g = Grid::new(1, 1).unwrap();
    let nodes = sample_grid(&g, |i, j| (i, j));
    let faces = sample_cells(&g, |_, _| ());
    let m = Mesh::flat_ordered(&g, &nodes, &faces, order);
    assert_eq!(m.shading, Shading::Flat);
    assert!(m.indices.is_empty());
    m.vertices.into_iter().map(|(n, _)| n).collect()
}

#[test]
fn standard_corner_order() {
    assert_eq!(
        ordered_corners(CornerOrder::Standard),
        vec![(0, 0), (0, 1), (1, 1), (1, 1), (1, 0), (0, 0)]
    );
}

#[test]
fn transposed_corner_order() {
    assert_eq!(
        ordered_corners(CornerOrder::Transposed),
        vec![(0, 0), (1, 0), (1, 1), (1, 1), (0, 1), (0, 0)]
    );
}

#[test]
fn cross_diagonal_corner_order() {
    assert_eq!(
        ordered_corners(CornerOrder::CrossDiagonal),
        vec![(0, 0), (1, 0), (0, 1), (1, 0), (1, 1), (0, 1)]
    );
}

#[test]
fn ordered_layout_pairs_each_cell_with_its_face() {
    let g = Grid::new(2, 3).unwrap();
    let nodes = sample_grid(&g, |i, j| 10 * i + j);
    let faces = sample_cells(&g, |i, j| (i, j));
    let m = Mesh::flat_ordered(&g, &nodes, &faces, CornerOrder::Transposed);
    assert_eq!(m.vertices.len(), 36);
    // cell (1, 2) is the sixth cell; its second corner is (2, 2).
    assert_eq!(m.vertices[31], (22, (1, 2)));
    let standard = Mesh::flat(&g, &nodes, &faces);
    assert_eq!(
        standard.vertices,
        Mesh::flat_ordered(&g, &nodes, &faces, CornerOrder::Standard).vertices
    );
}
