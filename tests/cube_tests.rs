use immersions_control_engine::cube::{cube_colors, cube_normals, cube_positions};

#[test]
fn cube_has_six_faces_of_two_triangles() {
    assert_eq!(cube_positions().len(), 36);
    assert_eq!(cube_colors().len(), 36);
    assert_eq!(cube_normals().len(), 36);
}

#[test]
fn cube_vertices_lie_on_their_faces() {
    let p = cube_positions();
    let n = cube_normals();
    for k in 0..36 {
        let d: i32 = (0..3).map(|i| p[k][i] as i32 * n[k][i] as i32).sum();
        assert_eq!(d, 1);
        assert!(p[k].iter().all(|c| *c == 1 || *c == -1));
    }
}

#[test]
fn cube_front_face() {
    let p = cube_positions();
    assert_eq!(
        &p[0..6],
        &[[-1, -1, 1], [1, -1, 1], [-1, 1, 1], [-1, 1, 1], [1, -1, 1], [1, 1, 1]]
    );
    assert_eq!(p[35], [1, -1, 1]);
}

#[test]
fn cube_face_colors() {
    let c = cube_colors();
    assert_eq!(c[0], [0, 0, 1]);
    assert_eq!(c[6], [1, 0, 0]);
    assert_eq!(c[12], [1, 1, 0]);
    assert_eq!(c[18], [0, 1, 1]);
    assert_eq!(c[24], [0, 1, 0]);
    assert_eq!(c[35], [1, 0, 1]);
    for f in 0..6 {
        for s in 0..6 {
            assert_eq!(c[6 * f + s], c[6 * f]);
        }
    }
}

#[test]
fn cube_face_normals() {
    let n = cube_normals();
    assert_eq!(n[12], [0, 0, -1]);
    assert_eq!(n[30], [0, -1, 0]);
}
