use vstd::prelude::*;

verus! {

/// Outward normal of face `f` of the unit cube, faces in the order front
/// (+z), right (+x), back (-z), left (-x), top (+y), bottom (-y).
pub open spec fn face_normal(f: int) -> [i8; 3] {
    if f == 0 {
        [0i8, 0i8, 1i8]
    } else if f == 1 {
        [1i8, 0i8, 0i8]
    } else if f == 2 {
        [0i8, 0i8, -1i8]
    } else if f == 3 {
        [-1i8, 0i8, 0i8]
    } else if f == 4 {
        [0i8, 1i8, 0i8]
    } else {
        [0i8, -1i8, 0i8]
    }
}

/// Color of face `f`: blue, red, yellow, aqua, green and fuchsia, in the
/// face order of `face_normal`.
pub open spec fn face_color(f: int) -> [i8; 3] {
    if f == 0 {
        [0i8, 0i8, 1i8]
    } else if f == 1 {
        [1i8, 0i8, 0i8]
    } else if f == 2 {
        [1i8, 1i8, 0i8]
    } else if f == 3 {
        [0i8, 1i8, 1i8]
    } else if f == 4 {
        [0i8, 1i8, 0i8]
    } else {
        [1i8, 0i8, 1i8]
    }
}

/// The four corners `a`, `b`, `c`, `d` of face `f`, seen from outside with
/// `a` at the lower left, `b` at the lower right, `c` at the upper left.
pub open spec fn face_corner(f: int, c: int) -> [i8; 3] {
    if f == 0 && c == 0 {
        [-1i8, -1i8, 1i8]
    } else if f == 0 && c == 1 {
        [1i8, -1i8, 1i8]
    } else if f == 0 && c == 2 {
        [-1i8, 1i8, 1i8]
    } else if f == 0 && c == 3 {
        [1i8, 1i8, 1i8]
    } else if f == 1 && c == 0 {
        [1i8, -1i8, 1i8]
    } else if f == 1 && c == 1 {
        [1i8, -1i8, -1i8]
    } else if f == 1 && c == 2 {
        [1i8, 1i8, 1i8]
    } else if f == 1 && c == 3 {
        [1i8, 1i8, -1i8]
    } else if f == 2 && c == 0 {
        [1i8, -1i8, -1i8]
    } else if f == 2 && c == 1 {
        [-1i8, -1i8, -1i8]
    } else if f == 2 && c == 2 {
        [1i8, 1i8, -1i8]
    } else if f == 2 && c == 3 {
        [-1i8, 1i8, -1i8]
    } else if f == 3 && c == 0 {
        [-1i8, -1i8, -1i8]
    } else if f == 3 && c == 1 {
        [-1i8, -1i8, 1i8]
    } else if f == 3 && c == 2 {
        [-1i8, 1i8, -1i8]
    } else if f == 3 && c == 3 {
        [-1i8, 1i8, 1i8]
    } else if f == 4 && c == 0 {
        [-1i8, 1i8, 1i8]
    } else if f == 4 && c == 1 {
        [1i8, 1i8, 1i8]
    } else if f == 4 && c == 2 {
        [-1i8, 1i8, -1i8]
    } else if f == 4 && c == 3 {
        [1i8, 1i8, -1i8]
    } else if f == 5 && c == 0 {
        [-1i8, -1i8, -1i8]
    } else if f == 5 && c == 1 {
        [1i8, -1i8, -1i8]
    } else if f == 5 && c == 2 {
        [-1i8, -1i8, 1i8]
    } else {
        [1i8, -1i8, 1i8]
    }
}

/// Which corner of its face the `s`-th of the six vertices of a face is:
/// triangles `(a, b, c)` and `(c, b, d)`.
pub open spec fn face_slot_corner(s: int) -> int {
    if s == 0 {
        0
    } else if s == 1 || s == 4 {
        1
    } else if s == 2 || s == 3 {
        2
    } else {
        3
    }
}

/// Vertex `k` of the cube: face `k / 6`, slot `k % 6`.
pub open spec fn cube_vertex(k: int) -> [i8; 3] {
    face_corner(k / 6, face_slot_corner(k % 6))
}

/// Pushes the six vertices of one face: triangles `(a, b, c)` and `(c, b, d)`.
fn push_face(out: &mut Vec<[i8; 3]>, a: [i8; 3], b: [i8; 3], c: [i8; 3], d: [i8; 3])
    ensures
        final(out)@ == old(out)@ + seq![a, b, c, c, b, d],
{
    out.push(a);
    out.push(b);
    out.push(c);
    out.push(c);
    out.push(b);
    out.push(d);
    assert(final(out)@ =~= old(out)@ + seq![a, b, c, c, b, d]);
}

/// Pushes `v` six times, once for each vertex of a face.
fn push_six(out: &mut Vec<[i8; 3]>, v: [i8; 3])
    ensures
        final(out)@ == old(out)@ + seq![v, v, v, v, v, v],
{
    out.push(v);
    out.push(v);
    out.push(v);
    out.push(v);
    out.push(v);
    out.push(v);
    assert(final(out)@ =~= old(out)@ + seq![v, v, v, v, v, v]);
}

/// `s` lists, for each of its first `faces` faces, the six values that
/// `value` gives its vertices.
pub open spec fn lists_faces(s: Seq<[i8; 3]>, faces: int, value: spec_fn(int) -> [i8; 3]) -> bool {
    &&& s.len() == 6 * faces
    &&& forall|k: int| 0 <= k < s.len() ==> #[trigger] s[k] == value(k)
}

proof fn lemma_face_listed(
    prev: Seq<[i8; 3]>,
    f: int,
    value: spec_fn(int) -> [i8; 3],
    add: Seq<[i8; 3]>,
)
    requires
        0 <= f,
        lists_faces(prev, f, value),
        add.len() == 6,
        forall|s: int| 0 <= s < 6 ==> #[trigger] add[s] == value(6 * f + s),
    ensures
        lists_faces(prev + add, f + 1, value),
{
    assert forall|k: int| 0 <= k < (prev + add).len() implies #[trigger] (prev + add)[k] == value(
        k,
    ) by {
        if k >= prev.len() {
            assert(add[k - 6 * f] == value(6 * f + (k - 6 * f)));
        }
    }
}

/// Vertex positions of the cube `[-1, 1]^3`: for each face in the order of
/// `face_normal`, the triangles `(a, b, c)` and `(c, b, d)` of its corners.
pub fn cube_positions() -> (r: Vec<[i8; 3]>)
    ensures
        lists_faces(r@, 6, |k: int| cube_vertex(k)),
{
    let ghost value = |k: int| cube_vertex(k);
    let mut v: Vec<[i8; 3]> = Vec::new();
    let ghost prev = v@;
    push_face(&mut v, [-1, -1, 1], [1, -1, 1], [-1, 1, 1], [1, 1, 1]);
    proof {
        lemma_face_listed(prev, 0, value, v@.subrange(0, 6));
        assert(prev + v@.subrange(0, 6) =~= v@);
    }
    let ghost prev = v@;
    push_face(&mut v, [1, -1, 1], [1, -1, -1], [1, 1, 1], [1, 1, -1]);
    proof {
        lemma_face_listed(prev, 1, value, v@.subrange(6, 12));
        assert(prev + v@.subrange(6, 12) =~= v@);
    }
    let ghost prev = v@;
    push_face(&mut v, [1, -1, -1], [-1, -1, -1], [1, 1, -1], [-1, 1, -1]);
    proof {
        lemma_face_listed(prev, 2, value, v@.subrange(12, 18));
        assert(prev + v@.subrange(12, 18) =~= v@);
    }
    let ghost prev = v@;
    push_face(&mut v, [-1, -1, -1], [-1, -1, 1], [-1, 1, -1], [-1, 1, 1]);
    proof {
        lemma_face_listed(prev, 3, value, v@.subrange(18, 24));
        assert(prev + v@.subrange(18, 24) =~= v@);
    }
    let ghost prev = v@;
    push_face(&mut v, [-1, 1, 1], [1, 1, 1], [-1, 1, -1], [1, 1, -1]);
    proof {
        lemma_face_listed(prev, 4, value, v@.subrange(24, 30));
        assert(prev + v@.subrange(24, 30) =~= v@);
    }
    let ghost prev = v@;
    push_face(&mut v, [-1, -1, -1], [1, -1, -1], [-1, -1, 1], [1, -1, 1]);
    proof {
        lemma_face_listed(prev, 5, value, v@.subrange(30, 36));
        assert(prev + v@.subrange(30, 36) =~= v@);
    }
    v
}

/// Vertex colors of the cube: every vertex of a face has the face's color
/// (`face_color`), faces in the order of `cube_positions`.
pub fn cube_colors() -> (r: Vec<[i8; 3]>)
    ensures
        lists_faces(r@, 6, |k: int| face_color(k / 6)),
{
    let ghost value = |k: int| face_color(k / 6);
    let mut v: Vec<[i8; 3]> = Vec::new();
    let ghost prev = v@;
    push_six(&mut v, [0, 0, 1]);
    proof {
        lemma_face_listed(prev, 0, value, v@.subrange(0, 6));
        assert(prev + v@.subrange(0, 6) =~= v@);
    }
    let ghost prev = v@;
    push_six(&mut v, [1, 0, 0]);
    proof {
        lemma_face_listed(prev, 1, value, v@.subrange(6, 12));
        assert(prev + v@.subrange(6, 12) =~= v@);
    }
    let ghost prev = v@;
    push_six(&mut v, [1, 1, 0]);
    proof {
        lemma_face_listed(prev, 2, value, v@.subrange(12, 18));
        assert(prev + v@.subrange(12, 18) =~= v@);
    }
    let ghost prev = v@;
    push_six(&mut v, [0, 1, 1]);
    proof {
        lemma_face_listed(prev, 3, value, v@.subrange(18, 24));
        assert(prev + v@.subrange(18, 24) =~= v@);
    }
    let ghost prev = v@;
    push_six(&mut v, [0, 1, 0]);
    proof {
        lemma_face_listed(prev, 4, value, v@.subrange(24, 30));
        assert(prev + v@.subrange(24, 30) =~= v@);
    }
    let ghost prev = v@;
    push_six(&mut v, [1, 0, 1]);
    proof {
        lemma_face_listed(prev, 5, value, v@.subrange(30, 36));
        assert(prev + v@.subrange(30, 36) =~= v@);
    }
    v
}

/// Vertex normals of the cube: every vertex of a face has the face's outward
/// normal (`face_normal`), faces in the order of `cube_positions`.
pub fn cube_normals() -> (r: Vec<[i8; 3]>)
    ensures
        lists_faces(r@, 6, |k: int| face_normal(k / 6)),
{
    let ghost value = |k: int| face_normal(k / 6);
    let mut v: Vec<[i8; 3]> = Vec::new();
    let ghost prev = v@;
    push_six(&mut v, [0, 0, 1]);
    proof {
        lemma_face_listed(prev, 0, value, v@.subrange(0, 6));
        assert(prev + v@.subrange(0, 6) =~= v@);
    }
    let ghost prev = v@;
    push_six(&mut v, [1, 0, 0]);
    proof {
        lemma_face_listed(prev, 1, value, v@.subrange(6, 12));
        assert(prev + v@.subrange(6, 12) =~= v@);
    }
    let ghost prev = v@;
    push_six(&mut v, [0, 0, -1]);
    proof {
        lemma_face_listed(prev, 2, value, v@.subrange(12, 18));
        assert(prev + v@.subrange(12, 18) =~= v@);
    }
    let ghost prev = v@;
    push_six(&mut v, [-1, 0, 0]);
    proof {
        lemma_face_listed(prev, 3, value, v@.subrange(18, 24));
        assert(prev + v@.subrange(18, 24) =~= v@);
    }
    let ghost prev = v@;
    push_six(&mut v, [0, 1, 0]);
    proof {
        lemma_face_listed(prev, 4, value, v@.subrange(24, 30));
        assert(prev + v@.subrange(24, 30) =~= v@);
    }
    let ghost prev = v@;
    push_six(&mut v, [0, -1, 0]);
    proof {
        lemma_face_listed(prev, 5, value, v@.subrange(30, 36));
        assert(prev + v@.subrange(30, 36) =~= v@);
    }
    v
}

/// Absolute value.
pub open spec fn abs(x: int) -> int {
    if x < 0 {
        -x
    } else {
        x
    }
}

/// Every vertex of the cube has coordinates -1 or 1 and lies on the plane of
/// its face: the outward normal that `cube_normals` gives it is a unit axis
/// vector, and along that axis the vertex's coordinate is the normal's.
pub proof fn lemma_cube_vertices_on_faces(k: int)
    requires
        0 <= k < 36,
    ensures
        forall|i: int|
            0 <= i < 3 && #[trigger] face_normal(k / 6)@[i] != 0 ==> cube_vertex(k)@[i]
                == face_normal(k / 6)@[i],
        abs(face_normal(k / 6)@[0] as int) + abs(face_normal(k / 6)@[1] as int) + abs(
            face_normal(k / 6)@[2] as int,
        ) == 1,
        forall|i: int| 0 <= i < 3 ==> #[trigger] cube_vertex(k)@[i] == 1 || cube_vertex(k)@[i] == -1,
{
    let f = k / 6;
    let s = k % 6;
    assert(0 <= f < 6);
    assert(0 <= face_slot_corner(s) < 4);
    let c = face_slot_corner(s);
    if f == 0 {
        if c == 0 {} else if c == 1 {} else if c == 2 {} else {}
    } else if f == 1 {
        if c == 0 {} else if c == 1 {} else if c == 2 {} else {}
    } else if f == 2 {
        if c == 0 {} else if c == 1 {} else if c == 2 {} else {}
    } else if f == 3 {
        if c == 0 {} else if c == 1 {} else if c == 2 {} else {}
    } else if f == 4 {
        if c == 0 {} else if c == 1 {} else if c == 2 {} else {}
    } else {
        if c == 0 {} else if c == 1 {} else if c == 2 {} else {}
    }
}

} // verus!
