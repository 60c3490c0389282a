//! End-to-end tests of the operators and the classifier on the Platonic
//! seeds: geometry (positions, normals, signatures) is evaluated here in
//! plain floating point, from the canonical vertex keys the engine emits.

use polyhedrator::operators::DEFAULT_APEX_SCALE_BITS;
use polyhedrator::Face;
use polyhedrator::Kis;
use polyhedrator::KisError;
use polyhedrator::Operator;
use polyhedrator::Platonic;
use polyhedrator::Polyhedron;
use polyhedrator::VertexKey;

type Pt = [f64; 3];

fn sub(a: Pt, b: Pt) -> Pt {
    [a[0] - b[0], a[1] - b[1], a[2] - b[2]]
}

fn add(a: Pt, b: Pt) -> Pt {
    [a[0] + b[0], a[1] + b[1], a[2] + b[2]]
}

fn scale(a: Pt, s: f64) -> Pt {
    [a[0] * s, a[1] * s, a[2] * s]
}

fn cross(a: Pt, b: Pt) -> Pt {
    [
        a[1] * b[2] - a[2] * b[1],
        a[2] * b[0] - a[0] * b[2],
        a[0] * b[1] - a[1] * b[0],
    ]
}

fn dot(a: Pt, b: Pt) -> f64 {
    a[0] * b[0] + a[1] * b[1] + a[2] * b[2]
}

fn magnitude(a: Pt) -> f64 {
    dot(a, a).sqrt()
}

fn midpoint(a: Pt, b: Pt) -> Pt {
    scale(add(a, b), 0.5)
}

fn face_points(mesh: &Polyhedron<Pt>, face: &Face) -> Vec<Pt> {
    face.indices.iter().map(|&i| mesh.vertices[i as usize]).collect()
}

fn centroid(points: &[Pt]) -> Pt {
    let mut c = [0.0, 0.0, 0.0];
    for p in points {
        c = add(c, *p);
    }
    scale(c, 1.0 / points.len() as f64)
}

/// Newell-style accumulation relative to the first vertex, then normalized.
fn normal(points: &[Pt]) -> Pt {
    let first = points[0];
    let mut n = [0.0, 0.0, 0.0];
    let mut previous = sub(first, first);
    for p in &points[1..] {
        let current = sub(*p, first);
        n = add(n, cross(previous, current));
        previous = current;
    }
    n = add(n, cross(previous, sub(first, first)));
    scale(n, 1.0 / magnitude(n))
}

fn mean_distance(points: &[Pt], from: Pt) -> f64 {
    let mut d = 0.0;
    for p in points {
        d += magnitude(sub(*p, from));
    }
    d / points.len() as f64
}

/// The position a canonical vertex key denotes, against the operator's input
/// mesh.
fn eval_key(key: &VertexKey, input: &Polyhedron<Pt>, operator: &Operator) -> Pt {
    match *key {
        VertexKey::Seed(i) => input.vertices[i as usize],
        VertexKey::Midpoint(a, b) => {
            midpoint(input.vertices[a as usize], input.vertices[b as usize])
        }
        VertexKey::Centroid(f) => {
            let points = face_points(input, &input.faces[f as usize]);
            let center = centroid(&points);
            match operator {
                Operator::Kis(kis) => {
                    let apex_scale = f64::from_bits(kis.apex_scale_bits);
                    let n = normal(&points);
                    let d = mean_distance(&points, center);
                    add(center, scale(n, apex_scale * d))
                }
                _ => center,
            }
        }
    }
}

/// One geometric operator application: the engine produces the topology and
/// the vertex keys; the keys are then evaluated into positions.
fn apply_geometric(input: &Polyhedron<Pt>, operator: Operator) -> Polyhedron<Pt> {
    let keyed = input.clone().apply(operator).expect("operator failed");
    let vertices: Vec<Pt> =
        keyed.vertices.iter().map(|k| eval_key(k, input, &operator)).collect();
    Polyhedron::from_parts(vertices, keyed.faces)
}

fn mesh(vertices: Vec<Pt>, faces: Vec<Vec<u32>>) -> Polyhedron<Pt> {
    Polyhedron::from_parts(vertices, faces.into_iter().map(Face::new).collect())
}

fn tetrahedron(edge_length: f64) -> Polyhedron<Pt> {
    let s = edge_length / 2.0;
    let q = std::f64::consts::FRAC_1_SQRT_2 * s;
    mesh(
        vec![[s, 0.0, -q], [-s, 0.0, -q], [0.0, s, q], [0.0, -s, q]],
        vec![vec![0, 1, 2], vec![0, 2, 3], vec![0, 3, 1], vec![1, 3, 2]],
    )
}

fn cube(edge_length: f64) -> Polyhedron<Pt> {
    let s = edge_length / 2.0;
    mesh(
        vec![
            [s, s, s],
            [s, s, -s],
            [s, -s, s],
            [s, -s, -s],
            [-s, s, s],
            [-s, s, -s],
            [-s, -s, s],
            [-s, -s, -s],
        ],
        vec![
            vec![0, 2, 3, 1],
            vec![4, 5, 7, 6],
            vec![0, 1, 5, 4],
            vec![2, 6, 7, 3],
            vec![0, 4, 6, 2],
            vec![1, 3, 7, 5],
        ],
    )
}

fn octahedron(edge_length: f64) -> Polyhedron<Pt> {
    let s = edge_length / std::f64::consts::SQRT_2;
    mesh(
        vec![
            [s, 0.0, 0.0],
            [-s, 0.0, 0.0],
            [0.0, s, 0.0],
            [0.0, -s, 0.0],
            [0.0, 0.0, s],
            [0.0, 0.0, -s],
        ],
        vec![
            vec![0, 2, 4],
            vec![0, 4, 3],
            vec![0, 3, 5],
            vec![0, 5, 2],
            vec![1, 4, 2],
            vec![1, 2, 5],
            vec![1, 5, 3],
            vec![1, 3, 4],
        ],
    )
}

fn dodecahedron(edge_length: f64) -> Polyhedron<Pt> {
    let s = (edge_length * (5.0f64.sqrt() + 1.0)) / 4.0;
    let phi = (edge_length * (5.0f64.sqrt() + 3.0)) / 4.0;
    let inv = edge_length / 2.0;
    mesh(
        vec![
            [s, s, s],
            [s, s, -s],
            [s, -s, s],
            [s, -s, -s],
            [-s, s, s],
            [-s, s, -s],
            [-s, -s, s],
            [-s, -s, -s],
            [0.0, phi, inv],
            [0.0, phi, -inv],
            [0.0, -phi, inv],
            [0.0, -phi, -inv],
            [phi, inv, 0.0],
            [phi, -inv, 0.0],
            [-phi, inv, 0.0],
            [-phi, -inv, 0.0],
            [inv, 0.0, phi],
            [-inv, 0.0, phi],
            [inv, 0.0, -phi],
            [-inv, 0.0, -phi],
        ],
        vec![
            vec![0, 8, 4, 17, 16],
            vec![0, 12, 1, 9, 8],
            vec![0, 16, 2, 13, 12],
            vec![1, 12, 13, 3, 18],
            vec![1, 18, 19, 5, 9],
            vec![2, 10, 11, 3, 13],
            vec![3, 11, 7, 19, 18],
            vec![4, 8, 9, 5, 14],
            vec![4, 14, 15, 6, 17],
            vec![5, 19, 7, 15, 14],
            vec![6, 10, 2, 16, 17],
            vec![6, 15, 7, 11, 10],
        ],
    )
}

fn icosahedron(edge_length: f64) -> Polyhedron<Pt> {
    let s = edge_length / 2.0;
    let phi = (1.0 + 5.0f64.sqrt()) / 2.0 * s;
    mesh(
        vec![
            [-s, phi, 0.0],
            [s, phi, 0.0],
            [-s, -phi, 0.0],
            [s, -phi, 0.0],
            [0.0, -s, phi],
            [0.0, s, phi],
            [0.0, -s, -phi],
            [0.0, s, -phi],
            [phi, 0.0, -s],
            [phi, 0.0, s],
            [-phi, 0.0, -s],
            [-phi, 0.0, s],
        ],
        vec![
            vec![0, 1, 7],
            vec![0, 5, 1],
            vec![0, 7, 10],
            vec![0, 10, 11],
            vec![0, 11, 5],
            vec![1, 5, 9],
            vec![1, 8, 7],
            vec![1, 9, 8],
            vec![2, 3, 4],
            vec![2, 4, 11],
            vec![2, 6, 3],
            vec![2, 10, 6],
            vec![2, 11, 10],
            vec![3, 6, 8],
            vec![3, 8, 9],
            vec![3, 9, 4],
            vec![4, 5, 11],
            vec![4, 9, 5],
            vec![6, 7, 8],
            vec![6, 10, 7],
        ],
    )
}

fn platonic(p: Platonic, edge_length: f64) -> Polyhedron<Pt> {
    match p {
        Platonic::Tetrahedron => tetrahedron(edge_length),
        Platonic::Cube => cube(edge_length),
        Platonic::Octahedron => octahedron(edge_length),
        Platonic::Dodecahedron => dodecahedron(edge_length),
        Platonic::Icosahedron => icosahedron(edge_length),
    }
}

/// The quantized per-vertex turn magnitudes of one face, one value per
/// vertex: the cross product magnitude of the two edge vectors meeting at
/// each vertex, mantissa truncated to 7 significant bits with sign and
/// exponent preserved.
fn face_magnitudes(mesh: &Polyhedron<Pt>, face: &Face) -> Vec<u64> {
    let points = face_points(mesh, face);
    let n = points.len();
    if n < 3 {
        return Vec::new();
    }
    let mut mags = Vec::with_capacity(n);
    for mid in 0..n {
        let before = points[(mid + n - 1) % n];
        let here = points[mid];
        let after = points[(mid + 1) % n];
        mags.push(quantize(magnitude(cross(sub(before, here), sub(after, here)))));
    }
    mags
}

/// Truncates the mantissa to 7 significant bits, preserving sign and
/// exponent: the low bits of the IEEE fraction are zeroed, so values equal up
/// to ordinary rounding error quantize alike. Monotone on non-negative
/// values, so sorting before or after quantizing yields the same list.
fn quantize(f: f64) -> u64 {
    if f == 0.0 {
        return 0;
    }
    let b = f.to_bits();
    let exponent = (b >> 52) & 0x7FF;
    if exponent != 0 {
        // Normal: the implicit leading one is the first significant bit; keep
        // six explicit fraction bits.
        b & !((1u64 << 46) - 1)
    } else {
        // Subnormal: the first significant bit is inside the fraction field.
        let fraction = b & 0xF_FFFF_FFFF_FFFF;
        let nbits = 64 - fraction.leading_zeros();
        if nbits <= 7 {
            b
        } else {
            let shift = nbits - 7;
            b & !((1u64 << shift) - 1)
        }
    }
}

fn all_magnitudes(mesh: &Polyhedron<Pt>) -> Vec<Vec<u64>> {
    mesh.faces.iter().map(|f| face_magnitudes(mesh, f)).collect()
}

fn euler_characteristic(mesh: &Polyhedron<Pt>) -> i64 {
    let v = mesh.vertices.len() as i64;
    let f = mesh.faces.len() as i64;
    let e = mesh.valence_sum() as i64 / 2;
    v - e + f
}

fn all_platonics() -> Vec<Platonic> {
    Platonic::all()
}

/// A square pyramid: four triangles and one square, closed and consistently
/// wound.
fn square_pyramid() -> Polyhedron<Pt> {
    mesh(
        vec![
            [-1.0, -1.0, 0.0],
            [1.0, -1.0, 0.0],
            [1.0, 1.0, 0.0],
            [-1.0, 1.0, 0.0],
            [0.0, 0.0, 1.5],
        ],
        vec![
            vec![3, 2, 1, 0],
            vec![0, 1, 4],
            vec![1, 2, 4],
            vec![2, 3, 4],
            vec![3, 0, 4],
        ],
    )
}

#[test]
fn euler_invariant_all_operators_all_seeds() {
    let operators = [
        Operator::Ambo,
        Operator::Dual,
        Operator::Kis(Kis::restrict_to_sides(0)),
    ];
    for p in all_platonics() {
        let seed = platonic(p, 1.0);
        assert_eq!(euler_characteristic(&seed), 2, "seed {:?}", p);
        for op in operators {
            let out = apply_geometric(&seed, op);
            assert_eq!(euler_characteristic(&out), 2, "{:?} on {:?}", op, p);
        }
    }
}

#[test]
fn dual_involution_on_platonic_seeds() {
    for p in all_platonics() {
        let seed = platonic(p, 1.0);
        let once = seed.clone().apply(Operator::Dual).unwrap();
        let twice = once.apply(Operator::Dual).unwrap();
        assert_eq!(twice.vertices.len(), seed.vertices.len(), "{:?}", p);
        assert_eq!(twice.faces.len(), seed.faces.len(), "{:?}", p);
        let mut seed_valences: Vec<usize> =
            seed.faces.iter().map(|f| f.indices.len()).collect();
        let mut twice_valences: Vec<usize> =
            twice.faces.iter().map(|f| f.indices.len()).collect();
        seed_valences.sort_unstable();
        twice_valences.sort_unstable();
        assert_eq!(seed_valences, twice_valences, "{:?}", p);
    }
}

#[test]
fn ambo_on_cube_midpoints_and_counts() {
    let edge = 2.0;
    let seed = cube(edge);
    let keyed = seed.clone().apply(Operator::Ambo).unwrap();

    // Exactly one vertex per cube edge.
    assert_eq!(keyed.vertices.len(), 12);
    let mut edges_seen: Vec<(u32, u32)> = Vec::new();
    for key in &keyed.vertices {
        match *key {
            VertexKey::Midpoint(a, b) => {
                assert!(a < b);
                assert!(!edges_seen.contains(&(a, b)), "edge repeated");
                edges_seen.push((a, b));
            }
            other => panic!("unexpected vertex key {:?}", other),
        }
    }

    // 6 shrunk squares and 8 small triangles, one per original vertex.
    assert_eq!(keyed.faces.len(), 14);
    let squares = keyed.faces.iter().filter(|f| f.indices.len() == 4).count();
    let triangles = keyed.faces.iter().filter(|f| f.indices.len() == 3).count();
    assert_eq!(squares, 6);
    assert_eq!(triangles, 8);

    // Every vertex sits at the exact arithmetic midpoint of its cube edge.
    let out = apply_geometric(&seed, Operator::Ambo);
    for (i, key) in keyed.vertices.iter().enumerate() {
        if let VertexKey::Midpoint(a, b) = *key {
            let expected = [
                (seed.vertices[a as usize][0] + seed.vertices[b as usize][0]) * 0.5,
                (seed.vertices[a as usize][1] + seed.vertices[b as usize][1]) * 0.5,
                (seed.vertices[a as usize][2] + seed.vertices[b as usize][2]) * 0.5,
            ];
            assert_eq!(out.vertices[i], expected);
        }
    }
}

#[test]
fn kis_unrestricted_zero_scale_triangulates_every_seed() {
    let kis = Kis::restrict_to_sides_and_scale_apex(0, 0.0f64.to_bits()).unwrap();
    for p in all_platonics() {
        let seed = platonic(p, 1.0);
        let valence_sum: usize = seed.faces.iter().map(|f| f.indices.len()).sum();
        let keyed = seed.clone().apply(Operator::Kis(kis)).unwrap();

        // Every face is replaced by as many triangles as it had sides.
        assert_eq!(keyed.faces.len(), valence_sum, "{:?}", p);
        for face in &keyed.faces {
            assert_eq!(face.indices.len(), 3, "{:?}", p);
        }
        assert_eq!(
            keyed.vertices.len(),
            seed.vertices.len() + seed.faces.len(),
            "{:?}",
            p
        );

        // With a zero apex scale every apex lies exactly on its face's plane.
        let out = apply_geometric(&seed, Operator::Kis(kis));
        for (i, key) in keyed.vertices.iter().enumerate() {
            if let VertexKey::Centroid(f) = *key {
                let points = face_points(&seed, &seed.faces[f as usize]);
                let n = normal(&points);
                let offset = dot(n, sub(out.vertices[i], points[0]));
                assert!(
                    offset.abs() < 1e-12,
                    "{:?}: apex off plane by {}",
                    p,
                    offset
                );
            }
        }
    }
}

#[test]
fn kis_restricted_to_squares_on_mixed_mesh() {
    let seed = square_pyramid();
    let kis = Kis::restrict_to_sides_and_scale_apex(4, 0.0f64.to_bits()).unwrap();
    let keyed = seed.clone().apply(Operator::Kis(kis)).unwrap();

    // The square base becomes 4 triangles; the 4 triangles pass through.
    assert_eq!(keyed.faces.len(), 8);
    for face in &keyed.faces {
        assert_eq!(face.indices.len(), 3);
    }
    assert_eq!(keyed.vertices.len(), seed.vertices.len() + 1);

    // Each original triangle appears with identical indices and winding.
    for original in &seed.faces {
        if original.indices.len() == 3 {
            assert!(
                keyed.faces.iter().any(|f| f.indices == original.indices),
                "triangle {:?} not carried through unchanged",
                original.indices
            );
        }
    }
}

#[test]
fn classifier_uniform_on_dodecahedron() {
    let seed = dodecahedron(1.0);
    let classes = seed.classify_faces(&all_magnitudes(&seed));
    assert_eq!(classes.len(), 12);
    assert!(classes.iter().all(|&c| c == 0), "classes {:?}", classes);
}

#[test]
fn classifier_never_mixes_triangles_and_squares() {
    let seed = square_pyramid();
    let classes = seed.classify_faces(&all_magnitudes(&seed));
    assert_eq!(classes.len(), 5);
    let square_class = classes[0];
    for (i, face) in seed.faces.iter().enumerate() {
        if face.indices.len() == 3 {
            assert_ne!(classes[i], square_class);
        }
    }
    // The four congruent triangles share one class.
    assert_eq!(classes[1], classes[2]);
    assert_eq!(classes[2], classes[3]);
    assert_eq!(classes[3], classes[4]);
}

#[test]
fn operators_and_classifier_are_deterministic() {
    for op in [
        Operator::Ambo,
        Operator::Dual,
        Operator::Kis(Kis::restrict_to_sides(0)),
    ] {
        let a = platonic(Platonic::Icosahedron, 1.0).apply(op).unwrap();
        let b = platonic(Platonic::Icosahedron, 1.0).apply(op).unwrap();
        assert_eq!(a.vertices, b.vertices);
        assert_eq!(a.faces.len(), b.faces.len());
        for (fa, fb) in a.faces.iter().zip(b.faces.iter()) {
            assert_eq!(fa.indices, fb.indices);
        }
    }
    let m1 = dodecahedron(1.0);
    let m2 = dodecahedron(1.0);
    assert_eq!(
        m1.classify_faces(&all_magnitudes(&m1)),
        m2.classify_faces(&all_magnitudes(&m2))
    );
}

#[test]
fn apply_iter_matches_stepwise_application() {
    let ops = vec![Operator::Ambo, Operator::Dual];
    let via_iter = cube(1.0).apply_iter(&ops).unwrap();
    let step1 = cube(1.0).into_seed_keys().apply(Operator::Ambo).unwrap();
    let step2 = step1.apply(Operator::Dual).unwrap();
    assert_eq!(via_iter.vertices, step2.vertices);
    assert_eq!(via_iter.faces.len(), step2.faces.len());
    for (fa, fb) in via_iter.faces.iter().zip(step2.faces.iter()) {
        assert_eq!(fa.indices, fb.indices);
    }
}

#[test]
fn apply_iter_with_no_operators_is_the_identity_topology() {
    let seed = cube(1.0);
    let out = seed.clone().apply_iter(&Vec::new()).unwrap();
    assert_eq!(out.vertices.len(), 8);
    for (i, key) in out.vertices.iter().enumerate() {
        assert_eq!(*key, VertexKey::Seed(i as u32));
    }
    assert_eq!(out.faces.len(), seed.faces.len());
    for (fa, fb) in out.faces.iter().zip(seed.faces.iter()) {
        assert_eq!(fa.indices, fb.indices);
    }
}

#[test]
fn kis_apex_scale_is_validated_at_construction() {
    assert_eq!(
        Kis::scale_apex(f64::NAN.to_bits()),
        Err(KisError::ApexScaleNan)
    );
    assert_eq!(
        Kis::scale_apex(f64::INFINITY.to_bits()),
        Err(KisError::ApexScaleInfinite)
    );
    assert_eq!(
        Kis::scale_apex(f64::NEG_INFINITY.to_bits()),
        Err(KisError::ApexScaleInfinite)
    );
    let k = Kis::restrict_to_sides_and_scale_apex(6, 0.25f64.to_bits()).unwrap();
    assert_eq!(k.side_count(), 6);
    assert_eq!(f64::from_bits(k.apex_scale_bits()), 0.25);
    assert_eq!(f64::from_bits(DEFAULT_APEX_SCALE_BITS), 0.1);
    assert_eq!(Kis::default(), Kis::restrict_to_sides(0));
}

#[test]
fn kis_default_scale_raises_apex_off_the_plane() {
    let seed = cube(2.0);
    let keyed = seed.clone().apply(Operator::Kis(Kis::restrict_to_sides(0))).unwrap();
    let out = apply_geometric(&seed, Operator::Kis(Kis::restrict_to_sides(0)));
    let mut checked = 0;
    for (i, key) in keyed.vertices.iter().enumerate() {
        if let VertexKey::Centroid(f) = *key {
            let points = face_points(&seed, &seed.faces[f as usize]);
            let n = normal(&points);
            let offset = dot(n, sub(out.vertices[i], points[0]));
            // The apex stands off the plane by the scale times the mean
            // distance from the centroid to the face's corners.
            let expected = 0.1 * mean_distance(&points, centroid(&points));
            assert!((offset - expected).abs() < 1e-12);
            checked += 1;
        }
    }
    assert_eq!(checked, 6);
}

#[test]
fn degenerate_faces_share_the_empty_signature() {
    // Two faces with fewer than three vertices get the empty signature and
    // therefore collide with each other, never with a real polygon.
    let m = mesh(
        vec![
            [0.0, 0.0, 0.0],
            [1.0, 0.0, 0.0],
            [0.0, 1.0, 0.0],
            [0.0, 0.0, 9.0],
        ],
        vec![vec![0, 1], vec![2, 3], vec![0, 1, 2]],
    );
    let mags = all_magnitudes(&m);
    let classes = m.classify_faces(&mags);
    assert_eq!(classes[0], classes[1]);
    assert_ne!(classes[0], classes[2]);
}

#[test]
fn all_five_platonic_seeds_are_listed_in_order() {
    assert_eq!(
        Platonic::all(),
        vec![
            Platonic::Tetrahedron,
            Platonic::Cube,
            Platonic::Octahedron,
            Platonic::Dodecahedron,
            Platonic::Icosahedron
        ]
    );
}
