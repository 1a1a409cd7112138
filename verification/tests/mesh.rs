use perlin_terrain::fixed::SCALE;
use perlin_terrain::mesh::{build, NoiseParams, TerrainError};

const ONE: i64 = SCALE;

// The fractal parameters of the reference terrain: eight octaves, gain 0.5,
// lacunarity 1.92, amplitude 2.0, frequency 1.0, all in ticks.
fn reference_params() -> NoiseParams {
    NoiseParams {
        octaves: 8,
        gain: ONE / 2,
        lacunarity: 125829,
        amplitude0: 2 * ONE,
        frequency0: ONE,
    }
}

#[test]
fn small_grid_has_expected_topology() {
    let mesh = build(2, 2, 2 * ONE, reference_params()).unwrap();
    assert_eq!(mesh.positions.len(), 9);
    assert_eq!(mesh.normals.len(), 9);
    assert_eq!(mesh.uvs.len(), 9);
    assert_eq!(mesh.indices.len(), 24);
    for &i in mesh.indices.iter() {
        assert!(i < 9);
    }
}

#[test]
fn small_grid_triangulates_each_cell_along_one_diagonal() {
    let mesh = build(2, 2, 2 * ONE, reference_params()).unwrap();
    // Cell (0,0): vertices 0,3,4 and 0,4,1 with rows of length 3.
    assert_eq!(&mesh.indices[0..6], &[0, 3, 4, 0, 4, 1]);
    // Cell (1,1): base vertex index 4.
    assert_eq!(&mesh.indices[18..24], &[4, 7, 8, 4, 8, 5]);
}

#[test]
fn positions_are_centred_and_span_the_extent() {
    let mesh = build(2, 2, 2 * ONE, reference_params()).unwrap();
    // Corner (0,0) sits at (-1, _, -1), the centre at the origin, and the
    // far corner (2,2) at (1, _, 1), in world units of one extent half.
    assert_eq!(mesh.positions[0].0, -ONE);
    assert_eq!(mesh.positions[0].2, -ONE);
    assert_eq!(mesh.positions[4].0, 0);
    assert_eq!(mesh.positions[4].2, 0);
    assert_eq!(mesh.positions[8].0, ONE);
    assert_eq!(mesh.positions[8].2, ONE);
}

#[test]
fn normals_are_all_up() {
    let mesh = build(3, 2, 3 * ONE, reference_params()).unwrap();
    for &n in mesh.normals.iter() {
        assert_eq!(n, (0, ONE, 0));
    }
}

#[test]
fn uvs_are_normalized_grid_coordinates() {
    let mesh = build(2, 2, 2 * ONE, reference_params()).unwrap();
    assert_eq!(mesh.uvs[0], (0, 0));
    assert_eq!(mesh.uvs[4], (ONE / 2, ONE / 2));
    assert_eq!(mesh.uvs[8], (ONE, ONE));
}

#[test]
fn corner_height_matches_the_fractal_at_the_origin() {
    // Vertex (0,0) samples the lattice origin through all eight octaves:
    // the halved-amplitude sum 130560 ticks, exactly.
    let mesh = build(32, 32, 3 * ONE, reference_params()).unwrap();
    assert_eq!(mesh.positions[0].1, 130560);
}

#[test]
fn build_is_reproducible() {
    let first = build(4, 4, 3 * ONE, reference_params()).unwrap();
    let second = build(4, 4, 3 * ONE, reference_params()).unwrap();
    assert_eq!(first.positions, second.positions);
    assert_eq!(first.normals, second.normals);
    assert_eq!(first.uvs, second.uvs);
    assert_eq!(first.indices, second.indices);
}

#[test]
fn zero_dimension_is_rejected() {
    let r = build(0, 5, 3 * ONE, reference_params());
    assert_eq!(r.err().unwrap(), TerrainError::InvalidDimension);
    let r = build(5, 0, 3 * ONE, reference_params());
    assert_eq!(r.err().unwrap(), TerrainError::InvalidDimension);
}

#[test]
fn degenerate_noise_parameters_are_rejected() {
    let mut p = reference_params();
    p.octaves = 0;
    let r = build(5, 5, 3 * ONE, p);
    assert_eq!(r.err().unwrap(), TerrainError::InvalidNoiseParameters);

    let mut p = reference_params();
    p.gain = 0;
    let r = build(5, 5, 3 * ONE, p);
    assert_eq!(r.err().unwrap(), TerrainError::InvalidNoiseParameters);

    let mut p = reference_params();
    p.lacunarity = -ONE;
    let r = build(5, 5, 3 * ONE, p);
    assert_eq!(r.err().unwrap(), TerrainError::InvalidNoiseParameters);
}

#[test]
fn dimension_errors_take_precedence() {
    let mut p = reference_params();
    p.octaves = 0;
    let r = build(0, 5, 3 * ONE, p);
    assert_eq!(r.err().unwrap(), TerrainError::InvalidDimension);
}

#[test]
fn oversized_grid_overflows_the_index_type() {
    let r = build(66000, 66000, 3 * ONE, reference_params());
    assert_eq!(r.err().unwrap(), TerrainError::IndexOverflow);
}

#[test]
fn reference_terrain_has_expected_size() {
    let mesh = build(32, 32, 3 * ONE, reference_params()).unwrap();
    assert_eq!(mesh.positions.len(), 1089);
    assert_eq!(mesh.normals.len(), 1089);
    assert_eq!(mesh.uvs.len(), 1089);
    assert_eq!(mesh.indices.len(), 6144);
    for &i in mesh.indices.iter() {
        assert!(i < 1089);
    }
    // Every sampled height lies within the worst-case amplitude sum of
    // just under four units.
    for &p in mesh.positions.iter() {
        assert!(p.1.abs() < 4 * ONE);
    }
}
