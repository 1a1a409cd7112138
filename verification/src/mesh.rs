//! Heightmap mesh builder.
//!
//! [`build`] samples the fractal accumulator over a regular
//! `(width+1) x (height+1)` grid and emits a triangulated mesh as four
//! parallel sequences: positions, normals, texture coordinates and triangle
//! indices.  The grid is centred on the origin in the horizontal plane and
//! spans `extent` world units along each axis; the vertical coordinate of
//! each vertex is the accumulated noise height.  Texture coordinates use
//! the normalized convention `(gx/width, gy/height)`.  Vertices are emitted
//! row-major with the first grid axis varying slower, so grid point
//! `(gx, gy)` lives at index `gx * (height + 1) + gy`, and every grid cell
//! is covered by exactly two triangles split along the same diagonal.
//!
//! Inputs are validated eagerly: on any validation failure the call returns
//! the matching [`TerrainError`] and constructs nothing.

use vstd::prelude::*;
use crate::fixed::{SCALE, FIXED_BOUND, floor_div};
use crate::noise::{PerlinNoise, table_seq, spec_fractal};
use vstd::arithmetic::div_mod::lemma_div_is_ordered;
use vstd::arithmetic::div_mod::lemma_div_by_multiple;
use vstd::arithmetic::div_mod::lemma_fundamental_div_mod;
use vstd::arithmetic::div_mod::lemma_mod_bound;

verus! {

/// Why a build request was rejected.
#[derive(Clone, Copy, PartialEq, Eq, Structural, Debug)]
pub enum TerrainError {
    /// `width` or `height` is zero.
    InvalidDimension,
    /// `octaves` is zero, or `gain` or `lacunarity` is not positive.
    InvalidNoiseParameters,
    /// The index buffer would not fit the 32-bit index type.
    IndexOverflow,
}

/// The fractal noise parameters of one build request.  The scalar fields
/// are fixed-point values carrying [`SCALE`] ticks to the unit.
#[derive(Clone, Copy, PartialEq, Eq, Structural, Debug)]
pub struct NoiseParams {
    /// Number of noise layers summed per sample; must be positive.
    pub octaves: u32,
    /// Per-octave amplitude factor; must be positive.
    pub gain: i64,
    /// Per-octave frequency factor; must be positive.
    pub lacunarity: i64,
    /// Amplitude of the first octave.
    pub amplitude0: i64,
    /// Frequency of the first octave.
    pub frequency0: i64,
}

/// A triangulated heightmap mesh: four parallel ordered sequences.  The
/// three vertex attribute sequences share one length, and each consecutive
/// triple of `indices` names one triangle by vertex index.
pub struct Mesh {
    /// World-space vertex positions `(x, y, z)`, `y` being the height.
    pub positions: Vec<(i64, i64, i64)>,
    /// Vertex normals, every one the constant up vector `(0, 1, 0)`.
    pub normals: Vec<(i64, i64, i64)>,
    /// Normalized texture coordinates.
    pub uvs: Vec<(i64, i64)>,
    /// Triangle vertex indices, three per triangle.
    pub indices: Vec<u32>,
}

/// Both grid dimensions are positive.
pub open spec fn dims_valid(width: int, height: int) -> bool {
    0 < width && 0 < height
}

/// The fractal parameters pass eager validation: a positive number of
/// octaves, positive gain, positive lacunarity.
pub open spec fn params_valid(p: NoiseParams) -> bool {
    p.octaves > 0 && p.gain > 0 && p.lacunarity > 0
}

/// Machine limits on a build request: every fixed-point parameter within
/// [`FIXED_BOUND`] and the octave count small enough that the accumulated
/// height cannot leave the 64-bit range.
pub open spec fn params_in_range(p: NoiseParams) -> bool {
    &&& -FIXED_BOUND <= p.gain <= FIXED_BOUND
    &&& -FIXED_BOUND <= p.lacunarity <= FIXED_BOUND
    &&& -FIXED_BOUND <= p.amplitude0 <= FIXED_BOUND
    &&& -FIXED_BOUND <= p.frequency0 <= FIXED_BOUND
    &&& p.octaves <= 0x4000_0000
}

/// Number of vertices of a `width x height` cell grid.
pub open spec fn vertex_count(width: int, height: int) -> int {
    (width + 1) * (height + 1)
}

/// Number of index entries: two triangles of three vertices per cell.
pub open spec fn index_count(width: int, height: int) -> int {
    6 * (width * height)
}

/// The index buffer fits the 32-bit index type.
pub open spec fn fits_index_type(width: int, height: int) -> bool {
    index_count(width, height) <= u32::MAX
}

/// Row-major vertex index of grid point `(gx, gy)`: `gx` full rows of
/// `height + 1` vertices, then `gy`.
pub open spec fn vertex_index(gx: int, gy: int, height: int) -> int {
    gx * (height + 1) + gy
}

/// Normalized grid coordinate `i / n` in fixed point.
pub open spec fn norm_coord(i: int, n: int) -> int {
    (i * (SCALE as int)) / n
}

/// World-space coordinate of grid line `i` of `n`: the grid is centred, so
/// line `i` sits at `(i - n/2) * extent / n`, computed exactly as
/// `((2i - n) * extent) / (2n)` with flooring.
pub open spec fn axis_pos(i: int, n: int, extent: int) -> int {
    ((2 * i - n) * extent) / (2 * n)
}

/// The height sampled at grid point `(gx, gy)`: the fractal accumulator
/// applied to the normalized coordinates over the canonical table.
pub open spec fn grid_height(gx: int, gy: int, width: int, height: int, p: NoiseParams) -> int {
    spec_fractal(
        norm_coord(gx, width),
        norm_coord(gy, height),
        p.octaves as nat,
        p.gain as int,
        p.lacunarity as int,
        p.amplitude0 as int,
        p.frequency0 as int,
        table_seq(),
    )
}

/// The vertex attributes stored for grid point `(gx, gy)` are exactly the
/// specified position, the constant up normal, and the normalized texture
/// coordinate.
pub open spec fn vertex_attrs_ok(
    positions: Seq<(i64, i64, i64)>,
    normals: Seq<(i64, i64, i64)>,
    uvs: Seq<(i64, i64)>,
    gx: int,
    gy: int,
    width: int,
    height: int,
    extent: int,
    p: NoiseParams,
) -> bool {
    let k = vertex_index(gx, gy, height);
    &&& positions[k].0 == axis_pos(gx, width, extent)
    &&& positions[k].1 == grid_height(gx, gy, width, height, p)
    &&& positions[k].2 == axis_pos(gy, height, extent)
    &&& normals[k] == (0i64, SCALE, 0i64)
    &&& uvs[k].0 == norm_coord(gx, width)
    &&& uvs[k].1 == norm_coord(gy, height)
}

/// The six index entries of cell `(cx, cy)` name the cell's two triangles,
/// both split along the same diagonal.
pub open spec fn cell_indices_ok(indices: Seq<u32>, cx: int, cy: int, height: int) -> bool {
    let c = 6 * (cx * height + cy);
    &&& indices[c] == vertex_index(cx, cy, height)
    &&& indices[c + 1] == vertex_index(cx + 1, cy, height)
    &&& indices[c + 2] == vertex_index(cx + 1, cy + 1, height)
    &&& indices[c + 3] == vertex_index(cx, cy, height)
    &&& indices[c + 4] == vertex_index(cx + 1, cy + 1, height)
    &&& indices[c + 5] == vertex_index(cx, cy + 1, height)
}

/// Full correctness of a built mesh: all four sequences have their exact
/// lengths, every vertex carries the specified attributes, every cell is
/// triangulated as specified, and every index names a valid vertex.
pub open spec fn mesh_ok(m: Mesh, width: int, height: int, extent: int, p: NoiseParams) -> bool {
    &&& m.positions@.len() == vertex_count(width, height)
    &&& m.normals@.len() == vertex_count(width, height)
    &&& m.uvs@.len() == vertex_count(width, height)
    &&& m.indices@.len() == index_count(width, height)
    &&& forall|gx: int, gy: int|
        0 <= gx <= width && 0 <= gy <= height ==> #[trigger] vertex_attrs_ok(
            m.positions@,
            m.normals@,
            m.uvs@,
            gx,
            gy,
            width,
            height,
            extent,
            p,
        )
    &&& forall|cx: int, cy: int|
        0 <= cx < width && 0 <= cy < height ==> #[trigger] cell_indices_ok(
            m.indices@,
            cx,
            cy,
            height,
        )
    &&& forall|k: int| 0 <= k < m.indices@.len() ==> m.indices@[k] < vertex_count(width, height)
}

/// Builds the terrain mesh: validates the request eagerly, then samples the
/// fractal accumulator at every grid point and triangulates every cell.  On
/// a validation failure nothing is constructed and the matching error is
/// returned; each error comes exactly on the inputs its variant names, in
/// the order dimensions, noise parameters, index capacity.
#[verifier::loop_isolation(false)]
pub fn build(width: u32, height: u32, extent: i64, params: NoiseParams) -> (r: Result<
    Mesh,
    TerrainError,
>)
    requires
        0 < extent <= FIXED_BOUND,
        params_in_range(params),
    ensures
        r == Err::<Mesh, TerrainError>(TerrainError::InvalidDimension) <==> !dims_valid(
            width as int,
            height as int,
        ),
        r == Err::<Mesh, TerrainError>(TerrainError::InvalidNoiseParameters) <==> (dims_valid(
            width as int,
            height as int,
        ) && !params_valid(params)),
        r == Err::<Mesh, TerrainError>(TerrainError::IndexOverflow) <==> (dims_valid(
            width as int,
            height as int,
        ) && params_valid(params) && !fits_index_type(width as int, height as int)),
        r is Ok <==> (dims_valid(width as int, height as int) && params_valid(params)
            && fits_index_type(width as int, height as int)),
        r matches Ok(m) ==> mesh_ok(m, width as int, height as int, extent as int, params),
{
    if width == 0 || height == 0 {
        return Err(TerrainError::InvalidDimension);
    }
    if params.octaves == 0 || params.gain <= 0 || params.lacunarity <= 0 {
        return Err(TerrainError::InvalidNoiseParameters);
    }
    proof {
        assert((6 * (width as int)) * (height as int) == 6 * ((width as int) * (height as int))
            && 6 * ((width as int) * (height as int)) < 0x1_0000_0000_0000_0000_0000) by (
        nonlinear_arith)
            requires
                width <= 0xFFFF_FFFF,
                height <= 0xFFFF_FFFF,
        ;
    }
    let wide: u128 = 6u128 * (width as u128) * (height as u128);
    if wide > 0xFFFF_FFFFu128 {
        return Err(TerrainError::IndexOverflow);
    }
    proof {
        assert((width as int + 1) * (height as int + 1) <= 0xFFFF_FFFF && width <= 0x2AAA_AAAA
            && height <= 0x2AAA_AAAA) by (nonlinear_arith)
            requires
                1 <= width,
                1 <= height,
                6 * ((width as int) * (height as int)) <= 0xFFFF_FFFF,
        ;
    }
    let sampler = PerlinNoise::new();
    let w64 = width as i64;
    let h64 = height as i64;
    let mut positions: Vec<(i64, i64, i64)> = Vec::new();
    let mut normals: Vec<(i64, i64, i64)> = Vec::new();
    let mut uvs: Vec<(i64, i64)> = Vec::new();
    let mut gx: u32 = 0;
    while gx <= width
        invariant
            gx <= width + 1,
            positions@.len() == vertex_index(gx as int, 0, height as int),
            normals@.len() == positions@.len(),
            uvs@.len() == positions@.len(),
            forall|a: int, b: int|
                0 <= a < gx && 0 <= b <= height ==> #[trigger] vertex_attrs_ok(
                    positions@,
                    normals@,
                    uvs@,
                    a,
                    b,
                    width as int,
                    height as int,
                    extent as int,
                    params,
                ),
        decreases width + 1 - gx,
    {
        let mut gy: u32 = 0;
        while gy <= height
            invariant
                gx <= width,
                gy <= height + 1,
                positions@.len() == vertex_index(gx as int, gy as int, height as int),
                normals@.len() == positions@.len(),
                uvs@.len() == positions@.len(),
                forall|a: int, b: int|
                    0 <= a && 0 <= b <= height && (a < gx || (a == gx && b < gy))
                        ==> #[trigger] vertex_attrs_ok(
                        positions@,
                        normals@,
                        uvs@,
                        a,
                        b,
                        width as int,
                        height as int,
                        extent as int,
                        params,
                    ),
            decreases height + 1 - gy,
        {
            proof {
                assert(0 <= (gx as int) * 65536 <= (width as int) * 65536
                    && 0 <= (gy as int) * 65536 <= (height as int) * 65536) by (nonlinear_arith)
                    requires
                        gx <= width,
                        gy <= height,
                ;
                lemma_div_is_ordered(0, (gx as int) * 65536, width as int);
                lemma_div_is_ordered((gx as int) * 65536, (width as int) * 65536, width as int);
                lemma_div_by_multiple(65536, width as int);
                lemma_div_is_ordered(0, (gy as int) * 65536, height as int);
                lemma_div_is_ordered((gy as int) * 65536, (height as int) * 65536, height as int);
                lemma_div_by_multiple(65536, height as int);
            }
            let sx = floor_div((gx as i64) * SCALE, w64);
            let sy = floor_div((gy as i64) * SCALE, h64);
            let val = sampler.sample_fractal(
                sx,
                sy,
                params.octaves,
                params.gain,
                params.lacunarity,
                params.amplitude0,
                params.frequency0,
            );
            let gx2 = 2 * (gx as i64) - w64;
            let gy2 = 2 * (gy as i64) - h64;
            proof {
                assert(-0x4000_0000_0000_0000 <= gx2 * extent <= 0x4000_0000_0000_0000
                    && -0x4000_0000_0000_0000 <= gy2 * extent <= 0x4000_0000_0000_0000) by (
                nonlinear_arith)
                    requires
                        -0x2AAA_AAAA <= gx2 <= 0x2AAA_AAAA,
                        -0x2AAA_AAAA <= gy2 <= 0x2AAA_AAAA,
                        0 < extent <= 0x8000_0000,
                ;
            }
            let px = floor_div(gx2 * extent, 2 * w64);
            let pz = floor_div(gy2 * extent, 2 * h64);
            let ghost pos0 = positions@;
            let ghost norm0 = normals@;
            let ghost uvs0 = uvs@;
            positions.push((px, val, pz));
            normals.push((0, SCALE, 0));
            uvs.push((sx, sy));
            proof {
                let ghost w = width as int;
                let ghost h = height as int;
                assert forall|a: int, b: int|
                    0 <= a && 0 <= b <= h && (a < gx || (a == gx && b < gy + 1)) implies
                    vertex_attrs_ok(
                        positions@,
                        normals@,
                        uvs@,
                        a,
                        b,
                        w,
                        h,
                        extent as int,
                        params,
                    ) by {
                    if a == gx as int && b == gy as int {
                        assert(vertex_index(a, b, h) == positions@.len() - 1);
                    } else {
                        lemma_vertex_prefix(a, b, gx as int, gy as int, h);
                        assert(vertex_attrs_ok(
                            pos0,
                            norm0,
                            uvs0,
                            a,
                            b,
                            w,
                            h,
                            extent as int,
                            params,
                        ));
                        assert(vertex_index(a, b, h) < pos0.len());
                    }
                }
            }
            gy = gy + 1;
        }
        proof {
            assert((gx as int + 1) * (height as int + 1) == (gx as int) * (height as int + 1) + (
            height as int + 1)) by (nonlinear_arith);
        }
        gx = gx + 1;
    }
    let mut indices: Vec<u32> = Vec::new();
    let mut cx: u32 = 0;
    while cx < width
        invariant
            cx <= width,
            indices@.len() == 6 * ((cx as int) * (height as int)),
            forall|a: int, b: int|
                0 <= a < cx && 0 <= b < height ==> #[trigger] cell_indices_ok(
                    indices@,
                    a,
                    b,
                    height as int,
                ),
            forall|k: int|
                0 <= k < indices@.len() ==> indices@[k] < vertex_count(width as int, height as int),
        decreases width - cx,
    {
        let mut cy: u32 = 0;
        while cy < height
            invariant
                cx < width,
                cy <= height,
                indices@.len() == 6 * ((cx as int) * (height as int) + cy as int),
                forall|a: int, b: int|
                    0 <= a && 0 <= b < height && (a < cx || (a == cx && b < cy))
                        ==> #[trigger] cell_indices_ok(indices@, a, b, height as int),
                forall|k: int|
                    0 <= k < indices@.len() ==> indices@[k] < vertex_count(
                        width as int,
                        height as int,
                    ),
            decreases height - cy,
        {
            proof {
                assert((cx as int + 1) * (height as int + 1) == (cx as int) * (height as int + 1)
                    + (height as int + 1) && (cx as int + 1) * (height as int + 1) + cy as int + 1
                    < (width as int + 1) * (height as int + 1) && (width as int + 1) * (
                height as int + 1) <= 0xFFFF_FFFF) by (nonlinear_arith)
                    requires
                        cx < width,
                        cy < height,
                        1 <= width,
                        1 <= height,
                        6 * ((width as int) * (height as int)) <= 0xFFFF_FFFF,
                ;
            }
            let base = cx * (height + 1) + cy;
            let right = base + (height + 1);
            let ghost ind0 = indices@;
            indices.push(base);
            indices.push(right);
            indices.push(right + 1);
            indices.push(base);
            indices.push(right + 1);
            indices.push(base + 1);
            proof {
                let ghost h = height as int;
                let ghost c = 6 * ((cx as int) * h + cy as int);
                assert(indices@[c] == base && indices@[c + 1] == right && indices@[c + 2] == right
                    + 1 && indices@[c + 3] == base && indices@[c + 4] == right + 1 && indices@[c
                    + 5] == base + 1);
                assert(cell_indices_ok(indices@, cx as int, cy as int, h));
                assert forall|a: int, b: int|
                    0 <= a && 0 <= b < h && (a < cx || (a == cx && b < cy + 1)) implies
                    cell_indices_ok(indices@, a, b, h) by {
                    if !(a == cx as int && b == cy as int) {
                        lemma_cell_prefix(a, b, cx as int, cy as int, h);
                        assert(cell_indices_ok(ind0, a, b, h));
                        assert(6 * (a * h + b) + 6 <= ind0.len());
                    }
                }
            }
            cy = cy + 1;
        }
        proof {
            assert((cx as int + 1) * (height as int) == (cx as int) * (height as int) + (
            height as int)) by (nonlinear_arith);
        }
        cx = cx + 1;
    }
    Ok(Mesh { positions, normals, uvs, indices })
}

/// Reproducibility: any two meshes that satisfy [`mesh_ok`] for the same
/// request hold identical positions, normals, texture coordinates and
/// indices — a built mesh is a function of the request alone.
pub proof fn lemma_build_reproducible(
    m1: Mesh,
    m2: Mesh,
    width: int,
    height: int,
    extent: int,
    p: NoiseParams,
)
    requires
        dims_valid(width, height),
        mesh_ok(m1, width, height, extent, p),
        mesh_ok(m2, width, height, extent, p),
    ensures
        m1.positions@ == m2.positions@,
        m1.normals@ == m2.normals@,
        m1.uvs@ == m2.uvs@,
        m1.indices@ == m2.indices@,
{
    assert forall|k: int| 0 <= k < vertex_count(width, height) implies m1.positions@[k]
        == m2.positions@[k] && m1.normals@[k] == m2.normals@[k] && m1.uvs@[k] == m2.uvs@[k] by {
        let a = k / (height + 1);
        let b = k % (height + 1);
        lemma_fundamental_div_mod(k, height + 1);
        lemma_mod_bound(k, height + 1);
        assert(0 <= a && a <= width && vertex_index(a, b, height) == k) by (nonlinear_arith)
            requires
                0 <= k < (width + 1) * (height + 1),
                0 < height,
                k == (height + 1) * a + b,
                0 <= b < height + 1,
        ;
        assert(vertex_attrs_ok(
            m1.positions@,
            m1.normals@,
            m1.uvs@,
            a,
            b,
            width,
            height,
            extent,
            p,
        ));
        assert(vertex_attrs_ok(
            m2.positions@,
            m2.normals@,
            m2.uvs@,
            a,
            b,
            width,
            height,
            extent,
            p,
        ));
        assert(m1.positions@[k].0 == m2.positions@[k].0 && m1.positions@[k].1 == m2.positions@[k].1
            && m1.positions@[k].2 == m2.positions@[k].2);
        assert(m1.positions@[k] == m2.positions@[k]);
        assert(m1.uvs@[k].0 == m2.uvs@[k].0 && m1.uvs@[k].1 == m2.uvs@[k].1);
        assert(m1.uvs@[k] == m2.uvs@[k]);
    }
    assert(m1.positions@ =~= m2.positions@);
    assert(m1.normals@ =~= m2.normals@);
    assert(m1.uvs@ =~= m2.uvs@);
    assert forall|k: int| 0 <= k < index_count(width, height) implies m1.indices@[k]
        == m2.indices@[k] by {
        let c = k / 6;
        let r = k % 6;
        lemma_fundamental_div_mod(k, 6);
        lemma_mod_bound(k, 6);
        let a = c / height;
        let b = c % height;
        lemma_fundamental_div_mod(c, height);
        lemma_mod_bound(c, height);
        assert(0 <= a && a < width && 0 <= b && b < height && k == 6 * (a * height + b) + r) by (
        nonlinear_arith)
            requires
                0 <= k < 6 * (width * height),
                0 < height,
                k == 6 * c + r,
                0 <= r < 6,
                c == height * a + b,
                0 <= b < height,
        ;
        assert(cell_indices_ok(m1.indices@, a, b, height));
        assert(cell_indices_ok(m2.indices@, a, b, height));
    }
    assert(m1.indices@ =~= m2.indices@);
}

/// A vertex in the already-filled region of the grid has its index inside
/// the current vertex sequence.
proof fn lemma_vertex_prefix(a: int, b: int, gx: int, gy: int, height: int)
    by (nonlinear_arith)
    requires
        0 <= a,
        0 <= b <= height,
        0 <= gy,
        a < gx || (a == gx && b < gy),
    ensures
        0 <= a * (height + 1) + b,
        a * (height + 1) + b < gx * (height + 1) + gy,
{
}

/// A cell in the already-filled region has all six of its index entries
/// inside the current index sequence.
proof fn lemma_cell_prefix(a: int, b: int, cx: int, cy: int, height: int)
    by (nonlinear_arith)
    requires
        0 <= a,
        0 <= b < height,
        0 <= cy,
        a < cx || (a == cx && b < cy),
    ensures
        0 <= 6 * (a * height + b),
        6 * (a * height + b) + 6 <= 6 * (cx * height + cy),
{
}

} // verus!
