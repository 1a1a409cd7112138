//! Coherent 2D noise from a permutation table.
//!
//! [`PerlinNoise`] owns an immutable 512-entry lookup table: the canonical
//! 256-entry permutation of `0..=255` repeated twice, so that lattice
//! lookups may step one past a masked index without wrapping logic.  The
//! sampler [`PerlinNoise::gen_noise`] hashes the four corners of the lattice
//! cell that contains a point, dots a diagonal gradient with the offset to
//! each corner, and blends the four contributions with the quintic fade
//! curve.  Every result is pinned to a spec-level model over the table view,
//! so equal inputs always produce equal outputs.

use vstd::prelude::*;
use crate::fixed::{SCALE, FIXED_BOUND, clamp_spec, fix_mul_spec, floor_div, fix_mul,
    fix_mul_clamped};
use vstd::arithmetic::div_mod::lemma_mod_multiples_vanish;
use vstd::arithmetic::div_mod::lemma_mod_bound;
use vstd::arithmetic::div_mod::lemma_div_is_ordered;
use vstd::arithmetic::div_mod::lemma_div_multiples_vanish;
use vstd::arithmetic::div_mod::lemma_div_pos_is_pos;
use vstd::arithmetic::div_mod::lemma_fundamental_div_mod;
use vstd::arithmetic::div_mod::lemma_fundamental_div_mod_converse_div;
use vstd::arithmetic::div_mod::lemma_fundamental_div_mod_converse_mod;

verus! {

/// The canonical 256-entry permutation of `0..=255` that seeds the lookup
/// table.  It is a compile-time constant: the table never depends on runtime
/// input, which is what makes every sampler deterministic and reproducible.
pub const PERMUTATION_SEED: [u16; 256] = [
    151, 160, 137, 91, 90, 15, 131, 13, 201, 95, 96, 53, 194, 233, 7, 225, 140, 36, 103, 30, 69,
    142, 8, 99, 37, 240, 21, 10, 23, 190, 6, 148, 247, 120, 234, 75, 0, 26, 197, 62, 94, 252, 219,
    203, 117, 35, 11, 32, 57, 177, 33, 88, 237, 149, 56, 87, 174, 20, 125, 136, 171, 168, 68, 175,
    74, 165, 71, 134, 139, 48, 27, 166, 77, 146, 158, 231, 83, 111, 229, 122, 60, 211, 133, 230,
    220, 105, 92, 41, 55, 46, 245, 40, 244, 102, 143, 54, 65, 25, 63, 161, 1, 216, 80, 73, 209,
    76, 132, 187, 208, 89, 18, 169, 200, 196, 135, 130, 116, 188, 159, 86, 164, 100, 109, 198,
    173, 186, 3, 64, 52, 217, 226, 250, 124, 123, 5, 202, 38, 147, 118, 126, 255, 82, 85, 212,
    207, 206, 59, 227, 47, 16, 58, 17, 182, 189, 28, 42, 223, 183, 170, 213, 119, 248, 152, 2, 44,
    154, 163, 70, 221, 153, 101, 155, 167, 43, 172, 9, 129, 22, 39, 253, 19, 98, 108, 110, 79,
    113, 224, 232, 178, 185, 112, 104, 218, 246, 97, 228, 251, 34, 242, 193, 238, 210, 144, 12,
    191, 179, 162, 241, 81, 51, 145, 235, 249, 14, 239, 107, 49, 192, 214, 31, 181, 199, 106, 157,
    184, 84, 204, 176, 115, 121, 50, 45, 127, 4, 150, 254, 138, 236, 205, 93, 222, 114, 67, 29,
    24, 72, 243, 141, 128, 195, 78, 66, 215, 61, 156, 180,
];

/// The full 512-entry lookup table: the canonical permutation duplicated.
pub open spec fn table_seq() -> Seq<u16> {
    PERMUTATION_SEED@ + PERMUTATION_SEED@
}

/// Well-formedness of a lookup table: 512 entries, every entry below 256
/// (so one double-indirect lookup plus an offset of one never leaves the
/// table), and the second half an exact copy of the first.
pub open spec fn table_wf(p: Seq<u16>) -> bool {
    &&& p.len() == 512
    &&& forall|i: int| 0 <= i < 512 ==> p[i] < 256
    &&& forall|i: int| 0 <= i < 256 ==> #[trigger] p[i + 256] == p[i]
}

/// The quintic fade curve `6t^5 - 15t^4 + 10t^3` on fixed-point `t`, each
/// power rescaled by [`SCALE`] with flooring, the result saturated into
/// `[0, SCALE]`.  Its first and second derivatives vanish at both ends of
/// the unit interval, which removes grid-aligned creases from the blend.
pub open spec fn spec_fade(t: int) -> int {
    let t2 = (t * t) / (SCALE as int);
    let t3 = (t2 * t) / (SCALE as int);
    let t4 = (t3 * t) / (SCALE as int);
    let t5 = (t4 * t) / (SCALE as int);
    clamp_spec(6 * t5 - 15 * t4 + 10 * t3, 0, SCALE as int)
}

/// Linear interpolation `a + t * (b - a)` with fixed-point `t`.
pub open spec fn spec_lerp(t: int, a: int, b: int) -> int {
    a + (t * (b - a)) / (SCALE as int)
}

/// The corner contribution: one of the four diagonal gradient vectors
/// `(1,1)`, `(-1,1)`, `(-1,-1)`, `(1,-1)`, selected by the corner hash,
/// dotted with the corner-to-point offset `(vx, vy)`.
pub open spec fn spec_gradient(hash: u16, vx: int, vy: int) -> int {
    if hash % 4 == 0 {
        vx + vy
    } else if hash % 4 == 1 {
        -vx + vy
    } else if hash % 4 == 2 {
        -vx - vy
    } else {
        vx - vy
    }
}

/// The final remap from the raw corner blend (roughly one unit either side
/// of zero) to a height in `[0, SCALE]`.  The sign flip `(1 - raw) / 2`
/// inverts the conventional orientation of the height field; it is kept
/// deliberately, and the result is saturated so a sample never leaves the
/// unit interval.
pub open spec fn spec_remap(raw: int) -> int {
    clamp_spec((SCALE as int - raw) / 2, 0, SCALE as int)
}

/// Exact model of one noise sample: the lattice cell of `(x, y)` is found
/// by flooring, the four corner hashes are read through the table twice,
/// each hash picks a diagonal gradient that is dotted with the offset to
/// its corner, and the four contributions are blended with faded weights,
/// then remapped into `[0, SCALE]`.
pub open spec fn spec_gen_noise(x: int, y: int, p: Seq<u16>) -> int {
    let s = SCALE as int;
    let xi = (x / s) % 256;
    let yi = (y / s) % 256;
    let xf = x % s;
    let yf = y % s;
    let corner_a = p[xi] as int;
    let corner_b = p[xi + 1] as int;
    let h_bl = p[corner_a + yi];
    let h_br = p[corner_b + yi];
    let h_tl = p[corner_a + yi + 1];
    let h_tr = p[corner_b + yi + 1];
    let d_bl = spec_gradient(h_bl, xf, yf);
    let d_br = spec_gradient(h_br, xf - s, yf);
    let d_tl = spec_gradient(h_tl, xf, yf - s);
    let d_tr = spec_gradient(h_tr, xf - s, yf - s);
    let u = spec_fade(xf);
    let v = spec_fade(yf);
    let bottom = spec_lerp(u, d_bl, d_br);
    let top = spec_lerp(u, d_tl, d_tr);
    let raw = spec_lerp(v, bottom, top);
    spec_remap(raw)
}

/// Exact model of fractal accumulation: `octaves` noise samples are summed,
/// each taken at the coordinate scaled by the running frequency and weighted
/// by the running amplitude.  After every octave the amplitude is multiplied
/// by `gain` and the frequency by `lacunarity`, both products saturated into
/// `[-FIXED_BOUND, FIXED_BOUND]` like every other fixed-point product of
/// this crate.  The sum itself is not clamped: with a shrinking amplitude it
/// stays far inside the 64-bit range, and the accumulated height may exceed
/// one unit by design.
pub open spec fn spec_fractal(
    x: int,
    y: int,
    octaves: nat,
    gain: int,
    lacunarity: int,
    amplitude: int,
    frequency: int,
    p: Seq<u16>,
) -> int
    decreases octaves,
{
    if octaves == 0 {
        0
    } else {
        let fb = FIXED_BOUND as int;
        let sx = clamp_spec(fix_mul_spec(x, frequency), -fb, fb);
        let sy = clamp_spec(fix_mul_spec(y, frequency), -fb, fb);
        let term = fix_mul_spec(amplitude, spec_gen_noise(sx, sy, p));
        term + spec_fractal(
            x,
            y,
            (octaves - 1) as nat,
            gain,
            lacunarity,
            clamp_spec(fix_mul_spec(amplitude, gain), -fb, fb),
            clamp_spec(fix_mul_spec(frequency, lacunarity), -fb, fb),
            p,
        )
    }
}

/// Determinism: the sampler's contract pins every result to
/// [`spec_gen_noise`], a function of the coordinate and the table alone, so
/// any two samples of the same point against the same table are
/// bit-identical.
pub proof fn lemma_gen_noise_deterministic(r1: i64, r2: i64, x: int, y: int, p: Seq<u16>)
    requires
        r1 == spec_gen_noise(x, y, p),
        r2 == spec_gen_noise(x, y, p),
    ensures
        r1 == r2,
{
}

/// Fractal reduction: with a single octave the fractal accumulation is
/// exactly the base sample, taken at the coordinate scaled by the initial
/// frequency and weighted by the initial amplitude; `gain` and `lacunarity`
/// play no part.  Stated for coordinates whose scaled value stays within
/// [`FIXED_BOUND`], where the saturation of the scaling product is the
/// identity.
pub proof fn lemma_fractal_single_octave(
    x: int,
    y: int,
    gain: int,
    lacunarity: int,
    amplitude0: int,
    frequency0: int,
    p: Seq<u16>,
)
    requires
        -FIXED_BOUND <= fix_mul_spec(x, frequency0) <= FIXED_BOUND,
        -FIXED_BOUND <= fix_mul_spec(y, frequency0) <= FIXED_BOUND,
    ensures
        spec_fractal(x, y, 1, gain, lacunarity, amplitude0, frequency0, p) == fix_mul_spec(
            amplitude0,
            spec_gen_noise(fix_mul_spec(x, frequency0), fix_mul_spec(y, frequency0), p),
        ),
{
    assert(spec_fractal(
        x,
        y,
        0,
        gain,
        lacunarity,
        clamp_spec(fix_mul_spec(amplitude0, gain), -FIXED_BOUND as int, FIXED_BOUND as int),
        clamp_spec(fix_mul_spec(frequency0, lacunarity), -FIXED_BOUND as int, FIXED_BOUND as int),
        p,
    ) == 0);
}

/// Deterministic 2D coherent noise sampler over the canonical permutation
/// table.
pub struct PerlinNoise {
    grid: Vec<u16>,
}

impl PerlinNoise {
    /// The lookup table this sampler reads.
    pub closed spec fn table(&self) -> Seq<u16> {
        self.grid@
    }

    /// The sampler's invariant: its table is well formed.
    pub open spec fn wf(&self) -> bool {
        table_wf(self.table())
    }

    /// Constructs the sampler: the canonical permutation copied twice into
    /// one 512-entry table.
    pub fn new() -> (p: PerlinNoise)
        ensures
            p.wf(),
            p.table() == table_seq(),
    {
        let mut grid: Vec<u16> = Vec::new();
        let mut i: usize = 0;
        while i < 256
            invariant
                i <= 256,
                grid@.len() == i,
                forall|j: int| 0 <= j < i ==> grid@[j] == PERMUTATION_SEED@[j],
            decreases 256 - i,
        {
            grid.push(PERMUTATION_SEED[i]);
            i = i + 1;
        }
        let mut i: usize = 0;
        while i < 256
            invariant
                i <= 256,
                grid@.len() == 256 + i,
                forall|j: int| 0 <= j < 256 ==> grid@[j] == PERMUTATION_SEED@[j],
                forall|j: int| 0 <= j < i ==> grid@[j + 256] == PERMUTATION_SEED@[j],
            decreases 256 - i,
        {
            grid.push(PERMUTATION_SEED[i]);
            i = i + 1;
        }
        proof {
            assert(grid@ =~= table_seq());
            assert(forall|j: int| 0 <= j < 256 ==> PERMUTATION_SEED@[j] < 256);
        }
        PerlinNoise { grid }
    }

    /// The quintic smoothing curve applied to interpolation parameters.
    pub fn fade(t: i64) -> (r: i64)
        requires
            0 <= t <= SCALE,
        ensures
            r == spec_fade(t as int),
            0 <= r <= SCALE,
    {
        proof {
            assert(0 <= t * t <= 65536 * 65536) by (nonlinear_arith)
                requires
                    0 <= t <= 65536,
            ;
            lemma_div_is_ordered(t as int * t as int, 65536int * 65536, 65536);
            lemma_div_is_ordered(0, t as int * t as int, 65536);
        }
        let t2 = floor_div(t * t, SCALE);
        proof {
            assert(0 <= t2 * t <= 65536 * 65536) by (nonlinear_arith)
                requires
                    0 <= t2 <= 65536,
                    0 <= t <= 65536,
            ;
            lemma_div_is_ordered(t2 as int * t as int, 65536int * 65536, 65536);
            lemma_div_is_ordered(0, t2 as int * t as int, 65536);
        }
        let t3 = floor_div(t2 * t, SCALE);
        proof {
            assert(0 <= t3 * t <= 65536 * 65536) by (nonlinear_arith)
                requires
                    0 <= t3 <= 65536,
                    0 <= t <= 65536,
            ;
            lemma_div_is_ordered(t3 as int * t as int, 65536int * 65536, 65536);
            lemma_div_is_ordered(0, t3 as int * t as int, 65536);
        }
        let t4 = floor_div(t3 * t, SCALE);
        proof {
            assert(0 <= t4 * t <= 65536 * 65536) by (nonlinear_arith)
                requires
                    0 <= t4 <= 65536,
                    0 <= t <= 65536,
            ;
            lemma_div_is_ordered(t4 as int * t as int, 65536int * 65536, 65536);
            lemma_div_is_ordered(0, t4 as int * t as int, 65536);
        }
        let t5 = floor_div(t4 * t, SCALE);
        let value = 6 * t5 - 15 * t4 + 10 * t3;
        if value < 0 {
            0
        } else if value > SCALE {
            SCALE
        } else {
            value
        }
    }

    /// Linear interpolation between `a` and `b` by the fixed-point
    /// parameter `t`; the result stays between `a` and `b`.
    pub fn lerp(t: i64, a: i64, b: i64) -> (r: i64)
        requires
            0 <= t <= SCALE,
            -0x1_0000_0000 <= a <= 0x1_0000_0000,
            -0x1_0000_0000 <= b <= 0x1_0000_0000,
        ensures
            r == spec_lerp(t as int, a as int, b as int),
            a <= b ==> a <= r <= b,
            b <= a ==> b <= r <= a,
    {
        let d = b - a;
        proof {
            assert(0 <= d ==> 0 <= t * d <= 65536 * d) by (nonlinear_arith)
                requires
                    0 <= t <= 65536,
            ;
            assert(d < 0 ==> 65536 * d <= t * d <= 0) by (nonlinear_arith)
                requires
                    0 <= t <= 65536,
            ;
            assert(-0x4_0000_0000_0000 <= t * d <= 0x4_0000_0000_0000) by (nonlinear_arith)
                requires
                    0 <= t <= 65536,
                    -0x2_0000_0000 <= d <= 0x2_0000_0000,
            ;
        }
        let p = t * d;
        proof {
            if d >= 0 {
                lemma_div_is_ordered(0, t as int * d as int, 65536);
                lemma_div_is_ordered(t as int * d as int, 65536 * d as int, 65536);
            } else {
                lemma_div_is_ordered(65536 * d as int, t as int * d as int, 65536);
                lemma_div_is_ordered(t as int * d as int, 0, 65536);
            }
            lemma_div_multiples_vanish(d as int, 65536);
        }
        let q = floor_div(p, SCALE);
        a + q
    }

    /// The dot product of the hash-selected diagonal gradient with the
    /// offset vector `(vx, vy)`.  Only the two low bits of the hash pick
    /// the gradient, so all four cases are covered with nothing left over.
    pub fn get_gradient_vector(hash: u16, vx: i64, vy: i64) -> (r: i64)
        requires
            -SCALE <= vx <= SCALE,
            -SCALE <= vy <= SCALE,
        ensures
            r == spec_gradient(hash, vx as int, vy as int),
            -2 * SCALE <= r <= 2 * SCALE,
    {
        let m = hash % 4;
        if m == 0 {
            vx + vy
        } else if m == 1 {
            -vx + vy
        } else if m == 2 {
            -vx - vy
        } else {
            vx - vy
        }
    }

    /// One smooth noise sample at the fixed-point coordinate `(x, y)`: a
    /// value in `[0, SCALE]` that depends on nothing but the coordinate and
    /// the table, so repeated calls always agree.
    pub fn gen_noise(&self, x: i64, y: i64) -> (r: i64)
        requires
            self.wf(),
            -FIXED_BOUND <= x <= FIXED_BOUND,
            -FIXED_BOUND <= y <= FIXED_BOUND,
        ensures
            r == spec_gen_noise(x as int, y as int, self.table()),
            0 <= r <= SCALE,
    {
        // Shift both coordinates by FIXED_BOUND, a multiple of both SCALE
        // and 256 * SCALE, so that flooring and wrapping can be computed on
        // non-negative values without changing their outcome.
        let sx = x + FIXED_BOUND;
        let sy = y + FIXED_BOUND;
        let fx = floor_div(sx, SCALE);
        let fy = floor_div(sy, SCALE);
        let xf = sx - fx * SCALE;
        let yf = sy - fy * SCALE;
        proof {
            Self::lemma_shifted_cell(x as int);
            Self::lemma_shifted_cell(y as int);
            lemma_fundamental_div_mod(sx as int, SCALE as int);
            lemma_fundamental_div_mod(sy as int, SCALE as int);
            lemma_div_pos_is_pos(sx as int, SCALE as int);
            lemma_div_pos_is_pos(sy as int, SCALE as int);
            lemma_mod_bound(fx as int, 256);
            lemma_mod_bound(fy as int, 256);
        }
        let xi = (fx % 256) as usize;
        let yi = (fy % 256) as u16;
        let corner_a = self.grid[xi];
        let corner_b = self.grid[xi + 1];
        let h_bl = self.grid[(corner_a + yi) as usize];
        let h_br = self.grid[(corner_b + yi) as usize];
        let h_tl = self.grid[(corner_a + yi + 1) as usize];
        let h_tr = self.grid[(corner_b + yi + 1) as usize];
        let d_bl = Self::get_gradient_vector(h_bl, xf, yf);
        let d_br = Self::get_gradient_vector(h_br, xf - SCALE, yf);
        let d_tl = Self::get_gradient_vector(h_tl, xf, yf - SCALE);
        let d_tr = Self::get_gradient_vector(h_tr, xf - SCALE, yf - SCALE);
        let u = Self::fade(xf);
        let v = Self::fade(yf);
        let bottom = Self::lerp(u, d_bl, d_br);
        let top = Self::lerp(u, d_tl, d_tr);
        let raw = Self::lerp(v, bottom, top);
        let num = SCALE - raw;
        if num <= 0 {
            proof {
                lemma_div_is_ordered(num as int, 0, 2);
            }
            0
        } else {
            proof {
                lemma_div_pos_is_pos(num as int, 2);
            }
            let half = floor_div(num, 2);
            if half > SCALE {
                SCALE
            } else {
                half
            }
        }
    }

    /// Fractal Brownian motion: the sum of `octaves` noise samples, the
    /// amplitude shrunk by `gain` and the frequency stretched by
    /// `lacunarity` after every octave.  The parameters are not validated
    /// here; the mesh builder rejects degenerate ones before sampling.
    pub fn sample_fractal(
        &self,
        x: i64,
        y: i64,
        octaves: u32,
        gain: i64,
        lacunarity: i64,
        amplitude0: i64,
        frequency0: i64,
    ) -> (r: i64)
        requires
            self.wf(),
            -FIXED_BOUND <= x <= FIXED_BOUND,
            -FIXED_BOUND <= y <= FIXED_BOUND,
            -FIXED_BOUND <= gain <= FIXED_BOUND,
            -FIXED_BOUND <= lacunarity <= FIXED_BOUND,
            -FIXED_BOUND <= amplitude0 <= FIXED_BOUND,
            -FIXED_BOUND <= frequency0 <= FIXED_BOUND,
            octaves <= 0x4000_0000,
        ensures
            r == spec_fractal(
                x as int,
                y as int,
                octaves as nat,
                gain as int,
                lacunarity as int,
                amplitude0 as int,
                frequency0 as int,
                self.table(),
            ),
            -(octaves as int) * (FIXED_BOUND as int) <= r <= (octaves as int) * (
            FIXED_BOUND as int),
    {
        let mut value: i64 = 0;
        let mut amplitude = amplitude0;
        let mut frequency = frequency0;
        let mut i: u32 = 0;
        while i < octaves
            invariant
                self.wf(),
                -FIXED_BOUND <= x <= FIXED_BOUND,
                -FIXED_BOUND <= y <= FIXED_BOUND,
                -FIXED_BOUND <= gain <= FIXED_BOUND,
                -FIXED_BOUND <= lacunarity <= FIXED_BOUND,
                -FIXED_BOUND <= amplitude <= FIXED_BOUND,
                -FIXED_BOUND <= frequency <= FIXED_BOUND,
                octaves <= 0x4000_0000,
                i <= octaves,
                -(i as int) * (FIXED_BOUND as int) <= value <= (i as int) * (FIXED_BOUND as int),
                spec_fractal(
                    x as int,
                    y as int,
                    octaves as nat,
                    gain as int,
                    lacunarity as int,
                    amplitude0 as int,
                    frequency0 as int,
                    self.table(),
                ) == value + spec_fractal(
                    x as int,
                    y as int,
                    (octaves - i) as nat,
                    gain as int,
                    lacunarity as int,
                    amplitude as int,
                    frequency as int,
                    self.table(),
                ),
            decreases octaves - i,
        {
            let sx = fix_mul_clamped(x, frequency);
            let sy = fix_mul_clamped(y, frequency);
            let noise = self.gen_noise(sx, sy);
            let term = fix_mul(amplitude, noise);
            proof {
                assert(-(0x8000_0000int * 65536) <= amplitude * noise <= 0x8000_0000int
                    * 65536) by (nonlinear_arith)
                    requires
                        -0x8000_0000 <= amplitude <= 0x8000_0000,
                        0 <= noise <= 65536,
                ;
                lemma_div_is_ordered(
                    -(0x8000_0000int * 65536),
                    amplitude as int * noise as int,
                    65536,
                );
                lemma_div_is_ordered(
                    amplitude as int * noise as int,
                    0x8000_0000int * 65536,
                    65536,
                );
                lemma_div_multiples_vanish(0x8000_0000, 65536);
                lemma_div_multiples_vanish(-0x8000_0000, 65536);
            }
            value = value + term;
            amplitude = fix_mul_clamped(amplitude, gain);
            frequency = fix_mul_clamped(frequency, lacunarity);
            i = i + 1;
        }
        value
    }

    /// Shifting a coordinate by `FIXED_BOUND` leaves the fractional part
    /// unchanged, and advances the floored lattice coordinate by a multiple
    /// of 256, which the wrap to table range erases.
    proof fn lemma_shifted_cell(x: int)
        requires
            -0x8000_0000 <= x <= 0x8000_0000,
        ensures
            (x + 0x8000_0000) / (SCALE as int) % 256 == x / (SCALE as int) % 256,
            (x + 0x8000_0000) % (SCALE as int) == x % (SCALE as int),
            0 <= x / (SCALE as int) % 256 < 256,
            0 <= x % (SCALE as int) < SCALE as int,
    {
        let s = SCALE as int;
        let q = x / s;
        let rm = x % s;
        lemma_fundamental_div_mod(x, s);
        lemma_mod_bound(x, s);
        assert(x + 0x8000_0000 == (q + 32768) * s + rm) by (nonlinear_arith)
            requires
                x == s * q + rm,
                s == 65536,
        ;
        lemma_fundamental_div_mod_converse_div(x + 0x8000_0000, s, q + 32768, rm);
        lemma_fundamental_div_mod_converse_mod(x + 0x8000_0000, s, q + 32768, rm);
        lemma_mod_multiples_vanish(128, q, 256);
        lemma_mod_bound(q, 256);
    }
}

} // verus!
