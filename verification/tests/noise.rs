use perlin_terrain::fixed::{fix_mul, SCALE};
use perlin_terrain::noise::PerlinNoise;

// One unit in fixed-point ticks, for readability.
const ONE: i64 = SCALE;

#[test]
fn gen_noise_is_deterministic() {
    let a = PerlinNoise::new();
    let b = PerlinNoise::new();
    let points = [
        (0i64, 0i64),
        (ONE / 2, ONE / 3),
        (5 * ONE + 1234, 7 * ONE + 4321),
        (-3 * ONE - 777, 11 * ONE),
        (123456, -654321),
    ];
    for &(x, y) in points.iter() {
        let first = a.gen_noise(x, y);
        let second = a.gen_noise(x, y);
        assert_eq!(first, second);
        // A fresh sampler holds the same canonical table.
        assert_eq!(first, b.gen_noise(x, y));
    }
}

#[test]
fn gen_noise_stays_in_unit_range() {
    let noise = PerlinNoise::new();
    let mut x = -4 * ONE;
    while x <= 4 * ONE {
        let mut y = -4 * ONE;
        while y <= 4 * ONE {
            let v = noise.gen_noise(x, y);
            assert!(0 <= v && v <= ONE);
            y += 13 * ONE / 7;
        }
        x += 13 * ONE / 7;
    }
}

#[test]
fn gen_noise_is_half_on_the_lattice() {
    // At an exact lattice point both fractional offsets are zero, so every
    // corner contribution vanishes and the remapped sample is exactly 1/2.
    let noise = PerlinNoise::new();
    for k in -3i64..4 {
        for j in -3i64..4 {
            assert_eq!(noise.gen_noise(k * ONE, j * ONE), ONE / 2);
        }
    }
}

#[test]
fn gen_noise_is_continuous_at_lattice_boundaries() {
    // A step of 7 ticks is about 1e-4 of a lattice cell; the smooth fade
    // keeps the sample change tiny across the boundary.
    let noise = PerlinNoise::new();
    let eps = 7i64;
    for k in 0i64..4 {
        let x = k * ONE;
        for &y in [ONE / 2, ONE / 3, 5 * ONE / 7].iter() {
            let at = noise.gen_noise(x, y);
            let above = noise.gen_noise(x + eps, y);
            let below = noise.gen_noise(x - eps, y);
            assert!((above - at).abs() <= 64);
            assert!((at - below).abs() <= 64);
        }
    }
}

#[test]
fn fade_hits_exact_anchor_values() {
    assert_eq!(PerlinNoise::fade(0), 0);
    assert_eq!(PerlinNoise::fade(ONE), ONE);
    assert_eq!(PerlinNoise::fade(ONE / 2), ONE / 2);
    // fade(1/4) = 6/1024 - 15/256 + 10/64 exactly, in ticks.
    assert_eq!(PerlinNoise::fade(ONE / 4), 6784);
}

#[test]
fn lerp_interpolates_exactly() {
    assert_eq!(PerlinNoise::lerp(0, 100, 200), 100);
    assert_eq!(PerlinNoise::lerp(ONE, 100, 200), 200);
    assert_eq!(PerlinNoise::lerp(ONE / 2, 0, ONE), ONE / 2);
    assert_eq!(PerlinNoise::lerp(ONE / 4, -400, 400), -200);
}

#[test]
fn gradient_covers_all_four_diagonals() {
    assert_eq!(PerlinNoise::get_gradient_vector(0, 300, 400), 700);
    assert_eq!(PerlinNoise::get_gradient_vector(1, 300, 400), 100);
    assert_eq!(PerlinNoise::get_gradient_vector(2, 300, 400), -700);
    assert_eq!(PerlinNoise::get_gradient_vector(3, 300, 400), -100);
    // Only the low two bits select the gradient.
    assert_eq!(PerlinNoise::get_gradient_vector(7, 300, 400), -100);
}

#[test]
fn fractal_single_octave_reduces_to_scaled_sample() {
    let noise = PerlinNoise::new();
    let amplitude0 = 2 * ONE;
    let frequency0 = ONE;
    let points = [(ONE / 2, ONE / 3), (3 * ONE / 4, 5 * ONE / 8), (2 * ONE + 99, ONE + 7)];
    for &(x, y) in points.iter() {
        let got = noise.sample_fractal(x, y, 1, 32768, 125829, amplitude0, frequency0);
        let sx = fix_mul(x, frequency0);
        let sy = fix_mul(y, frequency0);
        let expected = fix_mul(amplitude0, noise.gen_noise(sx, sy));
        assert_eq!(got, expected);
    }
}

#[test]
fn fractal_at_origin_sums_halved_amplitudes() {
    // Every octave samples the lattice point (0,0), where the noise is
    // exactly 1/2; with amplitude 2.0 and gain 0.5 the eight octaves sum
    // to 65536 + 32768 + ... + 512 ticks.
    let noise = PerlinNoise::new();
    let got = noise.sample_fractal(0, 0, 8, ONE / 2, 125829, 2 * ONE, ONE);
    assert_eq!(got, 130560);
}
