//! The heuristic biome classifier and the nearest-match biome search.
//!
//! Three composite noise fields (temperature, humidity, continentalness)
//! feed a fixed decision tree.  Every noise value is an exact rational
//! carried as an integer numerator: a scalar hash contributes a numerator
//! over the scale `i32::MAX`, a three-hash field divides by three times
//! that, and the four-octave composites divide by 48 times it.  Threshold
//! tests of the decision tree are exact integer comparisons of those
//! numerators, so the tree's strict inequalities are decided without any
//! rounding.

use vstd::prelude::*;
use vstd::string::StrSliceExecFns;
use vstd::arithmetic::div_mod::{lemma_div_is_ordered, lemma_div_is_ordered_by_denominator,
    lemma_div_pos_is_pos, lemma_fundamental_div_mod, lemma_fundamental_div_mod_converse,
    lemma_mod_bound};
use crate::arith::{dist_sq, div_trunc, div_trunc_spec, lemma_div_trunc_small};

verus! {

/// The scalar hash scale: a hash numerator over this is a value in roughly
/// `[-1, 1]`.
pub const NOISE_SCALE: i64 = 2147483647;

/// The closed set of terrain labels.
#[derive(Debug, Clone, Copy, PartialEq, Eq, Structural)]
pub enum BiomeType {
    Plains,
    Forest,
    Jungle,
    Desert,
    Mesa,
    Mushroom,
    IceSpikes,
    Swamp,
    Savanna,
    Taiga,
    SnowyTaiga,
    Ocean,
    DeepOcean,
    Beach,
    River,
    Mountain,
    Unknown,
}

/// The scalar hash numerator: the coordinate and the truncated seed are
/// mixed by wrapping multiplications with large odd constants, folded with
/// a shifted copy, and scattered by a final wrapping multiplication.  The
/// hash value is this numerator over `NOISE_SCALE`.
#[verifier::opaque]
pub open spec fn scalar_hash_spec(seed: i64, x: i32) -> i32 {
    let n = x.wrapping_mul(374761393).wrapping_add((seed as i32).wrapping_mul(668265263));
    (n ^ (n >> 13)).wrapping_mul(1274126177)
}

/// The 2-D field numerator: three scalar hashes, keyed on x, on z with a
/// seed offset, and on x+z with another offset.  The field value is this
/// numerator over `3 * NOISE_SCALE`.
pub open spec fn field_spec(seed: i64, x: i32, z: i32) -> int {
    scalar_hash_spec(seed, x) + scalar_hash_spec(seed.wrapping_add(12345), z) + scalar_hash_spec(
        seed.wrapping_add(67890),
        x.wrapping_add(z),
    )
}

/// The sample coordinate of one octave: the block coordinate at scale 1/256,
/// frequency-doubled per octave, truncated toward zero.
pub open spec fn octave_coord_spec(v: i32, freq: int) -> i32 {
    div_trunc_spec(v * freq, 256) as i32
}

/// A block coordinate divided (truncating toward zero) by a sampling scale.
pub open spec fn coarse_coord_spec(v: i32, scale: int) -> i32 {
    div_trunc_spec(v as int, scale) as i32
}

/// The four-octave composite numerator over `48 * NOISE_SCALE`, shifted so
/// the composite value lies in roughly `[0, 1]`: octave amplitudes halve and
/// frequencies double, and the raw sum in `[-1, 1]` is remapped by
/// `(sum + 1) / 2`.
pub open spec fn octave_field_spec(seed: i64, x: i32, z: i32) -> int {
    8 * field_spec(seed, octave_coord_spec(x, 1), octave_coord_spec(z, 1)) + 4 * field_spec(
        seed.wrapping_add(1000),
        octave_coord_spec(x, 2),
        octave_coord_spec(z, 2),
    ) + 2 * field_spec(
        seed.wrapping_add(2000),
        octave_coord_spec(x, 4),
        octave_coord_spec(z, 4),
    ) + field_spec(seed.wrapping_add(3000), octave_coord_spec(x, 8), octave_coord_spec(z, 8)) + 24
        * (NOISE_SCALE as int)
}

/// The temperature numerator over `48 * NOISE_SCALE`.
pub open spec fn temperature_spec(seed: i64, x: i32, z: i32) -> int {
    octave_field_spec(seed, x, z)
}

/// The humidity numerator over `48 * NOISE_SCALE`: the temperature field
/// with the seed offset 50000.
pub open spec fn humidity_spec(seed: i64, x: i32, z: i32) -> int {
    octave_field_spec(seed.wrapping_add(50000), x, z)
}

/// The continentalness numerator over `3 * NOISE_SCALE`: a single-octave
/// field at scale 1/512 with the seed offset 100000.
pub open spec fn continentalness_spec(seed: i64, x: i32, z: i32) -> int {
    field_spec(
        seed.wrapping_add(100000),
        coarse_coord_spec(x, 512),
        coarse_coord_spec(z, 512),
    )
}

/// A rare-variant roll: a single-octave field at the given sampling scale
/// and seed offset, as a numerator over `3 * NOISE_SCALE`.
pub open spec fn roll_spec(seed: i64, offset: i64, x: i32, z: i32, scale: int) -> int {
    field_spec(seed.wrapping_add(offset), coarse_coord_spec(x, scale), coarse_coord_spec(z, scale))
}

/// The fixed decision tree over the three fields, first match winning.  The
/// comparisons are the tree's decimal thresholds written as exact integer
/// comparisons of numerators: with `m = NOISE_SCALE`, a continentalness
/// numerator `c` (over `3m`) satisfies `c/(3m) < -1/5` exactly when
/// `5c < -3m`, and a composite numerator `t` (over `48m`) satisfies
/// `t/(48m) < 1/5` exactly when `5t < 48m`; likewise for the others.  The
/// tree never yields `Unknown`.
#[verifier::opaque]
pub open spec fn classify_spec(seed: i64, x: i32, z: i32) -> BiomeType {
    let m = NOISE_SCALE as int;
    let c = continentalness_spec(seed, x, z);
    if 5 * c < -3 * m {
        // continentalness below -0.2: open water
        if 2 * c < -3 * m {
            BiomeType::DeepOcean
        } else {
            BiomeType::Ocean
        }
    } else if c < 0 {
        // continentalness in [-0.2, 0): the shore band
        if 5 * humidity_spec(seed, x, z) > 168 * m {
            // humidity above 0.7
            BiomeType::River
        } else {
            BiomeType::Beach
        }
    } else {
        let t = temperature_spec(seed, x, z);
        let h = humidity_spec(seed, x, z);
        if 5 * t < 48 * m {
            // temperature below 0.2: cold biomes
            if 5 * h < 72 * m {
                // humidity below 0.3
                if 10 * roll_spec(seed, 200000, x, z, 256) > 27 * m {
                    // roll above 0.9
                    BiomeType::IceSpikes
                } else {
                    BiomeType::SnowyTaiga
                }
            } else {
                BiomeType::Taiga
            }
        } else if 5 * t < 144 * m {
            // temperature in [0.2, 0.6): temperate biomes
            if 5 * h > 168 * m {
                // humidity above 0.7
                BiomeType::Swamp
            } else if 5 * h > 96 * m {
                // humidity above 0.4
                BiomeType::Forest
            } else if 2 * c > 3 * m {
                // continentalness above 0.5
                BiomeType::Mountain
            } else {
                BiomeType::Plains
            }
        } else {
            // temperature at or above 0.6: hot and dry biomes
            if 5 * h > 144 * m {
                // humidity above 0.6
                if 10 * roll_spec(seed, 300000, x, z, 512) > 21 * m {
                    // roll above 0.7
                    BiomeType::Jungle
                } else {
                    BiomeType::Savanna
                }
            } else if 5 * h < 72 * m {
                // humidity below 0.3
                if 20 * roll_spec(seed, 400000, x, z, 1024) > 51 * m {
                    // roll above 0.85
                    BiomeType::Mesa
                } else {
                    BiomeType::Desert
                }
            } else if 10 * c < 3 * m {
                // continentalness below 0.1: near water
                if 20 * roll_spec(seed, 500000, x, z, 2048) > 57 * m {
                    // roll above 0.95
                    BiomeType::Mushroom
                } else {
                    BiomeType::Savanna
                }
            } else {
                BiomeType::Savanna
            }
        }
    }
}

/// Classifier totality: the decision tree assigns every coordinate exactly
/// one label, and that label is never `Unknown`.
pub proof fn lemma_classifier_total(seed: i64, x: i32, z: i32)
    ensures
        classify_spec(seed, x, z) != BiomeType::Unknown,
{
    reveal(classify_spec);
}

/// The scalar hash numerator of one coordinate.
fn scalar_hash(seed: i64, x: i32) -> (n: i32)
    ensures
        n == scalar_hash_spec(seed, x),
{
    proof {
        reveal(scalar_hash_spec);
    }
    let s = #[verifier::truncate] (seed as i32);
    let n = x.wrapping_mul(374761393).wrapping_add(s.wrapping_mul(668265263));
    (n ^ (n >> 13u32)).wrapping_mul(1274126177)
}

/// The 2-D field numerator of one coordinate pair (value over
/// `3 * NOISE_SCALE`).
fn field_at(seed: i64, x: i32, z: i32) -> (n: i64)
    ensures
        n == field_spec(seed, x, z),
        -3 * 0x80000000i64 <= n <= 3 * 0x7fffffffi64,
{
    let n1 = scalar_hash(seed, x);
    let n2 = scalar_hash(seed.wrapping_add(12345), z);
    let n3 = scalar_hash(seed.wrapping_add(67890), x.wrapping_add(z));
    (n1 as i64) + (n2 as i64) + (n3 as i64)
}

/// The sample coordinate of one octave.
fn octave_coord(v: i32, freq: i64) -> (c: i32)
    requires
        1 <= freq <= 8,
    ensures
        c == octave_coord_spec(v, freq as int),
{
    proof {
        assert(-17179869184 <= (v as int) * (freq as int) <= 17179869184) by (nonlinear_arith)
            requires
                -0x80000000 <= v <= 0x7fffffff,
                1 <= freq <= 8,
        ;
    }
    let scaled: i64 = (v as i64) * freq;
    let q = div_trunc(scaled, 256);
    proof {
        lemma_div_trunc_small(scaled as int, 256, 17179869184);
        assert(17179869184int / 256int == 67108864int);
    }
    q as i32
}

/// A block coordinate divided by a sampling scale, truncating toward zero.
fn coarse_coord(v: i32, scale: i64) -> (c: i32)
    requires
        2 <= scale <= 2048,
    ensures
        c == coarse_coord_spec(v, scale as int),
{
    let q = div_trunc(v as i64, scale);
    proof {
        lemma_div_trunc_small(v as int, scale as int, 0x80000000);
    }
    q as i32
}

/// The four-octave composite numerator (value over `48 * NOISE_SCALE`).
#[verifier::rlimit(60)]
fn octave_field(seed: i64, x: i32, z: i32) -> (n: i64)
    ensures
        n == octave_field_spec(seed, x, z),
        -50000000000i64 <= n <= 150000000000i64,
{
    let s0 = field_at(seed, octave_coord(x, 1), octave_coord(z, 1));
    let s1 = field_at(seed.wrapping_add(1000), octave_coord(x, 2), octave_coord(z, 2));
    let s2 = field_at(seed.wrapping_add(2000), octave_coord(x, 4), octave_coord(z, 4));
    let s3 = field_at(seed.wrapping_add(3000), octave_coord(x, 8), octave_coord(z, 8));
    8 * s0 + 4 * s1 + 2 * s2 + s3 + 24 * 2147483647i64
}

/// The temperature numerator of a coordinate (value over
/// `48 * NOISE_SCALE`).
fn get_temperature(seed: i64, x: i32, z: i32) -> (t: i64)
    ensures
        t == temperature_spec(seed, x, z),
        -50000000000i64 <= t <= 150000000000i64,
{
    octave_field(seed, x, z)
}

/// The humidity numerator of a coordinate (value over `48 * NOISE_SCALE`).
fn get_humidity(seed: i64, x: i32, z: i32) -> (h: i64)
    ensures
        h == humidity_spec(seed, x, z),
        -50000000000i64 <= h <= 150000000000i64,
{
    octave_field(seed.wrapping_add(50000), x, z)
}

/// The continentalness numerator of a coordinate (value over
/// `3 * NOISE_SCALE`).
fn get_continentalness(seed: i64, x: i32, z: i32) -> (c: i64)
    ensures
        c == continentalness_spec(seed, x, z),
        -3 * 0x80000000i64 <= c <= 3 * 0x7fffffffi64,
{
    field_at(seed.wrapping_add(100000), coarse_coord(x, 512), coarse_coord(z, 512))
}

/// A rare-variant roll numerator (value over `3 * NOISE_SCALE`).
fn roll_at(seed: i64, offset: i64, x: i32, z: i32, scale: i64) -> (r: i64)
    requires
        2 <= scale <= 2048,
        0 <= offset <= 500000,
    ensures
        r == roll_spec(seed, offset, x, z, scale as int),
        -3 * 0x80000000i64 <= r <= 3 * 0x7fffffffi64,
{
    field_at(seed.wrapping_add(offset), coarse_coord(x, scale), coarse_coord(z, scale))
}

/// Labels a coordinate with exactly one biome by the fixed decision tree;
/// the result is `classify_spec` and is never `Unknown`.
pub fn get_biome_at(seed: i64, x: i32, z: i32) -> (biome: BiomeType)
    ensures
        biome == classify_spec(seed, x, z),
        biome != BiomeType::Unknown,
{
    proof {
        reveal(classify_spec);
    }
    let m: i64 = NOISE_SCALE;
    let c = get_continentalness(seed, x, z);
    if 5 * c < -3 * m {
        if 2 * c < -3 * m {
            return BiomeType::DeepOcean;
        }
        return BiomeType::Ocean;
    }
    if c < 0 {
        let h = get_humidity(seed, x, z);
        if 5 * h > 168 * m {
            return BiomeType::River;
        }
        return BiomeType::Beach;
    }
    let t = get_temperature(seed, x, z);
    let h = get_humidity(seed, x, z);
    if 5 * t < 48 * m {
        if 5 * h < 72 * m {
            let r = roll_at(seed, 200000, x, z, 256);
            if 10 * r > 27 * m {
                return BiomeType::IceSpikes;
            }
            return BiomeType::SnowyTaiga;
        }
        return BiomeType::Taiga;
    }
    if 5 * t < 144 * m {
        if 5 * h > 168 * m {
            return BiomeType::Swamp;
        }
        if 5 * h > 96 * m {
            return BiomeType::Forest;
        }
        if 2 * c > 3 * m {
            return BiomeType::Mountain;
        }
        return BiomeType::Plains;
    }
    if 5 * h > 144 * m {
        let r = roll_at(seed, 300000, x, z, 512);
        if 10 * r > 21 * m {
            return BiomeType::Jungle;
        }
        return BiomeType::Savanna;
    }
    if 5 * h < 72 * m {
        let r = roll_at(seed, 400000, x, z, 1024);
        if 20 * r > 51 * m {
            return BiomeType::Mesa;
        }
        return BiomeType::Desert;
    }
    if 10 * c < 3 * m {
        let r = roll_at(seed, 500000, x, z, 2048);
        if 20 * r > 57 * m {
            return BiomeType::Mushroom;
        }
    }
    BiomeType::Savanna
}

/// A character folded for case-insensitive comparison: an ASCII capital
/// letter maps to its lower-case code point, anything else to its own.
pub open spec fn lower_val(c: char) -> int {
    if 65 <= c as int <= 90 {
        c as int + 32
    } else {
        c as int
    }
}

/// Case-insensitive equality of two character sequences, folding ASCII
/// letters only.
pub open spec fn eq_ci(a: Seq<char>, b: Seq<char>) -> bool {
    a.len() == b.len() && forall|i: int| 0 <= i < a.len() ==> lower_val(a[i]) == lower_val(b[i])
}

/// The case-folded code point of one character.
fn lower_char(c: char) -> (u: u32)
    ensures
        u as int == lower_val(c),
{
    let v = c as u32;
    if 65 <= v && v <= 90 {
        v + 32
    } else {
        v
    }
}

/// Whether two strings are equal up to ASCII case.
fn eq_ignore_case(s: &str, pat: &str) -> (b: bool)
    ensures
        b == eq_ci(s@, pat@),
{
    let n = s.unicode_len();
    let m = pat.unicode_len();
    if n != m {
        return false;
    }
    let mut i: usize = 0;
    while i < n
        invariant
            0 <= i <= n,
            n == s@.len(),
            n == pat@.len(),
            forall|j: int| 0 <= j < i ==> lower_val(s@[j]) == lower_val(pat@[j]),
        decreases n - i,
    {
        let a = lower_char(s.get_char(i));
        let b = lower_char(pat.get_char(i));
        if a != b {
            return false;
        }
        i = i + 1;
    }
    true
}

/// The biome named by a string, compared case-insensitively; two aliases
/// ("badlands" for the mesa kind, "extreme_hills" for the mountain kind,
/// and long forms of the mushroom and ice-spikes kinds) resolve to the same
/// label as their primary names.  An unrecognized name yields `None`.
#[verifier::opaque]
pub open spec fn parse_spec(s: Seq<char>) -> Option<BiomeType> {
    if eq_ci(s, "plains"@) {
        Some(BiomeType::Plains)
    } else if eq_ci(s, "forest"@) {
        Some(BiomeType::Forest)
    } else if eq_ci(s, "jungle"@) {
        Some(BiomeType::Jungle)
    } else if eq_ci(s, "desert"@) {
        Some(BiomeType::Desert)
    } else if eq_ci(s, "mesa"@) || eq_ci(s, "badlands"@) {
        Some(BiomeType::Mesa)
    } else if eq_ci(s, "mushroom"@) || eq_ci(s, "mushroom_fields"@) {
        Some(BiomeType::Mushroom)
    } else if eq_ci(s, "ice_spikes"@) || eq_ci(s, "icespikes"@) {
        Some(BiomeType::IceSpikes)
    } else if eq_ci(s, "swamp"@) {
        Some(BiomeType::Swamp)
    } else if eq_ci(s, "savanna"@) {
        Some(BiomeType::Savanna)
    } else if eq_ci(s, "taiga"@) {
        Some(BiomeType::Taiga)
    } else if eq_ci(s, "snowy_taiga"@) {
        Some(BiomeType::SnowyTaiga)
    } else if eq_ci(s, "ocean"@) {
        Some(BiomeType::Ocean)
    } else if eq_ci(s, "deep_ocean"@) {
        Some(BiomeType::DeepOcean)
    } else if eq_ci(s, "beach"@) {
        Some(BiomeType::Beach)
    } else if eq_ci(s, "river"@) {
        Some(BiomeType::River)
    } else if eq_ci(s, "mountain"@) || eq_ci(s, "extreme_hills"@) {
        Some(BiomeType::Mountain)
    } else {
        None
    }
}

/// The rarity score of a label in hundredths (0 common, 100 rarest); it
/// only selects the sampling density of the nearest-match search.
pub open spec fn rarity_spec(k: BiomeType) -> i32 {
    match k {
        BiomeType::Plains => 10,
        BiomeType::Forest => 10,
        BiomeType::Jungle => 60,
        BiomeType::Desert => 30,
        BiomeType::Mesa => 80,
        BiomeType::Mushroom => 95,
        BiomeType::IceSpikes => 85,
        BiomeType::Swamp => 30,
        BiomeType::Savanna => 30,
        BiomeType::Taiga => 20,
        BiomeType::SnowyTaiga => 40,
        BiomeType::Ocean => 20,
        BiomeType::DeepOcean => 30,
        BiomeType::Beach => 20,
        BiomeType::River => 20,
        BiomeType::Mountain => 40,
        BiomeType::Unknown => 100,
    }
}

impl BiomeType {
    /// Parses a biome name, case-insensitively and with the documented
    /// aliases; `None` exactly when the name matches no label.
    pub fn from_str(s: &str) -> (r: Option<BiomeType>)
        ensures
            r == parse_spec(s@),
    {
        proof {
            reveal(parse_spec);
        }
        if eq_ignore_case(s, "plains") {
            return Some(BiomeType::Plains);
        }
        if eq_ignore_case(s, "forest") {
            return Some(BiomeType::Forest);
        }
        if eq_ignore_case(s, "jungle") {
            return Some(BiomeType::Jungle);
        }
        if eq_ignore_case(s, "desert") {
            return Some(BiomeType::Desert);
        }
        if eq_ignore_case(s, "mesa") || eq_ignore_case(s, "badlands") {
            return Some(BiomeType::Mesa);
        }
        if eq_ignore_case(s, "mushroom") || eq_ignore_case(s, "mushroom_fields") {
            return Some(BiomeType::Mushroom);
        }
        if eq_ignore_case(s, "ice_spikes") || eq_ignore_case(s, "icespikes") {
            return Some(BiomeType::IceSpikes);
        }
        if eq_ignore_case(s, "swamp") {
            return Some(BiomeType::Swamp);
        }
        if eq_ignore_case(s, "savanna") {
            return Some(BiomeType::Savanna);
        }
        if eq_ignore_case(s, "taiga") {
            return Some(BiomeType::Taiga);
        }
        if eq_ignore_case(s, "snowy_taiga") {
            return Some(BiomeType::SnowyTaiga);
        }
        if eq_ignore_case(s, "ocean") {
            return Some(BiomeType::Ocean);
        }
        if eq_ignore_case(s, "deep_ocean") {
            return Some(BiomeType::DeepOcean);
        }
        if eq_ignore_case(s, "beach") {
            return Some(BiomeType::Beach);
        }
        if eq_ignore_case(s, "river") {
            return Some(BiomeType::River);
        }
        if eq_ignore_case(s, "mountain") || eq_ignore_case(s, "extreme_hills") {
            return Some(BiomeType::Mountain);
        }
        None
    }

    /// The rarity score of this label, in hundredths.
    pub fn rarity(&self) -> (r: i32)
        ensures
            r == rarity_spec(*self),
            0 <= r <= 100,
    {
        match self {
            BiomeType::Plains => 10,
            BiomeType::Forest => 10,
            BiomeType::Jungle => 60,
            BiomeType::Desert => 30,
            BiomeType::Mesa => 80,
            BiomeType::Mushroom => 95,
            BiomeType::IceSpikes => 85,
            BiomeType::Swamp => 30,
            BiomeType::Savanna => 30,
            BiomeType::Taiga => 20,
            BiomeType::SnowyTaiga => 40,
            BiomeType::Ocean => 20,
            BiomeType::DeepOcean => 30,
            BiomeType::Beach => 20,
            BiomeType::River => 20,
            BiomeType::Mountain => 40,
            BiomeType::Unknown => 100,
        }
    }
}

/// The sampling step of the nearest-match search for one target label:
/// denser sampling for rarer targets.
pub open spec fn sample_step_spec(k: BiomeType) -> int {
    if rarity_spec(k) > 80 {
        64
    } else if rarity_spec(k) > 50 {
        128
    } else {
        256
    }
}

/// Samples per axis of one search: the bounding square's side divided by
/// the step, at least one.
pub open spec fn samples_spec(radius: i32, step: int) -> int {
    let s0 = div_trunc_spec(2 * radius, step);
    if s0 < 1 {
        1
    } else {
        s0
    }
}

/// The sample point of linear index `k`, scanning the bounding square row
/// by row from its low corner.
pub open spec fn sample_pos_spec(
    cx: i32,
    cz: i32,
    radius: i32,
    step: int,
    samples: int,
    k: int,
) -> (int, int) {
    (cx - radius + (k / samples) * step, cz - radius + (k % samples) * step)
}

/// Whether the sample of index `k` lies within the radius and classifies as
/// the target.
pub open spec fn sample_matches(
    seed: i64,
    t: BiomeType,
    cx: i32,
    cz: i32,
    radius: i32,
    step: int,
    samples: int,
    k: int,
) -> bool {
    let pos = sample_pos_spec(cx, cz, radius, step, samples, k);
    &&& (pos.0 - cx) * (pos.0 - cx) + (pos.1 - cz) * (pos.1 - cz) <= radius * radius
    &&& classify_spec(seed, pos.0 as i32, pos.1 as i32) == t
}

/// One step of the scan: the running best after considering the sample of
/// index `k`, updated only when that sample matches and is strictly closer
/// than the best so far.
pub open spec fn best_step(
    prev: Option<(int, int, int)>,
    seed: i64,
    t: BiomeType,
    cx: i32,
    cz: i32,
    radius: i32,
    step: int,
    samples: int,
    k: int,
) -> Option<(int, int, int)> {
    if sample_matches(seed, t, cx, cz, radius, step, samples, k) {
        let pos = sample_pos_spec(cx, cz, radius, step, samples, k);
        let d = (pos.0 - cx) * (pos.0 - cx) + (pos.1 - cz) * (pos.1 - cz);
        match prev {
            Option::None => Some((pos.0, pos.1, d)),
            Option::Some(b) => if d < b.2 {
                Some((pos.0, pos.1, d))
            } else {
                prev
            },
        }
    } else {
        prev
    }
}

/// The best matching sample among the first `k`: the one of minimum squared
/// distance to the center, earlier samples winning ties.
pub open spec fn best_upto(
    seed: i64,
    t: BiomeType,
    cx: i32,
    cz: i32,
    radius: i32,
    step: int,
    samples: int,
    k: int,
) -> Option<(int, int, int)>
    decreases k,
{
    if k <= 0 {
        None
    } else {
        best_step(
            best_upto(seed, t, cx, cz, radius, step, samples, k - 1),
            seed,
            t,
            cx,
            cz,
            radius,
            step,
            samples,
            k - 1,
        )
    }
}

/// The result of one nearest-match query: `None` for an unknown name, else
/// the best sample of the full scan.
pub open spec fn nearest_biome_spec(
    seed: i64,
    cx: i32,
    cz: i32,
    radius: i32,
    target: Seq<char>,
) -> Option<(int, int, int)> {
    match parse_spec(target) {
        Option::None => None,
        Option::Some(t) => {
            let step = sample_step_spec(t);
            let samples = samples_spec(radius, step);
            best_upto(seed, t, cx, cz, radius, step, samples, samples * samples)
        },
    }
}

/// An executable search result as the mathematical triple it stands for.
pub open spec fn found_view(r: Option<(i32, i32, i64)>) -> Option<(int, int, int)> {
    match r {
        Option::None => None,
        Option::Some((x, z, d)) => Some((x as int, z as int, d as int)),
    }
}

/// A sample index of the scan yields a point inside the bounding square,
/// and its row and column indices lie inside the per-axis sample count.
proof fn lemma_sample_pos_range(cx: i32, cz: i32, radius: i32, step: int, samples: int, k: int)
    requires
        step >= 1,
        radius >= 0,
        samples == samples_spec(radius, step),
        0 <= k < samples * samples,
    ensures
        0 <= k / samples < samples,
        0 <= k % samples < samples,
        cx - radius <= sample_pos_spec(cx, cz, radius, step, samples, k).0 <= cx + radius,
        cz - radius <= sample_pos_spec(cx, cz, radius, step, samples, k).1 <= cz + radius,
{
    let i = k / samples;
    let j = k % samples;
    lemma_div_pos_is_pos(k, samples);
    lemma_mod_bound(k, samples);
    assert(samples * samples - 1 == (samples - 1) * samples + (samples - 1)) by (nonlinear_arith);
    lemma_fundamental_div_mod_converse(samples * samples - 1, samples, samples - 1, samples - 1);
    lemma_div_is_ordered(k, samples * samples - 1, samples);
    assert(0 <= i <= samples - 1);
    assert(0 <= j <= samples - 1);
    if samples == 1 {
        assert(i * step == 0) by (nonlinear_arith)
            requires
                i == 0,
        ;
        assert(j * step == 0) by (nonlinear_arith)
            requires
                j == 0,
        ;
        assert(0 <= i * step <= 2 * radius);
        assert(0 <= j * step <= 2 * radius);
    } else {
        assert(samples == 2 * radius / step);
        lemma_fundamental_div_mod(2 * radius, step);
        lemma_mod_bound(2 * radius, step);
        assert(samples * step == step * (2 * radius / step)) by (nonlinear_arith)
            requires
                samples == 2 * radius / step,
        ;
        assert(samples * step <= 2 * radius);
        assert(0 <= i * step <= (samples - 1) * step) by (nonlinear_arith)
            requires
                0 <= i <= samples - 1,
                step >= 1,
        ;
        assert(0 <= j * step <= (samples - 1) * step) by (nonlinear_arith)
            requires
                0 <= j <= samples - 1,
                step >= 1,
        ;
        assert((samples - 1) * step == samples * step - step) by (nonlinear_arith);
        assert(0 <= i * step <= 2 * radius);
        assert(0 <= j * step <= 2 * radius);
    }
    assert(sample_pos_spec(cx, cz, radius, step, samples, k).0 == cx - radius + i * step);
    assert(sample_pos_spec(cx, cz, radius, step, samples, k).1 == cz - radius + j * step);
}

/// What the scan's running best means: it is `None` exactly when no sample
/// so far matched, and when it holds a triple, that triple is a matching
/// sample inside the square with its exact squared distance.
proof fn lemma_best_upto_props(
    seed: i64,
    t: BiomeType,
    cx: i32,
    cz: i32,
    radius: i32,
    step: int,
    samples: int,
    k: int,
)
    requires
        step >= 1,
        radius >= 0,
        samples == samples_spec(radius, step),
        0 <= k <= samples * samples,
    ensures
        (best_upto(seed, t, cx, cz, radius, step, samples, k) is None) <==> (forall|k2: int|
            0 <= k2 < k ==> !sample_matches(seed, t, cx, cz, radius, step, samples, k2)),
        (match best_upto(seed, t, cx, cz, radius, step, samples, k) {
            Option::Some(b) => {
                &&& classify_spec(seed, b.0 as i32, b.1 as i32) == t
                &&& b.2 == (b.0 - cx) * (b.0 - cx) + (b.1 - cz) * (b.1 - cz)
                &&& b.2 <= radius * radius
                &&& cx - radius <= b.0 <= cx + radius
                &&& cz - radius <= b.1 <= cz + radius
            },
            Option::None => true,
        }),
    decreases k,
{
    if k > 0 {
        lemma_best_upto_props(seed, t, cx, cz, radius, step, samples, k - 1);
        if sample_matches(seed, t, cx, cz, radius, step, samples, k - 1) {
            lemma_sample_pos_range(cx, cz, radius, step, samples, k - 1);
        }
    }
}

/// Considers the sample of linear index `k` and returns the updated
/// running best of the scan.
#[verifier::rlimit(60)]
fn scan_step(
    best: Option<(i32, i32, i64)>,
    seed: i64,
    target: BiomeType,
    center_x: i32,
    center_z: i32,
    radius: i32,
    step: i64,
    samples: i64,
    k: i64,
) -> (nb: Option<(i32, i32, i64)>)
    requires
        radius >= 0,
        center_x - radius >= i32::MIN,
        center_x + radius <= i32::MAX,
        center_z - radius >= i32::MIN,
        center_z + radius <= i32::MAX,
        1 <= step <= 256,
        samples as int == samples_spec(radius, step as int),
        1 <= samples <= 67108864,
        0 <= k,
        (k as int) < (samples as int) * (samples as int),
    ensures
        found_view(nb) == best_step(
            found_view(best),
            seed,
            target,
            center_x,
            center_z,
            radius,
            step as int,
            samples as int,
            k as int,
        ),
{
    proof {
        lemma_sample_pos_range(center_x, center_z, radius, step as int, samples as int, k as int);
    }
    let rl = radius as i64;
    proof {
        assert(0 <= rl * rl <= 2147483647 * 2147483647) by (nonlinear_arith)
            requires
                0 <= rl <= 2147483647,
        ;
    }
    let rsq: i64 = rl * rl;
    let i = ((k as u64) / (samples as u64)) as i64;
    let j = ((k as u64) % (samples as u64)) as i64;
    proof {
        assert(0 <= i * step <= 17179869184) by (nonlinear_arith)
            requires
                0 <= i < samples <= 67108864,
                1 <= step <= 256,
        ;
        assert(0 <= j * step <= 17179869184) by (nonlinear_arith)
            requires
                0 <= j < samples <= 67108864,
                1 <= step <= 256,
        ;
    }
    let x: i64 = (center_x as i64) - rl + i * step;
    let z: i64 = (center_z as i64) - rl + j * step;
    let biome = get_biome_at(seed, x as i32, z as i32);
    let d = dist_sq(x, z, center_x as i64, center_z as i64);
    if d <= rsq && biome == target {
        let update = match best {
            Option::None => true,
            Option::Some(b) => d < b.2,
        };
        if update {
            return Some((x as i32, z as i32, d));
        }
    }
    best
}

/// The nearest sample of the requested biome: scans the bounding square at
/// a rarity-dependent step and returns the matching sample of minimum
/// Euclidean distance to the center, as `(x, z, squared distance)`.  The
/// result is exactly `nearest_biome_spec`; it is `None` exactly when the
/// name is unknown or no sample of the scan lies in the radius and
/// classifies as the target.  A heuristic: occurrences between samples can
/// be missed.
#[verifier::loop_isolation(false)]
#[verifier::rlimit(100)]
pub fn find_nearest_biome(
    seed: i64,
    center_x: i32,
    center_z: i32,
    radius: i32,
    target_biome: &str,
) -> (result: Option<(i32, i32, i64)>)
    requires
        radius >= 0,
        center_x - radius >= i32::MIN,
        center_x + radius <= i32::MAX,
        center_z - radius >= i32::MIN,
        center_z + radius <= i32::MAX,
    ensures
        found_view(result) == nearest_biome_spec(seed, center_x, center_z, radius, target_biome@),
        (match result {
            Option::Some(p) => {
                &&& parse_spec(target_biome@) matches Some(tt) && classify_spec(seed, p.0, p.1)
                    == tt
                &&& p.2 == (p.0 - center_x) * (p.0 - center_x) + (p.1 - center_z) * (p.1
                    - center_z)
                &&& p.2 <= radius * radius
                &&& center_x - radius <= p.0 <= center_x + radius
                &&& center_z - radius <= p.1 <= center_z + radius
            },
            Option::None => parse_spec(target_biome@) matches Some(tt) ==> forall|k2: int|
                0 <= k2 < samples_spec(radius, sample_step_spec(tt)) * samples_spec(
                    radius,
                    sample_step_spec(tt),
                ) ==> !sample_matches(
                    seed,
                    tt,
                    center_x,
                    center_z,
                    radius,
                    sample_step_spec(tt),
                    samples_spec(radius, sample_step_spec(tt)),
                    k2,
                ),
        }),
{
    let target = match BiomeType::from_str(target_biome) {
        Some(b) => b,
        None => {
            return None;
        },
    };
    let rar = target.rarity();
    let step: i64 = if rar > 80 {
        64
    } else if rar > 50 {
        128
    } else {
        256
    };
    let rl = radius as i64;
    let s0 = div_trunc(2 * rl, step);
    let samples: i64 = if s0 < 1 {
        1
    } else {
        s0
    };
    proof {
        assert(step as int == sample_step_spec(target));
        assert(samples as int == samples_spec(radius, step as int));
        lemma_div_trunc_small(2 * rl as int, step as int, 4294967296);
        lemma_div_pos_is_pos(4294967296, step as int);
        lemma_div_is_ordered_by_denominator(4294967296, 64, step as int);
        assert(4294967296int / 64int == 67108864int);
        assert(1 <= samples <= 67108864);
        assert(samples * samples <= 4503599627370496) by (nonlinear_arith)
            requires
                1 <= samples <= 67108864,
        ;
        assert(samples * samples >= 1) by (nonlinear_arith)
            requires
                samples >= 1,
        ;
        assert(0 <= rl * rl <= 2147483647 * 2147483647) by (nonlinear_arith)
            requires
                0 <= rl <= 2147483647,
        ;
    }
    let total: i64 = samples * samples;
    let mut best: Option<(i32, i32, i64)> = None;
    let mut k: i64 = 0;
    while k < total
        invariant
            0 <= k <= total,
            found_view(best) == best_upto(
                seed,
                target,
                center_x,
                center_z,
                radius,
                step as int,
                samples as int,
                k as int,
            ),
        decreases total - k,
    {
        best = scan_step(best, seed, target, center_x, center_z, radius, step, samples, k);
        k = k + 1;
    }
    proof {
        lemma_best_upto_props(
            seed,
            target,
            center_x,
            center_z,
            radius,
            step as int,
            samples as int,
            total as int,
        );
    }
    best
}

} // verus!
