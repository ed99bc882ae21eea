//! Structure placement: one jittered candidate per grid region, filtered by
//! the query radius, plus the quadrant algorithm for the two mutually
//! exclusive rare nether structures.

use vstd::prelude::*;
use vstd::arithmetic::div_mod::{lemma_div_is_ordered_by_denominator, lemma_div_pos_is_pos,
    lemma_fundamental_div_mod_converse};
use crate::arith::{dist_sq, div_trunc, div_trunc_spec, in_radius, lemma_div_trunc_close,
    lemma_div_trunc_monotone, lemma_div_trunc_small, lemma_magnitude_from_square};
use crate::rng::{draw_spec, get_structure_seed, lcg_step_spec, next_int, structure_seed_spec};

verus! {

/// The closed set of placeable structure kinds.  Each kind carries a fixed
/// grid spacing, a jitter separation and a salt; the table is closed, so the
/// configuration invariant `separation < spacing` is a proved fact
/// (`lemma_kind_parameters_valid`), not a runtime check.
#[derive(Debug, Clone, Copy)]
pub enum StructureType {
    Village,
    PillagerOutpost,
    OceanMonument,
    WoodlandMansion,
    NetherFortress,
    BastionRemnant,
    Igloo,
    WitchHut,
    Shipwreck,
    BuriedTreasure,
}

/// Grid cell size of a kind, in chunk units.
pub open spec fn spacing_spec(k: StructureType) -> i32 {
    match k {
        StructureType::Village => 32,
        StructureType::PillagerOutpost => 80,
        StructureType::OceanMonument => 32,
        StructureType::WoodlandMansion => 80,
        StructureType::NetherFortress => 30,
        StructureType::BastionRemnant => 30,
        StructureType::Igloo => 32,
        StructureType::WitchHut => 32,
        StructureType::Shipwreck => 24,
        StructureType::BuriedTreasure => 8,
    }
}

/// Minimum jitter margin of a kind, in chunk units.
pub open spec fn separation_spec(k: StructureType) -> i32 {
    match k {
        StructureType::Village => 8,
        StructureType::PillagerOutpost => 40,
        StructureType::OceanMonument => 5,
        StructureType::WoodlandMansion => 20,
        StructureType::NetherFortress => 4,
        StructureType::BastionRemnant => 4,
        StructureType::Igloo => 8,
        StructureType::WitchHut => 8,
        StructureType::Shipwreck => 4,
        StructureType::BuriedTreasure => 4,
    }
}

/// Per-kind salt mixed into the region seed derivation.
pub open spec fn salt_spec(k: StructureType) -> i64 {
    match k {
        StructureType::Village => 10387312,
        StructureType::PillagerOutpost => 165745296,
        StructureType::OceanMonument => 10387313,
        StructureType::WoodlandMansion => 10387319,
        StructureType::NetherFortress => 30084232,
        StructureType::BastionRemnant => 30084232,
        StructureType::Igloo => 14357618,
        StructureType::WitchHut => 14357620,
        StructureType::Shipwreck => 165745295,
        StructureType::BuriedTreasure => 16842397,
    }
}

/// Human-readable label of a kind.
pub open spec fn name_spec(k: StructureType) -> Seq<char> {
    match k {
        StructureType::Village => "Village"@,
        StructureType::PillagerOutpost => "Pillager Outpost"@,
        StructureType::OceanMonument => "Ocean Monument"@,
        StructureType::WoodlandMansion => "Woodland Mansion"@,
        StructureType::NetherFortress => "Nether Fortress"@,
        StructureType::BastionRemnant => "Bastion Remnant"@,
        StructureType::Igloo => "Igloo"@,
        StructureType::WitchHut => "Witch Hut"@,
        StructureType::Shipwreck => "Shipwreck"@,
        StructureType::BuriedTreasure => "Buried Treasure"@,
    }
}

/// Every kind in the table has a positive jitter range: its separation is
/// strictly below its spacing.  This is the configuration invariant that
/// rules out a degenerate grid before any region arithmetic runs.
pub proof fn lemma_kind_parameters_valid()
    ensures
        forall|k: StructureType| 4 <= #[trigger] separation_spec(k) < spacing_spec(k) <= 80,
{
}

impl StructureType {
    /// Human-readable label of this kind.
    pub fn display_name(&self) -> (name: &'static str)
        ensures
            name@ == name_spec(*self),
    {
        match self {
            StructureType::Village => "Village",
            StructureType::PillagerOutpost => "Pillager Outpost",
            StructureType::OceanMonument => "Ocean Monument",
            StructureType::WoodlandMansion => "Woodland Mansion",
            StructureType::NetherFortress => "Nether Fortress",
            StructureType::BastionRemnant => "Bastion Remnant",
            StructureType::Igloo => "Igloo",
            StructureType::WitchHut => "Witch Hut",
            StructureType::Shipwreck => "Shipwreck",
            StructureType::BuriedTreasure => "Buried Treasure",
        }
    }

    /// Grid cell size of this kind, in chunk units.
    pub fn spacing(&self) -> (s: i32)
        ensures
            s == spacing_spec(*self),
            8 <= s <= 80,
    {
        match self {
            StructureType::Village => 32,
            StructureType::PillagerOutpost => 80,
            StructureType::OceanMonument => 32,
            StructureType::WoodlandMansion => 80,
            StructureType::NetherFortress => 30,
            StructureType::BastionRemnant => 30,
            StructureType::Igloo => 32,
            StructureType::WitchHut => 32,
            StructureType::Shipwreck => 24,
            StructureType::BuriedTreasure => 8,
        }
    }

    /// Minimum jitter margin of this kind, in chunk units; always strictly
    /// below the spacing.
    pub fn separation(&self) -> (s: i32)
        ensures
            s == separation_spec(*self),
            4 <= s < spacing_spec(*self),
    {
        match self {
            StructureType::Village => 8,
            StructureType::PillagerOutpost => 40,
            StructureType::OceanMonument => 5,
            StructureType::WoodlandMansion => 20,
            StructureType::NetherFortress => 4,
            StructureType::BastionRemnant => 4,
            StructureType::Igloo => 8,
            StructureType::WitchHut => 8,
            StructureType::Shipwreck => 4,
            StructureType::BuriedTreasure => 4,
        }
    }

    /// Per-kind salt mixed into the region seed derivation.
    pub fn salt(&self) -> (s: i64)
        ensures
            s == salt_spec(*self),
    {
        match self {
            StructureType::Village => 10387312,
            StructureType::PillagerOutpost => 165745296,
            StructureType::OceanMonument => 10387313,
            StructureType::WoodlandMansion => 10387319,
            StructureType::NetherFortress => 30084232,
            StructureType::BastionRemnant => 30084232,
            StructureType::Igloo => 14357618,
            StructureType::WitchHut => 14357620,
            StructureType::Shipwreck => 165745295,
            StructureType::BuriedTreasure => 16842397,
        }
    }
}

/// The candidate block position of one region: the region seed feeds two
/// bounded draws, in x-then-z order, that jitter the chunk inside the region;
/// the block position is the chunk center.
pub open spec fn candidate_spec(seed: i64, k: StructureType, rx: i32, rz: i32) -> (int, int) {
    let state1 = lcg_step_spec(structure_seed_spec(seed, rx, rz, salt_spec(k)));
    let state2 = lcg_step_spec(state1);
    let range = (spacing_spec(k) - separation_spec(k)) as i32;
    let offset_x = draw_spec(state1, range);
    let offset_z = draw_spec(state2, range);
    let chunk_x = rx * spacing_spec(k) + offset_x;
    let chunk_z = rz * spacing_spec(k) + offset_z;
    (chunk_x * 16 + 8, chunk_z * 16 + 8)
}

/// The (zero- or one-element) result of one region: its candidate, kept only
/// when it lies within the query radius.
pub open spec fn structure_cell(
    seed: i64,
    k: StructureType,
    cx: i32,
    cz: i32,
    radius: i32,
    rx: int,
    rz: int,
) -> Seq<(int, int)> {
    let pos = candidate_spec(seed, k, rx as i32, rz as i32);
    if in_radius(pos.0, pos.1, cx as int, cz as int, radius as int) {
        seq![pos]
    } else {
        Seq::empty()
    }
}

/// The results of one region row, regions `zlo..=zhi` in order.
pub open spec fn structure_row(
    seed: i64,
    k: StructureType,
    cx: i32,
    cz: i32,
    radius: i32,
    rx: int,
    zlo: int,
    zhi: int,
) -> Seq<(int, int)>
    decreases zhi + 1 - zlo,
{
    if zhi < zlo {
        Seq::empty()
    } else {
        structure_row(seed, k, cx, cz, radius, rx, zlo, zhi - 1) + structure_cell(
            seed,
            k,
            cx,
            cz,
            radius,
            rx,
            zhi,
        )
    }
}

/// The results of the region rows `xlo..=xhi` in order, each row scanning
/// `zlo..=zhi`.
pub open spec fn structure_grid(
    seed: i64,
    k: StructureType,
    cx: i32,
    cz: i32,
    radius: i32,
    xlo: int,
    xhi: int,
    zlo: int,
    zhi: int,
) -> Seq<(int, int)>
    decreases xhi + 1 - xlo,
{
    if xhi < xlo {
        Seq::empty()
    } else {
        structure_grid(seed, k, cx, cz, radius, xlo, xhi - 1, zlo, zhi) + structure_row(
            seed,
            k,
            cx,
            cz,
            radius,
            xhi,
            zlo,
            zhi,
        )
    }
}

/// First region index of the scan along one axis: one region before the one
/// holding the lower edge of the bounding square.
pub open spec fn region_lo(c: i32, radius: i32, cell: int) -> int {
    div_trunc_spec(c - radius, cell) - 1
}

/// Last region index of the scan along one axis: one region after the one
/// holding the upper edge of the bounding square.
pub open spec fn region_hi(c: i32, radius: i32, cell: int) -> int {
    div_trunc_spec(c + radius, cell) + 1
}

/// The full result sequence of one structure query: every region of the
/// expanded bounding grid, scanned row by row, contributing its candidate
/// when that candidate lies within the radius.
pub open spec fn structure_placements(
    seed: i64,
    cx: i32,
    cz: i32,
    radius: i32,
    k: StructureType,
) -> Seq<(int, int)> {
    let cell = spacing_spec(k) * 16;
    structure_grid(
        seed,
        k,
        cx,
        cz,
        radius,
        region_lo(cx, radius, cell),
        region_hi(cx, radius, cell),
        region_lo(cz, radius, cell),
        region_hi(cz, radius, cell),
    )
}

/// The executable result list mirrors a placement sequence: same length, and
/// element by element the given label and the placed coordinates.
pub open spec fn results_match(
    res: Seq<(String, i32, i32)>,
    ps: Seq<(int, int)>,
    name: Seq<char>,
) -> bool {
    &&& res.len() == ps.len()
    &&& forall|i: int|
        0 <= i < ps.len() ==> {
            &&& (#[trigger] res[i]).0@ == name
            &&& res[i].1 == ps[i].0
            &&& res[i].2 == ps[i].1
        }
}

/// Appending one matching element keeps a result list matching its placement
/// sequence.
proof fn lemma_results_match_push(
    res: Seq<(String, i32, i32)>,
    ps: Seq<(int, int)>,
    name: Seq<char>,
    e: (String, i32, i32),
    p: (int, int),
)
    requires
        results_match(res, ps, name),
        e.0@ == name,
        e.1 == p.0,
        e.2 == p.1,
    ensures
        results_match(res.push(e), ps + seq![p], name),
{
    let res2 = res.push(e);
    let ps2 = ps + seq![p];
    assert forall|i: int| 0 <= i < ps2.len() implies {
        &&& (#[trigger] res2[i]).0@ == name
        &&& res2[i].1 == ps2[i].0
        &&& res2[i].2 == ps2[i].1
    } by {
        if i < ps.len() {
            assert(res2[i] == res[i]);
        } else {
            assert(res2[i] == e);
        }
    }
}

/// A block position lying within one cell above a region index taken from
/// the expanded scan range stays within three cells of the query edges.
proof fn lemma_candidate_block_range(rx: int, cell: int, b: int, lo_edge: int, hi_edge: int)
    requires
        128 <= cell <= 1280,
        rx * cell + 8 <= b <= rx * cell + cell - 8,
        lo_edge <= hi_edge,
        div_trunc_spec(lo_edge, cell) - 1 <= rx <= div_trunc_spec(hi_edge, cell) + 1,
    ensures
        lo_edge - 3 * cell <= b <= hi_edge + 3 * cell,
{
    let qlo = div_trunc_spec(lo_edge, cell);
    let qhi = div_trunc_spec(hi_edge, cell);
    lemma_div_trunc_close(lo_edge, cell);
    lemma_div_trunc_close(hi_edge, cell);
    assert((qlo - 1) * cell <= rx * cell <= (qhi + 1) * cell) by (nonlinear_arith)
        requires
            qlo - 1 <= rx <= qhi + 1,
            cell >= 1,
    ;
    assert((qlo - 1) * cell == qlo * cell - cell) by (nonlinear_arith);
    assert((qhi + 1) * cell == qhi * cell + cell) by (nonlinear_arith);
}

/// The jittered candidate of one region, as a pair of 64-bit block
/// coordinates bounded inside the region's cell.
fn candidate_block(seed: i64, structure_type: StructureType, rx: i64, rz: i64) -> (pos: (i64, i64))
    requires
        -33554433 <= rx <= 33554433,
        -33554433 <= rz <= 33554433,
    ensures
        pos.0 == candidate_spec(seed, structure_type, rx as i32, rz as i32).0,
        pos.1 == candidate_spec(seed, structure_type, rx as i32, rz as i32).1,
        rx * (spacing_spec(structure_type) * 16) + 8 <= pos.0 <= rx * (spacing_spec(
            structure_type,
        ) * 16) + spacing_spec(structure_type) * 16 - 8,
        rz * (spacing_spec(structure_type) * 16) + 8 <= pos.1 <= rz * (spacing_spec(
            structure_type,
        ) * 16) + spacing_spec(structure_type) * 16 - 8,
{
    let spacing = structure_type.spacing();
    let separation = structure_type.separation();
    let salt = structure_type.salt();
    let offset_range = spacing - separation;
    let mut state: i64 = get_structure_seed(seed, rx as i32, rz as i32, salt);
    let offset_x = next_int(&mut state, offset_range);
    let offset_z = next_int(&mut state, offset_range);
    proof {
        assert(-33554433 * 80 <= rx * (spacing as int) <= 33554433 * 80) by (nonlinear_arith)
            requires
                -33554433 <= rx <= 33554433,
                8 <= spacing <= 80,
        ;
        assert(-33554433 * 80 <= rz * (spacing as int) <= 33554433 * 80) by (nonlinear_arith)
            requires
                -33554433 <= rz <= 33554433,
                8 <= spacing <= 80,
        ;
    }
    let chunk_x: i64 = rx * (spacing as i64) + (offset_x as i64);
    let chunk_z: i64 = rz * (spacing as i64) + (offset_z as i64);
    let block_x: i64 = chunk_x * 16 + 8;
    let block_z: i64 = chunk_z * 16 + 8;
    proof {
        assert((rx * (spacing as int) + offset_x) * 16 + 8 == rx * ((spacing as int) * 16) + (
        offset_x * 16 + 8)) by (nonlinear_arith);
        assert((rz * (spacing as int) + offset_z) * 16 + 8 == rz * ((spacing as int) * 16) + (
        offset_z * 16 + 8)) by (nonlinear_arith);
        assert(8 <= offset_x * 16 + 8 <= (spacing as int) * 16 - 8) by (nonlinear_arith)
            requires
                0 <= offset_x < spacing,
        ;
        assert(8 <= offset_z * 16 + 8 <= (spacing as int) * 16 - 8) by (nonlinear_arith)
            requires
                0 <= offset_z < spacing,
        ;
    }
    (block_x, block_z)
}


/// The expanded scan range of region indices along one axis: one region
/// beyond each edge of the bounding square.
fn scan_bounds(c: i32, radius: i32, spacing_blocks: i64) -> (b: (i64, i64))
    requires
        radius >= 0,
        128 <= spacing_blocks <= 1280,
    ensures
        b.0 as int == region_lo(c, radius, spacing_blocks as int),
        b.1 as int == region_hi(c, radius, spacing_blocks as int),
        -33554433 <= b.0 <= 33554433,
        -33554433 <= b.1 <= 33554433,
        b.0 <= b.1,
{
    let cl = c as i64;
    let rl = radius as i64;
    let lo = div_trunc(cl - rl, spacing_blocks) - 1;
    let hi = div_trunc(cl + rl, spacing_blocks) + 1;
    proof {
        lemma_div_trunc_small(cl - rl, spacing_blocks as int, 4294967296);
        lemma_div_trunc_small(cl + rl, spacing_blocks as int, 4294967296);
        lemma_div_pos_is_pos(4294967296, spacing_blocks as int);
        lemma_div_is_ordered_by_denominator(4294967296, 128, spacing_blocks as int);
        assert(4294967296int / 128int == 33554432int);
        lemma_div_trunc_monotone(cl - rl, cl + rl, spacing_blocks as int);
    }
    (lo, hi)
}

/// One scan step that keeps a candidate: the matched sequence grows by the
/// row's next cell, which holds exactly that candidate.
proof fn lemma_match_step_keep(
    prev: Seq<(String, i32, i32)>,
    ps: Seq<(int, int)>,
    rowp: Seq<(int, int)>,
    cell: Seq<(int, int)>,
    e: (String, i32, i32),
    p: (int, int),
    name: Seq<char>,
)
    requires
        results_match(prev, ps + rowp, name),
        cell =~= seq![p],
        e.0@ == name,
        e.1 == p.0,
        e.2 == p.1,
    ensures
        results_match(prev.push(e), ps + (rowp + cell), name),
{
    lemma_results_match_push(prev, ps + rowp, name, e, p);
    assert((ps + rowp) + seq![p] =~= ps + (rowp + cell));
}

/// One scan step that rejects a candidate: the row's next cell is empty and
/// the matched sequence is unchanged.
proof fn lemma_match_step_skip(
    prev: Seq<(String, i32, i32)>,
    ps: Seq<(int, int)>,
    rowp: Seq<(int, int)>,
    cell: Seq<(int, int)>,
    name: Seq<char>,
)
    requires
        results_match(prev, ps + rowp, name),
        cell =~= Seq::<(int, int)>::empty(),
    ensures
        results_match(prev, ps + (rowp + cell), name),
{
    assert(ps + rowp =~= ps + (rowp + cell));
}

/// Scans one region row `min_rz..=max_rz`, appending every candidate that
/// lies within the query radius.
#[verifier::loop_isolation(false)]
#[verifier::rlimit(60)]
fn scan_row(
    results: &mut Vec<(String, i32, i32)>,
    Ghost(ps): Ghost<Seq<(int, int)>>,
    seed: i64,
    structure_type: StructureType,
    center_x: i32,
    center_z: i32,
    radius: i32,
    rx: i64,
    min_rz: i64,
    max_rz: i64,
    name: &String,
)
    requires
        radius >= 0,
        center_x - radius >= i32::MIN + 4096,
        center_x + radius <= i32::MAX - 4096,
        center_z - radius >= i32::MIN + 4096,
        center_z + radius <= i32::MAX - 4096,
        results_match(old(results)@, ps, name_spec(structure_type)),
        name@ == name_spec(structure_type),
        region_lo(center_x, radius, spacing_spec(structure_type) * 16) <= rx as int,
        rx as int <= region_hi(center_x, radius, spacing_spec(structure_type) * 16),
        min_rz as int == region_lo(center_z, radius, spacing_spec(structure_type) * 16),
        max_rz as int == region_hi(center_z, radius, spacing_spec(structure_type) * 16),
        -33554433 <= rx <= 33554433,
        -33554433 <= min_rz <= 33554433,
        -33554433 <= max_rz <= 33554433,
        min_rz <= max_rz + 1,
    ensures
        results_match(
            final(results)@,
            ps + structure_row(
                seed,
                structure_type,
                center_x,
                center_z,
                radius,
                rx as int,
                min_rz as int,
                max_rz as int,
            ),
            name_spec(structure_type),
        ),
{
    let ghost k = structure_type;
    let ghost cell_i = spacing_spec(k) * 16;
    let cxl = center_x as i64;
    let czl = center_z as i64;
    let rl = radius as i64;
    proof {
        assert(0 <= rl * rl <= 2147483647 * 2147483647) by (nonlinear_arith)
            requires
                0 <= rl <= 2147483647,
        ;
    }
    let rsq: i64 = rl * rl;
    let mut rz: i64 = min_rz;
    proof {
        assert(structure_row(seed, k, center_x, center_z, radius, rx as int, min_rz as int, rz - 1)
            =~= Seq::<(int, int)>::empty());
        assert(ps + structure_row(
            seed,
            k,
            center_x,
            center_z,
            radius,
            rx as int,
            min_rz as int,
            rz - 1,
        ) =~= ps);
    }
    while rz <= max_rz
        invariant
            min_rz <= rz <= max_rz + 1,
            results_match(
                results@,
                ps + structure_row(
                    seed,
                    k,
                    center_x,
                    center_z,
                    radius,
                    rx as int,
                    min_rz as int,
                    rz - 1,
                ),
                name_spec(k),
            ),
        decreases max_rz + 1 - rz,
    {
        let ghost rowp = structure_row(
            seed,
            k,
            center_x,
            center_z,
            radius,
            rx as int,
            min_rz as int,
            rz - 1,
        );
        let pos = candidate_block(seed, structure_type, rx, rz);
        proof {
            lemma_candidate_block_range(
                rx as int,
                cell_i,
                pos.0 as int,
                center_x - radius,
                center_x + radius,
            );
            lemma_candidate_block_range(
                rz as int,
                cell_i,
                pos.1 as int,
                center_z - radius,
                center_z + radius,
            );
        }
        let d = dist_sq(pos.0, pos.1, cxl, czl);
        let ghost p = candidate_spec(seed, k, rx as i32, rz as i32);
        let ghost cell = structure_cell(seed, k, center_x, center_z, radius, rx as int, rz as int);
        proof {
            assert(p.0 == pos.0 && p.1 == pos.1);
        }
        if d <= rsq {
            proof {
                lemma_magnitude_from_square(pos.0 - center_x, pos.1 - center_z, radius as int);
            }
            let bx = pos.0 as i32;
            let bz = pos.1 as i32;
            let ghost prev = results@;
            results.push((name.clone(), bx, bz));
            proof {
                assert(in_radius(p.0, p.1, center_x as int, center_z as int, radius as int));
                assert(cell =~= seq![p]);
                lemma_match_step_keep(
                    prev,
                    ps,
                    rowp,
                    cell,
                    results@[prev.len() as int],
                    p,
                    name_spec(k),
                );
            }
        } else {
            proof {
                assert(!in_radius(p.0, p.1, center_x as int, center_z as int, radius as int));
                assert(cell =~= Seq::<(int, int)>::empty());
                lemma_match_step_skip(results@, ps, rowp, cell, name_spec(k));
            }
        }
        proof {
            assert(structure_row(seed, k, center_x, center_z, radius, rx as int, min_rz as int, rz as int)
                == rowp + cell);
        }
        rz = rz + 1;
    }
}

/// All structures of one kind within the query radius, in region scan order.
/// The result is exactly `structure_placements`: for identical arguments two
/// calls return identical lists, and every emitted coordinate lies within the
/// radius (`lemma_structure_placements_in_radius`).  Queries whose bounding
/// square leaves less than a cell's worth of slack to the edge of the 32-bit
/// coordinate space are excluded: their boundary candidates have no
/// representable coordinates.
#[verifier::loop_isolation(false)]
#[verifier::rlimit(60)]
pub fn find_structures(
    seed: i64,
    center_x: i32,
    center_z: i32,
    radius: i32,
    structure_type: StructureType,
) -> (results: Vec<(String, i32, i32)>)
    requires
        radius >= 0,
        center_x - radius >= i32::MIN + 4096,
        center_x + radius <= i32::MAX - 4096,
        center_z - radius >= i32::MIN + 4096,
        center_z + radius <= i32::MAX - 4096,
    ensures
        results_match(
            results@,
            structure_placements(seed, center_x, center_z, radius, structure_type),
            name_spec(structure_type),
        ),
{
    let spacing = structure_type.spacing();
    let name: String = structure_type.display_name().to_owned();

    let spacing_blocks: i64 = (spacing as i64) * 16;
    let bounds_x = scan_bounds(center_x, radius, spacing_blocks);
    let bounds_z = scan_bounds(center_z, radius, spacing_blocks);
    let min_rx = bounds_x.0;
    let max_rx = bounds_x.1;
    let min_rz = bounds_z.0;
    let max_rz = bounds_z.1;

    let ghost k = structure_type;
    let ghost cell_i = spacing_spec(k) * 16;
    proof {
        assert(cell_i == spacing_blocks as int);
    }

    let mut results: Vec<(String, i32, i32)> = Vec::new();
    let mut rx: i64 = min_rx;
    proof {
        assert(structure_grid(
            seed,
            k,
            center_x,
            center_z,
            radius,
            min_rx as int,
            rx - 1,
            min_rz as int,
            max_rz as int,
        ) =~= Seq::<(int, int)>::empty());
    }
    while rx <= max_rx
        invariant
            min_rx <= rx <= max_rx + 1,
            results_match(
                results@,
                structure_grid(
                    seed,
                    k,
                    center_x,
                    center_z,
                    radius,
                    min_rx as int,
                    rx - 1,
                    min_rz as int,
                    max_rz as int,
                ),
                name_spec(k),
            ),
        decreases max_rx + 1 - rx,
    {
        let ghost done = structure_grid(
            seed,
            k,
            center_x,
            center_z,
            radius,
            min_rx as int,
            rx - 1,
            min_rz as int,
            max_rz as int,
        );
        scan_row(
            &mut results,
            Ghost(done),
            seed,
            structure_type,
            center_x,
            center_z,
            radius,
            rx,
            min_rz,
            max_rz,
            &name,
        );
        proof {
            assert(structure_grid(
                seed,
                k,
                center_x,
                center_z,
                radius,
                min_rx as int,
                rx as int,
                min_rz as int,
                max_rz as int,
            ) == done + structure_row(
                seed,
                k,
                center_x,
                center_z,
                radius,
                rx as int,
                min_rz as int,
                max_rz as int,
            ));
        }
        rx = rx + 1;
    }
    results
}

/// Every coordinate pair of the sequence lies within `radius` of the
/// center, by squared Euclidean distance.
pub open spec fn all_in_radius(ps: Seq<(int, int)>, cx: int, cz: int, radius: int) -> bool {
    forall|i: int| 0 <= i < ps.len() ==> in_radius((#[trigger] ps[i]).0, ps[i].1, cx, cz, radius)
}

/// Containment is preserved by concatenation.
proof fn lemma_all_in_radius_concat(
    a: Seq<(int, int)>,
    b: Seq<(int, int)>,
    cx: int,
    cz: int,
    radius: int,
)
    requires
        all_in_radius(a, cx, cz, radius),
        all_in_radius(b, cx, cz, radius),
    ensures
        all_in_radius(a + b, cx, cz, radius),
{
    assert forall|i: int| 0 <= i < (a + b).len() implies in_radius(
        (#[trigger] (a + b)[i]).0,
        (a + b)[i].1,
        cx,
        cz,
        radius,
    ) by {
        if i < a.len() {
            assert((a + b)[i] == a[i]);
        } else {
            assert((a + b)[i] == b[i - a.len()]);
        }
    }
}

/// A cell only keeps its candidate after the squared-distance test.
proof fn lemma_structure_cell_in_radius(
    seed: i64,
    k: StructureType,
    cx: i32,
    cz: i32,
    radius: i32,
    rx: int,
    rz: int,
)
    ensures
        all_in_radius(
            structure_cell(seed, k, cx, cz, radius, rx, rz),
            cx as int,
            cz as int,
            radius as int,
        ),
{
    let cell = structure_cell(seed, k, cx, cz, radius, rx, rz);
    let pos = candidate_spec(seed, k, rx as i32, rz as i32);
    if in_radius(pos.0, pos.1, cx as int, cz as int, radius as int) {
        assert(cell[0] == pos);
    }
}

/// Every element of a row lies within the query radius.
proof fn lemma_structure_row_in_radius(
    seed: i64,
    k: StructureType,
    cx: i32,
    cz: i32,
    radius: i32,
    rx: int,
    zlo: int,
    zhi: int,
)
    ensures
        all_in_radius(
            structure_row(seed, k, cx, cz, radius, rx, zlo, zhi),
            cx as int,
            cz as int,
            radius as int,
        ),
    decreases zhi + 1 - zlo,
{
    if zhi < zlo {
        assert(all_in_radius(
            structure_row(seed, k, cx, cz, radius, rx, zlo, zhi),
            cx as int,
            cz as int,
            radius as int,
        ));
    } else {
        lemma_structure_row_in_radius(seed, k, cx, cz, radius, rx, zlo, zhi - 1);
        lemma_structure_cell_in_radius(seed, k, cx, cz, radius, rx, zhi);
        lemma_all_in_radius_concat(
            structure_row(seed, k, cx, cz, radius, rx, zlo, zhi - 1),
            structure_cell(seed, k, cx, cz, radius, rx, zhi),
            cx as int,
            cz as int,
            radius as int,
        );
    }
}

/// Every element of a grid lies within the query radius.
proof fn lemma_structure_grid_in_radius(
    seed: i64,
    k: StructureType,
    cx: i32,
    cz: i32,
    radius: i32,
    xlo: int,
    xhi: int,
    zlo: int,
    zhi: int,
)
    ensures
        all_in_radius(
            structure_grid(seed, k, cx, cz, radius, xlo, xhi, zlo, zhi),
            cx as int,
            cz as int,
            radius as int,
        ),
    decreases xhi + 1 - xlo,
{
    if xhi < xlo {
        assert(all_in_radius(
            structure_grid(seed, k, cx, cz, radius, xlo, xhi, zlo, zhi),
            cx as int,
            cz as int,
            radius as int,
        ));
    } else {
        lemma_structure_grid_in_radius(seed, k, cx, cz, radius, xlo, xhi - 1, zlo, zhi);
        lemma_structure_row_in_radius(seed, k, cx, cz, radius, xhi, zlo, zhi);
        lemma_all_in_radius_concat(
            structure_grid(seed, k, cx, cz, radius, xlo, xhi - 1, zlo, zhi),
            structure_row(seed, k, cx, cz, radius, xhi, zlo, zhi),
            cx as int,
            cz as int,
            radius as int,
        );
    }
}

/// Radius containment: every coordinate a structure query emits lies within
/// the query radius of the center, by squared Euclidean distance.
pub proof fn lemma_structure_placements_in_radius(
    seed: i64,
    cx: i32,
    cz: i32,
    radius: i32,
    k: StructureType,
)
    ensures
        all_in_radius(
            structure_placements(seed, cx, cz, radius, k),
            cx as int,
            cz as int,
            radius as int,
        ),
{
    let cell = spacing_spec(k) * 16;
    lemma_structure_grid_in_radius(
        seed,
        k,
        cx,
        cz,
        radius,
        region_lo(cx, radius, cell),
        region_hi(cx, radius, cell),
        region_lo(cz, radius, cell),
        region_hi(cz, radius, cell),
    );
}

/// Salt shared by the two rare nether structure kinds: they compete for the
/// same quadrant grid.
pub const NETHER_SALT: i64 = 30084232;

/// Whether the checkpoint at in-quadrant offset `(ox, oz)` of quadrant
/// `(qx, qz)` lies within the query radius.
pub open spec fn checkpoint_in_spec(
    cx: i32,
    cz: i32,
    radius: i32,
    qx: int,
    qz: int,
    ox: int,
    oz: int,
) -> bool {
    in_radius(qx * 480 + ox, qz * 480 + oz, cx as int, cz as int, radius as int)
}

/// Whether any of the nine fixed checkpoints of quadrant `(qx, qz)` lies
/// within the query radius; only such quadrants emit a structure.
pub open spec fn quadrant_hit_spec(cx: i32, cz: i32, radius: i32, qx: int, qz: int) -> bool {
    ||| checkpoint_in_spec(cx, cz, radius, qx, qz, 100, 100)
    ||| checkpoint_in_spec(cx, cz, radius, qx, qz, 100, 200)
    ||| checkpoint_in_spec(cx, cz, radius, qx, qz, 100, 300)
    ||| checkpoint_in_spec(cx, cz, radius, qx, qz, 200, 100)
    ||| checkpoint_in_spec(cx, cz, radius, qx, qz, 200, 200)
    ||| checkpoint_in_spec(cx, cz, radius, qx, qz, 200, 300)
    ||| checkpoint_in_spec(cx, cz, radius, qx, qz, 300, 100)
    ||| checkpoint_in_spec(cx, cz, radius, qx, qz, 300, 200)
    ||| checkpoint_in_spec(cx, cz, radius, qx, qz, 300, 300)
}

/// The (zero- or one-element) result of one quadrant.  A quadrant with a
/// checkpoint in range always yields exactly one structure: the quadrant
/// stream's first draw only selects the kind (a roll below 33 of 100 gives
/// the fortress kind, `true` here; otherwise the bastion kind), and two more
/// draws place it inside the quadrant.
pub open spec fn nether_cell(
    seed: i64,
    cx: i32,
    cz: i32,
    radius: i32,
    qx: int,
    qz: int,
) -> Seq<(bool, int, int)> {
    if quadrant_hit_spec(cx, cz, radius, qx, qz) {
        let state1 = lcg_step_spec(
            structure_seed_spec(seed, qx as i32, qz as i32, NETHER_SALT),
        );
        let roll = draw_spec(state1, 100);
        let state2 = lcg_step_spec(state1);
        let ox = draw_spec(state2, 280) + 100;
        let state3 = lcg_step_spec(state2);
        let oz = draw_spec(state3, 280) + 100;
        seq![(roll < 33, qx * 480 + ox, qz * 480 + oz)]
    } else {
        Seq::empty()
    }
}

/// The results of one quadrant row, quadrants `zlo..=zhi` in order.
pub open spec fn nether_row(
    seed: i64,
    cx: i32,
    cz: i32,
    radius: i32,
    qx: int,
    zlo: int,
    zhi: int,
) -> Seq<(bool, int, int)>
    decreases zhi + 1 - zlo,
{
    if zhi < zlo {
        Seq::empty()
    } else {
        nether_row(seed, cx, cz, radius, qx, zlo, zhi - 1) + nether_cell(
            seed,
            cx,
            cz,
            radius,
            qx,
            zhi,
        )
    }
}

/// The results of the quadrant rows `xlo..=xhi` in order.
pub open spec fn nether_grid(
    seed: i64,
    cx: i32,
    cz: i32,
    radius: i32,
    xlo: int,
    xhi: int,
    zlo: int,
    zhi: int,
) -> Seq<(bool, int, int)>
    decreases xhi + 1 - xlo,
{
    if xhi < xlo {
        Seq::empty()
    } else {
        nether_grid(seed, cx, cz, radius, xlo, xhi - 1, zlo, zhi) + nether_row(
            seed,
            cx,
            cz,
            radius,
            xhi,
            zlo,
            zhi,
        )
    }
}

/// The full result sequence of one nether query: at most one structure per
/// quadrant of the expanded bounding grid, in quadrant scan order.
pub open spec fn nether_placements(seed: i64, cx: i32, cz: i32, radius: i32) -> Seq<
    (bool, int, int),
> {
    nether_grid(
        seed,
        cx,
        cz,
        radius,
        region_lo(cx, radius, 480),
        region_hi(cx, radius, 480),
        region_lo(cz, radius, 480),
        region_hi(cz, radius, 480),
    )
}

/// The executable nether result list mirrors a placement sequence: per
/// element the kind's label and the placed coordinates.
pub open spec fn nether_results_match(
    res: Seq<(String, i32, i32)>,
    ps: Seq<(bool, int, int)>,
) -> bool {
    &&& res.len() == ps.len()
    &&& forall|i: int|
        0 <= i < ps.len() ==> {
            &&& (#[trigger] res[i]).0@ == (if ps[i].0 {
                name_spec(StructureType::NetherFortress)
            } else {
                name_spec(StructureType::BastionRemnant)
            })
            &&& res[i].1 == ps[i].1
            &&& res[i].2 == ps[i].2
        }
}

/// Appending one matching element keeps a nether result list matching its
/// placement sequence.
proof fn lemma_nether_match_push(
    res: Seq<(String, i32, i32)>,
    ps: Seq<(bool, int, int)>,
    e: (String, i32, i32),
    p: (bool, int, int),
)
    requires
        nether_results_match(res, ps),
        e.0@ == (if p.0 {
            name_spec(StructureType::NetherFortress)
        } else {
            name_spec(StructureType::BastionRemnant)
        }),
        e.1 == p.1,
        e.2 == p.2,
    ensures
        nether_results_match(res.push(e), ps + seq![p]),
{
    let res2 = res.push(e);
    let ps2 = ps + seq![p];
    assert forall|i: int| 0 <= i < ps2.len() implies {
        &&& (#[trigger] res2[i]).0@ == (if ps2[i].0 {
            name_spec(StructureType::NetherFortress)
        } else {
            name_spec(StructureType::BastionRemnant)
        })
        &&& res2[i].1 == ps2[i].1
        &&& res2[i].2 == ps2[i].2
    } by {
        if i < ps.len() {
            assert(res2[i] == res[i]);
        } else {
            assert(res2[i] == e);
        }
    }
}

/// Whether the block position `(bx, bz)` lies within the query radius.
fn block_within(cx: i32, cz: i32, radius: i32, bx: i64, bz: i64) -> (b: bool)
    requires
        radius >= 0,
        -2147483647 <= bx - cx <= 2147483647,
        -2147483647 <= bz - cz <= 2147483647,
    ensures
        b == in_radius(bx as int, bz as int, cx as int, cz as int, radius as int),
{
    let rl = radius as i64;
    proof {
        assert(0 <= rl * rl <= 2147483647 * 2147483647) by (nonlinear_arith)
            requires
                0 <= rl <= 2147483647,
        ;
    }
    let d = dist_sq(bx, bz, cx as i64, cz as i64);
    d <= rl * rl
}

/// Whether any of the nine fixed checkpoints of quadrant `(qx, qz)` lies
/// within the query radius.
#[verifier::rlimit(30)]
fn quadrant_has_checkpoint(cx: i32, cz: i32, radius: i32, qx: i64, qz: i64) -> (b: bool)
    requires
        radius >= 0,
        cx - radius >= i32::MIN + 4096,
        cx + radius <= i32::MAX - 4096,
        cz - radius >= i32::MIN + 4096,
        cz + radius <= i32::MAX - 4096,
        region_lo(cx, radius, 480) <= qx as int <= region_hi(cx, radius, 480),
        region_lo(cz, radius, 480) <= qz as int <= region_hi(cz, radius, 480),
        -33554433 <= qx <= 33554433,
        -33554433 <= qz <= 33554433,
    ensures
        b == quadrant_hit_spec(cx, cz, radius, qx as int, qz as int),
{
    let bx0: i64 = qx * 480;
    let bz0: i64 = qz * 480;
    proof {
        lemma_candidate_block_range(qx as int, 480, bx0 + 100, cx - radius, cx + radius);
        lemma_candidate_block_range(qx as int, 480, bx0 + 300, cx - radius, cx + radius);
        lemma_candidate_block_range(qz as int, 480, bz0 + 100, cz - radius, cz + radius);
        lemma_candidate_block_range(qz as int, 480, bz0 + 300, cz - radius, cz + radius);
    }
    let mut hit = block_within(cx, cz, radius, bx0 + 100, bz0 + 100);
    hit = hit || block_within(cx, cz, radius, bx0 + 100, bz0 + 200);
    hit = hit || block_within(cx, cz, radius, bx0 + 100, bz0 + 300);
    hit = hit || block_within(cx, cz, radius, bx0 + 200, bz0 + 100);
    hit = hit || block_within(cx, cz, radius, bx0 + 200, bz0 + 200);
    hit = hit || block_within(cx, cz, radius, bx0 + 200, bz0 + 300);
    hit = hit || block_within(cx, cz, radius, bx0 + 300, bz0 + 100);
    hit = hit || block_within(cx, cz, radius, bx0 + 300, bz0 + 200);
    hit = hit || block_within(cx, cz, radius, bx0 + 300, bz0 + 300);
    hit
}

/// Scans one quadrant row `min_qz..=max_qz`, emitting the single structure
/// of every quadrant with a checkpoint in range.
#[verifier::loop_isolation(false)]
#[verifier::rlimit(60)]
fn scan_nether_row(
    results: &mut Vec<(String, i32, i32)>,
    Ghost(ps): Ghost<Seq<(bool, int, int)>>,
    seed: i64,
    center_x: i32,
    center_z: i32,
    radius: i32,
    qx: i64,
    min_qz: i64,
    max_qz: i64,
    fortress: &String,
    bastion: &String,
)
    requires
        radius >= 0,
        center_x - radius >= i32::MIN + 4096,
        center_x + radius <= i32::MAX - 4096,
        center_z - radius >= i32::MIN + 4096,
        center_z + radius <= i32::MAX - 4096,
        nether_results_match(old(results)@, ps),
        fortress@ == name_spec(StructureType::NetherFortress),
        bastion@ == name_spec(StructureType::BastionRemnant),
        region_lo(center_x, radius, 480) <= qx as int <= region_hi(center_x, radius, 480),
        min_qz as int == region_lo(center_z, radius, 480),
        max_qz as int == region_hi(center_z, radius, 480),
        -33554433 <= qx <= 33554433,
        -33554433 <= min_qz <= 33554433,
        -33554433 <= max_qz <= 33554433,
        min_qz <= max_qz + 1,
    ensures
        nether_results_match(
            final(results)@,
            ps + nether_row(
                seed,
                center_x,
                center_z,
                radius,
                qx as int,
                min_qz as int,
                max_qz as int,
            ),
        ),
{
    let mut qz: i64 = min_qz;
    proof {
        assert(nether_row(seed, center_x, center_z, radius, qx as int, min_qz as int, qz - 1)
            =~= Seq::<(bool, int, int)>::empty());
        assert(ps + nether_row(seed, center_x, center_z, radius, qx as int, min_qz as int, qz - 1)
            =~= ps);
    }
    while qz <= max_qz
        invariant
            min_qz <= qz <= max_qz + 1,
            nether_results_match(
                results@,
                ps + nether_row(
                    seed,
                    center_x,
                    center_z,
                    radius,
                    qx as int,
                    min_qz as int,
                    qz - 1,
                ),
            ),
        decreases max_qz + 1 - qz,
    {
        let ghost rowp = nether_row(
            seed,
            center_x,
            center_z,
            radius,
            qx as int,
            min_qz as int,
            qz - 1,
        );
        let ghost cell = nether_cell(seed, center_x, center_z, radius, qx as int, qz as int);
        let hit = quadrant_has_checkpoint(center_x, center_z, radius, qx, qz);
        if hit {
            let mut state: i64 = get_structure_seed(seed, qx as i32, qz as i32, NETHER_SALT);
            let roll = next_int(&mut state, 100);
            let dx = next_int(&mut state, 280);
            let dz = next_int(&mut state, 280);
            let fx: i64 = qx * 480 + (dx as i64) + 100;
            let fz: i64 = qz * 480 + (dz as i64) + 100;
            proof {
                lemma_candidate_block_range(qx as int, 480, fx as int, center_x - radius,
                    center_x + radius);
                lemma_candidate_block_range(qz as int, 480, fz as int, center_z - radius,
                    center_z + radius);
            }
            let name: String = if roll < 33 {
                fortress.clone()
            } else {
                bastion.clone()
            };
            let ghost prev = results@;
            let ghost p = cell[0];
            results.push((name, fx as i32, fz as i32));
            proof {
                assert(cell =~= seq![p]);
                lemma_nether_match_push(prev, ps + rowp, results@[prev.len() as int], p);
                assert((ps + rowp) + seq![p] =~= ps + (rowp + cell));
            }
        } else {
            proof {
                assert(cell =~= Seq::<(bool, int, int)>::empty());
                assert(ps + rowp =~= ps + (rowp + cell));
            }
        }
        proof {
            assert(nether_row(seed, center_x, center_z, radius, qx as int, min_qz as int, qz as int)
                == rowp + cell);
        }
        qz = qz + 1;
    }
}

/// All rare nether structures within reach of the query: per quadrant of the
/// expanded bounding grid, exactly one structure whenever one of the
/// quadrant's nine checkpoints lies within the radius; a first draw selects
/// between the two competing kinds and two more place the structure inside
/// its quadrant.  The result is exactly `nether_placements`; no two results
/// share a quadrant (`lemma_nether_quadrant_exclusive`).
#[verifier::loop_isolation(false)]
#[verifier::rlimit(60)]
pub fn find_nether_structures(
    seed: i64,
    center_x: i32,
    center_z: i32,
    radius: i32,
) -> (results: Vec<(String, i32, i32)>)
    requires
        radius >= 0,
        center_x - radius >= i32::MIN + 4096,
        center_x + radius <= i32::MAX - 4096,
        center_z - radius >= i32::MIN + 4096,
        center_z + radius <= i32::MAX - 4096,
    ensures
        nether_results_match(results@, nether_placements(seed, center_x, center_z, radius)),
{
    let fortress: String = StructureType::NetherFortress.display_name().to_owned();
    let bastion: String = StructureType::BastionRemnant.display_name().to_owned();

    let bounds_x = scan_bounds(center_x, radius, 480);
    let bounds_z = scan_bounds(center_z, radius, 480);
    let min_qx = bounds_x.0;
    let max_qx = bounds_x.1;
    let min_qz = bounds_z.0;
    let max_qz = bounds_z.1;

    let mut results: Vec<(String, i32, i32)> = Vec::new();
    let mut qx: i64 = min_qx;
    proof {
        assert(nether_grid(
            seed,
            center_x,
            center_z,
            radius,
            min_qx as int,
            qx - 1,
            min_qz as int,
            max_qz as int,
        ) =~= Seq::<(bool, int, int)>::empty());
    }
    while qx <= max_qx
        invariant
            min_qx <= qx <= max_qx + 1,
            nether_results_match(
                results@,
                nether_grid(
                    seed,
                    center_x,
                    center_z,
                    radius,
                    min_qx as int,
                    qx - 1,
                    min_qz as int,
                    max_qz as int,
                ),
            ),
        decreases max_qx + 1 - qx,
    {
        let ghost done = nether_grid(
            seed,
            center_x,
            center_z,
            radius,
            min_qx as int,
            qx - 1,
            min_qz as int,
            max_qz as int,
        );
        scan_nether_row(
            &mut results,
            Ghost(done),
            seed,
            center_x,
            center_z,
            radius,
            qx,
            min_qz,
            max_qz,
            &fortress,
            &bastion,
        );
        proof {
            assert(nether_grid(
                seed,
                center_x,
                center_z,
                radius,
                min_qx as int,
                qx as int,
                min_qz as int,
                max_qz as int,
            ) == done + nether_row(
                seed,
                center_x,
                center_z,
                radius,
                qx as int,
                min_qz as int,
                max_qz as int,
            ));
        }
        qx = qx + 1;
    }
    results
}

/// No two elements of the sequence lie in the same quadrant: their quadrant
/// keys, the coordinates divided by 480, differ in at least one axis.
pub open spec fn quadrant_keys_distinct(ps: Seq<(bool, int, int)>) -> bool {
    forall|i: int, j: int|
        0 <= i < j < ps.len() ==> !((#[trigger] ps[i]).1 / 480 == (#[trigger] ps[j]).1 / 480
            && ps[i].2 / 480 == ps[j].2 / 480)
}

/// Every element of the sequence lies in a quadrant one of whose checkpoints
/// is within the query radius.
pub open spec fn all_in_hit_quadrant(
    ps: Seq<(bool, int, int)>,
    cx: i32,
    cz: i32,
    radius: i32,
) -> bool {
    forall|i: int|
        0 <= i < ps.len() ==> quadrant_hit_spec(
            cx,
            cz,
            radius,
            (#[trigger] ps[i]).1 / 480,
            ps[i].2 / 480,
        )
}

/// The element a quadrant emits carries that quadrant's keys: its
/// coordinates divided by 480 give the quadrant indices back.
proof fn lemma_nether_cell_keys(seed: i64, cx: i32, cz: i32, radius: i32, qx: int, qz: int)
    ensures
        forall|i: int|
            0 <= i < nether_cell(seed, cx, cz, radius, qx, qz).len() ==> {
                &&& (#[trigger] nether_cell(seed, cx, cz, radius, qx, qz)[i]).1 / 480 == qx
                &&& nether_cell(seed, cx, cz, radius, qx, qz)[i].2 / 480 == qz
            },
{
    if quadrant_hit_spec(cx, cz, radius, qx, qz) {
        let state1 = lcg_step_spec(structure_seed_spec(seed, qx as i32, qz as i32, NETHER_SALT));
        let state2 = lcg_step_spec(state1);
        let state3 = lcg_step_spec(state2);
        let ox = draw_spec(state2, 280) + 100;
        let oz = draw_spec(state3, 280) + 100;
        crate::rng::lemma_draw_in_bound(state2, 280);
        crate::rng::lemma_draw_in_bound(state3, 280);
        lemma_fundamental_div_mod_converse(qx * 480 + ox, 480, qx, ox);
        lemma_fundamental_div_mod_converse(qz * 480 + oz, 480, qz, oz);
    }
}

/// Every element of a row carries its own row key and a column key inside
/// the scanned range.
proof fn lemma_nether_row_keys(
    seed: i64,
    cx: i32,
    cz: i32,
    radius: i32,
    qx: int,
    zlo: int,
    zhi: int,
)
    ensures
        forall|i: int|
            0 <= i < nether_row(seed, cx, cz, radius, qx, zlo, zhi).len() ==> {
                &&& (#[trigger] nether_row(seed, cx, cz, radius, qx, zlo, zhi)[i]).1 / 480 == qx
                &&& zlo <= nether_row(seed, cx, cz, radius, qx, zlo, zhi)[i].2 / 480 <= zhi
            },
    decreases zhi + 1 - zlo,
{
    if zhi >= zlo {
        let prev = nether_row(seed, cx, cz, radius, qx, zlo, zhi - 1);
        let cell = nether_cell(seed, cx, cz, radius, qx, zhi);
        lemma_nether_row_keys(seed, cx, cz, radius, qx, zlo, zhi - 1);
        lemma_nether_cell_keys(seed, cx, cz, radius, qx, zhi);
        assert forall|i: int|
            0 <= i < nether_row(seed, cx, cz, radius, qx, zlo, zhi).len() implies {
            &&& (#[trigger] nether_row(seed, cx, cz, radius, qx, zlo, zhi)[i]).1 / 480 == qx
            &&& zlo <= nether_row(seed, cx, cz, radius, qx, zlo, zhi)[i].2 / 480 <= zhi
        } by {
            if i < prev.len() {
                assert(nether_row(seed, cx, cz, radius, qx, zlo, zhi)[i] == prev[i]);
            } else {
                assert(nether_row(seed, cx, cz, radius, qx, zlo, zhi)[i] == cell[i - prev.len()]);
            }
        }
    }
}

/// No two elements of a row share a quadrant: their column keys grow with
/// the scan.
proof fn lemma_nether_row_distinct(
    seed: i64,
    cx: i32,
    cz: i32,
    radius: i32,
    qx: int,
    zlo: int,
    zhi: int,
)
    ensures
        quadrant_keys_distinct(nether_row(seed, cx, cz, radius, qx, zlo, zhi)),
    decreases zhi + 1 - zlo,
{
    if zhi >= zlo {
        let row = nether_row(seed, cx, cz, radius, qx, zlo, zhi);
        let prev = nether_row(seed, cx, cz, radius, qx, zlo, zhi - 1);
        let cell = nether_cell(seed, cx, cz, radius, qx, zhi);
        lemma_nether_row_distinct(seed, cx, cz, radius, qx, zlo, zhi - 1);
        lemma_nether_row_keys(seed, cx, cz, radius, qx, zlo, zhi - 1);
        lemma_nether_cell_keys(seed, cx, cz, radius, qx, zhi);
        assert forall|i: int, j: int| 0 <= i < j < row.len() implies !((#[trigger] row[i]).1 / 480
            == (#[trigger] row[j]).1 / 480 && row[i].2 / 480 == row[j].2 / 480) by {
            if j < prev.len() {
                assert(row[i] == prev[i] && row[j] == prev[j]);
            } else {
                assert(row[j] == cell[j - prev.len()]);
                assert(row[i] == prev[i]);
                assert(row[i].2 / 480 <= zhi - 1);
                assert(row[j].2 / 480 == zhi);
            }
        }
    }
}

/// Every element of a grid carries row and column keys inside the scanned
/// ranges.
proof fn lemma_nether_grid_keys(
    seed: i64,
    cx: i32,
    cz: i32,
    radius: i32,
    xlo: int,
    xhi: int,
    zlo: int,
    zhi: int,
)
    ensures
        forall|i: int|
            0 <= i < nether_grid(seed, cx, cz, radius, xlo, xhi, zlo, zhi).len() ==> {
                &&& xlo <= (#[trigger] nether_grid(seed, cx, cz, radius, xlo, xhi, zlo, zhi)[i]).1
                    / 480 <= xhi
                &&& zlo <= nether_grid(seed, cx, cz, radius, xlo, xhi, zlo, zhi)[i].2 / 480 <= zhi
            },
    decreases xhi + 1 - xlo,
{
    if xhi >= xlo {
        let grid = nether_grid(seed, cx, cz, radius, xlo, xhi, zlo, zhi);
        let prev = nether_grid(seed, cx, cz, radius, xlo, xhi - 1, zlo, zhi);
        let row = nether_row(seed, cx, cz, radius, xhi, zlo, zhi);
        lemma_nether_grid_keys(seed, cx, cz, radius, xlo, xhi - 1, zlo, zhi);
        lemma_nether_row_keys(seed, cx, cz, radius, xhi, zlo, zhi);
        assert forall|i: int| 0 <= i < grid.len() implies {
            &&& xlo <= (#[trigger] grid[i]).1 / 480 <= xhi
            &&& zlo <= grid[i].2 / 480 <= zhi
        } by {
            if i < prev.len() {
                assert(grid[i] == prev[i]);
            } else {
                assert(grid[i] == row[i - prev.len()]);
            }
        }
    }
}

/// No two elements of a grid share a quadrant.
proof fn lemma_nether_grid_distinct(
    seed: i64,
    cx: i32,
    cz: i32,
    radius: i32,
    xlo: int,
    xhi: int,
    zlo: int,
    zhi: int,
)
    ensures
        quadrant_keys_distinct(nether_grid(seed, cx, cz, radius, xlo, xhi, zlo, zhi)),
    decreases xhi + 1 - xlo,
{
    if xhi >= xlo {
        let grid = nether_grid(seed, cx, cz, radius, xlo, xhi, zlo, zhi);
        let prev = nether_grid(seed, cx, cz, radius, xlo, xhi - 1, zlo, zhi);
        let row = nether_row(seed, cx, cz, radius, xhi, zlo, zhi);
        lemma_nether_grid_distinct(seed, cx, cz, radius, xlo, xhi - 1, zlo, zhi);
        lemma_nether_row_distinct(seed, cx, cz, radius, xhi, zlo, zhi);
        lemma_nether_grid_keys(seed, cx, cz, radius, xlo, xhi - 1, zlo, zhi);
        lemma_nether_row_keys(seed, cx, cz, radius, xhi, zlo, zhi);
        assert forall|i: int, j: int| 0 <= i < j < grid.len() implies !((#[trigger] grid[i]).1
            / 480 == (#[trigger] grid[j]).1 / 480 && grid[i].2 / 480 == grid[j].2 / 480) by {
            if j < prev.len() {
                assert(grid[i] == prev[i] && grid[j] == prev[j]);
            } else if i < prev.len() {
                assert(grid[i] == prev[i]);
                assert(grid[j] == row[j - prev.len()]);
                assert(grid[i].1 / 480 <= xhi - 1);
                assert(grid[j].1 / 480 == xhi);
            } else {
                assert(grid[i] == row[i - prev.len()]);
                assert(grid[j] == row[j - prev.len()]);
            }
        }
    }
}

/// Quadrant exclusivity: no two results of one nether query share a
/// quadrant, where a result's quadrant key is its coordinate pair divided by
/// 480 on each axis.
pub proof fn lemma_nether_quadrant_exclusive(seed: i64, cx: i32, cz: i32, radius: i32)
    ensures
        quadrant_keys_distinct(nether_placements(seed, cx, cz, radius)),
{
    lemma_nether_grid_distinct(
        seed,
        cx,
        cz,
        radius,
        region_lo(cx, radius, 480),
        region_hi(cx, radius, 480),
        region_lo(cz, radius, 480),
        region_hi(cz, radius, 480),
    );
}

/// A quadrant's element is only emitted when the quadrant was hit.
proof fn lemma_nether_cell_hit(seed: i64, cx: i32, cz: i32, radius: i32, qx: int, qz: int)
    ensures
        all_in_hit_quadrant(nether_cell(seed, cx, cz, radius, qx, qz), cx, cz, radius),
{
    lemma_nether_cell_keys(seed, cx, cz, radius, qx, qz);
}

/// Checkpoint gating propagates through a row.
proof fn lemma_nether_row_hit(
    seed: i64,
    cx: i32,
    cz: i32,
    radius: i32,
    qx: int,
    zlo: int,
    zhi: int,
)
    ensures
        all_in_hit_quadrant(nether_row(seed, cx, cz, radius, qx, zlo, zhi), cx, cz, radius),
    decreases zhi + 1 - zlo,
{
    if zhi >= zlo {
        let row = nether_row(seed, cx, cz, radius, qx, zlo, zhi);
        let prev = nether_row(seed, cx, cz, radius, qx, zlo, zhi - 1);
        let cell = nether_cell(seed, cx, cz, radius, qx, zhi);
        lemma_nether_row_hit(seed, cx, cz, radius, qx, zlo, zhi - 1);
        lemma_nether_cell_hit(seed, cx, cz, radius, qx, zhi);
        assert forall|i: int| 0 <= i < row.len() implies quadrant_hit_spec(
            cx,
            cz,
            radius,
            (#[trigger] row[i]).1 / 480,
            row[i].2 / 480,
        ) by {
            if i < prev.len() {
                assert(row[i] == prev[i]);
            } else {
                assert(row[i] == cell[i - prev.len()]);
            }
        }
    }
}

/// Checkpoint gating propagates through a grid.
proof fn lemma_nether_grid_hit(
    seed: i64,
    cx: i32,
    cz: i32,
    radius: i32,
    xlo: int,
    xhi: int,
    zlo: int,
    zhi: int,
)
    ensures
        all_in_hit_quadrant(nether_grid(seed, cx, cz, radius, xlo, xhi, zlo, zhi), cx, cz, radius),
    decreases xhi + 1 - xlo,
{
    if xhi >= xlo {
        let grid = nether_grid(seed, cx, cz, radius, xlo, xhi, zlo, zhi);
        let prev = nether_grid(seed, cx, cz, radius, xlo, xhi - 1, zlo, zhi);
        let row = nether_row(seed, cx, cz, radius, xhi, zlo, zhi);
        lemma_nether_grid_hit(seed, cx, cz, radius, xlo, xhi - 1, zlo, zhi);
        lemma_nether_row_hit(seed, cx, cz, radius, xhi, zlo, zhi);
        assert forall|i: int| 0 <= i < grid.len() implies quadrant_hit_spec(
            cx,
            cz,
            radius,
            (#[trigger] grid[i]).1 / 480,
            grid[i].2 / 480,
        ) by {
            if i < prev.len() {
                assert(grid[i] == prev[i]);
            } else {
                assert(grid[i] == row[i - prev.len()]);
            }
        }
    }
}

/// Every result of a nether query sits in a quadrant one of whose fixed
/// checkpoints lies within the query radius; the placed position itself may
/// land up to a quadrant's jitter outside the radius.
pub proof fn lemma_nether_results_checkpoint_gated(seed: i64, cx: i32, cz: i32, radius: i32)
    ensures
        all_in_hit_quadrant(nether_placements(seed, cx, cz, radius), cx, cz, radius),
{
    lemma_nether_grid_hit(
        seed,
        cx,
        cz,
        radius,
        region_lo(cx, radius, 480),
        region_hi(cx, radius, 480),
        region_lo(cz, radius, 480),
        region_hi(cz, radius, 480),
    );
}

/// Every element of the sequence lies within `radius + slack` of the center
/// along each axis.
pub open spec fn all_within_slack(
    ps: Seq<(bool, int, int)>,
    cx: i32,
    cz: i32,
    radius: i32,
    slack: int,
) -> bool {
    forall|i: int|
        0 <= i < ps.len() ==> {
            &&& cx - radius - slack <= (#[trigger] ps[i]).1 <= cx + radius + slack
            &&& cz - radius - slack <= ps[i].2 <= cz + radius + slack
        }
}

/// A hit quadrant's element lies within 279 blocks of the query radius on
/// each axis: the triggering checkpoint is within the radius, and the
/// placed position differs from a checkpoint by at most 279 blocks per
/// axis.
proof fn lemma_nether_cell_near(seed: i64, cx: i32, cz: i32, radius: i32, qx: int, qz: int)
    requires
        radius >= 0,
    ensures
        all_within_slack(nether_cell(seed, cx, cz, radius, qx, qz), cx, cz, radius, 279),
{
    if quadrant_hit_spec(cx, cz, radius, qx, qz) {
        let state1 = lcg_step_spec(structure_seed_spec(seed, qx as i32, qz as i32, NETHER_SALT));
        let state2 = lcg_step_spec(state1);
        let state3 = lcg_step_spec(state2);
        crate::rng::lemma_draw_in_bound(state2, 280);
        crate::rng::lemma_draw_in_bound(state3, 280);
        assert forall|ox: int, oz: int|
            100 <= ox <= 300 && 100 <= oz <= 300 && checkpoint_in_spec(
                cx,
                cz,
                radius,
                qx,
                qz,
                ox,
                oz,
            ) implies cx - radius - 300 <= qx * 480 <= cx + radius - 100 && cz - radius - 300 <= qz
            * 480 <= cz + radius - 100 by {
            lemma_magnitude_from_square(
                qx * 480 + ox - cx,
                qz * 480 + oz - cz,
                radius as int,
            );
        }
    }
}

/// The per-axis bound is preserved by concatenation.
proof fn lemma_within_slack_concat(
    a: Seq<(bool, int, int)>,
    b: Seq<(bool, int, int)>,
    cx: i32,
    cz: i32,
    radius: i32,
    slack: int,
)
    requires
        all_within_slack(a, cx, cz, radius, slack),
        all_within_slack(b, cx, cz, radius, slack),
    ensures
        all_within_slack(a + b, cx, cz, radius, slack),
{
    assert forall|i: int| 0 <= i < (a + b).len() implies {
        &&& cx - radius - slack <= (#[trigger] (a + b)[i]).1 <= cx + radius + slack
        &&& cz - radius - slack <= (a + b)[i].2 <= cz + radius + slack
    } by {
        if i < a.len() {
            assert((a + b)[i] == a[i]);
        } else {
            assert((a + b)[i] == b[i - a.len()]);
        }
    }
}

/// The per-axis bound propagates through a row.
proof fn lemma_nether_row_near(
    seed: i64,
    cx: i32,
    cz: i32,
    radius: i32,
    qx: int,
    zlo: int,
    zhi: int,
)
    requires
        radius >= 0,
    ensures
        all_within_slack(nether_row(seed, cx, cz, radius, qx, zlo, zhi), cx, cz, radius, 279),
    decreases zhi + 1 - zlo,
{
    if zhi >= zlo {
        lemma_nether_row_near(seed, cx, cz, radius, qx, zlo, zhi - 1);
        lemma_nether_cell_near(seed, cx, cz, radius, qx, zhi);
        lemma_within_slack_concat(
            nether_row(seed, cx, cz, radius, qx, zlo, zhi - 1),
            nether_cell(seed, cx, cz, radius, qx, zhi),
            cx,
            cz,
            radius,
            279,
        );
    }
}

/// The per-axis bound propagates through a grid.
proof fn lemma_nether_grid_near(
    seed: i64,
    cx: i32,
    cz: i32,
    radius: i32,
    xlo: int,
    xhi: int,
    zlo: int,
    zhi: int,
)
    requires
        radius >= 0,
    ensures
        all_within_slack(nether_grid(seed, cx, cz, radius, xlo, xhi, zlo, zhi), cx, cz, radius, 279),
    decreases xhi + 1 - xlo,
{
    if xhi >= xlo {
        lemma_nether_grid_near(seed, cx, cz, radius, xlo, xhi - 1, zlo, zhi);
        lemma_nether_row_near(seed, cx, cz, radius, xhi, zlo, zhi);
        lemma_within_slack_concat(
            nether_grid(seed, cx, cz, radius, xlo, xhi - 1, zlo, zhi),
            nether_row(seed, cx, cz, radius, xhi, zlo, zhi),
            cx,
            cz,
            radius,
            279,
        );
    }
}

/// Every result of a nether query lies within 279 blocks of the query
/// radius along each axis: the emission test looks at fixed checkpoints, so
/// the placed position itself may overshoot the radius by at most the
/// largest jitter-to-checkpoint distance.
pub proof fn lemma_nether_results_near_radius(seed: i64, cx: i32, cz: i32, radius: i32)
    requires
        radius >= 0,
    ensures
        all_within_slack(nether_placements(seed, cx, cz, radius), cx, cz, radius, 279),
{
    lemma_nether_grid_near(
        seed,
        cx,
        cz,
        radius,
        region_lo(cx, radius, 480),
        region_hi(cx, radius, 480),
        region_lo(cz, radius, 480),
        region_hi(cz, radius, 480),
    );
}

} // verus!
