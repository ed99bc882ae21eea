use bedrockmate::rng::{get_structure_seed, next_int};
use bedrockmate::structures::{find_nether_structures, find_structures, StructureType};

fn dist_sq(x: i32, z: i32, cx: i32, cz: i32) -> i64 {
    let dx = (x as i64) - (cx as i64);
    let dz = (z as i64) - (cz as i64);
    dx * dx + dz * dz
}

#[test]
fn test_find_villages() {
    let results = find_structures(12345, 0, 0, 1000, StructureType::Village);
    println!("Found {} villages", results.len());
    for (name, x, z) in &results {
        println!("{}: X={}, Z={}", name, x, z);
    }
    assert!(!results.is_empty());
}

#[test]
fn test_find_nether_structures() {
    let results = find_nether_structures(12345, 0, 0, 500);
    println!("Found {} nether structures", results.len());
    for (name, x, z) in &results {
        println!("{}: X={}, Z={}", name, x, z);
    }
}

#[test]
fn structure_seed_exact() {
    assert_eq!(get_structure_seed(12345, 3, -2, 10387312), 759833810711);
}

#[test]
fn next_int_exact_draws() {
    let mut state = get_structure_seed(12345, 3, -2, 10387312);
    let ox = next_int(&mut state, 24);
    assert_eq!(state, 6994802070672357722);
    assert_eq!(ox, 11);
    let oz = next_int(&mut state, 24);
    assert_eq!(state, 1630867824994466849);
    assert_eq!(oz, 4);
}

#[test]
fn nether_kind_roll_exact() {
    let mut state = get_structure_seed(-99999, 0, 0, 30084232);
    let roll = next_int(&mut state, 100);
    assert_eq!(roll, 17);
}

#[test]
fn structures_deterministic() {
    let a = find_structures(12345, 100, -200, 2000, StructureType::OceanMonument);
    let b = find_structures(12345, 100, -200, 2000, StructureType::OceanMonument);
    assert_eq!(a, b);
}

#[test]
fn structures_within_radius() {
    for kind in [
        StructureType::Village,
        StructureType::PillagerOutpost,
        StructureType::Shipwreck,
        StructureType::BuriedTreasure,
    ] {
        let results = find_structures(987654321, -500, 750, 3000, kind);
        for (_, x, z) in &results {
            assert!(dist_sq(*x, *z, -500, 750) <= 3000i64 * 3000i64);
        }
    }
}

#[test]
fn structure_names_match_kind() {
    let results = find_structures(42, 0, 0, 5000, StructureType::WitchHut);
    for (name, _, _) in &results {
        assert_eq!(name, "Witch Hut");
    }
}

#[test]
fn kind_parameters() {
    assert_eq!(StructureType::Village.spacing(), 32);
    assert_eq!(StructureType::Village.separation(), 8);
    assert_eq!(StructureType::Village.salt(), 10387312);
    assert_eq!(StructureType::NetherFortress.spacing(), 30);
    assert_eq!(StructureType::BastionRemnant.salt(), 30084232);
    assert_eq!(StructureType::WoodlandMansion.display_name(), "Woodland Mansion");
}

#[test]
fn kind_separation_below_spacing() {
    for kind in [
        StructureType::Village,
        StructureType::PillagerOutpost,
        StructureType::OceanMonument,
        StructureType::WoodlandMansion,
        StructureType::NetherFortress,
        StructureType::BastionRemnant,
        StructureType::Igloo,
        StructureType::WitchHut,
        StructureType::Shipwreck,
        StructureType::BuriedTreasure,
    ] {
        assert!(kind.separation() < kind.spacing());
    }
}

#[test]
fn nether_deterministic() {
    let a = find_nether_structures(777, 250, -250, 1500);
    let b = find_nether_structures(777, 250, -250, 1500);
    assert_eq!(a, b);
}

#[test]
fn nether_quadrant_exclusive() {
    let results = find_nether_structures(12345, 0, 0, 5000);
    for (i, (_, xi, zi)) in results.iter().enumerate() {
        for (_, xj, zj) in results.iter().skip(i + 1) {
            let same = xi.div_euclid(480) == xj.div_euclid(480)
                && zi.div_euclid(480) == zj.div_euclid(480);
            assert!(!same);
        }
    }
}

#[test]
fn nether_result_count_bounded() {
    // at most one structure per quadrant of the expanded scan grid:
    // ceil((2 * 500 / 480 + 2)^2) quadrants for radius 500
    let results = find_nether_structures(12345, 0, 0, 500);
    assert!(results.len() <= 17);
}

#[test]
fn nether_names_are_the_two_kinds() {
    let results = find_nether_structures(2024, 0, 0, 3000);
    assert!(!results.is_empty());
    for (name, _, _) in &results {
        assert!(name == "Nether Fortress" || name == "Bastion Remnant");
    }
}

#[test]
fn nether_results_near_radius() {
    // emission is gated on fixed checkpoints, so a placed position can
    // overshoot the radius by at most 279 blocks on each axis
    let results = find_nether_structures(12345, 0, 0, 500);
    for (_, x, z) in &results {
        assert!(x.abs() <= 500 + 279);
        assert!(z.abs() <= 500 + 279);
    }
}
