use bedrockmate::biome::{find_nearest_biome, get_biome_at, BiomeType};

#[test]
fn test_get_biome() {
    let seed = 12345;
    let biome = get_biome_at(seed, 0, 0);
    println!("Biome at (0, 0): {:?}", biome);
}

#[test]
fn test_find_jungle() {
    let seed = 12345;
    match find_nearest_biome(seed, 0, 0, 10000, "jungle") {
        Some((x, z, dist_sq)) => {
            let dist = (dist_sq as f64).sqrt();
            println!("Found jungle at X={}, Z={} (distance: {:.0})", x, z, dist);
        }
        None => {
            println!("Jungle not found within range");
        }
    }
}

#[test]
fn classifier_total() {
    for x in (-4096..=4096).step_by(512) {
        for z in (-4096..=4096).step_by(512) {
            let biome = get_biome_at(12345, x, z);
            assert_ne!(biome, BiomeType::Unknown);
        }
    }
}

#[test]
fn classifier_deterministic() {
    for x in (-2048..=2048).step_by(256) {
        for z in (-2048..=2048).step_by(256) {
            assert_eq!(get_biome_at(999, x, z), get_biome_at(999, x, z));
        }
    }
}

#[test]
fn alias_equivalence() {
    assert_eq!(BiomeType::from_str("mesa"), BiomeType::from_str("badlands"));
    assert_eq!(BiomeType::from_str("mesa"), Some(BiomeType::Mesa));
    assert_eq!(
        BiomeType::from_str("mountain"),
        BiomeType::from_str("extreme_hills")
    );
    assert_eq!(BiomeType::from_str("mountain"), Some(BiomeType::Mountain));
    assert_eq!(
        BiomeType::from_str("mushroom_fields"),
        Some(BiomeType::Mushroom)
    );
    assert_eq!(BiomeType::from_str("icespikes"), Some(BiomeType::IceSpikes));
    assert_eq!(BiomeType::from_str("not_a_biome"), None);
}

#[test]
fn parse_is_case_insensitive() {
    assert_eq!(BiomeType::from_str("JUNGLE"), Some(BiomeType::Jungle));
    assert_eq!(BiomeType::from_str("Deep_Ocean"), Some(BiomeType::DeepOcean));
    assert_eq!(BiomeType::from_str("BADLANDS"), Some(BiomeType::Mesa));
}

#[test]
fn rarity_scores() {
    assert_eq!(BiomeType::Mushroom.rarity(), 95);
    assert_eq!(BiomeType::IceSpikes.rarity(), 85);
    assert_eq!(BiomeType::Mesa.rarity(), 80);
    assert_eq!(BiomeType::Jungle.rarity(), 60);
    assert_eq!(BiomeType::Plains.rarity(), 10);
}

#[test]
fn nearest_biome_unknown_name_is_none() {
    assert_eq!(find_nearest_biome(12345, 0, 0, 5000, "not_a_biome"), None);
}

#[test]
fn nearest_biome_matches_classifier() {
    let seed = 12345;
    let radius = 10000;
    if let Some((x, z, dist_sq)) = find_nearest_biome(seed, 0, 0, radius, "jungle") {
        assert_eq!(get_biome_at(seed, x, z), BiomeType::Jungle);
        assert!(dist_sq <= (radius as i64) * (radius as i64));
    }
}

#[test]
fn nearest_biome_deterministic() {
    let a = find_nearest_biome(555, 100, 100, 8000, "desert");
    let b = find_nearest_biome(555, 100, 100, 8000, "desert");
    assert_eq!(a, b);
}

#[test]
fn nearest_biome_sample_alignment() {
    // jungle has rarity 60 in hundredths, so the scan steps 128 blocks:
    // any hit lies on the 128-aligned sample grid anchored at the square's
    // low corner
    let radius = 10000;
    if let Some((x, z, _)) = find_nearest_biome(12345, 0, 0, radius, "jungle") {
        assert_eq!((x - (0 - radius)).rem_euclid(128), 0);
        assert_eq!((z - (0 - radius)).rem_euclid(128), 0);
    }
    // desert has rarity 30, so the scan steps 256 blocks
    if let Some((x, z, _)) = find_nearest_biome(12345, 0, 0, radius, "desert") {
        assert_eq!((x - (0 - radius)).rem_euclid(256), 0);
        assert_eq!((z - (0 - radius)).rem_euclid(256), 0);
    }
    // mushroom has rarity 95, so the scan steps 64 blocks
    if let Some((x, z, _)) = find_nearest_biome(12345, 0, 0, radius, "mushroom") {
        assert_eq!((x - (0 - radius)).rem_euclid(64), 0);
        assert_eq!((z - (0 - radius)).rem_euclid(64), 0);
    }
}
