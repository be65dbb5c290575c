//! Behaviour of the record codecs: concrete round trips through the field
//! representation, refusal of malformed field maps, and the catalog
//! methods.

use std::str::FromStr;

use save_data::cybergrind::CybergrindData;
use save_data::difficulty::DifficultyData;
use save_data::enums::Act;
use save_data::enums::Difficulty;
use save_data::enums::Layer;
use save_data::enums::Level;
use save_data::enums::LevelRank;
use save_data::enums::Lockable;
use save_data::enums::SecretLevel;
use save_data::enums::VariantParseError;
use save_data::enums::WeaponType;
use save_data::fields::ClassData;
use save_data::fields::FieldValue;
use save_data::general::GeneralData;
use save_data::level::LevelData;
use save_data::traits::IntoFileInfix;
use save_data::traits::ParsableClass;
use save_data::traits::ParsableClassKeyed;

fn class_of(name: &str, fields: Vec<(String, FieldValue)>) -> ClassData {
    ClassData { name: String::from(name), fields }
}

#[test]
fn difficulty_round_trip() {
    let d = DifficultyData {
        current_level: Some(Level::Leviathan),
        prime_levels: vec![Lockable::Unlocked, Lockable::Locked, Lockable::Completed],
        file_exists: true,
    };
    let fields = d.unparse(&Difficulty::Violent).unwrap();
    let back = DifficultyData::parse(&class_of("GameProgressData", fields)).unwrap();
    assert_eq!(back.current_level, Some(Level::Leviathan));
    assert_eq!(
        back.prime_levels,
        vec![Lockable::Unlocked, Lockable::Locked, Lockable::Completed]
    );
    assert!(back.file_exists);
}

#[test]
fn difficulty_absent_level_round_trip() {
    let d = DifficultyData {
        current_level: None,
        prime_levels: vec![Lockable::Locked, Lockable::Locked, Lockable::Locked],
        file_exists: true,
    };
    let fields = d.unparse(&Difficulty::Harmless).unwrap();
    let back = DifficultyData::parse(&class_of("GameProgressData", fields)).unwrap();
    assert_eq!(back.current_level, None);
}

#[test]
fn difficulty_rejects_unknown_discriminant() {
    let d = DifficultyData {
        current_level: None,
        prime_levels: vec![Lockable::Locked, Lockable::Locked, Lockable::Locked],
        file_exists: true,
    };
    let mut fields = d.unparse(&Difficulty::Harmless).unwrap();
    // an unknown lock status refuses the record
    fields[2].1 = FieldValue::IntArray(vec![0, 9, 0]);
    assert!(DifficultyData::parse(&class_of("GameProgressData", fields)).is_none());
}

#[test]
fn level_round_trip_with_five_secrets() {
    let l = LevelData {
        ranks: vec![
            LevelRank::S,
            LevelRank::A,
            LevelRank::Unranked,
            LevelRank::P,
            LevelRank::D,
            LevelRank::C,
        ],
        secrets_found: vec![true, false, true, false, false],
        challenge: true,
        major_assists: vec![false, false, true, false, false, false],
        file_exists: true,
    };
    let fields = l.unparse(&Level::IntoTheFire).unwrap();
    // the level writes its secrets count from the array it holds
    let secrets_amount = fields
        .iter()
        .find(|(n, _)| n == "secretsAmount")
        .map(|(_, v)| v.clone())
        .unwrap();
    match secrets_amount {
        FieldValue::Int(n) => assert_eq!(n, 5),
        _ => panic!("secretsAmount must be an integer"),
    }
    let back = LevelData::parse(&class_of("RankData", fields)).unwrap();
    assert_eq!(back.secrets_found, vec![true, false, true, false, false]);
    assert_eq!(back.ranks[3], LevelRank::P);
    assert!(back.challenge);
}

#[test]
fn level_parse_rejects_wrong_rank_count() {
    let l = LevelData {
        ranks: vec![LevelRank::S; 6],
        secrets_found: vec![],
        challenge: false,
        major_assists: vec![false; 6],
        file_exists: true,
    };
    let mut fields = l.unparse(&Level::Cerberus).unwrap();
    fields[0].1 = FieldValue::IntArray(vec![4, 4, 4]);
    assert!(LevelData::parse(&class_of("RankData", fields)).is_none());
}

#[test]
fn cybergrind_round_trip() {
    let c = CybergrindData {
        waves: vec![
            String::from("12.5"),
            String::from("0.0"),
            String::from("0"),
            String::from("3"),
            String::from("4.25"),
            String::from("5"),
        ],
        kills: vec![
            String::from("10"),
            String::from("0"),
            String::from("0"),
            String::from("3"),
            String::from("4"),
            String::from("5"),
        ],
        style: vec![String::from("0"); 6],
        times: vec![String::from("61.5"); 6],
        file_exists: true,
    };
    let fields = c.unparse().unwrap();
    let back = CybergrindData::parse(&class_of("CyberRankData", fields)).unwrap();
    assert_eq!(back.waves[0], "12.5");
    assert_eq!(back.kills, c.kills);
    assert_eq!(back.times[5], "61.5");
}

#[test]
fn cybergrind_unparse_refuses_bad_text() {
    let mut c = CybergrindData::default();
    c.file_exists = true;
    c.kills[2] = String::from("12a");
    assert!(c.unparse().is_none());

    let mut c = CybergrindData::default();
    c.waves[0] = String::from("1.2.3");
    assert!(c.unparse().is_none());

    // text that does not parse makes the save fail; the empty text included
    let mut c = CybergrindData::default();
    c.file_exists = true;
    c.kills[1] = String::new();
    assert!(c.unparse().is_none());

    let mut c = CybergrindData::default();
    c.file_exists = true;
    c.waves[1] = String::new();
    assert!(c.unparse().is_none());
}

#[test]
fn general_round_trip() {
    let mut g = GeneralData::default();
    g.money = String::from("500");
    g.intro_seen = true;
    g.unlocked_weapons[3] = true;
    g.secret_missions[2] = Lockable::Completed;
    g.limbo_switches[1] = true;
    g.enemies_discovered[36] = Lockable::Unlocked;
    g.unlockables_found[1] = true;
    g.weapons_customizable[0] = true;
    g.file_exists = true;
    let fields = g.unparse().unwrap();
    assert_eq!(fields.len(), 42);
    let back = GeneralData::parse(&class_of("GameProgressMoneyAndGear", fields)).unwrap();
    assert_eq!(back.money, "500");
    assert!(back.intro_seen && !back.tutorial_beat);
    assert_eq!(back.unlocked_weapons, g.unlocked_weapons);
    assert_eq!(back.secret_missions, g.secret_missions);
    assert_eq!(back.limbo_switches, g.limbo_switches);
    assert_eq!(back.enemies_discovered, g.enemies_discovered);
    assert_eq!(back.unlockables_found, g.unlockables_found);
    assert_eq!(back.weapons_customizable, g.weapons_customizable);
}

#[test]
fn general_money_normalizes_to_canonical_decimal() {
    let mut g = GeneralData::default();
    g.money = String::from("007");
    g.file_exists = true;
    let fields = g.unparse().unwrap();
    let back = GeneralData::parse(&class_of("GameProgressMoneyAndGear", fields)).unwrap();
    assert_eq!(back.money, "7");
}

#[test]
fn general_unparse_refuses_bad_money() {
    let mut g = GeneralData::default();
    g.money = String::from("lots");
    g.file_exists = true;
    assert!(g.unparse().is_none());
}

#[test]
fn general_parse_rejects_swapped_type() {
    let mut g = GeneralData::default();
    g.file_exists = true;
    let mut fields = g.unparse().unwrap();
    // an integer where a boolean is expected refuses the record
    assert_eq!(fields[1].0, "introSeen");
    fields[1].1 = FieldValue::Int(1);
    assert!(GeneralData::parse(&class_of("GameProgressMoneyAndGear", fields)).is_none());
}

#[test]
fn general_parse_rejects_missing_field() {
    let g = GeneralData::default();
    let mut fields = g.unparse().unwrap();
    fields.remove(0);
    assert!(GeneralData::parse(&class_of("GameProgressMoneyAndGear", fields)).is_none());
}

#[test]
fn catalogs_and_lookups() {
    assert_eq!(WeaponType::Revolver.get_unlockable_variants().len(), 4);
    assert_eq!(WeaponType::Shotgun.get_unlockable_variants().len(), 2);
    assert!(WeaponType::Arm.get_customizable().is_none());
    assert!(WeaponType::Revolver.get_customizable().is_some());
    assert!(SecretLevel::SoulSurvivor.is_prime());
    assert!(!SecretLevel::TheWitless.is_prime());
    assert_eq!(Act::Prelude.get_layers(), vec![Layer::Overture]);
    assert_eq!(Act::Act3.get_layers().len(), 3);
    assert_eq!(Layer::Overture.get_levels().len(), 5);
    assert_eq!(Layer::Fraud.get_levels().len(), 0);
    assert_eq!(Layer::Gluttony.get_secret_level(), SecretLevel::SoulSurvivor);
    assert!(Level::SoulSurvivor.is_prime());
    assert!(!Level::Leviathan.is_prime());
    assert_eq!(Level::SoulSurvivor.get_prime_index(), Some(0));
    assert_eq!(Level::WaitOfTheWorld.get_prime_index(), Some(1));
    assert_eq!(Level::Bridgeburner.get_prime_index(), None);
    assert_eq!(Level::IntoTheFire.get_secret_count(), 5);
    assert_eq!(Level::DoubleDown.get_secret_count(), 3);
    assert_eq!(Level::Cerberus.get_secret_count(), 0);
    assert_eq!(Level::SoulSurvivor.number(), 666);
    assert_eq!(Level::WaitOfTheWorld.number(), 667);
    assert_eq!(Level::GardenOfForkingPaths.number(), 26);
}

#[test]
fn variant_parsing_from_text() {
    assert_eq!(Difficulty::from_str("2"), Ok(Difficulty::Standard));
    assert_eq!(Difficulty::from_str("9"), Err(VariantParseError::InvalidVariant));
    assert_eq!(Difficulty::from_str("x"), Err(VariantParseError::ParseIntError));
    // numeric text beyond one wire byte fails as a number, as reading u8 does
    assert_eq!(Difficulty::from_str("256"), Err(VariantParseError::ParseIntError));
    assert_eq!(Level::from_str("1"), Ok(Level::IntoTheFire));
    assert_eq!(Level::from_str("666"), Ok(Level::SoulSurvivor));
    assert_eq!(Level::from_str("30"), Err(VariantParseError::InvalidVariant));
    assert_eq!(Level::from_str(""), Err(VariantParseError::ParseIntError));
    assert_eq!(Level::from_str("70000"), Err(VariantParseError::ParseIntError));
    assert_eq!(Difficulty::Violent.into_file_infix(), "3");
    assert_eq!(Level::SoulSurvivor.into_file_infix(), "666");
}

#[test]
fn rank_mapping_refuses_unknown_discriminants() {
    assert_eq!(LevelRank::from_i32(-1), Some(LevelRank::Unranked));
    assert_eq!(LevelRank::from_i32(0), Some(LevelRank::D));
    assert_eq!(LevelRank::from_i32(4), Some(LevelRank::S));
    assert_eq!(LevelRank::from_i32(12), Some(LevelRank::P));
    assert_eq!(LevelRank::from_i32(-5), None);
    assert_eq!(LevelRank::from_i32(5), None);
    assert_eq!(LevelRank::from_i32(11), None);
    assert_eq!(LevelRank::from_i32(13), None);
    assert_eq!(LevelRank::P.to_i32(), 12);
    assert_eq!(LevelRank::Unranked.to_i32(), -1);
}

#[test]
fn level_parse_rejects_unknown_rank_discriminant() {
    let l = LevelData {
        ranks: vec![LevelRank::S; 6],
        secrets_found: vec![],
        challenge: false,
        major_assists: vec![false; 6],
        file_exists: true,
    };
    let mut fields = l.unparse(&Level::Cerberus).unwrap();
    // 5 names no rank on the wire
    fields[0].1 = FieldValue::IntArray(vec![4, 4, 5, 4, 4, 4]);
    assert!(LevelData::parse(&class_of("RankData", fields)).is_none());
}
