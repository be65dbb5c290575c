//! Behaviour of the whole persistence layer over real encoded bytes: the
//! written streams decode under the `nrbf` parser, loading an empty
//! directory defaults everything, saving and reloading is the identity,
//! and malformed files fall back to defaults.

use save_data::classes::Classes;
use save_data::enums::Level;
use save_data::enums::Lockable;
use save_data::encode::encode_class;
use save_data::fields::FieldValue;
use save_data::store::FileAction;
use save_data::store::SaveDir;
use save_data::traits::ParsableClass;

fn empty_dir() -> SaveDir {
    SaveDir { files: Vec::new() }
}

/// Apply a save's actions to a directory model, as the surrounding program
/// applies them to disk.
fn apply(dir: &SaveDir, actions: &[FileAction]) -> SaveDir {
    let mut files: Vec<(String, Vec<u8>)> = dir.files.clone();
    for action in actions {
        match action {
            FileAction::Write(name, bytes) => {
                files.retain(|(n, _)| n != name);
                files.push((name.clone(), bytes.clone()));
            },
            FileAction::Delete(name) => {
                files.retain(|(n, _)| n != name);
            },
        }
    }
    SaveDir { files }
}

fn decoded_member<'a>(bytes: &'a [u8], name: &str) -> Option<nrbf::Value<'a>> {
    let msg = nrbf::RemotingMessage::parse(bytes).ok()?;
    match msg {
        nrbf::RemotingMessage::Value(nrbf::Value::Object(o)) => o.members.get(name).cloned(),
        _ => None,
    }
}

#[test]
fn empty_directory_loads_as_all_defaults() {
    let c = Classes::load(&empty_dir()).unwrap();
    assert_eq!(c.levels.len(), 31);
    assert_eq!(c.difficulty.len(), 4);
    assert_eq!(c.general.money, "0");
    assert!(!c.general.file_exists);
    assert!(!c.cybergrind.file_exists);
    assert_eq!(c.cybergrind.waves, vec!["0.0"; 6]);
    assert_eq!(c.cybergrind.kills, vec!["0"; 6]);
    for (i, l) in c.levels.iter().enumerate() {
        assert!(!l.file_exists);
        assert_eq!(l.ranks, vec![save_data::enums::LevelRank::Unranked; 6]);
        assert_eq!(
            l.secrets_found.len(),
            save_data::enums::Level::from_index(i).get_secret_count() as usize
        );
    }
    for d in &c.difficulty {
        assert!(!d.file_exists);
        assert_eq!(d.current_level, Some(Level::IntoTheFire));
        assert_eq!(d.prime_levels, vec![Lockable::Locked; 3]);
    }
}

#[test]
fn saving_untouched_defaults_only_deletes() {
    let c = Classes::load(&empty_dir()).unwrap();
    let plan = c.save();
    assert!(!plan.failed);
    assert_eq!(plan.actions.len(), 37);
    for a in &plan.actions {
        match a {
            FileAction::Delete(_) => {},
            FileAction::Write(name, _) => panic!("unexpected write of {name}"),
        }
    }
    let after = apply(&empty_dir(), &plan.actions);
    assert!(after.files.is_empty());
}

#[test]
fn money_write_decodes_under_the_codec() {
    // an empty directory, loaded, edited, and saved, writes exactly the
    // general-progress file
    let mut c = Classes::load(&empty_dir()).unwrap();
    c.general.money = String::from("500");
    c.general.file_exists = true;
    let plan = c.save();
    assert!(!plan.failed);
    let mut writes = 0;
    let mut general_bytes: Option<Vec<u8>> = None;
    for a in &plan.actions {
        if let FileAction::Write(name, bytes) = a {
            writes += 1;
            assert_eq!(name, "generalprogress.bepis");
            general_bytes = Some(bytes.clone());
        }
    }
    assert_eq!(writes, 1);
    let bytes = general_bytes.unwrap();
    assert_eq!(decoded_member(&bytes, "money"), Some(nrbf::Value::Int32(500)));
    assert_eq!(decoded_member(&bytes, "introSeen"), Some(nrbf::Value::Boolean(false)));
    match decoded_member(&bytes, "limboSwitches") {
        Some(nrbf::Value::Array(a)) => assert_eq!(a.len(), 4),
        other => panic!("limboSwitches came back as {other:?}"),
    }
    match decoded_member(&bytes, "secretMissions") {
        Some(nrbf::Value::Array(a)) => assert_eq!(a.len(), 10),
        other => panic!("secretMissions came back as {other:?}"),
    }
    // the file reloads to the edited slot
    let dir = apply(&empty_dir(), &plan.actions);
    let back = Classes::load(&dir).unwrap();
    assert_eq!(back.general.money, "500");
    assert!(back.general.file_exists);
    assert!(!back.cybergrind.file_exists);
}

#[test]
fn save_and_reload_is_identity() {
    let mut c = Classes::load(&empty_dir()).unwrap();
    c.general.money = String::from("1234");
    c.general.intro_seen = true;
    c.general.enemies_discovered[5] = Lockable::Completed;
    c.general.file_exists = true;
    c.cybergrind.waves[2] = String::from("17.5");
    c.cybergrind.kills[2] = String::from("321");
    c.cybergrind.file_exists = true;
    c.levels[0].secrets_found = vec![true, false, true, false, false];
    c.levels[0].ranks[1] = save_data::enums::LevelRank::P;
    c.levels[0].file_exists = true;
    c.difficulty[3].current_level = Some(Level::Leviathan);
    c.difficulty[3].prime_levels[1] = Lockable::Unlocked;
    c.difficulty[3].file_exists = true;

    let plan = c.save();
    assert!(!plan.failed);
    let dir = apply(&empty_dir(), &plan.actions);
    assert!(dir.files.iter().any(|(n, _)| n == "difficulty3progress.bepis"));
    assert!(dir.files.iter().any(|(n, _)| n == "lvl1progress.bepis"));
    let once = Classes::load(&dir).unwrap();
    let plan2 = once.save();
    assert!(!plan2.failed);
    let dir2 = apply(&dir, &plan2.actions);
    let twice = Classes::load(&dir2).unwrap();

    assert_eq!(once.general.money, twice.general.money);
    assert_eq!(once.general.money, "1234");
    assert_eq!(once.general.intro_seen, twice.general.intro_seen);
    assert_eq!(once.general.enemies_discovered, twice.general.enemies_discovered);
    assert_eq!(once.cybergrind.waves, twice.cybergrind.waves);
    assert_eq!(once.cybergrind.waves[2], "17.5");
    assert_eq!(once.cybergrind.kills, twice.cybergrind.kills);
    for i in 0..31 {
        assert_eq!(once.levels[i].ranks, twice.levels[i].ranks);
        assert_eq!(once.levels[i].secrets_found, twice.levels[i].secrets_found);
        assert_eq!(once.levels[i].file_exists, twice.levels[i].file_exists);
    }
    for i in 0..4 {
        assert_eq!(once.difficulty[i].current_level, twice.difficulty[i].current_level);
        assert_eq!(once.difficulty[i].prime_levels, twice.difficulty[i].prime_levels);
    }
}

#[test]
fn level_with_five_secrets_reloads_identically() {
    let mut c = Classes::load(&empty_dir()).unwrap();
    c.levels[0].secrets_found = vec![true, false, true, false, false];
    c.levels[0].file_exists = true;
    let plan = c.save();
    assert!(!plan.failed);
    let dir = apply(&empty_dir(), &plan.actions);

    let lvl_bytes = dir
        .files
        .iter()
        .find(|(n, _)| n == "lvl1progress.bepis")
        .map(|(_, b)| b.clone())
        .expect("the first level's file must be written");
    assert_eq!(decoded_member(&lvl_bytes, "secretsAmount"), Some(nrbf::Value::Int32(5)));

    let back = Classes::load(&dir).unwrap();
    assert_eq!(back.levels[0].secrets_found, vec![true, false, true, false, false]);
    assert!(back.levels[0].file_exists);
}

#[test]
fn existence_toggling_creates_and_deletes() {
    // toggling the flag on writes the current in-memory values
    let mut c = Classes::load(&empty_dir()).unwrap();
    c.cybergrind.file_exists = true;
    let plan = c.save();
    assert!(!plan.failed);
    let dir = apply(&empty_dir(), &plan.actions);
    assert!(dir.files.iter().any(|(n, _)| n == "cybergrindhighscore.bepis"));

    // toggling it off removes the file
    let mut c2 = Classes::load(&dir).unwrap();
    assert!(c2.cybergrind.file_exists);
    c2.cybergrind.file_exists = false;
    let plan2 = c2.save();
    assert!(!plan2.failed);
    let dir2 = apply(&dir, &plan2.actions);
    assert!(dir2.files.is_empty());
}

#[test]
fn unknown_files_are_ignored() {
    let dir = SaveDir {
        files: vec![(String::from("notes.txt"), vec![1, 2, 3])],
    };
    let c = Classes::load(&dir).unwrap();
    assert!(!c.general.file_exists);
    assert_eq!(c.levels.len(), 31);
}

#[test]
fn hostile_streams_load_as_defaults() {
    // a multi-dimensional array record whose null-count members overrun
    // its rows: the member kind lies outside the shape this format's
    // writers produce, so the file is refused and its record defaults
    let mut crafted: Vec<u8> = vec![0, 1, 0, 0, 0, 255, 255, 255, 255, 1, 0, 0, 0, 0, 0, 0, 0];
    crafted.extend_from_slice(&[7, 1, 0, 0, 0, 2, 2, 0, 0, 0, 1, 0, 0, 0, 2, 0, 0, 0, 2]);
    crafted.extend_from_slice(&[13, 3, 11]);
    let hostiles: Vec<Vec<u8>> = vec![
        crafted,
        vec![],
        vec![0],
        vec![255; 64],
        vec![0, 1, 0, 0, 0],
        (0..=255u8).collect(),
    ];
    for bytes in hostiles {
        let dir = SaveDir {
            files: vec![(String::from("generalprogress.bepis"), bytes)],
        };
        let c = Classes::load(&dir).unwrap();
        assert!(!c.general.file_exists);
        assert_eq!(c.general.money, "0");
    }
}

#[test]
fn truncated_file_loads_as_default() {
    let mut c = Classes::load(&empty_dir()).unwrap();
    c.general.money = String::from("900");
    c.general.file_exists = true;
    let plan = c.save();
    let dir = apply(&empty_dir(), &plan.actions);
    let (name, bytes) = dir.files[0].clone();
    let truncated = bytes[..bytes.len() / 2].to_vec();
    let dir = SaveDir { files: vec![(name, truncated)] };
    let back = Classes::load(&dir).unwrap();
    assert_eq!(back.general.money, "0");
    assert!(!back.general.file_exists);
}

#[test]
fn type_swapped_field_loads_as_default() {
    let mut c = Classes::load(&empty_dir()).unwrap();
    c.general.file_exists = true;
    let mut fields = c.general.unparse().unwrap();
    // a boolean where the consumer expects the money integer
    fields[0].1 = FieldValue::Bool(true);
    let bytes = encode_class("GameProgressMoneyAndGear", &fields).unwrap();
    let dir = SaveDir { files: vec![(String::from("generalprogress.bepis"), bytes)] };
    let back = Classes::load(&dir).unwrap();
    assert_eq!(back.general.money, "0");
    assert!(!back.general.file_exists);
}

#[test]
fn unrepresentable_text_stops_the_save() {
    let mut c = Classes::load(&empty_dir()).unwrap();
    c.general.money = String::from("not a number");
    c.general.file_exists = true;
    let plan = c.save();
    assert!(plan.failed);
    // everything ordered before general progress was still produced
    assert_eq!(plan.actions.len(), 36);
}

#[test]
fn float_text_crosses_the_wire_through_real_bits() {
    // a non-canonical float text is normalized by the wire's own type, so
    // handing the text back unchanged would be caught here
    let mut c = Classes::load(&empty_dir()).unwrap();
    c.cybergrind.waves[0] = String::from("1.50");
    c.cybergrind.file_exists = true;
    let plan = c.save();
    assert!(!plan.failed);
    let dir = apply(&empty_dir(), &plan.actions);
    let bytes = &dir.files[0].1;
    match decoded_member(bytes, "preciseWavesByDifficulty") {
        Some(nrbf::Value::Array(a)) => assert_eq!(a[0], nrbf::Value::Single(1.5)),
        other => panic!("waves came back as {other:?}"),
    }
    let back = Classes::load(&dir).unwrap();
    assert_eq!(back.cybergrind.waves[0], "1.5");
}
