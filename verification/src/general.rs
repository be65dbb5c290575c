//! General progress: money, story flags, and the total mappings from every
//! weapon variant, secret mission, enemy type, unlockable and customizable
//! weapon to its status. One record, one file.
//!
//! The wire layout mixes two boolean encodings: customization flags are
//! true booleans, per-variant weapon unlocks are nonzero integers. A fixed
//! set of legacy fields is always written as zero.

use vstd::prelude::*;
use crate::enums::Lockable;
use crate::enums::lemma_lockables_roundtrip;
use crate::enums::lockables_from_ints;
use crate::enums::lockables_of;
use crate::enums::lockables_to_int_vec;
use crate::enums::lockables_to_ints;
use crate::fields::ClassData;
use crate::fields::FieldMap;
use crate::fields::FieldModel;
use crate::fields::FieldValue;
use crate::fields::fm_get;
use crate::fields::fm_keys_distinct;
use crate::fields::fm_lookup;
use crate::fields::fm_model;
use crate::text::i32_dec;
use crate::text::i32_to_string;
use crate::text::parse_i32;
use crate::text::parse_i32_spec;
use crate::traits::ParsableClass;

verus! {

/// General progress: every mapping is total over its catalog, held as one
/// entry per variant in catalog order.
#[derive(Debug)]
pub struct GeneralData {
    /// Money, edited as integer text.
    pub money: String,
    pub intro_seen: bool,
    pub tutorial_beat: bool,
    pub clash_mode_unlocked: bool,
    /// Unlock flag per weapon variant, in `UnlockableWeaponVariant` order.
    pub unlocked_weapons: Vec<bool>,
    /// Lock status per secret mission, in `SecretLevel` order.
    pub secret_missions: Vec<Lockable>,
    /// The fixed-length switch-state array.
    pub limbo_switches: Vec<bool>,
    /// Discovery status per enemy, in `EnemyType` order.
    pub enemies_discovered: Vec<Lockable>,
    /// Found flag per unlockable, in `UnlockableType` order.
    pub unlockables_found: Vec<bool>,
    /// Customization flag per weapon, in `CustomizableWeaponType` order.
    pub weapons_customizable: Vec<bool>,
    /// Whether general progress has a backing file.
    pub file_exists: bool,
}

/// Mathematical model of the general-progress record.
#[verifier::ext_equal]
pub struct GeneralModel {
    pub money: Seq<char>,
    pub intro_seen: bool,
    pub tutorial_beat: bool,
    pub clash_mode_unlocked: bool,
    pub unlocked_weapons: Seq<bool>,
    pub secret_missions: Seq<Lockable>,
    pub limbo_switches: Seq<bool>,
    pub enemies_discovered: Seq<Lockable>,
    pub unlockables_found: Seq<bool>,
    pub weapons_customizable: Seq<bool>,
    pub file_exists: bool,
}

impl View for GeneralData {
    type V = GeneralModel;

    open spec fn view(&self) -> GeneralModel {
        GeneralModel {
            money: self.money@,
            intro_seen: self.intro_seen,
            tutorial_beat: self.tutorial_beat,
            clash_mode_unlocked: self.clash_mode_unlocked,
            unlocked_weapons: self.unlocked_weapons@,
            secret_missions: self.secret_missions@,
            limbo_switches: self.limbo_switches@,
            enemies_discovered: self.enemies_discovered@,
            unlockables_found: self.unlockables_found@,
            weapons_customizable: self.weapons_customizable@,
            file_exists: self.file_exists,
        }
    }
}

impl GeneralModel {
    /// The record's invariant: every mapping is total over its catalog, and
    /// the switch-state array has its fixed length.
    pub open spec fn wf(self) -> bool {
        &&& self.unlocked_weapons.len() == 16
        &&& self.secret_missions.len() == 10
        &&& self.limbo_switches.len() == 4
        &&& self.enemies_discovered.len() == 37
        &&& self.unlockables_found.len() == 2
        &&& self.weapons_customizable.len() == 5
    }
}

/// The name of the field written at each position of the record's fixed
/// layout: eight leading fields, the five customization flags, the sixteen
/// per-variant unlock fields, and the thirteen always-zero legacy fields.
pub open spec fn gd_name_at(i: int) -> Seq<char> {
    if i == 0 { "money"@ }
    else if i == 1 { "introSeen"@ }
    else if i == 2 { "tutorialBeat"@ }
    else if i == 3 { "clashModeUnlocked"@ }
    else if i == 4 { "secretMissions"@ }
    else if i == 5 { "limboSwitches"@ }
    else if i == 6 { "newEnemiesFound"@ }
    else if i == 7 { "unlockablesFound"@ }
    else if i == 8 { "revCustomizationUnlocked"@ }
    else if i == 9 { "shoCustomizationUnlocked"@ }
    else if i == 10 { "naiCustomizationUnlocked"@ }
    else if i == 11 { "raiCustomizationUnlocked"@ }
    else if i == 12 { "rockCustomizationUnlocked"@ }
    else if i == 13 { "rev0"@ }
    else if i == 14 { "rev2"@ }
    else if i == 15 { "rev1"@ }
    else if i == 16 { "revalt"@ }
    else if i == 17 { "sho0"@ }
    else if i == 18 { "sho1"@ }
    else if i == 19 { "nai0"@ }
    else if i == 20 { "nai1"@ }
    else if i == 21 { "naialt"@ }
    else if i == 22 { "rai0"@ }
    else if i == 23 { "rai2"@ }
    else if i == 24 { "rai1"@ }
    else if i == 25 { "rock0"@ }
    else if i == 26 { "rock1"@ }
    else if i == 27 { "arm1"@ }
    else if i == 28 { "arm2"@ }
    else if i == 29 { "rev3"@ }
    else if i == 30 { "sho2"@ }
    else if i == 31 { "sho3"@ }
    else if i == 32 { "nai2"@ }
    else if i == 33 { "nai3"@ }
    else if i == 34 { "rai3"@ }
    else if i == 35 { "rock2"@ }
    else if i == 36 { "rock3"@ }
    else if i == 37 { "beam0"@ }
    else if i == 38 { "beam1"@ }
    else if i == 39 { "beam2"@ }
    else if i == 40 { "beam3"@ }
    else { "arm3"@ }
}

/// The value written at each position, given the money already parsed.
pub open spec fn gd_field_at(m: GeneralModel, v: i32, i: int) -> FieldModel {
    if i == 0 { FieldModel::Int(v) }
    else if i == 1 { FieldModel::Bool(m.intro_seen) }
    else if i == 2 { FieldModel::Bool(m.tutorial_beat) }
    else if i == 3 { FieldModel::Bool(m.clash_mode_unlocked) }
    else if i == 4 { FieldModel::IntArray(lockables_to_ints(m.secret_missions)) }
    else if i == 5 { FieldModel::BoolArray(m.limbo_switches) }
    else if i == 6 { FieldModel::IntArray(lockables_to_ints(m.enemies_discovered)) }
    else if i == 7 { FieldModel::BoolArray(m.unlockables_found) }
    else if 8 <= i < 13 { FieldModel::Bool(m.weapons_customizable[i - 8]) }
    else if 13 <= i < 29 { FieldModel::Int(if m.unlocked_weapons[i - 13] { 1i32 } else { 0i32 }) }
    else { FieldModel::Int(0i32) }
}

/// No two positions of the layout share a name.
pub proof fn lemma_gd_names_distinct()
    ensures
        forall|i: int, j: int| 0 <= i < j < 42 ==> gd_name_at(i) != gd_name_at(j),
{
    reveal_strlit("money");
    reveal_strlit("introSeen");
    reveal_strlit("tutorialBeat");
    reveal_strlit("clashModeUnlocked");
    reveal_strlit("secretMissions");
    reveal_strlit("limboSwitches");
    reveal_strlit("newEnemiesFound");
    reveal_strlit("unlockablesFound");
    reveal_strlit("revCustomizationUnlocked");
    reveal_strlit("shoCustomizationUnlocked");
    reveal_strlit("naiCustomizationUnlocked");
    reveal_strlit("raiCustomizationUnlocked");
    reveal_strlit("rockCustomizationUnlocked");
    reveal_strlit("rev0");
    reveal_strlit("rev1");
    reveal_strlit("rev2");
    reveal_strlit("rev3");
    reveal_strlit("revalt");
    reveal_strlit("sho0");
    reveal_strlit("sho1");
    reveal_strlit("sho2");
    reveal_strlit("sho3");
    reveal_strlit("nai0");
    reveal_strlit("nai1");
    reveal_strlit("nai2");
    reveal_strlit("nai3");
    reveal_strlit("naialt");
    reveal_strlit("rai0");
    reveal_strlit("rai1");
    reveal_strlit("rai2");
    reveal_strlit("rai3");
    reveal_strlit("rock0");
    reveal_strlit("rock1");
    reveal_strlit("rock2");
    reveal_strlit("rock3");
    reveal_strlit("beam0");
    reveal_strlit("beam1");
    reveal_strlit("beam2");
    reveal_strlit("beam3");
    reveal_strlit("arm1");
    reveal_strlit("arm2");
    reveal_strlit("arm3");
    assert forall|i: int, j: int| 0 <= i < j < 42 implies gd_name_at(i) != gd_name_at(j) by {
        let a = gd_name_at(i);
        let b = gd_name_at(j);
        if a.len() == b.len() {
            if a.len() == 4 {
                assert(a[0] != b[0] || a[1] != b[1] || a[2] != b[2] || a[3] != b[3]);
            } else if a.len() == 5 {
                assert(a[0] != b[0] || a[1] != b[1] || a[3] != b[3] || a[4] != b[4]);
            } else if a.len() == 6 {
                assert(a[0] != b[0]);
            } else if a.len() == 24 {
                assert(a[0] != b[0] || a[1] != b[1]);
            }
        }
    }
}

/// The field name at each layout position, for reading and writing.
pub fn gd_field_name(i: usize) -> (r: &'static str)
    requires
        i < 42,
    ensures
        r@ == gd_name_at(i as int),
{
    match i {
        0 => "money",
        1 => "introSeen",
        2 => "tutorialBeat",
        3 => "clashModeUnlocked",
        4 => "secretMissions",
        5 => "limboSwitches",
        6 => "newEnemiesFound",
        7 => "unlockablesFound",
        8 => "revCustomizationUnlocked",
        9 => "shoCustomizationUnlocked",
        10 => "naiCustomizationUnlocked",
        11 => "raiCustomizationUnlocked",
        12 => "rockCustomizationUnlocked",
        13 => "rev0",
        14 => "rev2",
        15 => "rev1",
        16 => "revalt",
        17 => "sho0",
        18 => "sho1",
        19 => "nai0",
        20 => "nai1",
        21 => "naialt",
        22 => "rai0",
        23 => "rai2",
        24 => "rai1",
        25 => "rock0",
        26 => "rock1",
        27 => "arm1",
        28 => "arm2",
        29 => "rev3",
        30 => "sho2",
        31 => "sho3",
        32 => "nai2",
        33 => "nai3",
        34 => "rai3",
        35 => "rock2",
        36 => "rock3",
        37 => "beam0",
        38 => "beam1",
        39 => "beam2",
        40 => "beam3",
        _ => "arm3",
    }
}

/// Whether a lookup found a boolean field.
pub open spec fn found_bool(x: Option<FieldModel>) -> bool {
    match x {
        Some(FieldModel::Bool(_)) => true,
        _ => false,
    }
}

/// Whether a lookup found an integer field.
pub open spec fn found_int(x: Option<FieldModel>) -> bool {
    match x {
        Some(FieldModel::Int(_)) => true,
        _ => false,
    }
}

/// Whether the five customization flags are present as booleans.
pub open spec fn gd_cwt_ok(fields: Seq<(Seq<char>, FieldModel)>) -> bool {
    forall|i: int| 0 <= i < 5 ==> found_bool(#[trigger] fm_lookup(fields, gd_name_at(8 + i)))
}

pub open spec fn gd_cwt_vals(fields: Seq<(Seq<char>, FieldModel)>) -> Seq<bool> {
    Seq::new(5, |i: int| match fm_lookup(fields, gd_name_at(8 + i)) {
        Some(FieldModel::Bool(b)) => b,
        _ => false,
    })
}

/// Whether the sixteen per-variant unlock fields are present as integers.
pub open spec fn gd_uwv_ok(fields: Seq<(Seq<char>, FieldModel)>) -> bool {
    forall|i: int| 0 <= i < 16 ==> found_int(#[trigger] fm_lookup(fields, gd_name_at(13 + i)))
}

pub open spec fn gd_uwv_vals(fields: Seq<(Seq<char>, FieldModel)>) -> Seq<bool> {
    Seq::new(16, |i: int| match fm_lookup(fields, gd_name_at(13 + i)) {
        Some(FieldModel::Int(v)) => v != 0,
        _ => false,
    })
}

impl ParsableClass for GeneralData {
    open spec fn class_name_spec() -> Seq<char> {
        "GameProgressMoneyAndGear"@
    }

    open spec fn file_name_spec() -> Seq<char> {
        "generalprogress.bepis"@
    }

    open spec fn spec_parse(fields: Seq<(Seq<char>, FieldModel)>) -> Option<GeneralModel> {
        match (
            fm_lookup(fields, "money"@),
            fm_lookup(fields, "introSeen"@),
            fm_lookup(fields, "tutorialBeat"@),
            fm_lookup(fields, "clashModeUnlocked"@),
            fm_lookup(fields, "secretMissions"@),
            fm_lookup(fields, "limboSwitches"@),
            fm_lookup(fields, "newEnemiesFound"@),
            fm_lookup(fields, "unlockablesFound"@),
        ) {
            (
                Some(FieldModel::Int(money)),
                Some(FieldModel::Bool(intro)),
                Some(FieldModel::Bool(tutorial)),
                Some(FieldModel::Bool(clash)),
                Some(FieldModel::IntArray(sm)),
                Some(FieldModel::BoolArray(ls)),
                Some(FieldModel::IntArray(en)),
                Some(FieldModel::BoolArray(uf)),
            ) => {
                match (lockables_of(sm), lockables_of(en)) {
                    (Some(missions), Some(enemies)) => {
                        if missions.len() == 10 && ls.len() == 4 && enemies.len() == 37
                            && uf.len() == 2 && gd_cwt_ok(fields) && gd_uwv_ok(fields) {
                            Some(GeneralModel {
                                money: i32_dec(money),
                                intro_seen: intro,
                                tutorial_beat: tutorial,
                                clash_mode_unlocked: clash,
                                unlocked_weapons: gd_uwv_vals(fields),
                                secret_missions: missions,
                                limbo_switches: ls,
                                enemies_discovered: enemies,
                                unlockables_found: uf,
                                weapons_customizable: gd_cwt_vals(fields),
                                file_exists: true,
                            })
                        } else {
                            None
                        }
                    },
                    _ => None,
                }
            },
            _ => None,
        }
    }

    open spec fn spec_unparse(m: GeneralModel) -> Option<Seq<(Seq<char>, FieldModel)>> {
        match parse_i32_spec(m.money) {
            Some(v) => {
                if m.weapons_customizable.len() == 5 && m.unlocked_weapons.len() == 16 {
                    Some(Seq::new(42, |i: int| (gd_name_at(i), gd_field_at(m, v, i))))
                } else {
                    None
                }
            },
            None => None,
        }
    }

    open spec fn spec_default() -> GeneralModel {
        GeneralModel {
            money: "0"@,
            intro_seen: false,
            tutorial_beat: false,
            clash_mode_unlocked: false,
            unlocked_weapons: Seq::new(16, |i: int| false),
            secret_missions: Seq::new(10, |i: int| Lockable::Locked),
            limbo_switches: Seq::new(4, |i: int| false),
            enemies_discovered: Seq::new(37, |i: int| Lockable::Locked),
            unlockables_found: Seq::new(2, |i: int| false),
            weapons_customizable: Seq::new(5, |i: int| false),
            file_exists: false,
        }
    }

    open spec fn exists_spec(m: GeneralModel) -> bool {
        m.file_exists
    }

    fn class_name() -> (r: String) {
        String::from_str("GameProgressMoneyAndGear")
    }

    fn file_name() -> (r: String) {
        String::from_str("generalprogress.bepis")
    }

    fn parse(c: &ClassData) -> (r: Option<GeneralData>) {
        let money_wire: i32 = match fm_get(&c.fields, "money") {
            Some(FieldValue::Int(v)) => *v,
            _ => { return None; },
        };
        let intro_seen: bool = match fm_get(&c.fields, "introSeen") {
            Some(FieldValue::Bool(b)) => *b,
            _ => { return None; },
        };
        let tutorial_beat: bool = match fm_get(&c.fields, "tutorialBeat") {
            Some(FieldValue::Bool(b)) => *b,
            _ => { return None; },
        };
        let clash_mode_unlocked: bool = match fm_get(&c.fields, "clashModeUnlocked") {
            Some(FieldValue::Bool(b)) => *b,
            _ => { return None; },
        };
        let sm_wire: &Vec<i32> = match fm_get(&c.fields, "secretMissions") {
            Some(FieldValue::IntArray(a)) => a,
            _ => { return None; },
        };
        let limbo: &Vec<bool> = match fm_get(&c.fields, "limboSwitches") {
            Some(FieldValue::BoolArray(a)) => a,
            _ => { return None; },
        };
        let en_wire: &Vec<i32> = match fm_get(&c.fields, "newEnemiesFound") {
            Some(FieldValue::IntArray(a)) => a,
            _ => { return None; },
        };
        let found: &Vec<bool> = match fm_get(&c.fields, "unlockablesFound") {
            Some(FieldValue::BoolArray(a)) => a,
            _ => { return None; },
        };
        let secret_missions = match lockables_from_ints(sm_wire) {
            Some(v) => v,
            None => { return None; },
        };
        let enemies_discovered = match lockables_from_ints(en_wire) {
            Some(v) => v,
            None => { return None; },
        };
        if secret_missions.len() != 10 || limbo.len() != 4 || enemies_discovered.len() != 37
            || found.len() != 2 {
            return None;
        }
        let mut weapons_customizable: Vec<bool> = Vec::new();
        let mut i: usize = 8;
        while i < 13
            invariant
                8 <= i <= 13,
                weapons_customizable@.len() == i - 8,
                fm_model(c.fields@) == c@.fields,
                forall|k: int| 0 <= k < i - 8
                    ==> fm_lookup(c@.fields, gd_name_at(8 + k)) == Some(
                        FieldModel::Bool(#[trigger] weapons_customizable@[k]),
                    ),
            decreases 13 - i,
        {
            match fm_get(&c.fields, gd_field_name(i)) {
                Some(FieldValue::Bool(b)) => weapons_customizable.push(*b),
                _ => {
                    proof {
                        assert(!gd_cwt_ok(c@.fields)) by {
                            assert(!found_bool(fm_lookup(c@.fields, gd_name_at(8 + (i - 8) as int))));
                        }
                    }
                    return None;
                },
            }
            i = i + 1;
        }
        let mut unlocked_weapons: Vec<bool> = Vec::new();
        let mut j: usize = 13;
        while j < 29
            invariant
                13 <= j <= 29,
                unlocked_weapons@.len() == j - 13,
                fm_model(c.fields@) == c@.fields,
                forall|k: int| 0 <= k < j - 13 ==> found_int(
                    #[trigger] fm_lookup(c@.fields, gd_name_at(13 + k)),
                ),
                forall|k: int| 0 <= k < j - 13 ==> (#[trigger] unlocked_weapons@[k]) == (fm_lookup(
                    c@.fields,
                    gd_name_at(13 + k),
                ) != Some(FieldModel::Int(0i32))),
            decreases 29 - j,
        {
            let name = gd_field_name(j);
            let got = fm_get(&c.fields, name);
            match got {
                Some(fv) => {
                    proof {
                        assert(fm_lookup(c@.fields, gd_name_at(j as int)) == Some(fv@));
                    }
                    match fv {
                        FieldValue::Int(v) => {
                            let val: i32 = *v;
                            unlocked_weapons.push(val != 0);
                            proof {
                                assert(fv@ == FieldModel::Int(val));
                                assert(fm_lookup(c@.fields, gd_name_at(13 + (j - 13) as int))
                                    == Some(FieldModel::Int(val)));
                            }
                        },
                        _ => {
                            proof {
                                assert(!gd_uwv_ok(c@.fields)) by {
                                    assert(!found_int(fm_lookup(c@.fields, gd_name_at(13 + (j - 13) as int))));
                                }
                            }
                            return None;
                        },
                    }
                },
                None => {
                    proof {
                        assert(!gd_uwv_ok(c@.fields)) by {
                            assert(!found_int(fm_lookup(c@.fields, gd_name_at(13 + (j - 13) as int))));
                        }
                    }
                    return None;
                },
            }
            j = j + 1;
        }
        let ghost wcust = weapons_customizable@;
        let ghost uw = unlocked_weapons@;
        let out = GeneralData {
            money: i32_to_string(money_wire),
            intro_seen,
            tutorial_beat,
            clash_mode_unlocked,
            unlocked_weapons,
            secret_missions,
            limbo_switches: limbo.clone(),
            enemies_discovered,
            unlockables_found: found.clone(),
            weapons_customizable,
            file_exists: true,
        };
        proof {
            let fs = c@.fields;
            assert(gd_cwt_ok(fs)) by {
                assert forall|t: int| 0 <= t < 5 implies found_bool(
                    #[trigger] fm_lookup(fs, gd_name_at(8 + t)),
                ) by {
                    assert(fm_lookup(fs, gd_name_at(8 + t)) == Some(FieldModel::Bool(wcust[t])));
                }
            }
            assert(gd_uwv_ok(fs)) by {
                assert forall|t: int| 0 <= t < 16 implies found_int(
                    #[trigger] fm_lookup(fs, gd_name_at(13 + t)),
                ) by {
                    assert(found_int(fm_lookup(c@.fields, gd_name_at(13 + t))));
                }
            }
            assert(out@.weapons_customizable =~= gd_cwt_vals(fs)) by {
                assert forall|t: int| 0 <= t < 5 implies gd_cwt_vals(fs)[t] == wcust[t] by {
                    assert(fm_lookup(fs, gd_name_at(8 + t)) == Some(FieldModel::Bool(wcust[t])));
                }
            }
            assert(out@.unlocked_weapons =~= gd_uwv_vals(fs)) by {
                assert forall|t: int| 0 <= t < 16 implies gd_uwv_vals(fs)[t] == uw[t] by {
                    assert(found_int(fm_lookup(fs, gd_name_at(13 + t))));
                    assert(uw[t] == (fm_lookup(fs, gd_name_at(13 + t)) != Some(FieldModel::Int(0i32))));
                }
            }
            assert(Self::spec_parse(fs) == Some(out@)) by {
                assert(Self::spec_parse(fs) is Some);
                assert(out@ =~= Self::spec_parse(fs)->0);
            }
        }
        Some(out)
    }

    fn unparse(&self) -> (r: Option<FieldMap>) {
        let money_val: i32 = match parse_i32(self.money.as_str()) {
            Some(v) => v,
            None => { return None; },
        };
        if self.weapons_customizable.len() != 5 || self.unlocked_weapons.len() != 16 {
            // The fixed layout needs one entry per catalog variant.
            return None;
        }
        let ghost v = money_val;
        let ghost want = Seq::new(42, |i: int| (gd_name_at(i), gd_field_at(self@, v, i)));
        let mut m: FieldMap = Vec::new();
        m.push((String::from_str("money"), FieldValue::Int(money_val)));
        m.push((String::from_str("introSeen"), FieldValue::Bool(self.intro_seen)));
        m.push((String::from_str("tutorialBeat"), FieldValue::Bool(self.tutorial_beat)));
        m.push((String::from_str("clashModeUnlocked"), FieldValue::Bool(self.clash_mode_unlocked)));
        m.push((
            String::from_str("secretMissions"),
            FieldValue::IntArray(lockables_to_int_vec(&self.secret_missions)),
        ));
        m.push((String::from_str("limboSwitches"), FieldValue::BoolArray(self.limbo_switches.clone())));
        m.push((
            String::from_str("newEnemiesFound"),
            FieldValue::IntArray(lockables_to_int_vec(&self.enemies_discovered)),
        ));
        m.push((
            String::from_str("unlockablesFound"),
            FieldValue::BoolArray(self.unlockables_found.clone()),
        ));
        let mut i: usize = 8;
        while i < 13
            invariant
                8 <= i <= 13,
                m@.len() == i,
                self.weapons_customizable@.len() == 5,
                v == money_val,
                want == Seq::new(42, |k: int| (gd_name_at(k), gd_field_at(self@, v, k))),
                forall|k: int| 0 <= k < i ==> #[trigger] fm_model(m@)[k] == want[k],
            decreases 13 - i,
        {
            let name = gd_field_name(i);
            let b = self.weapons_customizable[i - 8];
            let entry = (String::from_str(name), FieldValue::Bool(b));
            let ghost m0 = m@;
            let ghost eg = entry;
            m.push(entry);
            proof {
                crate::fields::lemma_fm_model_push(m0, eg);
                assert(fm_model(m@)[i as int] == (name@, FieldModel::Bool(b)));
                assert(want[i as int] == (gd_name_at(i as int), FieldModel::Bool(b)));
            }
            i = i + 1;
        }
        let mut j: usize = 13;
        while j < 29
            invariant
                13 <= j <= 29,
                m@.len() == j,
                self.unlocked_weapons@.len() == 16,
                v == money_val,
                want == Seq::new(42, |k: int| (gd_name_at(k), gd_field_at(self@, v, k))),
                forall|k: int| 0 <= k < j ==> #[trigger] fm_model(m@)[k] == want[k],
            decreases 29 - j,
        {
            let name = gd_field_name(j);
            let unlocked = self.unlocked_weapons[j - 13];
            let w: i32 = if unlocked { 1 } else { 0 };
            let entry = (String::from_str(name), FieldValue::Int(w));
            let ghost m0 = m@;
            let ghost eg = entry;
            m.push(entry);
            proof {
                crate::fields::lemma_fm_model_push(m0, eg);
                assert(fm_model(m@)[j as int] == (name@, FieldModel::Int(w)));
                assert(want[j as int] == (gd_name_at(j as int), FieldModel::Int(w)));
            }
            j = j + 1;
        }
        let mut z: usize = 29;
        while z < 42
            invariant
                29 <= z <= 42,
                m@.len() == z,
                v == money_val,
                want == Seq::new(42, |k: int| (gd_name_at(k), gd_field_at(self@, v, k))),
                forall|k: int| 0 <= k < z ==> #[trigger] fm_model(m@)[k] == want[k],
            decreases 42 - z,
        {
            let name = gd_field_name(z);
            let entry = (String::from_str(name), FieldValue::Int(0));
            let ghost m0 = m@;
            let ghost eg = entry;
            m.push(entry);
            proof {
                crate::fields::lemma_fm_model_push(m0, eg);
                assert(fm_model(m@)[z as int] == (name@, FieldModel::Int(0i32)));
                assert(want[z as int] == (gd_name_at(z as int), FieldModel::Int(0i32)));
            }
            z = z + 1;
        }
        proof {
            assert(fm_model(m@) =~= want);
        }
        Some(m)
    }

    fn default_value() -> (r: GeneralData) {
        let r = GeneralData {
            money: String::from_str("0"),
            intro_seen: false,
            tutorial_beat: false,
            clash_mode_unlocked: false,
            unlocked_weapons: vec![
                false, false, false, false, false, false, false, false, false, false, false, false,
                false, false, false, false,
            ],
            secret_missions: vec![
                Lockable::Locked,
                Lockable::Locked,
                Lockable::Locked,
                Lockable::Locked,
                Lockable::Locked,
                Lockable::Locked,
                Lockable::Locked,
                Lockable::Locked,
                Lockable::Locked,
                Lockable::Locked,
            ],
            limbo_switches: vec![false, false, false, false],
            enemies_discovered: all_locked_enemies(),
            unlockables_found: vec![false, false],
            weapons_customizable: vec![false, false, false, false, false],
            file_exists: false,
        };
        proof {
            let want = Self::spec_default();
            assert(r@.unlocked_weapons =~= want.unlocked_weapons);
            assert(r@.secret_missions =~= want.secret_missions);
            assert(r@.limbo_switches =~= want.limbo_switches);
            assert(r@.enemies_discovered =~= want.enemies_discovered);
            assert(r@.unlockables_found =~= want.unlockables_found);
            assert(r@.weapons_customizable =~= want.weapons_customizable);
        }
        r
    }

    fn get_file_exists(&self) -> (r: bool) {
        self.file_exists
    }

    proof fn lemma_unparse_distinct(m: GeneralModel) {
        if Self::spec_unparse(m) is Some {
            lemma_gd_names_distinct();
            let f = Self::spec_unparse(m)->0;
            assert(fm_keys_distinct(f)) by {
                assert(forall|k: int| 0 <= k < 42 ==> (#[trigger] f[k]).0 == gd_name_at(k));
                assert(forall|i: int, j: int| 0 <= i < j < 42 ==> gd_name_at(i) != gd_name_at(j));
            }
        }
    }
}

impl Default for GeneralData {
    fn default() -> (r: GeneralData)
        ensures
            r@ == <GeneralData as ParsableClass>::spec_default(),
    {
        <GeneralData as ParsableClass>::default_value()
    }
}

/// One locked status per enemy in the catalog.
fn all_locked_enemies() -> (r: Vec<Lockable>)
    ensures
        r@ =~= Seq::new(37, |i: int| Lockable::Locked),
{
    let mut out: Vec<Lockable> = Vec::new();
    let mut i: usize = 0;
    while i < 37
        invariant
            0 <= i <= 37,
            out@.len() == i,
            forall|k: int| 0 <= k < i ==> #[trigger] out@[k] == Lockable::Locked,
        decreases 37 - i,
    {
        out.push(Lockable::Locked);
        i = i + 1;
    }
    out
}

/// A well-formed general-progress record's written fields are encodable
/// whenever they are written at all: every name of the fixed layout is
/// short and every array is small.
#[verifier::rlimit(100)]
pub proof fn lemma_general_encodable(m: GeneralModel)
    requires
        m.wf(),
    ensures
        <GeneralData as ParsableClass>::spec_unparse(m) matches Some(f)
            ==> crate::encode::encodable_class(
            <GeneralData as ParsableClass>::class_name_spec(),
            f,
        ),
{
    reveal_strlit("GameProgressMoneyAndGear");
    reveal_strlit("money");
    reveal_strlit("introSeen");
    reveal_strlit("tutorialBeat");
    reveal_strlit("clashModeUnlocked");
    reveal_strlit("secretMissions");
    reveal_strlit("limboSwitches");
    reveal_strlit("newEnemiesFound");
    reveal_strlit("unlockablesFound");
    reveal_strlit("revCustomizationUnlocked");
    reveal_strlit("shoCustomizationUnlocked");
    reveal_strlit("naiCustomizationUnlocked");
    reveal_strlit("raiCustomizationUnlocked");
    reveal_strlit("rockCustomizationUnlocked");
    reveal_strlit("rev0");
    reveal_strlit("rev2");
    reveal_strlit("rev1");
    reveal_strlit("revalt");
    reveal_strlit("sho0");
    reveal_strlit("sho1");
    reveal_strlit("nai0");
    reveal_strlit("nai1");
    reveal_strlit("naialt");
    reveal_strlit("rai0");
    reveal_strlit("rai2");
    reveal_strlit("rai1");
    reveal_strlit("rock0");
    reveal_strlit("rock1");
    reveal_strlit("arm1");
    reveal_strlit("arm2");
    reveal_strlit("rev3");
    reveal_strlit("sho2");
    reveal_strlit("sho3");
    reveal_strlit("nai2");
    reveal_strlit("nai3");
    reveal_strlit("rai3");
    reveal_strlit("rock2");
    reveal_strlit("rock3");
    reveal_strlit("beam0");
    reveal_strlit("beam1");
    reveal_strlit("beam2");
    reveal_strlit("beam3");
    reveal_strlit("arm3");
    crate::encode::lemma_library_name_short();
    assert(vstd::utf8::is_ascii_chars("GameProgressMoneyAndGear"@));
    crate::encode::lemma_ascii_utf8_len("GameProgressMoneyAndGear"@);
    assert(vstd::utf8::is_ascii_chars("money"@));
    crate::encode::lemma_ascii_utf8_len("money"@);
    assert(vstd::utf8::is_ascii_chars("introSeen"@));
    crate::encode::lemma_ascii_utf8_len("introSeen"@);
    assert(vstd::utf8::is_ascii_chars("tutorialBeat"@));
    crate::encode::lemma_ascii_utf8_len("tutorialBeat"@);
    assert(vstd::utf8::is_ascii_chars("clashModeUnlocked"@));
    crate::encode::lemma_ascii_utf8_len("clashModeUnlocked"@);
    assert(vstd::utf8::is_ascii_chars("secretMissions"@));
    crate::encode::lemma_ascii_utf8_len("secretMissions"@);
    assert(vstd::utf8::is_ascii_chars("limboSwitches"@));
    crate::encode::lemma_ascii_utf8_len("limboSwitches"@);
    assert(vstd::utf8::is_ascii_chars("newEnemiesFound"@));
    crate::encode::lemma_ascii_utf8_len("newEnemiesFound"@);
    assert(vstd::utf8::is_ascii_chars("unlockablesFound"@));
    crate::encode::lemma_ascii_utf8_len("unlockablesFound"@);
    assert(vstd::utf8::is_ascii_chars("revCustomizationUnlocked"@));
    crate::encode::lemma_ascii_utf8_len("revCustomizationUnlocked"@);
    assert(vstd::utf8::is_ascii_chars("shoCustomizationUnlocked"@));
    crate::encode::lemma_ascii_utf8_len("shoCustomizationUnlocked"@);
    assert(vstd::utf8::is_ascii_chars("naiCustomizationUnlocked"@));
    crate::encode::lemma_ascii_utf8_len("naiCustomizationUnlocked"@);
    assert(vstd::utf8::is_ascii_chars("raiCustomizationUnlocked"@));
    crate::encode::lemma_ascii_utf8_len("raiCustomizationUnlocked"@);
    assert(vstd::utf8::is_ascii_chars("rockCustomizationUnlocked"@));
    crate::encode::lemma_ascii_utf8_len("rockCustomizationUnlocked"@);
    assert(vstd::utf8::is_ascii_chars("rev0"@));
    crate::encode::lemma_ascii_utf8_len("rev0"@);
    assert(vstd::utf8::is_ascii_chars("rev2"@));
    crate::encode::lemma_ascii_utf8_len("rev2"@);
    assert(vstd::utf8::is_ascii_chars("rev1"@));
    crate::encode::lemma_ascii_utf8_len("rev1"@);
    assert(vstd::utf8::is_ascii_chars("revalt"@));
    crate::encode::lemma_ascii_utf8_len("revalt"@);
    assert(vstd::utf8::is_ascii_chars("sho0"@));
    crate::encode::lemma_ascii_utf8_len("sho0"@);
    assert(vstd::utf8::is_ascii_chars("sho1"@));
    crate::encode::lemma_ascii_utf8_len("sho1"@);
    assert(vstd::utf8::is_ascii_chars("nai0"@));
    crate::encode::lemma_ascii_utf8_len("nai0"@);
    assert(vstd::utf8::is_ascii_chars("nai1"@));
    crate::encode::lemma_ascii_utf8_len("nai1"@);
    assert(vstd::utf8::is_ascii_chars("naialt"@));
    crate::encode::lemma_ascii_utf8_len("naialt"@);
    assert(vstd::utf8::is_ascii_chars("rai0"@));
    crate::encode::lemma_ascii_utf8_len("rai0"@);
    assert(vstd::utf8::is_ascii_chars("rai2"@));
    crate::encode::lemma_ascii_utf8_len("rai2"@);
    assert(vstd::utf8::is_ascii_chars("rai1"@));
    crate::encode::lemma_ascii_utf8_len("rai1"@);
    assert(vstd::utf8::is_ascii_chars("rock0"@));
    crate::encode::lemma_ascii_utf8_len("rock0"@);
    assert(vstd::utf8::is_ascii_chars("rock1"@));
    crate::encode::lemma_ascii_utf8_len("rock1"@);
    assert(vstd::utf8::is_ascii_chars("arm1"@));
    crate::encode::lemma_ascii_utf8_len("arm1"@);
    assert(vstd::utf8::is_ascii_chars("arm2"@));
    crate::encode::lemma_ascii_utf8_len("arm2"@);
    assert(vstd::utf8::is_ascii_chars("rev3"@));
    crate::encode::lemma_ascii_utf8_len("rev3"@);
    assert(vstd::utf8::is_ascii_chars("sho2"@));
    crate::encode::lemma_ascii_utf8_len("sho2"@);
    assert(vstd::utf8::is_ascii_chars("sho3"@));
    crate::encode::lemma_ascii_utf8_len("sho3"@);
    assert(vstd::utf8::is_ascii_chars("nai2"@));
    crate::encode::lemma_ascii_utf8_len("nai2"@);
    assert(vstd::utf8::is_ascii_chars("nai3"@));
    crate::encode::lemma_ascii_utf8_len("nai3"@);
    assert(vstd::utf8::is_ascii_chars("rai3"@));
    crate::encode::lemma_ascii_utf8_len("rai3"@);
    assert(vstd::utf8::is_ascii_chars("rock2"@));
    crate::encode::lemma_ascii_utf8_len("rock2"@);
    assert(vstd::utf8::is_ascii_chars("rock3"@));
    crate::encode::lemma_ascii_utf8_len("rock3"@);
    assert(vstd::utf8::is_ascii_chars("beam0"@));
    crate::encode::lemma_ascii_utf8_len("beam0"@);
    assert(vstd::utf8::is_ascii_chars("beam1"@));
    crate::encode::lemma_ascii_utf8_len("beam1"@);
    assert(vstd::utf8::is_ascii_chars("beam2"@));
    crate::encode::lemma_ascii_utf8_len("beam2"@);
    assert(vstd::utf8::is_ascii_chars("beam3"@));
    crate::encode::lemma_ascii_utf8_len("beam3"@);
    assert(vstd::utf8::is_ascii_chars("arm3"@));
    crate::encode::lemma_ascii_utf8_len("arm3"@);
    assert forall|i: int| 0 <= i < 42 implies vstd::utf8::encode_utf8(
        #[trigger] gd_name_at(i),
    ).len() < 128 by {
    }
    if <GeneralData as ParsableClass>::spec_unparse(m) is Some {
        let v = crate::text::parse_i32_spec(m.money)->0;
        let f = <GeneralData as ParsableClass>::spec_unparse(m)->0;
        assert(lockables_to_ints(m.secret_missions).len() == 10);
        assert(lockables_to_ints(m.enemies_discovered).len() == 37);
        assert forall|i: int| 0 <= i < f.len() implies crate::encode::field_encodable(
            #[trigger] f[i],
        ) by {
            assert(f[i] == (gd_name_at(i), gd_field_at(m, v, i)));
            assert(vstd::utf8::encode_utf8(gd_name_at(i)).len() < 128);
        }
    }
}

/// Writing general progress and reading it back yields the record, with
/// its file marked present and money in canonical decimal form.
#[verifier::rlimit(100)]
pub proof fn lemma_general_roundtrip(m: GeneralModel)
    requires
        m.wf(),
        m.file_exists,
        parse_i32_spec(m.money) is Some,
        i32_dec(parse_i32_spec(m.money)->0) == m.money,
    ensures
        <GeneralData as ParsableClass>::spec_parse(
            <GeneralData as ParsableClass>::spec_unparse(m)->0,
        ) == Some(m),
{
    let v = parse_i32_spec(m.money)->0;
    let f = <GeneralData as ParsableClass>::spec_unparse(m)->0;
    lemma_gd_names_distinct();
    assert(forall|k: int| 0 <= k < 42 ==> (#[trigger] f[k]).0 == gd_name_at(k));
    assert forall|p: int| 0 <= p < 42 implies fm_lookup(f, gd_name_at(p)) == Some(
        gd_field_at(m, v, p),
    ) by {
        crate::fields::lemma_fm_lookup_at(f, gd_name_at(p), p);
    }
    assert(fm_lookup(f, gd_name_at(0)) == Some(gd_field_at(m, v, 0)));
    assert(fm_lookup(f, gd_name_at(1)) == Some(gd_field_at(m, v, 1)));
    assert(fm_lookup(f, gd_name_at(2)) == Some(gd_field_at(m, v, 2)));
    assert(fm_lookup(f, gd_name_at(3)) == Some(gd_field_at(m, v, 3)));
    assert(fm_lookup(f, gd_name_at(4)) == Some(gd_field_at(m, v, 4)));
    assert(fm_lookup(f, gd_name_at(5)) == Some(gd_field_at(m, v, 5)));
    assert(fm_lookup(f, gd_name_at(6)) == Some(gd_field_at(m, v, 6)));
    assert(fm_lookup(f, gd_name_at(7)) == Some(gd_field_at(m, v, 7)));
    assert(fm_lookup(f, "money"@) == Some(gd_field_at(m, v, 0)));
    assert(fm_lookup(f, "introSeen"@) == Some(gd_field_at(m, v, 1)));
    assert(fm_lookup(f, "tutorialBeat"@) == Some(gd_field_at(m, v, 2)));
    assert(fm_lookup(f, "clashModeUnlocked"@) == Some(gd_field_at(m, v, 3)));
    assert(fm_lookup(f, "secretMissions"@) == Some(gd_field_at(m, v, 4)));
    assert(fm_lookup(f, "limboSwitches"@) == Some(gd_field_at(m, v, 5)));
    assert(fm_lookup(f, "newEnemiesFound"@) == Some(gd_field_at(m, v, 6)));
    assert(fm_lookup(f, "unlockablesFound"@) == Some(gd_field_at(m, v, 7)));
    lemma_lockables_roundtrip(m.secret_missions);
    lemma_lockables_roundtrip(m.enemies_discovered);
    assert(lockables_to_ints(m.secret_missions).len() == 10);
    assert(lockables_to_ints(m.enemies_discovered).len() == 37);
    assert(gd_cwt_ok(f));
    assert(gd_uwv_ok(f));
    let got = <GeneralData as ParsableClass>::spec_parse(f)->0;
    assert(got.weapons_customizable =~= m.weapons_customizable);
    assert(got.unlocked_weapons =~= m.unlocked_weapons) by {
        assert(forall|k: int| 0 <= k < 16 ==> #[trigger] gd_uwv_vals(f)[k] == m.unlocked_weapons[k]);
    }
    assert(got =~= m);
}

} // verus!
