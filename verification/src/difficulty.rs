//! Per-difficulty progress: the current level reference and the lock status
//! of the prime sanctums, one record and one file per difficulty.

use vstd::prelude::*;
use crate::enums::Difficulty;
use crate::enums::Level;
use crate::enums::Lockable;
use crate::enums::lemma_lockables_roundtrip;
use crate::enums::lockables_from_ints;
use crate::enums::lockables_of;
use crate::enums::lockables_to_int_vec;
use crate::enums::lockables_to_ints;
use crate::fields::ClassData;
use crate::fields::FieldMap;
use crate::fields::FieldModel;
use crate::fields::fm_get;
use crate::fields::fm_keys_distinct;
use crate::fields::fm_lookup;
use crate::fields::fm_model;
use crate::fields::FieldValue;
use crate::traits::ParsableClassKeyed;

verus! {

/// The number written for an absent current level. It is read back as
/// absent, so the level that happens to carry this numeric id cannot be
/// stored as a current level.
pub open spec fn no_level_sentinel() -> int {
    26
}

/// Progress of one difficulty: where the campaign stands and which prime
/// sanctums are open.
#[derive(Debug)]
pub struct DifficultyData {
    /// The level the campaign stands at, if any.
    pub current_level: Option<Level>,
    /// Lock status of each prime sanctum, in order.
    pub prime_levels: Vec<Lockable>,
    /// Whether this difficulty has a backing file.
    pub file_exists: bool,
}

/// Mathematical model of a difficulty record.
pub struct DifficultyModel {
    pub current_level: Option<Level>,
    pub prime_levels: Seq<Lockable>,
    pub file_exists: bool,
}

impl View for DifficultyData {
    type V = DifficultyModel;

    open spec fn view(&self) -> DifficultyModel {
        DifficultyModel {
            current_level: self.current_level,
            prime_levels: self.prime_levels@,
            file_exists: self.file_exists,
        }
    }
}

impl DifficultyModel {
    /// The record's invariant: one lock status per prime sanctum.
    pub open spec fn wf(self) -> bool {
        self.prime_levels.len() == 3
    }
}

/// What the current-level field holds on the wire.
pub open spec fn current_level_to_num(l: Option<Level>) -> i32 {
    match l {
        Some(level) => level.number_spec() as i32,
        None => no_level_sentinel() as i32,
    }
}

/// What a wire number means as a current level: the sentinel means absent,
/// a level id means that level, anything else refuses the record.
pub open spec fn current_level_from_num(v: i32) -> Option<Option<Level>> {
    if v == no_level_sentinel() {
        Some(None)
    } else {
        match Level::from_number_spec(v as int) {
            Some(l) => Some(Some(l)),
            None => None,
        }
    }
}

impl ParsableClassKeyed<Difficulty> for DifficultyData {
    open spec fn class_name_spec() -> Seq<char> {
        "GameProgressData"@
    }

    open spec fn file_prefix_spec() -> Seq<char> {
        "difficulty"@
    }

    open spec fn file_suffix_spec() -> Seq<char> {
        "progress.bepis"@
    }

    open spec fn spec_parse(fields: Seq<(Seq<char>, FieldModel)>) -> Option<DifficultyModel> {
        match (fm_lookup(fields, "levelNum"@), fm_lookup(fields, "primeLevels"@)) {
            (Some(FieldModel::Int(v)), Some(FieldModel::IntArray(a))) => {
                match (current_level_from_num(v), lockables_of(a)) {
                    (Some(cl), Some(pl)) => {
                        if pl.len() == 3 {
                            Some(DifficultyModel { current_level: cl, prime_levels: pl, file_exists: true })
                        } else {
                            None
                        }
                    },
                    _ => None,
                }
            },
            _ => None,
        }
    }

    open spec fn spec_unparse(m: DifficultyModel, key: Difficulty) -> Option<Seq<(Seq<char>, FieldModel)>> {
        Some(seq![
            ("levelNum"@, FieldModel::Int(current_level_to_num(m.current_level))),
            ("difficulty"@, FieldModel::Int(key.index_spec() as i32)),
            ("primeLevels"@, FieldModel::IntArray(lockables_to_ints(m.prime_levels))),
        ])
    }

    open spec fn spec_create_new(key: Difficulty) -> DifficultyModel {
        DifficultyModel {
            current_level: Some(Level::IntoTheFire),
            prime_levels: seq![Lockable::Locked, Lockable::Locked, Lockable::Locked],
            file_exists: false,
        }
    }

    open spec fn exists_spec(m: DifficultyModel) -> bool {
        m.file_exists
    }

    fn class_name() -> (r: String) {
        String::from_str("GameProgressData")
    }

    fn file_prefix() -> (r: String) {
        String::from_str("difficulty")
    }

    fn file_suffix() -> (r: String) {
        String::from_str("progress.bepis")
    }

    fn parse(c: &ClassData) -> (r: Option<DifficultyData>) {
        let v: i32 = match fm_get(&c.fields, "levelNum") {
            Some(FieldValue::Int(v)) => *v,
            _ => { return None; },
        };
        let a: &Vec<i32> = match fm_get(&c.fields, "primeLevels") {
            Some(FieldValue::IntArray(a)) => a,
            _ => { return None; },
        };
        let current_level: Option<Level> = if v == 26 {
            None
        } else {
            match Level::from_number(if v >= 0 { v as u32 } else { 0 }) {
                Some(l) => Some(l),
                None => { return None; },
            }
        };
        let prime_levels = match lockables_from_ints(a) {
            Some(p) => p,
            None => { return None; },
        };
        if prime_levels.len() != 3 {
            return None;
        }
        Some(DifficultyData { current_level, prime_levels, file_exists: true })
    }

    fn unparse(&self, variant: &Difficulty) -> (r: Option<FieldMap>) {
        let level_num: i32 = match self.current_level {
            Some(l) => l.number() as i32,
            None => 26,
        };
        let idx = variant.index();
        let m: FieldMap = vec![
            (String::from_str("levelNum"), FieldValue::Int(level_num)),
            (String::from_str("difficulty"), FieldValue::Int(idx as i32)),
            (String::from_str("primeLevels"), FieldValue::IntArray(lockables_to_int_vec(&self.prime_levels))),
        ];
        proof {
            assert(fm_model(m@) =~= Self::spec_unparse(self@, *variant)->0);
        }
        Some(m)
    }

    fn create_new(variant: &Difficulty) -> (r: DifficultyData) {
        let r = DifficultyData {
            current_level: Some(Level::IntoTheFire),
            prime_levels: vec![Lockable::Locked, Lockable::Locked, Lockable::Locked],
            file_exists: false,
        };
        proof {
            assert(r@.prime_levels =~= Self::spec_create_new(*variant).prime_levels);
        }
        r
    }

    fn get_file_exists(&self) -> (r: bool) {
        self.file_exists
    }

    proof fn lemma_unparse_distinct(m: DifficultyModel, key: Difficulty) {
        reveal_strlit("levelNum");
        reveal_strlit("difficulty");
        reveal_strlit("primeLevels");
        let f = Self::spec_unparse(m, key)->0;
        assert(f[0].0 == "levelNum"@ && f[1].0 == "difficulty"@ && f[2].0 == "primeLevels"@);
        assert(fm_keys_distinct(f)) by {
            assert(f.len() == 3);
            assert(f[0].0 != f[1].0 && f[0].0 != f[2].0 && f[1].0 != f[2].0);
        }
    }
}

/// A well-formed difficulty record's written fields are always encodable:
/// its names are short, its one array is small, and it holds no text.
pub proof fn lemma_difficulty_encodable(m: DifficultyModel, key: Difficulty)
    requires
        m.wf(),
    ensures
        <DifficultyData as ParsableClassKeyed<Difficulty>>::spec_unparse(m, key) matches Some(f)
            ==> crate::encode::encodable_class(
            <DifficultyData as ParsableClassKeyed<Difficulty>>::class_name_spec(),
            f,
        ),
{
    reveal_strlit("GameProgressData");
    reveal_strlit("levelNum");
    reveal_strlit("difficulty");
    reveal_strlit("primeLevels");
    crate::encode::lemma_library_name_short();
    assert(vstd::utf8::is_ascii_chars("GameProgressData"@));
    crate::encode::lemma_ascii_utf8_len("GameProgressData"@);
    assert(vstd::utf8::is_ascii_chars("levelNum"@));
    crate::encode::lemma_ascii_utf8_len("levelNum"@);
    assert(vstd::utf8::is_ascii_chars("difficulty"@));
    crate::encode::lemma_ascii_utf8_len("difficulty"@);
    assert(vstd::utf8::is_ascii_chars("primeLevels"@));
    crate::encode::lemma_ascii_utf8_len("primeLevels"@);
    let f = <DifficultyData as ParsableClassKeyed<Difficulty>>::spec_unparse(m, key)->0;
    assert(lockables_to_ints(m.prime_levels).len() == 3);
    assert forall|i: int| 0 <= i < f.len() implies crate::encode::field_encodable(
        #[trigger] f[i],
    ) by {
        assert(f.len() == 3);
        assert(f[0].0 == "levelNum"@ && f[1].0 == "difficulty"@ && f[2].0 == "primeLevels"@);
    }
}

/// Writing a difficulty record and reading it back yields the record, with
/// its file marked present. The one excluded current level is the one whose
/// numeric id is the absent-level sentinel.
pub proof fn lemma_difficulty_roundtrip(m: DifficultyModel, key: Difficulty)
    requires
        m.wf(),
        m.file_exists,
        m.current_level != Some(Level::GardenOfForkingPaths),
    ensures
        <DifficultyData as ParsableClassKeyed<Difficulty>>::spec_parse(
            <DifficultyData as ParsableClassKeyed<Difficulty>>::spec_unparse(m, key)->0,
        ) == Some(m),
{
    reveal_strlit("levelNum");
    reveal_strlit("difficulty");
    reveal_strlit("primeLevels");
    let f = <DifficultyData as ParsableClassKeyed<Difficulty>>::spec_unparse(m, key)->0;
    assert(f[0].0 == "levelNum"@ && f[1].0 == "difficulty"@ && f[2].0 == "primeLevels"@);
    crate::fields::lemma_fm_lookup_at(f, "levelNum"@, 0);
    crate::fields::lemma_fm_lookup_at(f, "primeLevels"@, 2);
    assert(fm_lookup(f, "levelNum"@) == Some(FieldModel::Int(current_level_to_num(m.current_level))));
    assert(fm_lookup(f, "primeLevels"@) == Some(FieldModel::IntArray(lockables_to_ints(m.prime_levels))));
    lemma_lockables_roundtrip(m.prime_levels);
    match m.current_level {
        None => {
        },
        Some(l) => {
            Level::lemma_index_number(l);
            assert(l.number_spec() != 26) by {
                if l.number_spec() == 26 {
                    assert(l == Level::GardenOfForkingPaths);
                }
            }
        },
    }
    assert(lockables_to_ints(m.prime_levels).len() == 3);
}

} // verus!
