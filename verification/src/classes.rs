//! The aggregate root of one save slot: general progress, the minigame
//! high scores, one difficulty record per difficulty, one level record per
//! level. Loading never fails; saving stops at the first record whose text
//! fields cannot be represented.

use vstd::prelude::*;
use crate::cybergrind::CybergrindData;
use crate::cybergrind::CybergrindModel;
use crate::cybergrind::float_texts_ok;
use crate::cybergrind::int_canon_texts;
use crate::cybergrind::int_texts_to_ints;
use crate::cybergrind::lemma_cybergrind_encodable;
use crate::cybergrind::lemma_cybergrind_roundtrip;
use crate::difficulty::DifficultyData;
use crate::difficulty::DifficultyModel;
use crate::difficulty::lemma_difficulty_encodable;
use crate::difficulty::lemma_difficulty_roundtrip;
use crate::enums::Difficulty;
use crate::enums::Level;
use crate::general::GeneralData;
use crate::general::GeneralModel;
use crate::general::lemma_general_encodable;
use crate::general::lemma_general_roundtrip;
use crate::level::LevelData;
use crate::level::LevelModel;
use crate::level::lemma_level_encodable;
use crate::level::lemma_level_roundtrip;
use crate::encode::encodable_class;
use crate::encode::encode_class_spec;
use crate::store::ActionModel;
use crate::store::FileAction;
use crate::store::SaveDir;
use crate::store::load_keyed;
use crate::store::load_single;
use crate::store::save_keyed;
use crate::store::save_single;
use crate::store::spec_load_keyed_at;
use crate::store::spec_load_single;
use crate::store::spec_save_keyed_at;
use crate::store::spec_save_single;
use crate::store::dir_lookup;
use crate::text::dec_chars;
use crate::text::i32_dec;
use crate::text::parse_i32_spec;
use crate::traits::ParsableClass;
use crate::traits::ParsableClassKeyed;

verus! {

/// One save slot: every record family total over its catalog.
#[derive(Debug)]
pub struct Classes {
    /// One record per level, in `Level` catalog order.
    pub levels: Vec<LevelData>,
    pub cybergrind: CybergrindData,
    /// One record per difficulty, in `Difficulty` catalog order.
    pub difficulty: Vec<DifficultyData>,
    pub general: GeneralData,
}

/// Mathematical model of one save slot.
#[verifier::ext_equal]
pub struct ClassesModel {
    pub levels: Seq<LevelModel>,
    pub cybergrind: CybergrindModel,
    pub difficulty: Seq<DifficultyModel>,
    pub general: GeneralModel,
}

impl View for Classes {
    type V = ClassesModel;

    open spec fn view(&self) -> ClassesModel {
        ClassesModel {
            levels: self.levels@.map_values(|x: LevelData| x@),
            cybergrind: self.cybergrind@,
            difficulty: self.difficulty@.map_values(|x: DifficultyData| x@),
            general: self.general@,
        }
    }
}

impl ClassesModel {
    /// The aggregate invariant: both keyed families are total over their
    /// catalogs.
    pub open spec fn wf(self) -> bool {
        self.levels.len() == Level::count_spec() && self.difficulty.len()
            == Difficulty::count_spec()
    }
}

/// What loading a directory yields: every record, each falling back to its
/// default or fresh value independently; the mapping families are total.
pub open spec fn spec_load_classes(d: Seq<(Seq<char>, Seq<u8>)>) -> ClassesModel {
    ClassesModel {
        levels: Seq::new(Level::count_spec() as nat, |i: int| spec_load_keyed_at::<
            Level,
            LevelData,
        >(d, i)),
        cybergrind: spec_load_single::<CybergrindData>(d),
        difficulty: Seq::new(Difficulty::count_spec() as nat, |i: int| spec_load_keyed_at::<
            Difficulty,
            DifficultyData,
        >(d, i)),
        general: spec_load_single::<GeneralData>(d),
    }
}

/// Whether every record of the slot can be written: text fields parse and
/// the fixed layouts are encodable.
pub open spec fn classes_savable(c: ClassesModel) -> bool {
    &&& forall|i: int| 0 <= i < c.levels.len() ==> spec_save_keyed_at::<Level, LevelData>(
        #[trigger] c.levels[i],
        i,
    ) is Some
    &&& spec_save_single::<CybergrindData>(c.cybergrind) is Some
    &&& forall|i: int| 0 <= i < c.difficulty.len() ==> spec_save_keyed_at::<
        Difficulty,
        DifficultyData,
    >(#[trigger] c.difficulty[i], i) is Some
    &&& spec_save_single::<GeneralData>(c.general) is Some
}

/// How many file actions a full save produces: one per record.
pub open spec fn save_slot_count() -> int {
    Level::count_spec() + 1 + Difficulty::count_spec() + 1
}

/// The action a full save produces at each position: the level records
/// first, then the minigame, the difficulties, and general progress.
pub open spec fn slot_action_at(c: ClassesModel, i: int) -> Option<ActionModel> {
    if i < Level::count_spec() {
        spec_save_keyed_at::<Level, LevelData>(c.levels[i], i)
    } else if i == Level::count_spec() {
        spec_save_single::<CybergrindData>(c.cybergrind)
    } else if i < Level::count_spec() + 1 + Difficulty::count_spec() {
        spec_save_keyed_at::<Difficulty, DifficultyData>(
            c.difficulty[i - (Level::count_spec() + 1)],
            i - (Level::count_spec() + 1),
        )
    } else {
        spec_save_single::<GeneralData>(c.general)
    }
}

/// What a save pass produced: the file actions to apply in order, and
/// whether it stopped early on an unrepresentable record.
#[derive(Debug)]
pub struct SavePlan {
    pub actions: Vec<FileAction>,
    pub failed: bool,
}

impl Classes {
    /// Load one save slot from a directory. It always succeeds: a missing
    /// or malformed file only defaults its own record.
    pub fn load(dir: &SaveDir) -> (r: Option<Classes>)
        ensures
            r matches Some(c) && c@ == spec_load_classes(dir@),
    {
        let levels = load_keyed::<Level, LevelData>(dir);
        let cybergrind = load_single::<CybergrindData>(dir);
        let difficulty = load_keyed::<Difficulty, DifficultyData>(dir);
        let general = load_single::<GeneralData>(dir);
        let c = Classes { levels, cybergrind, difficulty, general };
        proof {
            let want = spec_load_classes(dir@);
            assert(c@.levels =~= want.levels);
            assert(c@.difficulty =~= want.difficulty);
            assert(c@ =~= want);
        }
        Some(c)
    }

    /// Save one save slot: one action per record in a fixed order (levels,
    /// the minigame, difficulties, general progress), stopping at the first
    /// record whose fields cannot be represented. Actions produced before
    /// the stop stand, as a failed save may leave a partial directory.
    #[verifier::rlimit(100)]
    pub fn save(&self) -> (r: SavePlan)
        requires
            self@.wf(),
        ensures
            r.failed == !classes_savable(self@),
            !r.failed ==> r.actions@.len() == Level::count_spec() + 1 + Difficulty::count_spec()
                + 1,
            !r.failed ==> forall|i: int| 0 <= i < Level::count_spec() ==> (#[trigger] r.actions@[
                i])@ == spec_save_keyed_at::<Level, LevelData>(self@.levels[i], i)->0,
            !r.failed ==> r.actions@[Level::count_spec()]@ == spec_save_single::<CybergrindData>(
                self@.cybergrind,
            )->0,
            !r.failed ==> forall|i: int| 0 <= i < Difficulty::count_spec() ==> (#[trigger] r.actions@[
                Level::count_spec() + 1 + i])@ == spec_save_keyed_at::<Difficulty, DifficultyData>(
                self@.difficulty[i],
                i,
            )->0,
            !r.failed ==> r.actions@[Level::count_spec() + 1 + Difficulty::count_spec()]@
                == spec_save_single::<GeneralData>(self@.general)->0,
            r.failed ==> r.actions@.len() < save_slot_count(),
            r.failed ==> slot_action_at(self@, r.actions@.len() as int) is None,
            r.failed ==> forall|j: int| 0 <= j < r.actions@.len() ==> slot_action_at(self@, j)
                is Some && (#[trigger] r.actions@[j])@ == slot_action_at(self@, j)->0,
    {
        proof {
            assert(forall|i: int| 0 <= i < self.levels@.len() ==> #[trigger] self@.levels[i]
                == self.levels@[i]@);
            assert(forall|i: int| 0 <= i < self.difficulty@.len() ==> #[trigger] self@.difficulty[
                i] == self.difficulty@[i]@);
        }
        let mut actions: Vec<FileAction> = Vec::new();
        if !save_keyed::<Level, LevelData>(&self.levels, &mut actions) {
            proof {
                assert(!classes_savable(self@)) by {
                    if classes_savable(self@) {
                        assert forall|i: int| 0 <= i < self.levels@.len() implies spec_save_keyed_at::<
                            Level,
                            LevelData,
                        >((#[trigger] self.levels@[i])@, i) is Some by {
                            assert(self@.levels[i] == self.levels@[i]@);
                            assert(spec_save_keyed_at::<Level, LevelData>(self@.levels[i], i)
                                is Some);
                        }
                    }
                }
                assert(actions@.len() < Level::count_spec());
                assert(slot_action_at(self@, actions@.len() as int) is None) by {
                    assert(self@.levels[actions@.len() as int]
                        == self.levels@[actions@.len() as int]@);
                }
                assert forall|j: int| 0 <= j < actions@.len() implies slot_action_at(self@, j)
                    is Some && (#[trigger] actions@[j])@ == slot_action_at(self@, j)->0 by {
                    assert(self@.levels[j] == self.levels@[j]@);
                    assert((actions@[0 + j])@ == spec_save_keyed_at::<Level, LevelData>(
                        self.levels@[j]@,
                        j,
                    )->0);
                }
            }
            return SavePlan { actions, failed: true };
        }
        let ghost a1 = actions@;
        let cyber_action = match save_single::<CybergrindData>(&self.cybergrind) {
            Some(a) => a,
            None => {
                proof {
                    assert(!classes_savable(self@)) by {
                        assert(self@.cybergrind == self.cybergrind@);
                        assert(spec_save_single::<CybergrindData>(self@.cybergrind) is None);
                    }
                    assert(actions@.len() == Level::count_spec());
                    assert(slot_action_at(self@, actions@.len() as int) is None);
                    assert forall|j: int| 0 <= j < actions@.len() implies slot_action_at(self@, j)
                        is Some && (#[trigger] actions@[j])@ == slot_action_at(self@, j)->0 by {
                        assert(self@.levels[j] == self.levels@[j]@);
                        assert((actions@[0 + j])@ == spec_save_keyed_at::<Level, LevelData>(
                            self.levels@[j]@,
                            j,
                        )->0);
                    }
                }
                return SavePlan { actions, failed: true };
            },
        };
        let ghost cyber_av = cyber_action@;
        actions.push(cyber_action);
        let ghost a2 = actions@;
        if !save_keyed::<Difficulty, DifficultyData>(&self.difficulty, &mut actions) {
            proof {
                assert(!classes_savable(self@)) by {
                    if classes_savable(self@) {
                        assert forall|i: int| 0 <= i < self.difficulty@.len() implies spec_save_keyed_at::<
                            Difficulty,
                            DifficultyData,
                        >((#[trigger] self.difficulty@[i])@, i) is Some by {
                            assert(self@.difficulty[i] == self.difficulty@[i]@);
                            assert(spec_save_keyed_at::<Difficulty, DifficultyData>(
                                self@.difficulty[i],
                                i,
                            ) is Some);
                        }
                    }
                }
                assert(Level::count_spec() + 1 <= actions@.len() < Level::count_spec() + 1
                    + Difficulty::count_spec());
                let ghost stop = actions@.len() as int;
                let ghost k = stop - (Level::count_spec() + 1);
                assert(slot_action_at(self@, stop) is None) by {
                    assert(self@.difficulty[k] == self.difficulty@[k]@);
                }
                assert forall|j: int| 0 <= j < actions@.len() implies slot_action_at(self@, j)
                    is Some && (#[trigger] actions@[j])@ == slot_action_at(self@, j)->0 by {
                    if j < Level::count_spec() {
                        assert(self@.levels[j] == self.levels@[j]@);
                        assert(actions@[j] == a2[j]);
                        assert(a2[j] == a1[j]);
                        assert((a1[0 + j])@ == spec_save_keyed_at::<Level, LevelData>(
                            self.levels@[j]@,
                            j,
                        )->0);
                    } else if j == Level::count_spec() {
                        assert(actions@[j] == a2[j]);
                        assert(a2[j] == a2.last());
                        assert(self@.cybergrind == self.cybergrind@);
                    } else {
                        assert(self@.difficulty[j - (Level::count_spec() + 1)]
                            == self.difficulty@[j - (Level::count_spec() + 1)]@);
                        assert((actions@[a2.len() + (j - (Level::count_spec() + 1))])@
                            == spec_save_keyed_at::<Difficulty, DifficultyData>(
                            self.difficulty@[j - (Level::count_spec() + 1)]@,
                            j - (Level::count_spec() + 1),
                        )->0);
                    }
                }
            }
            return SavePlan { actions, failed: true };
        }
        let ghost a3 = actions@;
        let general_action = match save_single::<GeneralData>(&self.general) {
            Some(a) => a,
            None => {
                proof {
                    assert(!classes_savable(self@)) by {
                        assert(self@.general == self.general@);
                        assert(spec_save_single::<GeneralData>(self@.general) is None);
                    }
                    assert(actions@.len() == Level::count_spec() + 1 + Difficulty::count_spec());
                    assert(slot_action_at(self@, actions@.len() as int) is None);
                    assert forall|j: int| 0 <= j < actions@.len() implies slot_action_at(self@, j)
                        is Some && (#[trigger] actions@[j])@ == slot_action_at(self@, j)->0 by {
                        if j < Level::count_spec() {
                            assert(self@.levels[j] == self.levels@[j]@);
                            assert(actions@[j] == a3[j]);
                            assert(a3[j] == a2[j]);
                            assert(a2[j] == a1[j]);
                            assert((a1[0 + j])@ == spec_save_keyed_at::<Level, LevelData>(
                                self.levels@[j]@,
                                j,
                            )->0);
                        } else if j == Level::count_spec() {
                            assert(actions@[j] == a3[j]);
                            assert(a3[j] == a2[j]);
                            assert(a2[j] == a2.last());
                            assert(self@.cybergrind == self.cybergrind@);
                        } else {
                            assert(self@.difficulty[j - (Level::count_spec() + 1)]
                                == self.difficulty@[j - (Level::count_spec() + 1)]@);
                            assert((a3[a2.len() + (j - (Level::count_spec() + 1))])@
                                == spec_save_keyed_at::<Difficulty, DifficultyData>(
                                self.difficulty@[j - (Level::count_spec() + 1)]@,
                                j - (Level::count_spec() + 1),
                            )->0);
                            assert(actions@[j] == a3[j]);
                        }
                    }
                }
                return SavePlan { actions, failed: true };
            },
        };
        actions.push(general_action);
        proof {
            assert(a1.len() == 31 && a2.len() == 32 && a3.len() == 36 && actions@.len() == 37);
            assert forall|i: int| 0 <= i < 31 implies (#[trigger] actions@[i])@
                == spec_save_keyed_at::<Level, LevelData>(self@.levels[i], i)->0 by {
                assert(a1[0 + i]@ == spec_save_keyed_at::<Level, LevelData>(
                    self.levels@[i]@,
                    i,
                )->0);
                assert(a2[i] == a1[i]);
                assert(a3[i] == a2[i]);
                assert(actions@[i] == a3[i]);
                assert(self@.levels[i] == self.levels@[i]@);
            }
            assert((actions@[31])@ == spec_save_single::<CybergrindData>(self@.cybergrind)->0) by {
                assert(a2[31] == a2.last());
                assert(a3[31] == a2[31]);
                assert(actions@[31] == a3[31]);
                assert(self@.cybergrind == self.cybergrind@);
            }
            assert forall|i: int| 0 <= i < 4 implies (#[trigger] actions@[32 + i])@
                == spec_save_keyed_at::<Difficulty, DifficultyData>(self@.difficulty[i], i)->0 by {
                assert(a3[32 + i]@ == spec_save_keyed_at::<Difficulty, DifficultyData>(
                    self.difficulty@[i]@,
                    i,
                )->0);
                assert(actions@[32 + i] == a3[32 + i]);
                assert(self@.difficulty[i] == self.difficulty@[i]@);
            }
            assert((actions@[36])@ == spec_save_single::<GeneralData>(self@.general)->0) by {
                assert(self@.general == self.general@);
            }
            assert(classes_savable(self@)) by {
                assert forall|i: int| 0 <= i < self@.levels.len() implies spec_save_keyed_at::<
                    Level,
                    LevelData,
                >(#[trigger] self@.levels[i], i) is Some by {
                    assert(self@.levels[i] == self.levels@[i]@);
                }
                assert forall|i: int| 0 <= i < self@.difficulty.len() implies spec_save_keyed_at::<
                    Difficulty,
                    DifficultyData,
                >(#[trigger] self@.difficulty[i], i) is Some by {
                    assert(self@.difficulty[i] == self.difficulty@[i]@);
                }
            }
        }
        SavePlan { actions, failed: false }
    }
}

// ---------------------------------------------------------------------------
// Laws
// ---------------------------------------------------------------------------

/// Loading a directory with no files yields the all-defaults slot: both
/// keyed mappings are total with one fresh record per variant, the single
/// records hold their defaults, and no record claims a backing file.
pub proof fn lemma_load_empty_defaults()
    ensures
        spec_load_classes(Seq::empty()).wf(),
        spec_load_classes(Seq::empty()).general == <GeneralData as ParsableClass>::spec_default(),
        spec_load_classes(Seq::empty()).cybergrind == <CybergrindData as ParsableClass>::spec_default(),
        forall|i: int| 0 <= i < Level::count_spec() ==> #[trigger] spec_load_classes(
            Seq::empty(),
        ).levels[i] == <LevelData as ParsableClassKeyed<Level>>::spec_create_new(
            Level::from_index_spec(i),
        ),
        forall|i: int| 0 <= i < Difficulty::count_spec() ==> #[trigger] spec_load_classes(
            Seq::empty(),
        ).difficulty[i] == <DifficultyData as ParsableClassKeyed<Difficulty>>::spec_create_new(
            Difficulty::from_index_spec(i),
        ),
{
}

/// A file that is absent loads as the record's default, never as an error.
pub proof fn lemma_absent_file_defaults<T: ParsableClass>(d: Seq<(Seq<char>, Seq<u8>)>)
    requires
        dir_lookup(d, T::file_name_spec()) is None,
    ensures
        crate::store::spec_load_single::<T>(d) == T::spec_default(),
{
}

/// A file that is present but does not decode, or decodes with a missing
/// or differently-typed required field, loads as the record's default
/// rather than as an error.
pub proof fn lemma_malformed_defaults<T: ParsableClass>(d: Seq<(Seq<char>, Seq<u8>)>, bytes: Seq<u8>)
    requires
        dir_lookup(d, T::file_name_spec()) == Some(bytes),
        crate::decode::decode_class_spec(bytes) matches Some(c) ==> T::spec_parse(c.fields)
            is None,
    ensures
        crate::store::spec_load_single::<T>(d) == T::spec_default(),
{
}

/// The file-existence flag alone drives creation and deletion: a record
/// without a backing file saves as a deletion of its file, and one with a
/// backing file and representable fields always saves as a fresh write of
/// its current encoded fields.
pub proof fn lemma_exists_drives_file<T: ParsableClass>(m: T::V)
    ensures
        !T::exists_spec(m) ==> spec_save_single::<T>(m) == Some(
            ActionModel::Delete(T::file_name_spec()),
        ),
        T::exists_spec(m) && T::spec_unparse(m) is Some && encodable_class(
            T::class_name_spec(),
            T::spec_unparse(m)->0,
        ) ==> spec_save_single::<T>(m) == Some(
            ActionModel::Write(
                T::file_name_spec(),
                encode_class_spec(T::class_name_spec(), T::spec_unparse(m)->0),
            ),
        ),
{
}

/// The keyed counterpart of the existence law, at the variant's file.
pub proof fn lemma_exists_drives_file_keyed<K: crate::traits::VariantCatalog, T: ParsableClassKeyed<K>>(
    m: T::V,
    i: int,
)
    ensures
        !T::exists_spec(m) ==> spec_save_keyed_at::<K, T>(m, i) == Some(
            ActionModel::Delete(crate::store::keyed_file_name::<K, T>(K::from_index_spec(i))),
        ),
        T::exists_spec(m) && T::spec_unparse(m, K::from_index_spec(i)) is Some && encodable_class(
            T::class_name_spec(),
            T::spec_unparse(m, K::from_index_spec(i))->0,
        ) ==> spec_save_keyed_at::<K, T>(m, i) == Some(
            ActionModel::Write(
                crate::store::keyed_file_name::<K, T>(K::from_index_spec(i)),
                encode_class_spec(
                    T::class_name_spec(),
                    T::spec_unparse(m, K::from_index_spec(i))->0,
                ),
            ),
        ),
{
}

/// A well-formed slot whose text fields are representable is savable: every
/// record yields its file action, so the save never stops early, deletes
/// the file of every record without one, and always (re)writes the file of
/// every record with one from its current values.
pub proof fn lemma_wf_slot_savable(c: ClassesModel)
    requires
        c.wf(),
        c.general.file_exists ==> c.general.wf() && parse_i32_spec(c.general.money) is Some,
        c.cybergrind.file_exists ==> c.cybergrind.wf() && int_texts_to_ints(c.cybergrind.kills)
            is Some && int_texts_to_ints(c.cybergrind.style) is Some && float_texts_ok(
            c.cybergrind.waves,
        ) && float_texts_ok(c.cybergrind.times),
        forall|i: int| 0 <= i < c.levels.len() && (#[trigger] c.levels[i]).file_exists
            ==> c.levels[i].wf(),
        forall|i: int| 0 <= i < c.difficulty.len() && (#[trigger] c.difficulty[i]).file_exists
            ==> c.difficulty[i].wf(),
    ensures
        classes_savable(c),
{
    if c.general.file_exists {
        lemma_general_encodable(c.general);
        assert(<GeneralData as ParsableClass>::spec_unparse(c.general) is Some);
    }
    if c.cybergrind.file_exists {
        lemma_cybergrind_encodable(c.cybergrind);
        assert(<CybergrindData as ParsableClass>::spec_unparse(c.cybergrind) is Some);
    }
    assert forall|i: int| 0 <= i < c.levels.len() implies spec_save_keyed_at::<Level, LevelData>(
        #[trigger] c.levels[i],
        i,
    ) is Some by {
        if c.levels[i].file_exists {
            lemma_level_encodable(c.levels[i], Level::from_index_spec(i));
            assert(<LevelData as ParsableClassKeyed<Level>>::spec_unparse(
                c.levels[i],
                Level::from_index_spec(i),
            ) is Some);
        }
    }
    assert forall|i: int| 0 <= i < c.difficulty.len() implies spec_save_keyed_at::<
        Difficulty,
        DifficultyData,
    >(#[trigger] c.difficulty[i], i) is Some by {
        if c.difficulty[i].file_exists {
            lemma_difficulty_encodable(c.difficulty[i], Difficulty::from_index_spec(i));
            assert(<DifficultyData as ParsableClassKeyed<Difficulty>>::spec_unparse(
                c.difficulty[i],
                Difficulty::from_index_spec(i),
            ) is Some);
        }
    }
}

/// Round trip of a whole slot: for a well-formed slot whose records have
/// backing files, whose numeric texts are canonical and whose float texts
/// lie in the float grammar, parsing what each record writes yields that
/// record again, for every record of the slot at once. One difficulty
/// value stands outside the law: a current level whose numeric id is the
/// absent-level sentinel cannot be told apart from absence on the wire.
pub proof fn lemma_classes_roundtrip(c: ClassesModel)
    requires
        c.wf(),
        c.general.wf(),
        c.general.file_exists,
        parse_i32_spec(c.general.money) is Some,
        i32_dec(parse_i32_spec(c.general.money)->0) == c.general.money,
        c.cybergrind.wf(),
        c.cybergrind.file_exists,
        int_canon_texts(c.cybergrind.kills),
        int_canon_texts(c.cybergrind.style),
        float_texts_ok(c.cybergrind.waves),
        float_texts_ok(c.cybergrind.times),
        forall|i: int| 0 <= i < c.levels.len() ==> (#[trigger] c.levels[i]).wf()
            && c.levels[i].file_exists,
        forall|i: int| 0 <= i < c.difficulty.len() ==> (#[trigger] c.difficulty[i]).wf()
            && c.difficulty[i].file_exists && c.difficulty[i].current_level != Some(
            Level::GardenOfForkingPaths,
        ),
    ensures
        <GeneralData as ParsableClass>::spec_parse(
            <GeneralData as ParsableClass>::spec_unparse(c.general)->0,
        ) == Some(c.general),
        <CybergrindData as ParsableClass>::spec_parse(
            <CybergrindData as ParsableClass>::spec_unparse(c.cybergrind)->0,
        ) == Some(c.cybergrind),
        forall|i: int| 0 <= i < c.levels.len()
            ==> <LevelData as ParsableClassKeyed<Level>>::spec_parse(
            <LevelData as ParsableClassKeyed<Level>>::spec_unparse(
                #[trigger] c.levels[i],
                Level::from_index_spec(i),
            )->0,
        ) == Some(c.levels[i]),
        forall|i: int| 0 <= i < c.difficulty.len()
            ==> <DifficultyData as ParsableClassKeyed<Difficulty>>::spec_parse(
            <DifficultyData as ParsableClassKeyed<Difficulty>>::spec_unparse(
                #[trigger] c.difficulty[i],
                Difficulty::from_index_spec(i),
            )->0,
        ) == Some(c.difficulty[i]),
{
    lemma_general_roundtrip(c.general);
    lemma_cybergrind_roundtrip(c.cybergrind);
    assert forall|i: int| 0 <= i < c.levels.len()
        implies <LevelData as ParsableClassKeyed<Level>>::spec_parse(
        <LevelData as ParsableClassKeyed<Level>>::spec_unparse(
            #[trigger] c.levels[i],
            Level::from_index_spec(i),
        )->0,
    ) == Some(c.levels[i]) by {
        lemma_level_roundtrip(c.levels[i], Level::from_index_spec(i));
    }
    assert forall|i: int| 0 <= i < c.difficulty.len()
        implies <DifficultyData as ParsableClassKeyed<Difficulty>>::spec_parse(
        <DifficultyData as ParsableClassKeyed<Difficulty>>::spec_unparse(
            #[trigger] c.difficulty[i],
            Difficulty::from_index_spec(i),
        )->0,
    ) == Some(c.difficulty[i]) by {
        lemma_difficulty_roundtrip(c.difficulty[i], Difficulty::from_index_spec(i));
    }
}

/// A freshly loaded slot already has canonical numeric texts: a loaded
/// money text is the canonical decimal of the wire integer, or the default
/// zero.
pub proof fn lemma_loaded_money_canonical(d: Seq<(Seq<char>, Seq<u8>)>)
    ensures
        parse_i32_spec(spec_load_classes(d).general.money) is Some,
        i32_dec(parse_i32_spec(spec_load_classes(d).general.money)->0) == spec_load_classes(
            d,
        ).general.money,
{
    let m = spec_load_classes(d).general;
    crate::text::lemma_parse_i32_canon(0);
    assert(i32_dec(0i32) == "0"@) by {
        reveal_strlit("0");
        assert(dec_chars(0) =~= "0"@);
    }
    if m.money != "0"@ {
        let bytes = dir_lookup(d, <GeneralData as ParsableClass>::file_name_spec())->0;
        if crate::decode::decode_class_spec(bytes) is Some {
            let fields = crate::decode::decode_class_spec(bytes)->0.fields;
            if <GeneralData as ParsableClass>::spec_parse(fields) is Some {
                let v = match crate::fields::fm_lookup(fields, "money"@) {
                    Some(crate::fields::FieldModel::Int(v)) => v,
                    _ => 0i32,
                };
                crate::text::lemma_parse_i32_canon(v);
            }
        }
    } else {
        assert(parse_i32_spec("0"@) == Some(0i32));
    }
}

} // verus!
