//! Per-level progress: ranks per difficulty, the secrets found, the
//! challenge flag and the major assists used, one record and one file per
//! level.

use vstd::prelude::*;
use crate::enums::Level;
use crate::enums::LevelRank;
use crate::enums::lemma_ranks_roundtrip;
use crate::enums::ranks_from_ints;
use crate::enums::ranks_of;
use crate::enums::ranks_to_int_vec;
use crate::enums::ranks_to_ints;
use crate::fields::ClassData;
use crate::fields::FieldMap;
use crate::fields::FieldModel;
use crate::fields::FieldValue;
use crate::fields::fm_get;
use crate::fields::fm_keys_distinct;
use crate::fields::fm_lookup;
use crate::fields::fm_model;
use crate::traits::ParsableClassKeyed;

verus! {

/// Progress of one level: one rank per difficulty, which secrets were
/// found, whether the challenge was done, and where major assists were
/// used.
#[derive(Debug)]
pub struct LevelData {
    /// One rank per difficulty, in difficulty order.
    pub ranks: Vec<LevelRank>,
    /// One flag per secret the level hides.
    pub secrets_found: Vec<bool>,
    /// Whether the level's challenge was completed.
    pub challenge: bool,
    /// One flag per difficulty: a major assist was used there.
    pub major_assists: Vec<bool>,
    /// Whether this level has a backing file.
    pub file_exists: bool,
}

/// Mathematical model of a level record.
pub struct LevelModel {
    pub ranks: Seq<LevelRank>,
    pub secrets_found: Seq<bool>,
    pub challenge: bool,
    pub major_assists: Seq<bool>,
    pub file_exists: bool,
}

impl View for LevelData {
    type V = LevelModel;

    open spec fn view(&self) -> LevelModel {
        LevelModel {
            ranks: self.ranks@,
            secrets_found: self.secrets_found@,
            challenge: self.challenge,
            major_assists: self.major_assists@,
            file_exists: self.file_exists,
        }
    }
}

impl LevelModel {
    /// The record's invariant: six ranks and six assist flags, one per
    /// difficulty the consuming runtime knows, and a secrets array a file
    /// can carry.
    pub open spec fn wf(self) -> bool {
        self.ranks.len() == 6 && self.major_assists.len() == 6
            && self.secrets_found.len() <= 0x7fffffff
    }
}

impl ParsableClassKeyed<Level> for LevelData {
    open spec fn class_name_spec() -> Seq<char> {
        "RankData"@
    }

    open spec fn file_prefix_spec() -> Seq<char> {
        "lvl"@
    }

    open spec fn file_suffix_spec() -> Seq<char> {
        "progress.bepis"@
    }

    open spec fn spec_parse(fields: Seq<(Seq<char>, FieldModel)>) -> Option<LevelModel> {
        match (
            fm_lookup(fields, "ranks"@),
            fm_lookup(fields, "secretsFound"@),
            fm_lookup(fields, "challenge"@),
            fm_lookup(fields, "majorAssists"@),
        ) {
            (
                Some(FieldModel::IntArray(r)),
                Some(FieldModel::BoolArray(s)),
                Some(FieldModel::Bool(c)),
                Some(FieldModel::BoolArray(a)),
            ) => {
                match ranks_of(r) {
                    Some(rs) => {
                        if rs.len() == 6 && a.len() == 6 && s.len() <= 0x7fffffff {
                            Some(LevelModel {
                                ranks: rs,
                                secrets_found: s,
                                challenge: c,
                                major_assists: a,
                                file_exists: true,
                            })
                        } else {
                            None
                        }
                    },
                    None => None,
                }
            },
            _ => None,
        }
    }

    open spec fn spec_unparse(m: LevelModel, key: Level) -> Option<Seq<(Seq<char>, FieldModel)>> {
        if m.secrets_found.len() <= 0x7fffffff {
            Some(seq![
                ("ranks"@, FieldModel::IntArray(ranks_to_ints(m.ranks))),
                ("secretsAmount"@, FieldModel::Int(m.secrets_found.len() as i32)),
                ("secretsFound"@, FieldModel::BoolArray(m.secrets_found)),
                ("challenge"@, FieldModel::Bool(m.challenge)),
                ("levelNumber"@, FieldModel::Int(key.number_spec() as i32)),
                ("majorAssists"@, FieldModel::BoolArray(m.major_assists)),
            ])
        } else {
            None
        }
    }

    open spec fn spec_create_new(key: Level) -> LevelModel {
        LevelModel {
            ranks: Seq::new(6, |i: int| LevelRank::Unranked),
            secrets_found: Seq::new(key.secret_count_spec() as nat, |i: int| false),
            challenge: false,
            major_assists: Seq::new(6, |i: int| false),
            file_exists: false,
        }
    }

    open spec fn exists_spec(m: LevelModel) -> bool {
        m.file_exists
    }

    fn class_name() -> (r: String) {
        String::from_str("RankData")
    }

    fn file_prefix() -> (r: String) {
        String::from_str("lvl")
    }

    fn file_suffix() -> (r: String) {
        String::from_str("progress.bepis")
    }

    fn parse(c: &ClassData) -> (r: Option<LevelData>) {
        let ranks_wire: &Vec<i32> = match fm_get(&c.fields, "ranks") {
            Some(FieldValue::IntArray(a)) => a,
            _ => { return None; },
        };
        let secrets: &Vec<bool> = match fm_get(&c.fields, "secretsFound") {
            Some(FieldValue::BoolArray(a)) => a,
            _ => { return None; },
        };
        let challenge: bool = match fm_get(&c.fields, "challenge") {
            Some(FieldValue::Bool(b)) => *b,
            _ => { return None; },
        };
        let assists: &Vec<bool> = match fm_get(&c.fields, "majorAssists") {
            Some(FieldValue::BoolArray(a)) => a,
            _ => { return None; },
        };
        let ranks = match ranks_from_ints(ranks_wire) {
            Some(rs) => rs,
            None => { return None; },
        };
        if ranks.len() != 6 || assists.len() != 6 {
            return None;
        }
        if secrets.len() > 0x7fffffff {
            return None;
        }
        Some(LevelData {
            ranks,
            secrets_found: secrets.clone(),
            challenge,
            major_assists: assists.clone(),
            file_exists: true,
        })
    }

    fn unparse(&self, variant: &Level) -> (r: Option<FieldMap>) {
        if self.secrets_found.len() > 0x7fffffff {
            return None;
        }
        let number = variant.number();
        let m: FieldMap = vec![
            (String::from_str("ranks"), FieldValue::IntArray(ranks_to_int_vec(&self.ranks))),
            (String::from_str("secretsAmount"), FieldValue::Int(self.secrets_found.len() as i32)),
            (String::from_str("secretsFound"), FieldValue::BoolArray(self.secrets_found.clone())),
            (String::from_str("challenge"), FieldValue::Bool(self.challenge)),
            (String::from_str("levelNumber"), FieldValue::Int(number as i32)),
            (String::from_str("majorAssists"), FieldValue::BoolArray(self.major_assists.clone())),
        ];
        proof {
            assert(fm_model(m@) =~= Self::spec_unparse(self@, *variant)->0);
        }
        Some(m)
    }

    fn create_new(variant: &Level) -> (r: LevelData) {
        let count = variant.get_secret_count();
        let mut secrets: Vec<bool> = Vec::new();
        let mut i: usize = 0;
        while i < count as usize
            invariant
                0 <= i <= count,
                secrets@.len() == i,
                forall|k: int| 0 <= k < i ==> #[trigger] secrets@[k] == false,
            decreases count - i,
        {
            secrets.push(false);
            i = i + 1;
        }
        let r = LevelData {
            ranks: vec![
                LevelRank::Unranked,
                LevelRank::Unranked,
                LevelRank::Unranked,
                LevelRank::Unranked,
                LevelRank::Unranked,
                LevelRank::Unranked,
            ],
            secrets_found: secrets,
            challenge: false,
            major_assists: vec![false, false, false, false, false, false],
            file_exists: false,
        };
        proof {
            let want = Self::spec_create_new(*variant);
            assert(r@.ranks =~= want.ranks);
            assert(r@.secrets_found =~= want.secrets_found);
            assert(r@.major_assists =~= want.major_assists);
        }
        r
    }

    fn get_file_exists(&self) -> (r: bool) {
        self.file_exists
    }

    proof fn lemma_unparse_distinct(m: LevelModel, key: Level) {
        reveal_strlit("ranks");
        reveal_strlit("secretsAmount");
        reveal_strlit("secretsFound");
        reveal_strlit("challenge");
        reveal_strlit("levelNumber");
        reveal_strlit("majorAssists");
        if m.secrets_found.len() <= 0x7fffffff {
            let f = Self::spec_unparse(m, key)->0;
            assert(f[0].0 == "ranks"@ && f[1].0 == "secretsAmount"@ && f[2].0 == "secretsFound"@);
            assert(f[3].0 == "challenge"@ && f[4].0 == "levelNumber"@ && f[5].0 == "majorAssists"@);
            assert(fm_keys_distinct(f)) by {
                assert(f.len() == 6);
                assert(("secretsFound"@)[0] == 's' && ("majorAssists"@)[0] == 'm');
                assert(f[0].0 != f[1].0 && f[0].0 != f[2].0 && f[0].0 != f[3].0 && f[0].0 != f[4].0
                    && f[0].0 != f[5].0);
                assert(f[1].0 != f[2].0 && f[1].0 != f[3].0 && f[1].0 != f[4].0 && f[1].0 != f[5].0);
                assert(f[2].0 != f[3].0 && f[2].0 != f[4].0 && f[2].0 != f[5].0);
                assert(f[3].0 != f[4].0 && f[3].0 != f[5].0);
                assert(f[4].0 != f[5].0);
            }
        }
    }
}

/// A well-formed level record's written fields are always encodable: its
/// names are short, its arrays are small, and it holds no text.
pub proof fn lemma_level_encodable(m: LevelModel, key: Level)
    requires
        m.wf(),
    ensures
        <LevelData as ParsableClassKeyed<Level>>::spec_unparse(m, key) matches Some(f)
            ==> crate::encode::encodable_class(
            <LevelData as ParsableClassKeyed<Level>>::class_name_spec(),
            f,
        ),
{
    reveal_strlit("RankData");
    reveal_strlit("ranks");
    reveal_strlit("secretsAmount");
    reveal_strlit("secretsFound");
    reveal_strlit("challenge");
    reveal_strlit("levelNumber");
    reveal_strlit("majorAssists");
    crate::encode::lemma_library_name_short();
    assert(vstd::utf8::is_ascii_chars("RankData"@));
    crate::encode::lemma_ascii_utf8_len("RankData"@);
    assert(vstd::utf8::is_ascii_chars("ranks"@));
    crate::encode::lemma_ascii_utf8_len("ranks"@);
    assert(vstd::utf8::is_ascii_chars("secretsAmount"@));
    crate::encode::lemma_ascii_utf8_len("secretsAmount"@);
    assert(vstd::utf8::is_ascii_chars("secretsFound"@));
    crate::encode::lemma_ascii_utf8_len("secretsFound"@);
    assert(vstd::utf8::is_ascii_chars("challenge"@));
    crate::encode::lemma_ascii_utf8_len("challenge"@);
    assert(vstd::utf8::is_ascii_chars("levelNumber"@));
    crate::encode::lemma_ascii_utf8_len("levelNumber"@);
    assert(vstd::utf8::is_ascii_chars("majorAssists"@));
    crate::encode::lemma_ascii_utf8_len("majorAssists"@);
    let f = <LevelData as ParsableClassKeyed<Level>>::spec_unparse(m, key)->0;
    assert(ranks_to_ints(m.ranks).len() == 6);
    assert forall|i: int| 0 <= i < f.len() implies crate::encode::field_encodable(
        #[trigger] f[i],
    ) by {
        assert(f.len() == 6);
        assert(f[0].0 == "ranks"@ && f[1].0 == "secretsAmount"@ && f[2].0 == "secretsFound"@);
        assert(f[3].0 == "challenge"@ && f[4].0 == "levelNumber"@ && f[5].0 == "majorAssists"@);
    }
}

/// Writing a level record and reading it back yields the record, with its
/// file marked present.
pub proof fn lemma_level_roundtrip(m: LevelModel, key: Level)
    requires
        m.wf(),
        m.file_exists,
    ensures
        <LevelData as ParsableClassKeyed<Level>>::spec_parse(
            <LevelData as ParsableClassKeyed<Level>>::spec_unparse(m, key)->0,
        ) == Some(m),
{
    reveal_strlit("ranks");
    reveal_strlit("secretsAmount");
    reveal_strlit("secretsFound");
    reveal_strlit("challenge");
    reveal_strlit("levelNumber");
    reveal_strlit("majorAssists");
    let f = <LevelData as ParsableClassKeyed<Level>>::spec_unparse(m, key)->0;
    assert(f[0].0 == "ranks"@ && f[1].0 == "secretsAmount"@ && f[2].0 == "secretsFound"@);
    assert(f[3].0 == "challenge"@ && f[4].0 == "levelNumber"@ && f[5].0 == "majorAssists"@);
    assert(("secretsFound"@)[0] == 's' && ("majorAssists"@)[0] == 'm');
    crate::fields::lemma_fm_lookup_at(f, "ranks"@, 0);
    crate::fields::lemma_fm_lookup_at(f, "secretsFound"@, 2);
    crate::fields::lemma_fm_lookup_at(f, "challenge"@, 3);
    crate::fields::lemma_fm_lookup_at(f, "majorAssists"@, 5);
    lemma_ranks_roundtrip(m.ranks);
    assert(ranks_to_ints(m.ranks).len() == 6);
}

} // verus!
