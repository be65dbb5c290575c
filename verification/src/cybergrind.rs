//! The minigame high-score record: four parallel per-difficulty sequences,
//! each edited as free text and parsed to its wire type only when saved.

use vstd::prelude::*;
use crate::fields::ClassData;
use crate::fields::FieldMap;
use crate::fields::FieldModel;
use crate::fields::FieldValue;
use crate::fields::fm_get;
use crate::fields::fm_keys_distinct;
use crate::fields::fm_lookup;
use crate::fields::fm_model;
use crate::text::check_float_text;
use crate::text::i32_dec;
use crate::text::i32_to_string;
use crate::text::is_float_text;
use crate::text::parse_i32;
use crate::text::parse_i32_spec;
use crate::traits::ParsableClass;

verus! {

/// Texts read back from wire integers: each integer as its canonical
/// decimal text.
pub open spec fn texts_of_ints(a: Seq<i32>) -> Seq<Seq<char>> {
    a.map_values(|v: i32| i32_dec(v))
}

/// Texts written as wire integers: every text must parse; one that does
/// not, the empty text included, refuses the whole array.
pub open spec fn int_texts_to_ints(t: Seq<Seq<char>>) -> Option<Seq<i32>>
    decreases t.len(),
{
    if t.len() == 0 {
        Some(Seq::empty())
    } else {
        match (parse_i32_spec(t[0]), int_texts_to_ints(t.drop_first())) {
            (Some(v), Some(rest)) => Some(seq![v] + rest),
            _ => None,
        }
    }
}

/// Texts written as wire floats are written as they stand; every one must
/// lie in the float grammar, the empty text included, or the whole array
/// is refused.
pub open spec fn float_texts_ok(t: Seq<Seq<char>>) -> bool {
    forall|i: int| 0 <= i < t.len() ==> is_float_text(#[trigger] t[i])
}

pub fn int_vec_to_strings(a: &Vec<i32>) -> (r: Vec<String>)
    ensures
        r@.map_values(|s: String| s@) =~= texts_of_ints(a@),
{
    let mut out: Vec<String> = Vec::new();
    let n = a.len();
    let mut i: usize = 0;
    while i < n
        invariant
            0 <= i <= n,
            n == a@.len(),
            out@.len() == i,
            forall|k: int| 0 <= k < i ==> (#[trigger] out@[k])@ == i32_dec(a@[k]),
        decreases n - i,
    {
        out.push(i32_to_string(a[i]));
        i = i + 1;
    }
    out
}

fn strings_to_int_vec(t: &Vec<String>) -> (r: Option<Vec<i32>>)
    ensures
        match r {
            Some(v) => int_texts_to_ints(t@.map_values(|s: String| s@)) == Some(v@),
            None => int_texts_to_ints(t@.map_values(|s: String| s@)) is None,
        },
{
    let ghost m = t@.map_values(|s: String| s@);
    let mut out: Vec<i32> = Vec::new();
    let n = t.len();
    let mut i: usize = 0;
    while i < n
        invariant
            0 <= i <= n,
            n == t@.len(),
            m == t@.map_values(|s: String| s@),
            out@.len() == i,
            forall|k: int| 0 <= k < i ==> parse_i32_spec(m[k]) == Some(#[trigger] out@[k]),
        decreases n - i,
    {
        let s: &String = &t[i];
        match parse_i32(s.as_str()) {
            Some(v) => out.push(v),
            None => {
                proof {
                    lemma_int_texts_at(m, i as int);
                }
                return None;
            },
        }
        i = i + 1;
    }
    proof {
        lemma_int_texts_all(m, out@);
    }
    Some(out)
}

proof fn lemma_int_texts_at(t: Seq<Seq<char>>, i: int)
    requires
        0 <= i < t.len(),
        parse_i32_spec(t[i]) is None,
    ensures
        int_texts_to_ints(t) is None,
    decreases t.len(),
{
    if i > 0 {
        lemma_int_texts_at(t.drop_first(), i - 1);
    }
}

proof fn lemma_int_texts_all(t: Seq<Seq<char>>, out: Seq<i32>)
    requires
        out.len() == t.len(),
        forall|k: int| 0 <= k < t.len() ==> parse_i32_spec(t[k]) == Some(#[trigger] out[k]),
    ensures
        int_texts_to_ints(t) == Some(out),
    decreases t.len(),
{
    if t.len() == 0 {
        assert(out =~= Seq::<i32>::empty());
    } else {
        assert(forall|k: int| 0 <= k < t.drop_first().len()
            ==> parse_i32_spec(t.drop_first()[k]) == Some(#[trigger] out.drop_first()[k]));
        lemma_int_texts_all(t.drop_first(), out.drop_first());
        assert(seq![out[0]] + out.drop_first() =~= out);
    }
}

/// Whether every text of the vector lies in the float grammar.
fn check_float_texts(t: &Vec<String>) -> (ok: bool)
    ensures
        ok == float_texts_ok(t@.map_values(|s: String| s@)),
{
    let ghost m = t@.map_values(|s: String| s@);
    let n = t.len();
    let mut i: usize = 0;
    while i < n
        invariant
            0 <= i <= n,
            n == t@.len(),
            m == t@.map_values(|s: String| s@),
            forall|k: int| 0 <= k < i ==> is_float_text(#[trigger] m[k]),
        decreases n - i,
    {
        if !check_float_text(t[i].as_str()) {
            proof {
                assert(!is_float_text(m[i as int]));
            }
            return false;
        }
        i = i + 1;
    }
    true
}

/// High scores of the minigame: per difficulty the wave reached, the kills,
/// the style score and the time survived, all edited as free text.
#[derive(Debug)]
pub struct CybergrindData {
    /// Wave reached per difficulty, float text.
    pub waves: Vec<String>,
    /// Kills per difficulty, integer text.
    pub kills: Vec<String>,
    /// Style score per difficulty, integer text.
    pub style: Vec<String>,
    /// Time survived per difficulty, float text.
    pub times: Vec<String>,
    /// Whether the minigame has a backing file.
    pub file_exists: bool,
}

/// Mathematical model of the high-score record.
pub struct CybergrindModel {
    pub waves: Seq<Seq<char>>,
    pub kills: Seq<Seq<char>>,
    pub style: Seq<Seq<char>>,
    pub times: Seq<Seq<char>>,
    pub file_exists: bool,
}

impl View for CybergrindData {
    type V = CybergrindModel;

    open spec fn view(&self) -> CybergrindModel {
        CybergrindModel {
            waves: self.waves@.map_values(|s: String| s@),
            kills: self.kills@.map_values(|s: String| s@),
            style: self.style@.map_values(|s: String| s@),
            times: self.times@.map_values(|s: String| s@),
            file_exists: self.file_exists,
        }
    }
}

impl CybergrindModel {
    /// The record's invariant: all four sequences hold one entry per
    /// difficulty the consuming runtime knows.
    pub open spec fn wf(self) -> bool {
        self.waves.len() == 6 && self.kills.len() == 6 && self.style.len() == 6
            && self.times.len() == 6
    }
}

impl ParsableClass for CybergrindData {
    open spec fn class_name_spec() -> Seq<char> {
        "CyberRankData"@
    }

    open spec fn file_name_spec() -> Seq<char> {
        "cybergrindhighscore.bepis"@
    }

    open spec fn spec_parse(fields: Seq<(Seq<char>, FieldModel)>) -> Option<CybergrindModel> {
        match (
            fm_lookup(fields, "preciseWavesByDifficulty"@),
            fm_lookup(fields, "kills"@),
            fm_lookup(fields, "style"@),
            fm_lookup(fields, "time"@),
        ) {
            (
                Some(FieldModel::SingleArray(w)),
                Some(FieldModel::IntArray(k)),
                Some(FieldModel::IntArray(st)),
                Some(FieldModel::SingleArray(t)),
            ) => {
                if w.len() == 6 && k.len() == 6 && st.len() == 6 && t.len() == 6 {
                    Some(CybergrindModel {
                        waves: w,
                        kills: texts_of_ints(k),
                        style: texts_of_ints(st),
                        times: t,
                        file_exists: true,
                    })
                } else {
                    None
                }
            },
            _ => None,
        }
    }

    open spec fn spec_unparse(m: CybergrindModel) -> Option<Seq<(Seq<char>, FieldModel)>> {
        if float_texts_ok(m.waves) && float_texts_ok(m.times) {
            match (int_texts_to_ints(m.kills), int_texts_to_ints(m.style)) {
                (Some(k), Some(st)) => Some(seq![
                    ("wave"@, FieldModel::Int(0i32)),
                    ("preciseWavesByDifficulty"@, FieldModel::SingleArray(m.waves)),
                    ("kills"@, FieldModel::IntArray(k)),
                    ("style"@, FieldModel::IntArray(st)),
                    ("time"@, FieldModel::SingleArray(m.times)),
                ]),
                _ => None,
            }
        } else {
            None
        }
    }

    open spec fn spec_default() -> CybergrindModel {
        CybergrindModel {
            waves: Seq::new(6, |i: int| "0.0"@),
            kills: Seq::new(6, |i: int| "0"@),
            style: Seq::new(6, |i: int| "0"@),
            times: Seq::new(6, |i: int| "0.0"@),
            file_exists: false,
        }
    }

    open spec fn exists_spec(m: CybergrindModel) -> bool {
        m.file_exists
    }

    fn class_name() -> (r: String) {
        String::from_str("CyberRankData")
    }

    fn file_name() -> (r: String) {
        String::from_str("cybergrindhighscore.bepis")
    }

    fn parse(c: &ClassData) -> (r: Option<CybergrindData>) {
        let waves: &Vec<String> = match fm_get(&c.fields, "preciseWavesByDifficulty") {
            Some(FieldValue::SingleArray(a)) => a,
            _ => { return None; },
        };
        let kills_wire: &Vec<i32> = match fm_get(&c.fields, "kills") {
            Some(FieldValue::IntArray(a)) => a,
            _ => { return None; },
        };
        let style_wire: &Vec<i32> = match fm_get(&c.fields, "style") {
            Some(FieldValue::IntArray(a)) => a,
            _ => { return None; },
        };
        let times: &Vec<String> = match fm_get(&c.fields, "time") {
            Some(FieldValue::SingleArray(a)) => a,
            _ => { return None; },
        };
        if waves.len() != 6 || kills_wire.len() != 6 || style_wire.len() != 6 || times.len() != 6 {
            return None;
        }
        Some(CybergrindData {
            waves: waves.clone(),
            kills: int_vec_to_strings(kills_wire),
            style: int_vec_to_strings(style_wire),
            times: times.clone(),
            file_exists: true,
        })
    }

    fn unparse(&self) -> (r: Option<FieldMap>) {
        if !check_float_texts(&self.waves) || !check_float_texts(&self.times) {
            return None;
        }
        let kills_out = match strings_to_int_vec(&self.kills) {
            Some(v) => v,
            None => { return None; },
        };
        let style_out = match strings_to_int_vec(&self.style) {
            Some(v) => v,
            None => { return None; },
        };
        let m: FieldMap = vec![
            (String::from_str("wave"), FieldValue::Int(0)),
            (String::from_str("preciseWavesByDifficulty"), FieldValue::SingleArray(self.waves.clone())),
            (String::from_str("kills"), FieldValue::IntArray(kills_out)),
            (String::from_str("style"), FieldValue::IntArray(style_out)),
            (String::from_str("time"), FieldValue::SingleArray(self.times.clone())),
        ];
        proof {
            assert(fm_model(m@) =~= Self::spec_unparse(self@)->0);
        }
        Some(m)
    }

    fn default_value() -> (r: CybergrindData) {
        let r = CybergrindData {
            waves: vec![
                String::from_str("0.0"),
                String::from_str("0.0"),
                String::from_str("0.0"),
                String::from_str("0.0"),
                String::from_str("0.0"),
                String::from_str("0.0"),
            ],
            kills: vec![
                String::from_str("0"),
                String::from_str("0"),
                String::from_str("0"),
                String::from_str("0"),
                String::from_str("0"),
                String::from_str("0"),
            ],
            style: vec![
                String::from_str("0"),
                String::from_str("0"),
                String::from_str("0"),
                String::from_str("0"),
                String::from_str("0"),
                String::from_str("0"),
            ],
            times: vec![
                String::from_str("0.0"),
                String::from_str("0.0"),
                String::from_str("0.0"),
                String::from_str("0.0"),
                String::from_str("0.0"),
                String::from_str("0.0"),
            ],
            file_exists: false,
        };
        proof {
            let want = Self::spec_default();
            assert(r@.waves =~= want.waves);
            assert(r@.kills =~= want.kills);
            assert(r@.style =~= want.style);
            assert(r@.times =~= want.times);
        }
        r
    }

    fn get_file_exists(&self) -> (r: bool) {
        self.file_exists
    }

    proof fn lemma_unparse_distinct(m: CybergrindModel) {
        reveal_strlit("wave");
        reveal_strlit("preciseWavesByDifficulty");
        reveal_strlit("kills");
        reveal_strlit("style");
        reveal_strlit("time");
        if Self::spec_unparse(m) is Some {
            let f = Self::spec_unparse(m)->0;
            assert(f[0].0 == "wave"@ && f[1].0 == "preciseWavesByDifficulty"@ && f[2].0 == "kills"@);
            assert(f[3].0 == "style"@ && f[4].0 == "time"@);
            assert(fm_keys_distinct(f)) by {
                assert(f.len() == 5);
                assert(("wave"@)[0] == 'w' && ("time"@)[0] == 't');
                assert(("kills"@)[0] == 'k' && ("style"@)[0] == 's');
                assert(f[0].0 != f[1].0 && f[0].0 != f[2].0 && f[0].0 != f[3].0 && f[0].0 != f[4].0);
                assert(f[1].0 != f[2].0 && f[1].0 != f[3].0 && f[1].0 != f[4].0);
                assert(f[2].0 != f[3].0 && f[2].0 != f[4].0);
                assert(f[3].0 != f[4].0);
            }
        }
    }
}

impl Default for CybergrindData {
    fn default() -> (r: CybergrindData)
        ensures
            r@ == <CybergrindData as ParsableClass>::spec_default(),
    {
        <CybergrindData as ParsableClass>::default_value()
    }
}

/// Whether every entry is the canonical decimal text of an integer.
pub open spec fn int_canon_texts(t: Seq<Seq<char>>) -> bool {
    forall|i: int| 0 <= i < t.len() ==> {
        &&& parse_i32_spec(#[trigger] t[i]) is Some
        &&& i32_dec(parse_i32_spec(t[i])->0) == t[i]
    }
}

proof fn lemma_int_canon_roundtrip(t: Seq<Seq<char>>)
    requires
        int_canon_texts(t),
    ensures
        int_texts_to_ints(t) is Some,
        texts_of_ints(int_texts_to_ints(t)->0) =~= t,
    decreases t.len(),
{
    if t.len() == 0 {
    } else {
        assert(parse_i32_spec(t[0]) is Some && i32_dec(parse_i32_spec(t[0])->0) == t[0]);
        assert(t[0].len() != 0) by {
            crate::text::lemma_dec_chars_digits(
                (if parse_i32_spec(t[0])->0 < 0 { -(parse_i32_spec(t[0])->0 as int) } else {
                    parse_i32_spec(t[0])->0 as int
                }) as nat,
            );
        }
        assert(forall|i: int| 0 <= i < t.drop_first().len() ==> {
            &&& parse_i32_spec(#[trigger] t.drop_first()[i]) is Some
            &&& i32_dec(parse_i32_spec(t.drop_first()[i])->0) == t.drop_first()[i]
        });
        lemma_int_canon_roundtrip(t.drop_first());
        let v0 = parse_i32_spec(t[0])->0;
        let rest = int_texts_to_ints(t.drop_first())->0;
        assert(int_texts_to_ints(t) == Some(seq![v0] + rest));
        assert(texts_of_ints(seq![v0] + rest) =~= seq![i32_dec(v0)] + texts_of_ints(rest));
        assert(seq![i32_dec(v0)] + texts_of_ints(rest) =~= t);
    }
}

/// Texts written as wire integers keep their count.
proof fn lemma_int_texts_len(t: Seq<Seq<char>>)
    ensures
        int_texts_to_ints(t) matches Some(v) ==> v.len() == t.len(),
    decreases t.len(),
{
    if t.len() > 0 {
        lemma_int_texts_len(t.drop_first());
    }
}

/// The high-score record's written fields are encodable whenever they are
/// written at all: its names are short, its arrays are small, and every
/// float text was already checked against the grammar.
pub proof fn lemma_cybergrind_encodable(m: CybergrindModel)
    requires
        m.wf(),
    ensures
        <CybergrindData as ParsableClass>::spec_unparse(m) matches Some(f)
            ==> crate::encode::encodable_class(
            <CybergrindData as ParsableClass>::class_name_spec(),
            f,
        ),
{
    reveal_strlit("CyberRankData");
    reveal_strlit("wave");
    reveal_strlit("preciseWavesByDifficulty");
    reveal_strlit("kills");
    reveal_strlit("style");
    reveal_strlit("time");
    crate::encode::lemma_library_name_short();
    assert(vstd::utf8::is_ascii_chars("CyberRankData"@));
    crate::encode::lemma_ascii_utf8_len("CyberRankData"@);
    assert(vstd::utf8::is_ascii_chars("wave"@));
    crate::encode::lemma_ascii_utf8_len("wave"@);
    assert(vstd::utf8::is_ascii_chars("preciseWavesByDifficulty"@));
    crate::encode::lemma_ascii_utf8_len("preciseWavesByDifficulty"@);
    assert(vstd::utf8::is_ascii_chars("kills"@));
    crate::encode::lemma_ascii_utf8_len("kills"@);
    assert(vstd::utf8::is_ascii_chars("style"@));
    crate::encode::lemma_ascii_utf8_len("style"@);
    assert(vstd::utf8::is_ascii_chars("time"@));
    crate::encode::lemma_ascii_utf8_len("time"@);
    lemma_int_texts_len(m.kills);
    lemma_int_texts_len(m.style);
    if <CybergrindData as ParsableClass>::spec_unparse(m) is Some {
        let f = <CybergrindData as ParsableClass>::spec_unparse(m)->0;
        assert(int_texts_to_ints(m.kills)->0.len() == 6);
        assert(int_texts_to_ints(m.style)->0.len() == 6);
        assert forall|i: int| 0 <= i < f.len() implies crate::encode::field_encodable(
            #[trigger] f[i],
        ) by {
            assert(f.len() == 5);
            assert(f[0].0 == "wave"@ && f[1].0 == "preciseWavesByDifficulty"@ && f[2].0
                == "kills"@);
            assert(f[3].0 == "style"@ && f[4].0 == "time"@);
        }
    }
}

/// Writing the high-score record and reading it back yields the record,
/// with its file marked present: integer texts must stand in canonical
/// decimal form, float texts must lie in the float grammar.
pub proof fn lemma_cybergrind_roundtrip(m: CybergrindModel)
    requires
        m.wf(),
        m.file_exists,
        int_canon_texts(m.kills),
        int_canon_texts(m.style),
        float_texts_ok(m.waves),
        float_texts_ok(m.times),
    ensures
        <CybergrindData as ParsableClass>::spec_parse(
            <CybergrindData as ParsableClass>::spec_unparse(m)->0,
        ) == Some(m),
{
    reveal_strlit("wave");
    reveal_strlit("preciseWavesByDifficulty");
    reveal_strlit("kills");
    reveal_strlit("style");
    reveal_strlit("time");
    lemma_int_canon_roundtrip(m.kills);
    lemma_int_canon_roundtrip(m.style);
    let f = <CybergrindData as ParsableClass>::spec_unparse(m)->0;
    assert(f[0].0 == "wave"@ && f[1].0 == "preciseWavesByDifficulty"@ && f[2].0 == "kills"@);
    assert(f[3].0 == "style"@ && f[4].0 == "time"@);
    assert(("wave"@)[0] == 'w' && ("time"@)[0] == 't');
    assert(("kills"@)[0] == 'k' && ("style"@)[0] == 's');
    crate::fields::lemma_fm_lookup_at(f, "preciseWavesByDifficulty"@, 1);
    crate::fields::lemma_fm_lookup_at(f, "kills"@, 2);
    crate::fields::lemma_fm_lookup_at(f, "style"@, 3);
    crate::fields::lemma_fm_lookup_at(f, "time"@, 4);
    assert(texts_of_ints(int_texts_to_ints(m.kills)->0) =~= m.kills);
    assert(texts_of_ints(int_texts_to_ints(m.style)->0) =~= m.style);
    assert(int_texts_to_ints(m.kills)->0.len() == 6);
    assert(int_texts_to_ints(m.style)->0.len() == 6);
}

} // verus!
