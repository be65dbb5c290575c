//! The generic field representation that every record converts to and from:
//! a named class holding an ordered map of typed fields.

use vstd::prelude::*;

verus! {

/// A typed field value: booleans, 32-bit integers, 32-bit floats carried as
/// their decimal text, and homogeneous arrays of the same.
#[derive(Debug, Clone)]
pub enum FieldValue {
    Bool(bool),
    Int(i32),
    Single(String),
    BoolArray(Vec<bool>),
    IntArray(Vec<i32>),
    SingleArray(Vec<String>),
}

/// Mathematical model of a field value.
pub enum FieldModel {
    Bool(bool),
    Int(i32),
    Single(Seq<char>),
    BoolArray(Seq<bool>),
    IntArray(Seq<i32>),
    SingleArray(Seq<Seq<char>>),
}

impl View for FieldValue {
    type V = FieldModel;

    open spec fn view(&self) -> FieldModel {
        match self {
            FieldValue::Bool(b) => FieldModel::Bool(*b),
            FieldValue::Int(i) => FieldModel::Int(*i),
            FieldValue::Single(s) => FieldModel::Single(s@),
            FieldValue::BoolArray(a) => FieldModel::BoolArray(a@),
            FieldValue::IntArray(a) => FieldModel::IntArray(a@),
            FieldValue::SingleArray(a) => FieldModel::SingleArray(a@.map_values(|s: String| s@)),
        }
    }
}

impl FieldValue {
    /// A copy with the same model.
    pub fn duplicate(&self) -> (r: FieldValue)
        ensures
            r@ == self@,
    {
        match self {
            FieldValue::Bool(b) => FieldValue::Bool(*b),
            FieldValue::Int(v) => FieldValue::Int(*v),
            FieldValue::Single(s) => FieldValue::Single(s.clone()),
            FieldValue::BoolArray(a) => FieldValue::BoolArray(a.clone()),
            FieldValue::IntArray(a) => FieldValue::IntArray(a.clone()),
            FieldValue::SingleArray(a) => {
                let c = a.clone();
                proof {
                    assert(c@.map_values(|s: String| s@) =~= a@.map_values(|s: String| s@));
                }
                FieldValue::SingleArray(c)
            },
        }
    }
}

/// An ordered map from field names to field values.
pub type FieldMap = Vec<(String, FieldValue)>;

/// Model of an ordered field map: name and value pairs, in order.
pub open spec fn fm_model(m: Seq<(String, FieldValue)>) -> Seq<(Seq<char>, FieldModel)> {
    m.map_values(|e: (String, FieldValue)| (e.0@, e.1@))
}

/// Appending an entry appends its model.
pub proof fn lemma_fm_model_push(m: Seq<(String, FieldValue)>, e: (String, FieldValue))
    ensures
        fm_model(m.push(e)) =~= fm_model(m).push((e.0@, e.1@)),
{
}

/// The value under the first occurrence of a name, if any.
pub open spec fn fm_lookup(fs: Seq<(Seq<char>, FieldModel)>, k: Seq<char>) -> Option<FieldModel>
    decreases fs.len(),
{
    if fs.len() == 0 {
        None
    } else if fs[0].0 == k {
        Some(fs[0].1)
    } else {
        fm_lookup(fs.drop_first(), k)
    }
}

pub open spec fn fm_keys_distinct(fs: Seq<(Seq<char>, FieldModel)>) -> bool {
    forall|i: int, j: int| 0 <= i < j < fs.len() ==> (#[trigger] fs[i]).0 != (#[trigger] fs[j]).0
}

pub proof fn lemma_fm_lookup_skip(fs: Seq<(Seq<char>, FieldModel)>, k: Seq<char>, i: int)
    requires
        0 <= i <= fs.len(),
        forall|j: int| 0 <= j < i ==> (#[trigger] fs[j]).0 != k,
    ensures
        fm_lookup(fs, k) == fm_lookup(fs.skip(i), k),
    decreases i,
{
    if i == 0 {
        assert(fs.skip(0) =~= fs);
    } else {
        assert(fs[0].0 != k);
        assert(fs.drop_first() =~= fs.skip(1));
        assert forall|j: int| 0 <= j < i - 1 implies (#[trigger] fs.skip(1)[j]).0 != k by {
            assert(fs.skip(1)[j] == fs[j + 1]);
        }
        lemma_fm_lookup_skip(fs.skip(1), k, i - 1);
        assert(fs.skip(1).skip(i - 1) =~= fs.skip(i));
    }
}

/// A name found at position `i`, with no earlier occurrence, is what lookup
/// returns.
pub proof fn lemma_fm_lookup_at(fs: Seq<(Seq<char>, FieldModel)>, k: Seq<char>, i: int)
    requires
        0 <= i < fs.len(),
        fs[i].0 == k,
        forall|j: int| 0 <= j < i ==> (#[trigger] fs[j]).0 != k,
    ensures
        fm_lookup(fs, k) == Some(fs[i].1),
{
    lemma_fm_lookup_skip(fs, k, i);
    assert(fs.skip(i)[0] == fs[i]);
}

/// A name occurring nowhere yields no lookup result.
pub proof fn lemma_fm_lookup_none(fs: Seq<(Seq<char>, FieldModel)>, k: Seq<char>)
    requires
        forall|j: int| 0 <= j < fs.len() ==> (#[trigger] fs[j]).0 != k,
    ensures
        fm_lookup(fs, k) is None,
{
    lemma_fm_lookup_skip(fs, k, fs.len() as int);
    assert(fs.skip(fs.len() as int) =~= Seq::<(Seq<char>, FieldModel)>::empty());
}

/// A decoded class: its name and its ordered field map. The library and
/// class names of the envelope are fixed per record type and checked
/// nowhere on read, as the consuming runtime fixes them on write only.
#[derive(Debug)]
pub struct ClassData {
    pub name: String,
    pub fields: FieldMap,
}

/// Mathematical model of a decoded class.
pub struct ClassModel {
    pub name: Seq<char>,
    pub fields: Seq<(Seq<char>, FieldModel)>,
}

impl View for ClassData {
    type V = ClassModel;

    open spec fn view(&self) -> ClassModel {
        ClassModel { name: self.name@, fields: fm_model(self.fields@) }
    }
}

/// Find a field by name in an ordered field map.
pub fn fm_get<'a>(m: &'a FieldMap, name: &str) -> (r: Option<&'a FieldValue>)
    ensures
        match r {
            Some(v) => fm_lookup(fm_model(m@), name@) == Some(v@),
            None => fm_lookup(fm_model(m@), name@) is None,
        },
{
    let key: String = String::from_str(name);
    let ghost fs = fm_model(m@);
    let n = m.len();
    let mut i: usize = 0;
    while i < n
        invariant
            0 <= i <= n,
            n == m@.len(),
            fs == fm_model(m@),
            key@ == name@,
            forall|j: int| 0 <= j < i ==> (#[trigger] fs[j]).0 != name@,
        decreases n - i,
    {
        if m[i].0 == key {
            proof {
                lemma_fm_lookup_at(fs, name@, i as int);
            }
            return Some(&m[i].1);
        }
        i = i + 1;
    }
    proof {
        lemma_fm_lookup_none(fs, name@);
    }
    None
}

} // verus!
