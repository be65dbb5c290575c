//! The persistence orchestrator: a loaded save directory is a set of named
//! byte files; loading decodes and parses each record's file, falling back
//! to the record's default on any failure; saving turns each record into a
//! write of freshly encoded bytes, or a deletion where the record has no
//! backing file.

use vstd::prelude::*;
use crate::decode::decode_class;
use crate::decode::decode_class_spec;
use crate::encode::encodable_class;
use crate::encode::encode_class;
use crate::encode::encode_class_spec;
use crate::traits::ParsableClass;
use crate::traits::ParsableClassKeyed;
use crate::traits::IntoFileInfix;
use crate::traits::VariantCatalog;

verus! {

// ---------------------------------------------------------------------------
// A loaded directory
// ---------------------------------------------------------------------------

/// The files of one save-slot directory, as read from disk: each file's
/// name and its bytes.
#[derive(Debug)]
pub struct SaveDir {
    pub files: Vec<(String, Vec<u8>)>,
}

impl View for SaveDir {
    type V = Seq<(Seq<char>, Seq<u8>)>;

    open spec fn view(&self) -> Seq<(Seq<char>, Seq<u8>)> {
        self.files@.map_values(|e: (String, Vec<u8>)| (e.0@, e.1@))
    }
}

/// The bytes under the first occurrence of a file name, if any.
pub open spec fn dir_lookup(d: Seq<(Seq<char>, Seq<u8>)>, name: Seq<char>) -> Option<Seq<u8>>
    decreases d.len(),
{
    if d.len() == 0 {
        None
    } else if d[0].0 == name {
        Some(d[0].1)
    } else {
        dir_lookup(d.drop_first(), name)
    }
}

proof fn lemma_dir_lookup_skip(d: Seq<(Seq<char>, Seq<u8>)>, name: Seq<char>, i: int)
    requires
        0 <= i <= d.len(),
        forall|j: int| 0 <= j < i ==> (#[trigger] d[j]).0 != name,
    ensures
        dir_lookup(d, name) == dir_lookup(d.skip(i), name),
    decreases i,
{
    if i == 0 {
        assert(d.skip(0) =~= d);
    } else {
        assert(d[0].0 != name);
        assert(d.drop_first() =~= d.skip(1));
        assert forall|j: int| 0 <= j < i - 1 implies (#[trigger] d.skip(1)[j]).0 != name by {
            assert(d.skip(1)[j] == d[j + 1]);
        }
        lemma_dir_lookup_skip(d.skip(1), name, i - 1);
        assert(d.skip(1).skip(i - 1) =~= d.skip(i));
    }
}

/// Find a file by name in a loaded directory.
pub fn dir_get<'a>(dir: &'a SaveDir, name: &String) -> (r: Option<&'a Vec<u8>>)
    ensures
        match r {
            Some(b) => dir_lookup(dir@, name@) == Some(b@),
            None => dir_lookup(dir@, name@) is None,
        },
{
    let ghost d = dir@;
    let n = dir.files.len();
    let mut i: usize = 0;
    while i < n
        invariant
            0 <= i <= n,
            n == dir.files@.len(),
            d == dir@,
            forall|j: int| 0 <= j < i ==> (#[trigger] d[j]).0 != name@,
        decreases n - i,
    {
        if dir.files[i].0 == *name {
            proof {
                lemma_dir_lookup_skip(d, name@, i as int);
                assert(d.skip(i as int)[0] == d[i as int]);
            }
            return Some(&dir.files[i].1);
        }
        i = i + 1;
    }
    proof {
        lemma_dir_lookup_skip(d, name@, n as int);
        assert(d.skip(n as int) =~= Seq::<(Seq<char>, Seq<u8>)>::empty());
    }
    None
}

// ---------------------------------------------------------------------------
// Loading and saving one record
// ---------------------------------------------------------------------------

/// What loading one record file yields: the parsed record, or the default
/// where the bytes do not decode to a class the record accepts.
pub open spec fn spec_load_file<T: ParsableClass>(bytes: Seq<u8>) -> T::V {
    match decode_class_spec(bytes) {
        Some(c) => match T::spec_parse(c.fields) {
            Some(m) => m,
            None => T::spec_default(),
        },
        None => T::spec_default(),
    }
}

/// What loading one record from a directory yields: a missing file is the
/// default, never an error.
pub open spec fn spec_load_single<T: ParsableClass>(d: Seq<(Seq<char>, Seq<u8>)>) -> T::V {
    match dir_lookup(d, T::file_name_spec()) {
        None => T::spec_default(),
        Some(b) => spec_load_file::<T>(b),
    }
}

/// Load one record from a directory.
pub fn load_single<T: ParsableClass>(dir: &SaveDir) -> (r: T)
    ensures
        r@ == spec_load_single::<T>(dir@),
{
    let fname = T::file_name();
    match dir_get(dir, &fname) {
        None => T::default_value(),
        Some(bytes) => match decode_class(bytes) {
            Some(c) => match T::parse(&c) {
                Some(v) => v,
                None => T::default_value(),
            },
            None => T::default_value(),
        },
    }
}

/// An action one record's save contributes: write fresh bytes, or remove
/// the file if it is present.
#[derive(Debug)]
pub enum FileAction {
    Write(String, Vec<u8>),
    Delete(String),
}

/// Mathematical model of a file action.
pub enum ActionModel {
    Write(Seq<char>, Seq<u8>),
    Delete(Seq<char>),
}

impl View for FileAction {
    type V = ActionModel;

    open spec fn view(&self) -> ActionModel {
        match self {
            FileAction::Write(name, bytes) => ActionModel::Write(name@, bytes@),
            FileAction::Delete(name) => ActionModel::Delete(name@),
        }
    }
}

/// What saving one record does: a record without a backing file deletes
/// its file; one with a backing file writes its encoded fields; nothing is
/// produced where a text field cannot be represented.
pub open spec fn spec_save_single<T: ParsableClass>(m: T::V) -> Option<ActionModel> {
    if !T::exists_spec(m) {
        Some(ActionModel::Delete(T::file_name_spec()))
    } else {
        match T::spec_unparse(m) {
            None => None,
            Some(f) => {
                if encodable_class(T::class_name_spec(), f) {
                    Some(
                        ActionModel::Write(
                            T::file_name_spec(),
                            encode_class_spec(T::class_name_spec(), f),
                        ),
                    )
                } else {
                    None
                }
            },
        }
    }
}

/// Save one record as a file action, or refuse it where a field cannot be
/// represented.
pub fn save_single<T: ParsableClass>(rec: &T) -> (r: Option<FileAction>)
    ensures
        match r {
            Some(a) => spec_save_single::<T>(rec@) == Some(a@),
            None => spec_save_single::<T>(rec@) is None,
        },
{
    if !rec.get_file_exists() {
        return Some(FileAction::Delete(T::file_name()));
    }
    let fm = match rec.unparse() {
        Some(fm) => fm,
        None => {
            return None;
        },
    };
    let cn = T::class_name();
    match encode_class(cn.as_str(), &fm) {
        Some(bytes) => Some(FileAction::Write(T::file_name(), bytes)),
        None => None,
    }
}

// ---------------------------------------------------------------------------
// Loading and saving a keyed family
// ---------------------------------------------------------------------------

/// The file name of one variant of a keyed family.
pub open spec fn keyed_file_name<K: VariantCatalog, T: ParsableClassKeyed<K>>(key: K) -> Seq<
    char,
> {
    T::file_prefix_spec() + key.infix_spec() + T::file_suffix_spec()
}

fn keyed_file_name_exec<K: VariantCatalog, T: ParsableClassKeyed<K>>(key: &K) -> (r: String)
    ensures
        r@ == keyed_file_name::<K, T>(*key),
{
    let mut s = T::file_prefix();
    let infix = key.into_file_infix();
    s.append(infix.as_str());
    let suffix = T::file_suffix();
    s.append(suffix.as_str());
    s
}

/// What loading one variant of a keyed family yields: the parsed record,
/// or the variant's canonical fresh record on any failure.
pub open spec fn spec_load_keyed_at<K: VariantCatalog, T: ParsableClassKeyed<K>>(
    d: Seq<(Seq<char>, Seq<u8>)>,
    i: int,
) -> T::V {
    let key = K::from_index_spec(i);
    match dir_lookup(d, keyed_file_name::<K, T>(key)) {
        None => T::spec_create_new(key),
        Some(b) => match decode_class_spec(b) {
            Some(c) => match T::spec_parse(c.fields) {
                Some(m) => m,
                None => T::spec_create_new(key),
            },
            None => T::spec_create_new(key),
        },
    }
}

/// Load a keyed family from a directory: one record per catalog variant,
/// always total over the catalog.
pub fn load_keyed<K: VariantCatalog, T: ParsableClassKeyed<K>>(dir: &SaveDir) -> (r: Vec<T>)
    ensures
        r@.len() == K::count_spec(),
        forall|i: int| 0 <= i < r@.len() ==> (#[trigger] r@[i])@ == spec_load_keyed_at::<K, T>(
            dir@,
            i,
        ),
{
    let n = K::count();
    let mut out: Vec<T> = Vec::new();
    let mut i: usize = 0;
    while i < n
        invariant
            0 <= i <= n,
            n == K::count_spec(),
            out@.len() == i,
            forall|k: int| 0 <= k < i ==> (#[trigger] out@[k])@ == spec_load_keyed_at::<K, T>(
                dir@,
                k,
            ),
        decreases n - i,
    {
        let key = K::from_index(i);
        let fname = keyed_file_name_exec::<K, T>(&key);
        let rec: T = match dir_get(dir, &fname) {
            None => T::create_new(&key),
            Some(bytes) => match decode_class(bytes) {
                Some(c) => match T::parse(&c) {
                    Some(v) => v,
                    None => T::create_new(&key),
                },
                None => T::create_new(&key),
            },
        };
        out.push(rec);
        i = i + 1;
    }
    out
}

/// What saving one variant of a keyed family does.
pub open spec fn spec_save_keyed_at<K: VariantCatalog, T: ParsableClassKeyed<K>>(
    m: T::V,
    i: int,
) -> Option<ActionModel> {
    let key = K::from_index_spec(i);
    if !T::exists_spec(m) {
        Some(ActionModel::Delete(keyed_file_name::<K, T>(key)))
    } else {
        match T::spec_unparse(m, key) {
            None => None,
            Some(f) => {
                if encodable_class(T::class_name_spec(), f) {
                    Some(
                        ActionModel::Write(
                            keyed_file_name::<K, T>(key),
                            encode_class_spec(T::class_name_spec(), f),
                        ),
                    )
                } else {
                    None
                }
            },
        }
    }
}

/// Save a keyed family: one action per record in catalog order, stopping
/// at the first record whose fields cannot be represented.
pub fn save_keyed<K: VariantCatalog, T: ParsableClassKeyed<K>>(
    recs: &Vec<T>,
    out: &mut Vec<FileAction>,
) -> (ok: bool)
    requires
        recs@.len() == K::count_spec(),
    ensures
        ok == (forall|i: int| 0 <= i < recs@.len() ==> spec_save_keyed_at::<K, T>(
            (#[trigger] recs@[i])@,
            i,
        ) is Some),
        old(out)@.len() <= final(out)@.len(),
        forall|i: int| 0 <= i < old(out)@.len() ==> (#[trigger] final(out)@[i]) == old(out)@[i],
        ok ==> final(out)@.len() == old(out)@.len() + recs@.len(),
        ok ==> forall|i: int| 0 <= i < recs@.len() ==> (#[trigger] final(out)@[old(out)@.len()
            + i])@ == spec_save_keyed_at::<K, T>(recs@[i]@, i)->0,
        !ok ==> exists|k: int|
            {
                &&& 0 <= k < recs@.len()
                &&& spec_save_keyed_at::<K, T>((#[trigger] recs@[k])@, k) is None
                &&& final(out)@.len() == old(out)@.len() + k
                &&& forall|j: int| 0 <= j < k ==> spec_save_keyed_at::<K, T>(
                    (#[trigger] recs@[j])@,
                    j,
                ) is Some
                &&& forall|j: int| 0 <= j < k ==> (#[trigger] final(out)@[old(out)@.len() + j])@
                    == spec_save_keyed_at::<K, T>(recs@[j]@, j)->0
            },
{
    let base = out.len();
    let n = recs.len();
    let mut i: usize = 0;
    while i < n
        invariant
            0 <= i <= n,
            n == recs@.len(),
            n == K::count_spec(),
            base == old(out)@.len(),
            out@.len() == base + i,
            forall|k: int| 0 <= k < base ==> (#[trigger] out@[k]) == old(out)@[k],
            forall|k: int| 0 <= k < i ==> spec_save_keyed_at::<K, T>((#[trigger] recs@[k])@, k)
                is Some,
            forall|k: int| 0 <= k < i ==> (#[trigger] out@[base + k])@ == spec_save_keyed_at::<
                K,
                T,
            >(recs@[k]@, k)->0,
        decreases n - i,
    {
        let key = K::from_index(i);
        let fname = keyed_file_name_exec::<K, T>(&key);
        if !recs[i].get_file_exists() {
            out.push(FileAction::Delete(fname));
        } else {
            let fm = match recs[i].unparse(&key) {
                Some(fm) => fm,
                None => {
                    proof {
                        assert(spec_save_keyed_at::<K, T>(recs@[i as int]@, i as int) is None);
                        assert(out@.len() == old(out)@.len() + i);
                    }
                    return false;
                },
            };
            let cn = T::class_name();
            match encode_class(cn.as_str(), &fm) {
                Some(bytes) => out.push(FileAction::Write(fname, bytes)),
                None => {
                    proof {
                        assert(spec_save_keyed_at::<K, T>(recs@[i as int]@, i as int) is None);
                        assert(out@.len() == old(out)@.len() + i);
                    }
                    return false;
                },
            }
        }
        i = i + 1;
    }
    true
}

} // verus!
