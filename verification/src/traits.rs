//! The record codec contract: how a record converts to and from the generic
//! field representation, and how variant-keyed record families name their
//! files.

use vstd::prelude::*;
use crate::fields::ClassData;
use crate::fields::FieldMap;
use crate::fields::FieldModel;
use crate::fields::fm_keys_distinct;
use crate::fields::fm_model;

verus! {

/// The identifier of the assembly that the consuming runtime expects in
/// every encoded class envelope.
pub open spec fn library_name_spec() -> Seq<char> {
    "Assembly-CSharp, Version=0.0.0.0, Culture=neutral, PublicKeyToken=null"@
}

/// Produce the envelope's assembly identifier.
pub fn library_name() -> (r: String)
    ensures
        r@ == library_name_spec(),
{
    String::from_str("Assembly-CSharp, Version=0.0.0.0, Culture=neutral, PublicKeyToken=null")
}

/// How a variant names its file: the infix between a record family's file
/// prefix and suffix.
pub trait IntoFileInfix {
    /// The infix text.
    spec fn infix_spec(&self) -> Seq<char>;

    /// Produce the infix text.
    fn into_file_infix(&self) -> (r: String)
        ensures
            r@ == self.infix_spec(),
    ;
}

/// A closed, ordered, iterable catalog of variants that keys a record
/// family: one variant per index from zero up to the count.
pub trait VariantCatalog: IntoFileInfix + Sized + Copy {
    /// How many variants the catalog holds.
    spec fn count_spec() -> int;

    /// The variant at a catalog position.
    spec fn from_index_spec(i: int) -> Self;

    fn count() -> (n: usize)
        ensures
            n == Self::count_spec(),
    ;

    fn from_index(i: usize) -> (r: Self)
        requires
            0 <= i < Self::count_spec(),
        ensures
            r == Self::from_index_spec(i as int),
    ;
}

/// A record persisted in one file per save directory.
///
/// `spec_parse` and `spec_unparse` are the record's codec contract over the
/// field model; the executable `parse` and `unparse` follow them exactly.
/// `spec_parse` fails whenever a required field is absent, carries the wrong
/// primitive type, or holds an unknown discriminant or a wrong length.
pub trait ParsableClass: View + Sized {
    /// The class name written in the envelope.
    spec fn class_name_spec() -> Seq<char>;

    /// The record's file name inside a save directory.
    spec fn file_name_spec() -> Seq<char>;

    /// What a decoded field map parses to, if anything.
    spec fn spec_parse(fields: Seq<(Seq<char>, FieldModel)>) -> Option<Self::V>;

    /// What the record writes, if its text fields are representable.
    spec fn spec_unparse(m: Self::V) -> Option<Seq<(Seq<char>, FieldModel)>>;

    /// The record of a feature never played.
    spec fn spec_default() -> Self::V;

    /// Whether the record has a backing file.
    spec fn exists_spec(m: Self::V) -> bool;

    fn class_name() -> (r: String)
        ensures
            r@ == Self::class_name_spec(),
    ;

    fn file_name() -> (r: String)
        ensures
            r@ == Self::file_name_spec(),
    ;

    fn parse(c: &ClassData) -> (r: Option<Self>)
        ensures
            match r {
                Some(v) => Self::spec_parse(c@.fields) == Some(v@),
                None => Self::spec_parse(c@.fields) is None,
            },
    ;

    fn unparse(&self) -> (r: Option<FieldMap>)
        ensures
            match r {
                Some(m) => Self::spec_unparse(self@) == Some(fm_model(m@)),
                None => Self::spec_unparse(self@) is None,
            },
    ;

    fn default_value() -> (r: Self)
        ensures
            r@ == Self::spec_default(),
    ;

    fn get_file_exists(&self) -> (r: bool)
        ensures
            r == Self::exists_spec(self@),
    ;

    /// A written field map never repeats a name.
    proof fn lemma_unparse_distinct(m: Self::V)
        ensures
            Self::spec_unparse(m) matches Some(f) ==> fm_keys_distinct(f),
    ;
}

/// A record family with one instance, and one file, per variant of a key
/// catalog. The key is itself serialized into the record, so writing takes
/// the key; file names have the form prefix, key infix, suffix.
pub trait ParsableClassKeyed<K: IntoFileInfix>: View + Sized {
    /// The class name written in the envelope.
    spec fn class_name_spec() -> Seq<char>;

    /// What precedes the key infix in the family's file names.
    spec fn file_prefix_spec() -> Seq<char>;

    /// What follows the key infix in the family's file names.
    spec fn file_suffix_spec() -> Seq<char>;

    /// What a decoded field map parses to, if anything.
    spec fn spec_parse(fields: Seq<(Seq<char>, FieldModel)>) -> Option<Self::V>;

    /// What the record writes under its key, if representable.
    spec fn spec_unparse(m: Self::V, key: K) -> Option<Seq<(Seq<char>, FieldModel)>>;

    /// The canonical record of a variant never played.
    spec fn spec_create_new(key: K) -> Self::V;

    /// Whether the record has a backing file.
    spec fn exists_spec(m: Self::V) -> bool;

    fn class_name() -> (r: String)
        ensures
            r@ == Self::class_name_spec(),
    ;

    fn file_prefix() -> (r: String)
        ensures
            r@ == Self::file_prefix_spec(),
    ;

    fn file_suffix() -> (r: String)
        ensures
            r@ == Self::file_suffix_spec(),
    ;

    fn parse(c: &ClassData) -> (r: Option<Self>)
        ensures
            match r {
                Some(v) => Self::spec_parse(c@.fields) == Some(v@),
                None => Self::spec_parse(c@.fields) is None,
            },
    ;

    fn unparse(&self, variant: &K) -> (r: Option<FieldMap>)
        ensures
            match r {
                Some(m) => Self::spec_unparse(self@, *variant) == Some(fm_model(m@)),
                None => Self::spec_unparse(self@, *variant) is None,
            },
    ;

    fn create_new(variant: &K) -> (r: Self)
        ensures
            r@ == Self::spec_create_new(*variant),
    ;

    fn get_file_exists(&self) -> (r: bool)
        ensures
            r == Self::exists_spec(self@),
    ;

    /// A written field map never repeats a name.
    proof fn lemma_unparse_distinct(m: Self::V, key: K)
        ensures
            Self::spec_unparse(m, key) matches Some(f) ==> fm_keys_distinct(f),
    ;
}

} // verus!
