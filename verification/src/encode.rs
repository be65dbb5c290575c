//! Encoding a named class with typed fields into the binary object format
//! the consuming runtime reads: a stream header, the assembly record, one
//! class record with member type information and inline primitive values,
//! one array record per array member referenced from the class record, and
//! the end-of-stream mark.

use vstd::prelude::*;
use vstd::string::StrSliceExecFns;
use vstd::utf8::encode_utf8;
use crate::fields::FieldModel;
use crate::fields::FieldMap;
use crate::fields::FieldValue;
use crate::fields::fm_model;
use crate::wire_float::float_bits_of;
use crate::wire_float::single_bits_of_text;
use crate::text::is_float_text;
use crate::traits::library_name_spec;

verus! {

// ---------------------------------------------------------------------------
// Byte-level pieces
// ---------------------------------------------------------------------------

/// Four little-endian bytes.
pub open spec fn le32(b: u32) -> Seq<u8> {
    seq![
        (b & 0xff) as u8,
        ((b >> 8) & 0xff) as u8,
        ((b >> 16) & 0xff) as u8,
        ((b >> 24) & 0xff) as u8,
    ]
}

pub open spec fn le32i(v: i32) -> Seq<u8> {
    le32(v as u32)
}

/// A length-prefixed string: its byte length in one byte, then its bytes.
/// Defined for strings under 128 bytes, where one prefix byte suffices.
pub open spec fn lps(s: Seq<char>) -> Seq<u8> {
    seq![encode_utf8(s).len() as u8] + encode_utf8(s)
}

pub open spec fn bool_byte(b: bool) -> u8 {
    if b {
        1
    } else {
        0
    }
}

/// Array element bytes.
pub open spec fn bools_bytes(a: Seq<bool>) -> Seq<u8>
    decreases a.len(),
{
    if a.len() == 0 {
        Seq::empty()
    } else {
        bools_bytes(a.drop_last()) + seq![bool_byte(a.last())]
    }
}

pub open spec fn i32s_bytes(a: Seq<i32>) -> Seq<u8>
    decreases a.len(),
{
    if a.len() == 0 {
        Seq::empty()
    } else {
        i32s_bytes(a.drop_last()) + le32i(a.last())
    }
}

pub open spec fn singles_bytes(a: Seq<Seq<char>>) -> Seq<u8>
    decreases a.len(),
{
    if a.len() == 0 {
        Seq::empty()
    } else {
        singles_bytes(a.drop_last()) + le32(float_bits_of(a.last()))
    }
}

// ---------------------------------------------------------------------------
// Per-field pieces
// ---------------------------------------------------------------------------

/// The member type tag: primitive or primitive array.
pub open spec fn binary_type_byte(v: FieldModel) -> u8 {
    match v {
        FieldModel::Bool(_) => 0,
        FieldModel::Int(_) => 0,
        FieldModel::Single(_) => 0,
        FieldModel::BoolArray(_) => 7,
        FieldModel::IntArray(_) => 7,
        FieldModel::SingleArray(_) => 7,
    }
}

/// The primitive type tag of the field or of its elements.
pub open spec fn prim_type_byte(v: FieldModel) -> u8 {
    match v {
        FieldModel::Bool(_) => 1,
        FieldModel::Int(_) => 8,
        FieldModel::Single(_) => 11,
        FieldModel::BoolArray(_) => 1,
        FieldModel::IntArray(_) => 8,
        FieldModel::SingleArray(_) => 11,
    }
}

pub open spec fn is_array_field(v: FieldModel) -> bool {
    binary_type_byte(v) == 7
}

/// How many of the fields are arrays.
pub open spec fn array_count(fs: Seq<(Seq<char>, FieldModel)>) -> int
    decreases fs.len(),
{
    if fs.len() == 0 {
        0
    } else {
        array_count(fs.drop_last()) + (if is_array_field(fs.last().1) {
            1int
        } else {
            0int
        })
    }
}

/// What a member contributes inline in the class record: its primitive
/// value, or a reference to the array record that carries it.
pub open spec fn member_inline(v: FieldModel, arr_id: int) -> Seq<u8> {
    match v {
        FieldModel::Bool(b) => seq![bool_byte(b)],
        FieldModel::Int(x) => le32i(x),
        FieldModel::Single(t) => le32(float_bits_of(t)),
        _ => seq![9u8] + le32(arr_id as u32),
    }
}

/// The array record of one array member.
pub open spec fn member_array_record(v: FieldModel, arr_id: int) -> Seq<u8> {
    match v {
        FieldModel::BoolArray(a) => seq![15u8] + le32(arr_id as u32) + le32(a.len() as u32)
            + seq![1u8] + bools_bytes(a),
        FieldModel::IntArray(a) => seq![15u8] + le32(arr_id as u32) + le32(a.len() as u32)
            + seq![8u8] + i32s_bytes(a),
        FieldModel::SingleArray(a) => seq![15u8] + le32(arr_id as u32) + le32(a.len() as u32)
            + seq![11u8] + singles_bytes(a),
        _ => Seq::empty(),
    }
}

// ---------------------------------------------------------------------------
// The class stream
// ---------------------------------------------------------------------------

pub open spec fn member_names_bytes(fs: Seq<(Seq<char>, FieldModel)>) -> Seq<u8>
    decreases fs.len(),
{
    if fs.len() == 0 {
        Seq::empty()
    } else {
        member_names_bytes(fs.drop_last()) + lps(fs.last().0)
    }
}

pub open spec fn binary_types_bytes(fs: Seq<(Seq<char>, FieldModel)>) -> Seq<u8>
    decreases fs.len(),
{
    if fs.len() == 0 {
        Seq::empty()
    } else {
        binary_types_bytes(fs.drop_last()) + seq![binary_type_byte(fs.last().1)]
    }
}

pub open spec fn prim_types_bytes(fs: Seq<(Seq<char>, FieldModel)>) -> Seq<u8>
    decreases fs.len(),
{
    if fs.len() == 0 {
        Seq::empty()
    } else {
        prim_types_bytes(fs.drop_last()) + seq![prim_type_byte(fs.last().1)]
    }
}

/// The inline member values, arrays referenced by ids counted from 3.
pub open spec fn inline_values_bytes(fs: Seq<(Seq<char>, FieldModel)>) -> Seq<u8>
    decreases fs.len(),
{
    if fs.len() == 0 {
        Seq::empty()
    } else {
        inline_values_bytes(fs.drop_last()) + member_inline(
            fs.last().1,
            3 + array_count(fs.drop_last()),
        )
    }
}

/// The array records, in member order, ids counted from 3.
pub open spec fn array_records_bytes(fs: Seq<(Seq<char>, FieldModel)>) -> Seq<u8>
    decreases fs.len(),
{
    if fs.len() == 0 {
        Seq::empty()
    } else {
        array_records_bytes(fs.drop_last()) + (if is_array_field(fs.last().1) {
            member_array_record(fs.last().1, 3 + array_count(fs.drop_last()))
        } else {
            Seq::empty()
        })
    }
}

/// The stream header: root object 1, no header id, format version 1.0.
pub open spec fn header_bytes() -> Seq<u8> {
    seq![0u8] + le32(1) + le32i(-1i32) + le32(1) + le32(0)
}

/// The assembly record, with library id 2.
pub open spec fn library_bytes() -> Seq<u8> {
    seq![12u8] + le32(2) + lps(library_name_spec())
}

/// The whole encoded stream of one class.
pub open spec fn encode_class_spec(name: Seq<char>, fs: Seq<(Seq<char>, FieldModel)>) -> Seq<u8> {
    header_bytes() + library_bytes() + seq![5u8] + le32(1) + lps(name) + le32(fs.len() as u32)
        + member_names_bytes(fs) + binary_types_bytes(fs) + prim_types_bytes(fs) + le32(2)
        + inline_values_bytes(fs) + array_records_bytes(fs) + seq![11u8]
}

/// ASCII text encodes one byte per character.
pub proof fn lemma_ascii_utf8_len(s: Seq<char>)
    requires
        vstd::utf8::is_ascii_chars(s),
    ensures
        encode_utf8(s).len() == s.len(),
{
    vstd::utf8::is_ascii_chars_encode_utf8(s);
}

/// The envelope's assembly identifier fits one length-prefix byte.
pub proof fn lemma_library_name_short()
    ensures
        encode_utf8(library_name_spec()).len() < 128,
{
    reveal_strlit("Assembly-CSharp, Version=0.0.0.0, Culture=neutral, PublicKeyToken=null");
    assert(vstd::utf8::is_ascii_chars(library_name_spec()));
    lemma_ascii_utf8_len(library_name_spec());
}

/// What one field needs to be encodable: a short name, a length a signed
/// 32-bit count can carry, and float text inside the float grammar.
pub open spec fn field_encodable(e: (Seq<char>, FieldModel)) -> bool {
    &&& encode_utf8(e.0).len() < 128
    &&& match e.1 {
        FieldModel::Bool(_) => true,
        FieldModel::Int(_) => true,
        FieldModel::Single(t) => is_float_text(t),
        FieldModel::BoolArray(a) => a.len() <= 0x7fffffff,
        FieldModel::IntArray(a) => a.len() <= 0x7fffffff,
        FieldModel::SingleArray(a) => a.len() <= 0x7fffffff && (forall|i: int|
            0 <= i < a.len() ==> is_float_text(#[trigger] a[i])),
    }
}

/// What a class needs to be encodable.
pub open spec fn encodable_class(name: Seq<char>, fs: Seq<(Seq<char>, FieldModel)>) -> bool {
    &&& encode_utf8(name).len() < 128
    &&& encode_utf8(library_name_spec()).len() < 128
    &&& fs.len() <= 0x7fffffff
    &&& forall|i: int| 0 <= i < fs.len() ==> field_encodable(#[trigger] fs[i])
}

// ---------------------------------------------------------------------------
// Executable emission
// ---------------------------------------------------------------------------

fn push_le32(out: &mut Vec<u8>, b: u32)
    ensures
        final(out)@ =~= old(out)@ + le32(b),
{
    out.push((b & 0xff) as u8);
    out.push(((b >> 8) & 0xff) as u8);
    out.push(((b >> 16) & 0xff) as u8);
    out.push(((b >> 24) & 0xff) as u8);
}

fn push_le32i(out: &mut Vec<u8>, v: i32)
    ensures
        final(out)@ =~= old(out)@ + le32i(v),
{
    push_le32(out, v as u32);
}

/// Append a length-prefixed string; refuse one too long for one prefix
/// byte.
fn push_lps(out: &mut Vec<u8>, s: &str) -> (ok: bool)
    ensures
        ok == (encode_utf8(s@).len() < 128),
        ok ==> final(out)@ =~= old(out)@ + lps(s@),
        !ok ==> final(out)@ == old(out)@,
{
    let mut bs = s.as_bytes_vec();
    if bs.len() >= 128 {
        return false;
    }
    out.push(bs.len() as u8);
    out.append(&mut bs);
    true
}

fn push_bools(out: &mut Vec<u8>, a: &Vec<bool>)
    ensures
        final(out)@ =~= old(out)@ + bools_bytes(a@),
{
    let n = a.len();
    let mut i: usize = 0;
    while i < n
        invariant
            0 <= i <= n,
            n == a@.len(),
            out@ =~= old(out)@ + bools_bytes(a@.take(i as int)),
        decreases n - i,
    {
        out.push(if a[i] { 1 } else { 0 });
        proof {
            assert(a@.take(i + 1).drop_last() =~= a@.take(i as int));
            assert(a@.take(i + 1).last() == a@[i as int]);
        }
        i = i + 1;
    }
    proof {
        assert(a@.take(n as int) =~= a@);
    }
}

fn push_i32s(out: &mut Vec<u8>, a: &Vec<i32>)
    ensures
        final(out)@ =~= old(out)@ + i32s_bytes(a@),
{
    let n = a.len();
    let mut i: usize = 0;
    while i < n
        invariant
            0 <= i <= n,
            n == a@.len(),
            out@ =~= old(out)@ + i32s_bytes(a@.take(i as int)),
        decreases n - i,
    {
        push_le32i(out, a[i]);
        proof {
            assert(a@.take(i + 1).drop_last() =~= a@.take(i as int));
            assert(a@.take(i + 1).last() == a@[i as int]);
        }
        i = i + 1;
    }
    proof {
        assert(a@.take(n as int) =~= a@);
    }
}

/// Append float texts as their wire bits; refuse text outside the grammar.
fn push_singles(out: &mut Vec<u8>, a: &Vec<String>) -> (ok: bool)
    ensures
        ok == (forall|i: int| 0 <= i < a@.len() ==> is_float_text((#[trigger] a@[i])@)),
        ok ==> final(out)@ =~= old(out)@ + singles_bytes(a@.map_values(|s: String| s@)),
{
    let ghost m = a@.map_values(|s: String| s@);
    let n = a.len();
    let mut i: usize = 0;
    while i < n
        invariant
            0 <= i <= n,
            n == a@.len(),
            m == a@.map_values(|s: String| s@),
            forall|k: int| 0 <= k < i ==> is_float_text((#[trigger] a@[k])@),
            out@ =~= old(out)@ + singles_bytes(m.take(i as int)),
        decreases n - i,
    {
        match single_bits_of_text(a[i].as_str()) {
            Some(bits) => {
                push_le32(out, bits);
                proof {
                    assert(m.take(i + 1).drop_last() =~= m.take(i as int));
                    assert(m.take(i + 1).last() == m[i as int]);
                }
            },
            None => {
                return false;
            },
        }
        i = i + 1;
    }
    proof {
        assert(m.take(n as int) =~= m);
    }
    true
}

/// Encode a named class with its ordered fields, or refuse it where a
/// name is too long, an array too large, or float text outside the
/// grammar.
#[verifier::rlimit(100)]
pub fn encode_class(name: &str, fields: &FieldMap) -> (r: Option<Vec<u8>>)
    ensures
        r is Some <==> encodable_class(name@, fm_model(fields@)),
        r matches Some(b) ==> b@ =~= encode_class_spec(name@, fm_model(fields@)),
{
    let ghost fs = fm_model(fields@);
    let mut out: Vec<u8> = Vec::new();
    // header
    out.push(0);
    push_le32(&mut out, 1);
    push_le32i(&mut out, -1);
    push_le32(&mut out, 1);
    push_le32(&mut out, 0);
    proof {
        assert(out@ =~= header_bytes());
    }
    // assembly record
    out.push(12);
    push_le32(&mut out, 2);
    let lib = crate::traits::library_name();
    if !push_lps(&mut out, lib.as_str()) {
        return None;
    }
    // class record prologue
    out.push(5);
    push_le32(&mut out, 1);
    if !push_lps(&mut out, name) {
        return None;
    }
    if fields.len() > 0x7fffffff {
        return None;
    }
    push_le32(&mut out, fields.len() as u32);
    let ghost prologue = header_bytes() + library_bytes() + seq![5u8] + le32(1) + lps(name@)
        + le32(fs.len() as u32);
    proof {
        assert(out@ =~= prologue);
    }
    let n = fields.len();
    // member names
    let mut i: usize = 0;
    while i < n
        invariant
            0 <= i <= n,
            n == fields@.len(),
            fs == fm_model(fields@),
            forall|k: int| 0 <= k < i ==> encode_utf8((#[trigger] fs[k]).0).len() < 128,
            out@ =~= prologue + member_names_bytes(fs.take(i as int)),
        decreases n - i,
    {
        if !push_lps(&mut out, fields[i].0.as_str()) {
            proof {
                assert(fs[i as int].0 == fields@[i as int].0@);
                assert(!field_encodable(fs[i as int]));
            }
            return None;
        }
        proof {
            assert(fs.take(i + 1).drop_last() =~= fs.take(i as int));
            assert(fs.take(i + 1).last() == fs[i as int]);
        }
        i = i + 1;
    }
    proof {
        assert(fs.take(n as int) =~= fs);
    }
    // member type tags
    let ghost with_names = prologue + member_names_bytes(fs);
    let mut i2: usize = 0;
    while i2 < n
        invariant
            0 <= i2 <= n,
            n == fields@.len(),
            fs == fm_model(fields@),
            out@ =~= with_names + binary_types_bytes(fs.take(i2 as int)),
        decreases n - i2,
    {
        let tag: u8 = match &fields[i2].1 {
            FieldValue::Bool(_) => 0,
            FieldValue::Int(_) => 0,
            FieldValue::Single(_) => 0,
            FieldValue::BoolArray(_) => 7,
            FieldValue::IntArray(_) => 7,
            FieldValue::SingleArray(_) => 7,
        };
        out.push(tag);
        proof {
            assert(fs.take(i2 + 1).drop_last() =~= fs.take(i2 as int));
            assert(fs.take(i2 + 1).last() == fs[i2 as int]);
        }
        i2 = i2 + 1;
    }
    proof {
        assert(fs.take(n as int) =~= fs);
    }
    // primitive type tags
    let ghost with_btypes = with_names + binary_types_bytes(fs);
    let mut i3: usize = 0;
    while i3 < n
        invariant
            0 <= i3 <= n,
            n == fields@.len(),
            fs == fm_model(fields@),
            out@ =~= with_btypes + prim_types_bytes(fs.take(i3 as int)),
        decreases n - i3,
    {
        let tag: u8 = match &fields[i3].1 {
            FieldValue::Bool(_) => 1,
            FieldValue::Int(_) => 8,
            FieldValue::Single(_) => 11,
            FieldValue::BoolArray(_) => 1,
            FieldValue::IntArray(_) => 8,
            FieldValue::SingleArray(_) => 11,
        };
        out.push(tag);
        proof {
            assert(fs.take(i3 + 1).drop_last() =~= fs.take(i3 as int));
            assert(fs.take(i3 + 1).last() == fs[i3 as int]);
        }
        i3 = i3 + 1;
    }
    proof {
        assert(fs.take(n as int) =~= fs);
    }
    push_le32(&mut out, 2);
    // inline member values
    let ghost with_lib_id = with_btypes + prim_types_bytes(fs) + le32(2);
    proof {
        assert(out@ =~= with_lib_id);
    }
    let mut arrays: usize = 0;
    let mut i4: usize = 0;
    while i4 < n
        invariant
            0 <= i4 <= n,
            n == fields@.len(),
            fs == fm_model(fields@),
            arrays == array_count(fs.take(i4 as int)),
            0 <= arrays <= i4,
            n <= 0x7fffffff,
            forall|k: int| 0 <= k < i4 ==> field_value_ok(#[trigger] fs[k].1),
            out@ =~= with_lib_id + inline_values_bytes(fs.take(i4 as int)),
        decreases n - i4,
    {
        proof {
            assert(fs.take(i4 + 1).drop_last() =~= fs.take(i4 as int));
            assert(fs.take(i4 + 1).last() == fs[i4 as int]);
        }
        match &fields[i4].1 {
            FieldValue::Bool(b) => {
                out.push(if *b { 1 } else { 0 });
            },
            FieldValue::Int(v) => {
                push_le32i(&mut out, *v);
            },
            FieldValue::Single(t) => {
                match single_bits_of_text(t.as_str()) {
                    Some(bits) => push_le32(&mut out, bits),
                    None => {
                        return None;
                    },
                }
            },
            FieldValue::BoolArray(a) => {
                if a.len() > 0x7fffffff {
                    return None;
                }
                out.push(9);
                push_le32(&mut out, (3 + arrays) as u32);
                arrays = arrays + 1;
            },
            FieldValue::IntArray(a) => {
                if a.len() > 0x7fffffff {
                    return None;
                }
                out.push(9);
                push_le32(&mut out, (3 + arrays) as u32);
                arrays = arrays + 1;
            },
            FieldValue::SingleArray(a) => {
                if a.len() > 0x7fffffff {
                    return None;
                }
                out.push(9);
                push_le32(&mut out, (3 + arrays) as u32);
                arrays = arrays + 1;
            },
        }
        i4 = i4 + 1;
    }
    proof {
        assert(fs.take(n as int) =~= fs);
    }
    // array records
    let ghost with_inline = with_lib_id + inline_values_bytes(fs);
    let mut arrays2: usize = 0;
    let mut i5: usize = 0;
    while i5 < n
        invariant
            0 <= i5 <= n,
            n == fields@.len(),
            fs == fm_model(fields@),
            arrays2 == array_count(fs.take(i5 as int)),
            0 <= arrays2 <= i5,
            n <= 0x7fffffff,
            forall|k: int| 0 <= k < n ==> field_value_ok(#[trigger] fs[k].1),
            forall|k: int| 0 <= k < i5 ==> single_array_ok(#[trigger] fs[k].1),
            out@ =~= with_inline + array_records_bytes(fs.take(i5 as int)),
        decreases n - i5,
    {
        proof {
            assert(fs.take(i5 + 1).drop_last() =~= fs.take(i5 as int));
            assert(fs.take(i5 + 1).last() == fs[i5 as int]);
        }
        match &fields[i5].1 {
            FieldValue::Bool(_) => {},
            FieldValue::Int(_) => {},
            FieldValue::Single(_) => {},
            FieldValue::BoolArray(a) => {
                proof {
                    assert(fs[i5 as int].1 == FieldModel::BoolArray(a@));
                    assert(field_value_ok(fs[i5 as int].1));
                }
                out.push(15);
                push_le32(&mut out, (3 + arrays2) as u32);
                push_le32(&mut out, a.len() as u32);
                out.push(1);
                push_bools(&mut out, a);
                arrays2 = arrays2 + 1;
            },
            FieldValue::IntArray(a) => {
                proof {
                    assert(fs[i5 as int].1 == FieldModel::IntArray(a@));
                    assert(field_value_ok(fs[i5 as int].1));
                }
                out.push(15);
                push_le32(&mut out, (3 + arrays2) as u32);
                push_le32(&mut out, a.len() as u32);
                out.push(8);
                push_i32s(&mut out, a);
                arrays2 = arrays2 + 1;
            },
            FieldValue::SingleArray(a) => {
                proof {
                    assert(fs[i5 as int].1 == FieldModel::SingleArray(a@.map_values(|s: String| s@)));
                    assert(field_value_ok(fs[i5 as int].1));
                }
                out.push(15);
                push_le32(&mut out, (3 + arrays2) as u32);
                push_le32(&mut out, a.len() as u32);
                out.push(11);
                if !push_singles(&mut out, a) {
                    proof {
                        assert(exists|k: int|
                            0 <= k < a@.len() && !is_float_text((#[trigger] a@[k])@));
                        let k = choose|k: int|
                            0 <= k < a@.len() && !is_float_text((#[trigger] a@[k])@);
                        assert(a@.map_values(|s: String| s@)[k] == a@[k]@);
                        assert(!field_encodable(fs[i5 as int]));
                    }
                    return None;
                }
                arrays2 = arrays2 + 1;
            },
        }
        i5 = i5 + 1;
    }
    proof {
        assert(fs.take(n as int) =~= fs);
    }
    out.push(11);
    proof {
        assert(out@ =~= encode_class_spec(name@, fs));
        assert(encodable_class(name@, fs));
    }
    Some(out)
}

/// What the inline pass has established of a field's value: array lengths
/// fit and single text is in the grammar.
pub open spec fn field_value_ok(v: FieldModel) -> bool {
    match v {
        FieldModel::Bool(_) => true,
        FieldModel::Int(_) => true,
        FieldModel::Single(t) => is_float_text(t),
        FieldModel::BoolArray(a) => a.len() <= 0x7fffffff,
        FieldModel::IntArray(a) => a.len() <= 0x7fffffff,
        FieldModel::SingleArray(a) => a.len() <= 0x7fffffff,
    }
}

/// What the array pass additionally establishes: every float text of an
/// array is in the grammar.
pub open spec fn single_array_ok(v: FieldModel) -> bool {
    match v {
        FieldModel::SingleArray(a) => forall|i: int| 0 <= i < a.len() ==> is_float_text(
            #[trigger] a[i],
        ),
        _ => true,
    }
}

} // verus!
