//! Decoding one encoded class from its bytes, verified on every byte: the
//! stream shape both this library and the consuming runtime write — a
//! header, one assembly record, one class record with primitive and
//! primitive-array members, the referenced array records in member order,
//! and the end mark. Anything outside that shape is refused, and a refused
//! file defaults its record, so no byte stream is an error.
//!
//! Every reader is specified as a function from the bytes and a cursor to
//! the value read and the cursor after it; the executable readers mirror
//! those functions exactly. Nothing here panics and nothing recurses on
//! the input, whatever the bytes hold.

use vstd::prelude::*;
use crate::fields::ClassData;
use crate::fields::ClassModel;
use crate::fields::FieldModel;
use crate::fields::FieldValue;
use crate::fields::fm_model;
use crate::fields::lemma_fm_model_push;
use crate::wire_float::single_text_of;
use crate::wire_float::single_text_of_bits;
use crate::text::string_from_ascii;

verus! {

// ---------------------------------------------------------------------------
// Primitive readers
// ---------------------------------------------------------------------------

/// One byte at the cursor.
pub open spec fn rd_u8(b: Seq<u8>, p: int) -> Option<(u8, int)> {
    if 0 <= p < b.len() {
        Some((b[p], p + 1))
    } else {
        None
    }
}

/// Four little-endian bytes as an unsigned 32-bit value.
pub open spec fn rd_u32(b: Seq<u8>, p: int) -> Option<(u32, int)> {
    if 0 <= p && p + 4 <= b.len() {
        Some(
            (
                (b[p] as u32) | ((b[p + 1] as u32) << 8) | ((b[p + 2] as u32) << 16) | ((b[p + 3]
                    as u32) << 24),
                p + 4,
            ),
        )
    } else {
        None
    }
}

/// Four little-endian bytes as a signed 32-bit value.
pub open spec fn rd_i32(b: Seq<u8>, p: int) -> Option<(i32, int)> {
    match rd_u32(b, p) {
        Some((u, q)) => Some((u as i32, q)),
        None => None,
    }
}

/// A wire boolean: one byte that must be zero or one.
pub open spec fn rd_bool(b: Seq<u8>, p: int) -> Option<(bool, int)> {
    match rd_u8(b, p) {
        Some((0u8, q)) => Some((false, q)),
        Some((1u8, q)) => Some((true, q)),
        _ => None,
    }
}

pub open spec fn all_ascii(bs: Seq<u8>) -> bool {
    forall|i: int| 0 <= i < bs.len() ==> #[trigger] bs[i] < 128
}

pub open spec fn ascii_chars(bs: Seq<u8>) -> Seq<char> {
    bs.map_values(|x: u8| x as char)
}

/// A length-prefixed string of the one-byte-length, ASCII form that every
/// name of this format's files uses; longer or non-ASCII names are refused.
pub open spec fn rd_str(b: Seq<u8>, p: int) -> Option<(Seq<char>, int)> {
    match rd_u8(b, p) {
        Some((n, q)) => {
            if n < 128 && q + n <= b.len() && all_ascii(b.subrange(q, q + n)) {
                Some((ascii_chars(b.subrange(q, q + n)), q + n))
            } else {
                None
            }
        },
        None => None,
    }
}

fn dec_u8(b: &Vec<u8>, p: usize) -> (r: Option<(u8, usize)>)
    requires
        p <= b@.len(),
    ensures
        match r {
            Some((v, q)) => rd_u8(b@, p as int) == Some((v, q as int)) && q <= b@.len(),
            None => rd_u8(b@, p as int) is None,
        },
{
    if p < b.len() {
        Some((b[p], p + 1))
    } else {
        None
    }
}

fn dec_u32(b: &Vec<u8>, p: usize) -> (r: Option<(u32, usize)>)
    requires
        p <= b@.len(),
    ensures
        match r {
            Some((v, q)) => rd_u32(b@, p as int) == Some((v, q as int)) && q <= b@.len(),
            None => rd_u32(b@, p as int) is None,
        },
{
    if b.len() - p >= 4 {
        let v = (b[p] as u32) | ((b[p + 1] as u32) << 8) | ((b[p + 2] as u32) << 16) | ((b[p + 3]
            as u32) << 24);
        Some((v, p + 4))
    } else {
        None
    }
}

fn dec_i32(b: &Vec<u8>, p: usize) -> (r: Option<(i32, usize)>)
    requires
        p <= b@.len(),
    ensures
        match r {
            Some((v, q)) => rd_i32(b@, p as int) == Some((v, q as int)) && q <= b@.len(),
            None => rd_i32(b@, p as int) is None,
        },
{
    match dec_u32(b, p) {
        Some((u, q)) => Some((#[verifier::truncate] (u as i32), q)),
        None => None,
    }
}

fn dec_bool(b: &Vec<u8>, p: usize) -> (r: Option<(bool, usize)>)
    requires
        p <= b@.len(),
    ensures
        match r {
            Some((v, q)) => rd_bool(b@, p as int) == Some((v, q as int)) && q <= b@.len(),
            None => rd_bool(b@, p as int) is None,
        },
{
    match dec_u8(b, p) {
        Some((v, q)) => {
            if v == 0 {
                Some((false, q))
            } else if v == 1 {
                Some((true, q))
            } else {
                None
            }
        },
        None => None,
    }
}

fn dec_str(b: &Vec<u8>, p: usize) -> (r: Option<(String, usize)>)
    requires
        p <= b@.len(),
    ensures
        match r {
            Some((s, q)) => rd_str(b@, p as int) == Some((s@, q as int)) && q <= b@.len(),
            None => rd_str(b@, p as int) is None,
        },
{
    let (n, q) = match dec_u8(b, p) {
        Some(x) => x,
        None => {
            return None;
        },
    };
    if n >= 128 || b.len() - q < n as usize {
        return None;
    }
    let end = q + n as usize;
    let ghost sub = b@.subrange(q as int, end as int);
    let mut out: Vec<u8> = Vec::new();
    let mut i: usize = q;
    while i < end
        invariant
            q <= i <= end,
            end <= b@.len(),
            p <= b@.len(),
            rd_u8(b@, p as int) == Some((n, q as int)),
            n < 128,
            end as int == q as int + n as int,
            sub == b@.subrange(q as int, end as int),
            out@ =~= b@.subrange(q as int, i as int),
            forall|k: int| 0 <= k < out@.len() ==> #[trigger] out@[k] < 128,
        decreases end - i,
    {
        let byte = b[i];
        if byte >= 128 {
            proof {
                assert(sub[i - q] == byte);
                assert(!all_ascii(sub));
                assert(b@.subrange(q as int, q as int + n as int) == sub);
            }
            return None;
        }
        out.push(byte);
        proof {
            assert(out@ =~= b@.subrange(q as int, i + 1));
        }
        i = i + 1;
    }
    proof {
        assert(out@ =~= sub);
        assert(all_ascii(sub));
    }
    let s = string_from_ascii(out);
    proof {
        assert(s@ =~= ascii_chars(sub));
    }
    Some((s, end))
}

// ---------------------------------------------------------------------------
// Element arrays
// ---------------------------------------------------------------------------

pub open spec fn rd_bools(b: Seq<u8>, p: int, n: int) -> Option<(Seq<bool>, int)>
    decreases n,
{
    if n <= 0 {
        Some((Seq::empty(), p))
    } else {
        match rd_bool(b, p) {
            Some((v, q)) => match rd_bools(b, q, n - 1) {
                Some((rest, e)) => Some((seq![v] + rest, e)),
                None => None,
            },
            None => None,
        }
    }
}

pub open spec fn rd_i32s(b: Seq<u8>, p: int, n: int) -> Option<(Seq<i32>, int)>
    decreases n,
{
    if n <= 0 {
        Some((Seq::empty(), p))
    } else {
        match rd_i32(b, p) {
            Some((v, q)) => match rd_i32s(b, q, n - 1) {
                Some((rest, e)) => Some((seq![v] + rest, e)),
                None => None,
            },
            None => None,
        }
    }
}

/// Float elements, read as their wire bits and carried as display text.
pub open spec fn rd_singles(b: Seq<u8>, p: int, n: int) -> Option<(Seq<Seq<char>>, int)>
    decreases n,
{
    if n <= 0 {
        Some((Seq::empty(), p))
    } else {
        match rd_u32(b, p) {
            Some((u, q)) => match rd_singles(b, q, n - 1) {
                Some((rest, e)) => Some((seq![single_text_of(u)] + rest, e)),
                None => None,
            },
            None => None,
        }
    }
}

fn dec_bools(b: &Vec<u8>, p: usize, n: usize) -> (r: Option<(Vec<bool>, usize)>)
    requires
        p <= b@.len(),
    ensures
        match r {
            Some((v, q)) => rd_bools(b@, p as int, n as int) == Some((v@, q as int)) && q
                <= b@.len(),
            None => rd_bools(b@, p as int, n as int) is None,
        },
{
    let mut out: Vec<bool> = Vec::new();
    let mut cur: usize = p;
    let mut i: usize = 0;
    while i < n
        invariant
            0 <= i <= n,
            cur <= b@.len(),
            out@.len() == i,
            match rd_bools(b@, cur as int, (n - i) as int) {
                Some((rest, e)) => rd_bools(b@, p as int, n as int) == Some((out@ + rest, e)),
                None => rd_bools(b@, p as int, n as int) is None,
            },
        decreases n - i,
    {
        match dec_bool(b, cur) {
            Some((v, q)) => {
                let ghost rest_call = rd_bools(b@, q as int, (n - i - 1) as int);
                let ghost before = out@;
                out.push(v);
                proof {
                    if rest_call is Some {
                        assert(before + (seq![v] + (rest_call->0).0) =~= out@ + (rest_call->0).0);
                    }
                }
                cur = q;
            },
            None => {
                return None;
            },
        }
        i = i + 1;
    }
    proof {
        assert(rd_bools(b@, cur as int, 0) == Some((Seq::<bool>::empty(), cur as int)));
        assert(out@ + Seq::<bool>::empty() =~= out@);
    }
    Some((out, cur))
}

fn dec_i32s(b: &Vec<u8>, p: usize, n: usize) -> (r: Option<(Vec<i32>, usize)>)
    requires
        p <= b@.len(),
    ensures
        match r {
            Some((v, q)) => rd_i32s(b@, p as int, n as int) == Some((v@, q as int)) && q
                <= b@.len(),
            None => rd_i32s(b@, p as int, n as int) is None,
        },
{
    let mut out: Vec<i32> = Vec::new();
    let mut cur: usize = p;
    let mut i: usize = 0;
    while i < n
        invariant
            0 <= i <= n,
            cur <= b@.len(),
            out@.len() == i,
            match rd_i32s(b@, cur as int, (n - i) as int) {
                Some((rest, e)) => rd_i32s(b@, p as int, n as int) == Some((out@ + rest, e)),
                None => rd_i32s(b@, p as int, n as int) is None,
            },
        decreases n - i,
    {
        match dec_i32(b, cur) {
            Some((v, q)) => {
                let ghost rest_call = rd_i32s(b@, q as int, (n - i - 1) as int);
                let ghost before = out@;
                out.push(v);
                proof {
                    if rest_call is Some {
                        assert(before + (seq![v] + (rest_call->0).0) =~= out@ + (rest_call->0).0);
                    }
                }
                cur = q;
            },
            None => {
                return None;
            },
        }
        i = i + 1;
    }
    proof {
        assert(rd_i32s(b@, cur as int, 0) == Some((Seq::<i32>::empty(), cur as int)));
        assert(out@ + Seq::<i32>::empty() =~= out@);
    }
    Some((out, cur))
}

fn dec_singles(b: &Vec<u8>, p: usize, n: usize) -> (r: Option<(Vec<String>, usize)>)
    requires
        p <= b@.len(),
    ensures
        match r {
            Some((v, q)) => rd_singles(b@, p as int, n as int) == Some(
                (v@.map_values(|s: String| s@), q as int),
            ) && q <= b@.len(),
            None => rd_singles(b@, p as int, n as int) is None,
        },
{
    let mut out: Vec<String> = Vec::new();
    let mut cur: usize = p;
    let mut i: usize = 0;
    while i < n
        invariant
            0 <= i <= n,
            cur <= b@.len(),
            out@.len() == i,
            match rd_singles(b@, cur as int, (n - i) as int) {
                Some((rest, e)) => rd_singles(b@, p as int, n as int) == Some(
                    (out@.map_values(|s: String| s@) + rest, e),
                ),
                None => rd_singles(b@, p as int, n as int) is None,
            },
        decreases n - i,
    {
        match dec_u32(b, cur) {
            Some((u, q)) => {
                let ghost rest_call = rd_singles(b@, q as int, (n - i - 1) as int);
                let ghost before = out@.map_values(|s: String| s@);
                let text = single_text_of_bits(u);
                out.push(text);
                proof {
                    assert(out@.map_values(|s: String| s@) =~= before + seq![single_text_of(u)]);
                    if rest_call is Some {
                        assert(before + (seq![single_text_of(u)] + (rest_call->0).0) =~= (before
                            + seq![single_text_of(u)]) + (rest_call->0).0);
                    }
                }
                cur = q;
            },
            None => {
                return None;
            },
        }
        i = i + 1;
    }
    proof {
        assert(rd_singles(b@, cur as int, 0) == Some((Seq::<Seq<char>>::empty(), cur as int)));
        assert(out@.map_values(|s: String| s@) + Seq::<Seq<char>>::empty() =~= out@.map_values(
            |s: String| s@,
        ));
    }
    Some((out, cur))
}

// ---------------------------------------------------------------------------
// The class record's pieces
// ---------------------------------------------------------------------------

/// A member as the class record carries it inline: a primitive value, or a
/// reference by id to an array record that follows.
pub enum MemberModel {
    Direct(FieldModel),
    Ref(i32),
}

pub enum RawMember {
    Direct(FieldValue),
    Ref(i32),
}

impl View for RawMember {
    type V = MemberModel;

    open spec fn view(&self) -> MemberModel {
        match self {
            RawMember::Direct(v) => MemberModel::Direct(v@),
            RawMember::Ref(id) => MemberModel::Ref(*id),
        }
    }
}

/// The member names, in order.
pub open spec fn rd_names(b: Seq<u8>, p: int, n: int) -> Option<(Seq<Seq<char>>, int)>
    decreases n,
{
    if n <= 0 {
        Some((Seq::empty(), p))
    } else {
        match rd_str(b, p) {
            Some((s, q)) => match rd_names(b, q, n - 1) {
                Some((rest, e)) => Some((seq![s] + rest, e)),
                None => None,
            },
            None => None,
        }
    }
}

/// The member type tags: one byte per member, primitive or primitive
/// array; any other member kind is refused.
pub open spec fn rd_tags(b: Seq<u8>, p: int, n: int) -> Option<(Seq<u8>, int)>
    decreases n,
{
    if n <= 0 {
        Some((Seq::empty(), p))
    } else {
        match rd_u8(b, p) {
            Some((t, q)) => {
                if t == 0 || t == 7 {
                    match rd_tags(b, q, n - 1) {
                        Some((rest, e)) => Some((seq![t] + rest, e)),
                        None => None,
                    }
                } else {
                    None
                }
            },
            None => None,
        }
    }
}

/// The primitive type of each member or of its elements: booleans, 32-bit
/// integers or single-precision floats; any other primitive is refused.
pub open spec fn rd_prims(b: Seq<u8>, p: int, n: int) -> Option<(Seq<u8>, int)>
    decreases n,
{
    if n <= 0 {
        Some((Seq::empty(), p))
    } else {
        match rd_u8(b, p) {
            Some((t, q)) => {
                if t == 1 || t == 8 || t == 11 {
                    match rd_prims(b, q, n - 1) {
                        Some((rest, e)) => Some((seq![t] + rest, e)),
                        None => None,
                    }
                } else {
                    None
                }
            },
            None => None,
        }
    }
}

/// One inline member value, typed by its tag and primitive bytes.
pub open spec fn rd_member(b: Seq<u8>, p: int, tag: u8, prim: u8) -> Option<(MemberModel, int)> {
    if tag == 0 {
        if prim == 1 {
            match rd_bool(b, p) {
                Some((v, q)) => Some((MemberModel::Direct(FieldModel::Bool(v)), q)),
                None => None,
            }
        } else if prim == 8 {
            match rd_i32(b, p) {
                Some((v, q)) => Some((MemberModel::Direct(FieldModel::Int(v)), q)),
                None => None,
            }
        } else {
            match rd_u32(b, p) {
                Some((u, q)) => Some(
                    (MemberModel::Direct(FieldModel::Single(single_text_of(u))), q),
                ),
                None => None,
            }
        }
    } else {
        match rd_u8(b, p) {
            Some((t, q)) => {
                if t == 9 {
                    match rd_i32(b, q) {
                        Some((id, e)) => Some((MemberModel::Ref(id), e)),
                        None => None,
                    }
                } else {
                    None
                }
            },
            None => None,
        }
    }
}

/// The inline member values, in order.
pub open spec fn rd_members(b: Seq<u8>, p: int, tags: Seq<u8>, prims: Seq<u8>, i: int) -> Option<
    (Seq<MemberModel>, int),
>
    decreases tags.len() - i,
{
    if i >= tags.len() {
        Some((Seq::empty(), p))
    } else {
        match rd_member(b, p, tags[i], prims[i]) {
            Some((m, q)) => match rd_members(b, q, tags, prims, i + 1) {
                Some((rest, e)) => Some((seq![m] + rest, e)),
                None => None,
            },
            None => None,
        }
    }
}

/// One array record: its id and its elements as one typed field value.
pub open spec fn rd_array(b: Seq<u8>, p: int) -> Option<((i32, FieldModel), int)> {
    match rd_u8(b, p) {
        Some((t, q)) => {
            if t != 15 {
                None
            } else {
                match rd_i32(b, q) {
                    Some((id, q2)) => match rd_i32(b, q2) {
                        Some((len, q3)) => {
                            if len < 0 {
                                None
                            } else {
                                match rd_u8(b, q3) {
                                    Some((prim, q4)) => {
                                        if prim == 1 {
                                            match rd_bools(b, q4, len as int) {
                                                Some((a, e)) => Some(
                                                    ((id, FieldModel::BoolArray(a)), e),
                                                ),
                                                None => None,
                                            }
                                        } else if prim == 8 {
                                            match rd_i32s(b, q4, len as int) {
                                                Some((a, e)) => Some(
                                                    ((id, FieldModel::IntArray(a)), e),
                                                ),
                                                None => None,
                                            }
                                        } else if prim == 11 {
                                            match rd_singles(b, q4, len as int) {
                                                Some((a, e)) => Some(
                                                    ((id, FieldModel::SingleArray(a)), e),
                                                ),
                                                None => None,
                                            }
                                        } else {
                                            None
                                        }
                                    },
                                    None => None,
                                }
                            }
                        },
                        None => None,
                    },
                    None => None,
                }
            }
        },
        None => None,
    }
}

/// Resolve the members to named fields: a direct value stands as it is,
/// and each reference takes the next array record, which must carry the
/// referenced id.
pub open spec fn rd_fields(
    b: Seq<u8>,
    p: int,
    pairs: Seq<(Seq<char>, MemberModel)>,
    i: int,
) -> Option<(Seq<(Seq<char>, FieldModel)>, int)>
    decreases pairs.len() - i,
{
    if i >= pairs.len() {
        Some((Seq::empty(), p))
    } else {
        match pairs[i].1 {
            MemberModel::Direct(v) => match rd_fields(b, p, pairs, i + 1) {
                Some((rest, e)) => Some((seq![(pairs[i].0, v)] + rest, e)),
                None => None,
            },
            MemberModel::Ref(id) => match rd_array(b, p) {
                Some(((aid, av), q)) => {
                    if aid == id {
                        match rd_fields(b, q, pairs, i + 1) {
                            Some((rest, e)) => Some((seq![(pairs[i].0, av)] + rest, e)),
                            None => None,
                        }
                    } else {
                        None
                    }
                },
                None => None,
            },
        }
    }
}

/// The stream header: the root object id, a header id that is ignored, and
/// the format version, which must be one point zero.
pub open spec fn rd_header(b: Seq<u8>) -> Option<(i32, int)> {
    match rd_u8(b, 0) {
        Some((t, p1)) => {
            if t != 0 {
                None
            } else {
                match rd_i32(b, p1) {
                    Some((root, p2)) => match rd_i32(b, p2) {
                        Some((_hdr, p3)) => match rd_i32(b, p3) {
                            Some((maj, p4)) => match rd_i32(b, p4) {
                                Some((min, p5)) => {
                                    if maj == 1 && min == 0 {
                                        Some((root, p5))
                                    } else {
                                        None
                                    }
                                },
                                None => None,
                            },
                            None => None,
                        },
                        None => None,
                    },
                    None => None,
                }
            }
        },
        None => None,
    }
}

/// Skip the assembly record if one stands at the cursor; its identifier is
/// not checked on read, as the consuming runtime fixes it on write only.
pub open spec fn rd_opt_library(b: Seq<u8>, p: int) -> Option<int> {
    match rd_u8(b, p) {
        Some((t, q)) => {
            if t != 12 {
                Some(p)
            } else {
                match rd_i32(b, q) {
                    Some((_id, q2)) => match rd_str(b, q2) {
                        Some((_s, q3)) => Some(q3),
                        None => None,
                    },
                    None => None,
                }
            }
        },
        None => Some(p),
    }
}

/// What a whole byte stream decodes to, if anything: the stream shape this
/// format's writers produce — header, at most one assembly record, one
/// class record whose members are primitives or primitive arrays, the
/// referenced array records in member order, the end mark, and nothing
/// after it. The class record must be the root object.
pub open spec fn decode_class_spec(b: Seq<u8>) -> Option<ClassModel> {
    match rd_header(b) {
        Some((root, p1)) => match rd_opt_library(b, p1) {
            Some(p2) => match rd_u8(b, p2) {
                Some((t, p3)) => {
                    if t != 5 {
                        None
                    } else {
                        match rd_i32(b, p3) {
                            Some((oid, p4)) => {
                                if oid != root {
                                    None
                                } else {
                                    decode_class_body(b, p4)
                                }
                            },
                            None => None,
                        }
                    }
                },
                None => None,
            },
            None => None,
        },
        None => None,
    }
}

/// The class record from its object id on, followed by its arrays and the
/// end of the stream.
pub open spec fn decode_class_body(b: Seq<u8>, p4: int) -> Option<ClassModel> {
    match rd_str(b, p4) {
        Some((cname, p5)) => match rd_i32(b, p5) {
            Some((count, p6)) => {
                if count < 0 {
                    None
                } else {
                    match rd_names(b, p6, count as int) {
                        Some((names, p7)) => match rd_tags(b, p7, count as int) {
                            Some((tags, p8)) => match rd_prims(b, p8, count as int) {
                                Some((prims, p9)) => match rd_i32(b, p9) {
                                    Some((_lib, p10)) => match rd_members(b, p10, tags, prims, 0) {
                                        Some((members, p11)) => {
                                            let pairs = Seq::new(
                                                count as nat,
                                                |i: int| (names[i], members[i]),
                                            );
                                            match rd_fields(b, p11, pairs, 0) {
                                                Some((fields, p12)) => match rd_u8(b, p12) {
                                                    Some((e, p13)) => {
                                                        if e == 11 && p13 == b.len() {
                                                            Some(
                                                                ClassModel { name: cname, fields },
                                                            )
                                                        } else {
                                                            None
                                                        }
                                                    },
                                                    None => None,
                                                },
                                                None => None,
                                            }
                                        },
                                        None => None,
                                    },
                                    None => None,
                                },
                                None => None,
                            },
                            None => None,
                        },
                        None => None,
                    }
                }
            },
            None => None,
        },
        None => None,
    }
}

fn dec_names(b: &Vec<u8>, p: usize, n: usize) -> (r: Option<(Vec<String>, usize)>)
    requires
        p <= b@.len(),
    ensures
        match r {
            Some((v, q)) => rd_names(b@, p as int, n as int) == Some(
                (v@.map_values(|s: String| s@), q as int),
            ) && q <= b@.len() && v@.len() == n,
            None => rd_names(b@, p as int, n as int) is None,
        },
{
    let mut out: Vec<String> = Vec::new();
    let mut cur: usize = p;
    let mut i: usize = 0;
    while i < n
        invariant
            0 <= i <= n,
            cur <= b@.len(),
            out@.len() == i,
            match rd_names(b@, cur as int, (n - i) as int) {
                Some((rest, e)) => rd_names(b@, p as int, n as int) == Some(
                    (out@.map_values(|s: String| s@) + rest, e),
                ),
                None => rd_names(b@, p as int, n as int) is None,
            },
        decreases n - i,
    {
        match dec_str(b, cur) {
            Some((s, q)) => {
                let ghost rest_call = rd_names(b@, q as int, (n - i - 1) as int);
                let ghost before = out@.map_values(|s2: String| s2@);
                let ghost sv = s@;
                out.push(s);
                proof {
                    assert(out@.map_values(|s2: String| s2@) =~= before + seq![sv]);
                    if rest_call is Some {
                        assert(before + (seq![sv] + (rest_call->0).0) =~= (before + seq![sv])
                            + (rest_call->0).0);
                    }
                }
                cur = q;
            },
            None => {
                return None;
            },
        }
        i = i + 1;
    }
    proof {
        assert(rd_names(b@, cur as int, 0) == Some((Seq::<Seq<char>>::empty(), cur as int)));
        assert(out@.map_values(|s: String| s@) + Seq::<Seq<char>>::empty() =~= out@.map_values(
            |s: String| s@,
        ));
    }
    Some((out, cur))
}

fn dec_tag_bytes(b: &Vec<u8>, p: usize, n: usize, prims: bool) -> (r: Option<(Vec<u8>, usize)>)
    requires
        p <= b@.len(),
    ensures
        match r {
            Some((v, q)) => {
                &&& !prims ==> rd_tags(b@, p as int, n as int) == Some((v@, q as int))
                &&& prims ==> rd_prims(b@, p as int, n as int) == Some((v@, q as int))
                &&& q <= b@.len() && v@.len() == n
            },
            None => {
                &&& !prims ==> rd_tags(b@, p as int, n as int) is None
                &&& prims ==> rd_prims(b@, p as int, n as int) is None
            },
        },
{
    let mut out: Vec<u8> = Vec::new();
    let mut cur: usize = p;
    let mut i: usize = 0;
    while i < n
        invariant
            0 <= i <= n,
            cur <= b@.len(),
            out@.len() == i,
            !prims ==> match rd_tags(b@, cur as int, (n - i) as int) {
                Some((rest, e)) => rd_tags(b@, p as int, n as int) == Some((out@ + rest, e)),
                None => rd_tags(b@, p as int, n as int) is None,
            },
            prims ==> match rd_prims(b@, cur as int, (n - i) as int) {
                Some((rest, e)) => rd_prims(b@, p as int, n as int) == Some((out@ + rest, e)),
                None => rd_prims(b@, p as int, n as int) is None,
            },
        decreases n - i,
    {
        match dec_u8(b, cur) {
            Some((t, q)) => {
                let accepted = if prims {
                    t == 1 || t == 8 || t == 11
                } else {
                    t == 0 || t == 7
                };
                if !accepted {
                    return None;
                }
                let ghost tags_rest = rd_tags(b@, q as int, (n - i - 1) as int);
                let ghost prims_rest = rd_prims(b@, q as int, (n - i - 1) as int);
                let ghost before = out@;
                out.push(t);
                proof {
                    if tags_rest is Some {
                        assert(before + (seq![t] + (tags_rest->0).0) =~= out@ + (tags_rest->0).0);
                    }
                    if prims_rest is Some {
                        assert(before + (seq![t] + (prims_rest->0).0) =~= out@ + (prims_rest->0).0);
                    }
                }
                cur = q;
            },
            None => {
                return None;
            },
        }
        i = i + 1;
    }
    proof {
        assert(rd_tags(b@, cur as int, 0) == Some((Seq::<u8>::empty(), cur as int)));
        assert(rd_prims(b@, cur as int, 0) == Some((Seq::<u8>::empty(), cur as int)));
        assert(out@ + Seq::<u8>::empty() =~= out@);
    }
    Some((out, cur))
}

fn dec_member(b: &Vec<u8>, p: usize, tag: u8, prim: u8) -> (r: Option<(RawMember, usize)>)
    requires
        p <= b@.len(),
    ensures
        match r {
            Some((m, q)) => rd_member(b@, p as int, tag, prim) == Some((m@, q as int)) && q
                <= b@.len(),
            None => rd_member(b@, p as int, tag, prim) is None,
        },
{
    if tag == 0 {
        if prim == 1 {
            match dec_bool(b, p) {
                Some((v, q)) => Some((RawMember::Direct(FieldValue::Bool(v)), q)),
                None => None,
            }
        } else if prim == 8 {
            match dec_i32(b, p) {
                Some((v, q)) => Some((RawMember::Direct(FieldValue::Int(v)), q)),
                None => None,
            }
        } else {
            match dec_u32(b, p) {
                Some((u, q)) => Some((RawMember::Direct(FieldValue::Single(single_text_of_bits(u))), q)),
                None => None,
            }
        }
    } else {
        match dec_u8(b, p) {
            Some((t, q)) => {
                if t == 9 {
                    match dec_i32(b, q) {
                        Some((id, e)) => Some((RawMember::Ref(id), e)),
                        None => None,
                    }
                } else {
                    None
                }
            },
            None => None,
        }
    }
}

fn dec_members(b: &Vec<u8>, p: usize, tags: &Vec<u8>, prims: &Vec<u8>) -> (r: Option<
    (Vec<RawMember>, usize),
>)
    requires
        p <= b@.len(),
        tags@.len() == prims@.len(),
    ensures
        match r {
            Some((v, q)) => rd_members(b@, p as int, tags@, prims@, 0) == Some(
                (v@.map_values(|m: RawMember| m@), q as int),
            ) && q <= b@.len() && v@.len() == tags@.len(),
            None => rd_members(b@, p as int, tags@, prims@, 0) is None,
        },
{
    let n = tags.len();
    let mut out: Vec<RawMember> = Vec::new();
    let mut cur: usize = p;
    let mut i: usize = 0;
    while i < n
        invariant
            0 <= i <= n,
            n == tags@.len(),
            n == prims@.len(),
            cur <= b@.len(),
            out@.len() == i,
            match rd_members(b@, cur as int, tags@, prims@, i as int) {
                Some((rest, e)) => rd_members(b@, p as int, tags@, prims@, 0) == Some(
                    (out@.map_values(|m: RawMember| m@) + rest, e),
                ),
                None => rd_members(b@, p as int, tags@, prims@, 0) is None,
            },
        decreases n - i,
    {
        match dec_member(b, cur, tags[i], prims[i]) {
            Some((m, q)) => {
                let ghost rest_call = rd_members(b@, q as int, tags@, prims@, i + 1);
                let ghost before = out@.map_values(|m2: RawMember| m2@);
                let ghost mv = m@;
                out.push(m);
                proof {
                    assert(out@.map_values(|m2: RawMember| m2@) =~= before + seq![mv]);
                    if rest_call is Some {
                        assert(before + (seq![mv] + (rest_call->0).0) =~= (before + seq![mv])
                            + (rest_call->0).0);
                    }
                }
                cur = q;
            },
            None => {
                return None;
            },
        }
        i = i + 1;
    }
    proof {
        assert(rd_members(b@, cur as int, tags@, prims@, n as int) == Some(
            (Seq::<MemberModel>::empty(), cur as int),
        ));
        assert(out@.map_values(|m: RawMember| m@) + Seq::<MemberModel>::empty() =~= out@.map_values(
            |m: RawMember| m@,
        ));
    }
    Some((out, cur))
}

fn dec_array(b: &Vec<u8>, p: usize) -> (r: Option<((i32, FieldValue), usize)>)
    requires
        p <= b@.len(),
    ensures
        match r {
            Some(((id, v), q)) => rd_array(b@, p as int) == Some(((id, v@), q as int)) && q
                <= b@.len(),
            None => rd_array(b@, p as int) is None,
        },
{
    let (t, q) = match dec_u8(b, p) {
        Some(x) => x,
        None => {
            return None;
        },
    };
    if t != 15 {
        return None;
    }
    let (id, q2) = match dec_i32(b, q) {
        Some(x) => x,
        None => {
            return None;
        },
    };
    let (len, q3) = match dec_i32(b, q2) {
        Some(x) => x,
        None => {
            return None;
        },
    };
    if len < 0 {
        return None;
    }
    let (prim, q4) = match dec_u8(b, q3) {
        Some(x) => x,
        None => {
            return None;
        },
    };
    if prim == 1 {
        match dec_bools(b, q4, len as usize) {
            Some((a, e)) => Some(((id, FieldValue::BoolArray(a)), e)),
            None => None,
        }
    } else if prim == 8 {
        match dec_i32s(b, q4, len as usize) {
            Some((a, e)) => Some(((id, FieldValue::IntArray(a)), e)),
            None => None,
        }
    } else if prim == 11 {
        match dec_singles(b, q4, len as usize) {
            Some((a, e)) => Some(((id, FieldValue::SingleArray(a)), e)),
            None => None,
        }
    } else {
        None
    }
}

/// The spec-level name and member pairs of the executable vectors.
pub open spec fn pairs_of(names: Seq<String>, members: Seq<RawMember>) -> Seq<
    (Seq<char>, MemberModel),
> {
    Seq::new(names.len(), |i: int| (names[i]@, members[i]@))
}

fn dec_fields(b: &Vec<u8>, p: usize, names: &Vec<String>, members: &Vec<RawMember>) -> (r: Option<
    (Vec<(String, FieldValue)>, usize),
>)
    requires
        p <= b@.len(),
        names@.len() == members@.len(),
    ensures
        match r {
            Some((fm, q)) => rd_fields(b@, p as int, pairs_of(names@, members@), 0) == Some(
                (fm_model(fm@), q as int),
            ) && q <= b@.len(),
            None => rd_fields(b@, p as int, pairs_of(names@, members@), 0) is None,
        },
{
    let ghost pairs = pairs_of(names@, members@);
    let n = members.len();
    let mut out: Vec<(String, FieldValue)> = Vec::new();
    let mut cur: usize = p;
    let mut i: usize = 0;
    while i < n
        invariant
            0 <= i <= n,
            n == members@.len(),
            n == names@.len(),
            cur <= b@.len(),
            out@.len() == i,
            pairs == pairs_of(names@, members@),
            match rd_fields(b@, cur as int, pairs, i as int) {
                Some((rest, e)) => rd_fields(b@, p as int, pairs, 0) == Some(
                    (fm_model(out@) + rest, e),
                ),
                None => rd_fields(b@, p as int, pairs, 0) is None,
            },
        decreases n - i,
    {
        proof {
            assert(pairs[i as int] == (names@[i as int]@, members@[i as int]@));
        }
        let ghost cur0 = cur as int;
        let value: FieldValue = match &members[i] {
            RawMember::Direct(v) => v.duplicate(),
            RawMember::Ref(id) => {
                match dec_array(b, cur) {
                    Some(((aid, av), q)) => {
                        if aid != *id {
                            proof {
                                assert(rd_fields(b@, cur0, pairs, i as int) is None);
                            }
                            return None;
                        }
                        cur = q;
                        av
                    },
                    None => {
                        proof {
                            assert(rd_fields(b@, cur0, pairs, i as int) is None);
                        }
                        return None;
                    },
                }
            },
        };
        let ghost rest_call = rd_fields(b@, cur as int, pairs, i + 1);
        let ghost before = fm_model(out@);
        let ghost m0 = out@;
        let entry = (names[i].clone(), value);
        let ghost eg = entry;
        out.push(entry);
        proof {
            lemma_fm_model_push(m0, eg);
            assert(eg.0@ == pairs[i as int].0);
            if rest_call is Some {
                assert(rd_fields(b@, cur0, pairs, i as int) == Some(
                    (seq![(pairs[i as int].0, eg.1@)] + (rest_call->0).0, (rest_call->0).1),
                ));
                assert(before + (seq![(pairs[i as int].0, eg.1@)] + (rest_call->0).0)
                    =~= fm_model(out@) + (rest_call->0).0);
            } else {
                assert(rd_fields(b@, cur0, pairs, i as int) is None);
            }
        }
        i = i + 1;
    }
    proof {
        assert(rd_fields(b@, cur as int, pairs, n as int) == Some(
            (Seq::<(Seq<char>, FieldModel)>::empty(), cur as int),
        ));
        assert(fm_model(out@) + Seq::<(Seq<char>, FieldModel)>::empty() =~= fm_model(out@));
    }
    Some((out, cur))
}

/// Decode one file's class from its bytes, or refuse the stream. A
/// refused stream is not an error: the record it would have filled falls
/// back to its default.
pub fn decode_class(b: &Vec<u8>) -> (r: Option<ClassData>)
    ensures
        match r {
            Some(c) => decode_class_spec(b@) == Some(c@),
            None => decode_class_spec(b@) is None,
        },
{
    let (t0, pa) = match dec_u8(b, 0) {
        Some(x) => x,
        None => {
            return None;
        },
    };
    if t0 != 0 {
        return None;
    }
    let (root, pb) = match dec_i32(b, pa) {
        Some(x) => x,
        None => {
            return None;
        },
    };
    let (_hdr, pc) = match dec_i32(b, pb) {
        Some(x) => x,
        None => {
            return None;
        },
    };
    let (maj, pd) = match dec_i32(b, pc) {
        Some(x) => x,
        None => {
            return None;
        },
    };
    let (min, p1) = match dec_i32(b, pd) {
        Some(x) => x,
        None => {
            return None;
        },
    };
    if maj != 1 || min != 0 {
        return None;
    }
    proof {
        assert(rd_header(b@) == Some((root, p1 as int)));
    }
    let p2: usize = match dec_u8(b, p1) {
        Some((t, q)) => {
            if t == 12 {
                let (_id, q2) = match dec_i32(b, q) {
                    Some(x) => x,
                    None => {
                        return None;
                    },
                };
                let (_s, q3) = match dec_str(b, q2) {
                    Some(x) => x,
                    None => {
                        return None;
                    },
                };
                q3
            } else {
                p1
            }
        },
        None => p1,
    };
    proof {
        assert(rd_opt_library(b@, p1 as int) == Some(p2 as int));
    }
    let (tc, p3) = match dec_u8(b, p2) {
        Some(x) => x,
        None => {
            return None;
        },
    };
    if tc != 5 {
        return None;
    }
    let (oid, p4) = match dec_i32(b, p3) {
        Some(x) => x,
        None => {
            return None;
        },
    };
    if oid != root {
        return None;
    }
    let (cname, p5) = match dec_str(b, p4) {
        Some(x) => x,
        None => {
            return None;
        },
    };
    let (count, p6) = match dec_i32(b, p5) {
        Some(x) => x,
        None => {
            return None;
        },
    };
    if count < 0 {
        return None;
    }
    let (names, p7) = match dec_names(b, p6, count as usize) {
        Some(x) => x,
        None => {
            return None;
        },
    };
    let (tags, p8) = match dec_tag_bytes(b, p7, count as usize, false) {
        Some(x) => x,
        None => {
            return None;
        },
    };
    let (prims, p9) = match dec_tag_bytes(b, p8, count as usize, true) {
        Some(x) => x,
        None => {
            return None;
        },
    };
    let (_lib, p10) = match dec_i32(b, p9) {
        Some(x) => x,
        None => {
            return None;
        },
    };
    let (members, p11) = match dec_members(b, p10, &tags, &prims) {
        Some(x) => x,
        None => {
            return None;
        },
    };
    let ghost spec_names = names@.map_values(|s: String| s@);
    let ghost spec_members = members@.map_values(|m: RawMember| m@);
    let ghost spec_pairs = Seq::new(count as nat, |i: int| (spec_names[i], spec_members[i]));
    proof {
        assert(spec_pairs =~= pairs_of(names@, members@));
    }
    let (fields, p12) = match dec_fields(b, p11, &names, &members) {
        Some(x) => x,
        None => {
            return None;
        },
    };
    let (te, p13) = match dec_u8(b, p12) {
        Some(x) => x,
        None => {
            return None;
        },
    };
    if te != 11 {
        return None;
    }
    if p13 != b.len() {
        return None;
    }
    let c = ClassData { name: cname, fields };
    proof {
        assert(decode_class_body(b@, p4 as int) == Some(c@));
    }
    Some(c)
}

} // verus!
