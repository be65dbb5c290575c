//! Decimal text for the numeric record attributes that are edited as free
//! text: canonical formatting of integers, parsing with the same acceptance
//! as `str::parse` for integers, and the grammar that `str::parse` accepts
//! for 32-bit floats.

use vstd::prelude::*;

verus! {

// ---------------------------------------------------------------------------
// Digits
// ---------------------------------------------------------------------------

pub open spec fn is_dec_digit(c: char) -> bool {
    '0' <= c && c <= '9'
}

pub open spec fn digit_val(c: char) -> int {
    c as int - '0' as int
}

pub open spec fn all_dec_digits(s: Seq<char>) -> bool {
    forall|i: int| 0 <= i < s.len() ==> is_dec_digit(#[trigger] s[i])
}

/// The character for a single decimal digit.
pub open spec fn digit_char(d: int) -> char {
    if d == 0 { '0' }
    else if d == 1 { '1' }
    else if d == 2 { '2' }
    else if d == 3 { '3' }
    else if d == 4 { '4' }
    else if d == 5 { '5' }
    else if d == 6 { '6' }
    else if d == 7 { '7' }
    else if d == 8 { '8' }
    else { '9' }
}

/// The ASCII byte for a single decimal digit.
pub open spec fn digit_byte(d: int) -> u8 {
    (48 + d) as u8
}

// ---------------------------------------------------------------------------
// Canonical decimal formatting
// ---------------------------------------------------------------------------

/// Canonical decimal digit sequence of a nonnegative integer, as characters.
pub open spec fn dec_chars(n: nat) -> Seq<char>
    decreases n,
{
    if n < 10 {
        seq![digit_char(n as int)]
    } else {
        dec_chars(n / 10).push(digit_char((n % 10) as int))
    }
}

/// Canonical decimal digit sequence of a nonnegative integer, as ASCII bytes.
pub open spec fn dec_bytes(n: nat) -> Seq<u8>
    decreases n,
{
    if n < 10 {
        seq![digit_byte(n as int)]
    } else {
        dec_bytes(n / 10).push(digit_byte((n % 10) as int))
    }
}

/// Canonical decimal text of a signed 32-bit integer.
pub open spec fn i32_dec(v: i32) -> Seq<char> {
    if v < 0 {
        seq!['-'] + dec_chars((-(v as int)) as nat)
    } else {
        dec_chars(v as nat)
    }
}

pub proof fn lemma_dec_bytes_chars(n: nat)
    ensures
        dec_bytes(n).map_values(|b: u8| b as char) =~= dec_chars(n),
        forall|i: int| 0 <= i < dec_bytes(n).len() ==> 48 <= #[trigger] dec_bytes(n)[i] < 58,
        dec_bytes(n).len() == dec_chars(n).len(),
    decreases n,
{
    if n < 10 {
    } else {
        lemma_dec_bytes_chars(n / 10);
    }
}

/// The canonical digits of a value are in fact digits.
pub proof fn lemma_dec_chars_digits(n: nat)
    ensures
        all_dec_digits(dec_chars(n)),
        dec_chars(n).len() >= 1,
    decreases n,
{
    if n < 10 {
    } else {
        lemma_dec_chars_digits(n / 10);
    }
}

fn u32_dec_bytes(n: u32) -> (r: Vec<u8>)
    ensures
        r@ =~= dec_bytes(n as nat),
    decreases n,
{
    if n < 10 {
        let mut v: Vec<u8> = Vec::new();
        v.push(48 + (n as u8));
        v
    } else {
        let mut v = u32_dec_bytes(n / 10);
        v.push(48 + ((n % 10) as u8));
        v
    }
}

/// Relies on `String::from_utf8`: ASCII bytes become the string whose
/// characters they are, one per byte.
#[verifier::external_body]
pub(crate) fn string_from_ascii(bytes: Vec<u8>) -> (r: String)
    requires
        forall|i: int| 0 <= i < bytes@.len() ==> #[trigger] bytes@[i] < 128,
    ensures
        r@ =~= bytes@.map_values(|b: u8| b as char),
{
    match String::from_utf8(bytes) {
        Ok(s) => s,
        Err(_) => String::new(),
    }
}

/// Canonical decimal text of an unsigned 32-bit value.
pub fn u32_to_string(n: u32) -> (r: String)
    ensures
        r@ =~= dec_chars(n as nat),
{
    proof {
        lemma_dec_bytes_chars(n as nat);
    }
    string_from_ascii(u32_dec_bytes(n))
}

/// Canonical decimal text of a signed 32-bit value.
pub fn i32_to_string(v: i32) -> (r: String)
    ensures
        r@ =~= i32_dec(v),
{
    if v < 0 {
        let mag: u32 = (-(v as i64)) as u32;
        let mut bytes: Vec<u8> = Vec::new();
        bytes.push(45);
        let mut digits = u32_dec_bytes(mag);
        bytes.append(&mut digits);
        proof {
            lemma_dec_bytes_chars(mag as nat);
            assert(bytes@.map_values(|b: u8| b as char) =~= seq!['-'] + dec_chars(mag as nat));
        }
        string_from_ascii(bytes)
    } else {
        proof {
            lemma_dec_bytes_chars(v as nat);
        }
        string_from_ascii(u32_dec_bytes(v as u32))
    }
}

// ---------------------------------------------------------------------------
// Integer parsing, with the acceptance of `str::parse`
// ---------------------------------------------------------------------------

/// The digit run of integer text after an optional sign.
pub open spec fn int_text_body(s: Seq<char>) -> Seq<char> {
    if s.len() > 0 && (s[0] == '-' || s[0] == '+') {
        s.drop_first()
    } else {
        s
    }
}

/// Whether the text has the form `str::parse` accepts for an integer type:
/// an optional sign followed by at least one decimal digit.
pub open spec fn is_int_text(s: Seq<char>) -> bool {
    int_text_body(s).len() > 0 && all_dec_digits(int_text_body(s))
}

/// The value of a run of decimal digits.
pub open spec fn digits_val(s: Seq<char>) -> nat
    decreases s.len(),
{
    if s.len() == 0 {
        0
    } else {
        digits_val(s.drop_last()) * 10 + (if is_dec_digit(s.last()) { digit_val(s.last()) } else { 0 }) as nat
    }
}

/// The signed value of integer text, unbounded.
pub open spec fn int_text_val(s: Seq<char>) -> int {
    if s.len() > 0 && s[0] == '-' {
        -(digits_val(int_text_body(s)) as int)
    } else {
        digits_val(int_text_body(s)) as int
    }
}

/// What `str::parse::<i32>` returns.
pub open spec fn parse_i32_spec(s: Seq<char>) -> Option<i32> {
    if is_int_text(s) && -2147483648 <= int_text_val(s) <= 2147483647 {
        Some(int_text_val(s) as i32)
    } else {
        None
    }
}

/// What `str::parse::<u32>` returns: no `-` sign is accepted.
pub open spec fn parse_u32_spec(s: Seq<char>) -> Option<u32> {
    if is_int_text(s) && !(s[0] == '-') && int_text_val(s) <= 4294967295 {
        Some(int_text_val(s) as u32)
    } else {
        None
    }
}

proof fn lemma_digits_val_take_step(s: Seq<char>, i: int)
    requires
        0 <= i < s.len(),
    ensures
        digits_val(s.take(i + 1)) == digits_val(s.take(i)) * 10 + (if is_dec_digit(s[i]) { digit_val(s[i]) } else { 0 }),
{
    assert(s.take(i + 1).drop_last() =~= s.take(i));
    assert(s.take(i + 1).last() == s[i]);
}

/// Parse a run of decimal digits, capped: the result is the digits' value
/// where that value stays below 2^32, and 2^32 itself where it does not.
fn digits_accumulate(s: &str, start: usize) -> (r: Option<u64>)
    requires
        start <= s@.len(),
    ensures
        match r {
            Some(acc) => {
                &&& s@.skip(start as int).len() > 0
                &&& all_dec_digits(s@.skip(start as int))
                &&& digits_val(s@.skip(start as int)) < 0x1_0000_0000 ==> acc == digits_val(s@.skip(start as int))
                &&& digits_val(s@.skip(start as int)) >= 0x1_0000_0000 ==> acc == 0x1_0000_0000u64
            },
            None => !(s@.skip(start as int).len() > 0 && all_dec_digits(s@.skip(start as int))),
        },
{
    let ghost t = s@.skip(start as int);
    let n = s.unicode_len();
    if start >= n {
        return None;
    }
    let mut acc: u64 = 0;
    let mut i: usize = start;
    while i < n
        invariant
            start <= i <= n,
            n == s@.len(),
            t == s@.skip(start as int),
            all_dec_digits(t.take(i - start)),
            digits_val(t.take(i - start)) < 0x1_0000_0000 ==> acc == digits_val(t.take(i - start)),
            digits_val(t.take(i - start)) >= 0x1_0000_0000 ==> acc == 0x1_0000_0000u64,
            acc <= 0x1_0000_0000u64,
        decreases n - i,
    {
        let c = s.get_char(i);
        assert(t[i - start] == c);
        if !('0' <= c && c <= '9') {
            return None;
        }
        let d: u64 = (c as u32) as u64 - 48;
        proof {
            lemma_digits_val_take_step(t, i - start);
        }
        if acc >= 0x1_0000_0000u64 || acc * 10 + d >= 0x1_0000_0000u64 {
            acc = 0x1_0000_0000u64;
        } else {
            acc = acc * 10 + d;
        }
        i = i + 1;
    }
    assert(t.take(n - start) =~= t);
    Some(acc)
}

/// Parse signed 32-bit integer text, with the acceptance of `str::parse`.
pub fn parse_i32(s: &str) -> (r: Option<i32>)
    ensures
        r == parse_i32_spec(s@),
{
    let n = s.unicode_len();
    if n == 0 {
        return None;
    }
    let first = s.get_char(0);
    let negative = first == '-';
    let start: usize = if first == '-' || first == '+' { 1 } else { 0 };
    assert(s@.skip(start as int) =~= int_text_body(s@));
    match digits_accumulate(s, start) {
        None => None,
        Some(acc) => {
            if negative {
                if acc <= 2147483648u64 {
                    Some((-(acc as i64)) as i32)
                } else {
                    None
                }
            } else {
                if acc <= 2147483647u64 {
                    Some(acc as i32)
                } else {
                    None
                }
            }
        },
    }
}

/// Parse unsigned 32-bit integer text, with the acceptance of `str::parse`.
pub fn parse_u32(s: &str) -> (r: Option<u32>)
    ensures
        r == parse_u32_spec(s@),
{
    let n = s.unicode_len();
    if n == 0 {
        return None;
    }
    let first = s.get_char(0);
    if first == '-' {
        return None;
    }
    let start: usize = if first == '+' { 1 } else { 0 };
    assert(s@.skip(start as int) =~= int_text_body(s@));
    match digits_accumulate(s, start) {
        None => None,
        Some(acc) => {
            if acc <= 4294967295u64 {
                Some(acc as u32)
            } else {
                None
            }
        },
    }
}

proof fn lemma_digits_val_dec_chars(n: nat)
    ensures
        digits_val(dec_chars(n)) == n,
    decreases n,
{
    if n < 10 {
        let s = dec_chars(n);
        assert(s.drop_last() =~= Seq::<char>::empty());
        assert(digits_val(s.drop_last()) == 0);
        assert(s.last() == digit_char(n as int));
        assert(is_dec_digit(digit_char(n as int)) && digit_val(digit_char(n as int)) == n);
    } else {
        lemma_digits_val_dec_chars(n / 10);
        let s = dec_chars(n);
        assert(s == dec_chars(n / 10).push(digit_char((n % 10) as int)));
        assert(s.drop_last() =~= dec_chars(n / 10));
        assert(s.last() == digit_char((n % 10) as int));
        assert(is_dec_digit(digit_char((n % 10) as int)));
        assert(digit_val(digit_char((n % 10) as int)) == n % 10);
        assert(digits_val(s) == digits_val(s.drop_last()) * 10 + (n % 10));
        assert((n / 10) * 10 + n % 10 == n) by {
            vstd::arithmetic::div_mod::lemma_fundamental_div_mod(n as int, 10);
        }
    }
}

/// Canonical decimal text parses back to its value, and is in canonical
/// form: formatting then parsing an integer is the identity.
pub proof fn lemma_parse_i32_canon(v: i32)
    ensures
        parse_i32_spec(i32_dec(v)) == Some(v),
{
    let s = i32_dec(v);
    if v < 0 {
        let mag = (-(v as int)) as nat;
        lemma_dec_chars_digits(mag);
        lemma_digits_val_dec_chars(mag);
        assert(s[0] == '-');
        assert(int_text_body(s) =~= dec_chars(mag));
    } else {
        let mag = v as nat;
        lemma_dec_chars_digits(mag);
        lemma_digits_val_dec_chars(mag);
        assert(s[0] != '-' && s[0] != '+') by {
            assert(is_dec_digit(s[0]));
        }
        assert(int_text_body(s) =~= dec_chars(mag));
    }
}

// ---------------------------------------------------------------------------
// Float text, with the acceptance of `str::parse::<f32>`
// ---------------------------------------------------------------------------

pub open spec fn strip_sign(s: Seq<char>) -> Seq<char> {
    if s.len() > 0 && (s[0] == '-' || s[0] == '+') {
        s.drop_first()
    } else {
        s
    }
}

pub open spec fn eq_ci(c: char, lo: char, up: char) -> bool {
    c == lo || c == up
}

/// The case-insensitive words `inf`, `infinity` and `nan`.
pub open spec fn is_inf_nan_text(s: Seq<char>) -> bool {
    ||| (s.len() == 3 && eq_ci(s[0], 'i', 'I') && eq_ci(s[1], 'n', 'N') && eq_ci(s[2], 'f', 'F'))
    ||| (s.len() == 8 && eq_ci(s[0], 'i', 'I') && eq_ci(s[1], 'n', 'N') && eq_ci(s[2], 'f', 'F')
        && eq_ci(s[3], 'i', 'I') && eq_ci(s[4], 'n', 'N') && eq_ci(s[5], 'i', 'I')
        && eq_ci(s[6], 't', 'T') && eq_ci(s[7], 'y', 'Y'))
    ||| (s.len() == 3 && eq_ci(s[0], 'n', 'N') && eq_ci(s[1], 'a', 'A') && eq_ci(s[2], 'n', 'N'))
}

/// Digits with at most one decimal point and at least one digit.
pub open spec fn is_mantissa(s: Seq<char>) -> bool {
    ||| (s.len() > 0 && all_dec_digits(s))
    ||| (s.len() > 1 && exists|i: int|
        0 <= i < s.len() && #[trigger] s[i] == '.'
        && all_dec_digits(s.take(i)) && all_dec_digits(s.skip(i + 1)))
}

/// A mantissa, optionally followed by `e` or `E` and a signed digit run.
pub open spec fn is_number_text(s: Seq<char>) -> bool {
    ||| is_mantissa(s)
    ||| (exists|j: int|
        0 <= j < s.len() && (#[trigger] s[j] == 'e' || #[trigger] s[j] == 'E')
        && is_mantissa(s.take(j)) && is_int_text(s.skip(j + 1)))
}

/// The grammar that `str::parse::<f32>` documents: an optional sign, then
/// `inf`, `infinity` or `nan` in any case, or a number with an optional
/// exponent. Every such text parses to a value; every other text is refused.
pub open spec fn is_float_text(s: Seq<char>) -> bool {
    is_inf_nan_text(strip_sign(s)) || is_number_text(strip_sign(s))
}

fn check_digits(s: &str, from: usize, to: usize) -> (r: bool)
    requires
        from <= to <= s@.len(),
    ensures
        r == all_dec_digits(s@.subrange(from as int, to as int)),
{
    let ghost t = s@.subrange(from as int, to as int);
    let mut i: usize = from;
    while i < to
        invariant
            from <= i <= to <= s@.len(),
            t == s@.subrange(from as int, to as int),
            forall|k: int| 0 <= k < i - from ==> is_dec_digit(#[trigger] t[k]),
        decreases to - i,
    {
        let c = s.get_char(i);
        assert(t[i - from] == c);
        if !('0' <= c && c <= '9') {
            return false;
        }
        i = i + 1;
    }
    true
}

/// The first position in `[from, to)` holding either of two characters.
fn find_first_of(s: &str, from: usize, to: usize, a: char, b: char) -> (r: Option<usize>)
    requires
        from <= to <= s@.len(),
    ensures
        match r {
            Some(i) => from <= i < to && (s@[i as int] == a || s@[i as int] == b)
                && (forall|k: int| from <= k < i ==> !(#[trigger] s@[k] == a || s@[k] == b)),
            None => forall|k: int| from <= k < to ==> !(#[trigger] s@[k] == a || s@[k] == b),
        },
{
    let mut i: usize = from;
    while i < to
        invariant
            from <= i <= to <= s@.len(),
            forall|k: int| from <= k < i ==> !(#[trigger] s@[k] == a || s@[k] == b),
        decreases to - i,
    {
        let c = s.get_char(i);
        if c == a || c == b {
            return Some(i);
        }
        i = i + 1;
    }
    None
}

fn check_inf_nan(s: &str, from: usize) -> (r: bool)
    requires
        from <= s@.len(),
    ensures
        r == is_inf_nan_text(s@.skip(from as int)),
{
    let ghost t = s@.skip(from as int);
    let n = s.unicode_len();
    let len = n - from;
    if len == 3 {
        let c0 = s.get_char(from);
        let c1 = s.get_char(from + 1);
        let c2 = s.get_char(from + 2);
        assert(t[0] == c0 && t[1] == c1 && t[2] == c2);
        (c0 == 'i' || c0 == 'I') && (c1 == 'n' || c1 == 'N') && (c2 == 'f' || c2 == 'F')
            || (c0 == 'n' || c0 == 'N') && (c1 == 'a' || c1 == 'A') && (c2 == 'n' || c2 == 'N')
    } else if len == 8 {
        let c0 = s.get_char(from);
        let c1 = s.get_char(from + 1);
        let c2 = s.get_char(from + 2);
        let c3 = s.get_char(from + 3);
        let c4 = s.get_char(from + 4);
        let c5 = s.get_char(from + 5);
        let c6 = s.get_char(from + 6);
        let c7 = s.get_char(from + 7);
        assert(t[0] == c0 && t[1] == c1 && t[2] == c2 && t[3] == c3);
        assert(t[4] == c4 && t[5] == c5 && t[6] == c6 && t[7] == c7);
        (c0 == 'i' || c0 == 'I') && (c1 == 'n' || c1 == 'N') && (c2 == 'f' || c2 == 'F')
            && (c3 == 'i' || c3 == 'I') && (c4 == 'n' || c4 == 'N') && (c5 == 'i' || c5 == 'I')
            && (c6 == 't' || c6 == 'T') && (c7 == 'y' || c7 == 'Y')
    } else {
        false
    }
}

/// Check a mantissa over `[from, to)` of the characters of `s`.
fn check_mantissa(s: &str, from: usize, to: usize) -> (r: bool)
    requires
        from <= to <= s@.len(),
    ensures
        r == is_mantissa(s@.subrange(from as int, to as int)),
{
    let ghost t = s@.subrange(from as int, to as int);
    match find_first_of(s, from, to, '.', '.') {
        None => {
            let r = to > from && check_digits(s, from, to);
            proof {
                if !r && t.len() > 0 {
                    // no dot at all, so the dotted disjunct has no witness
                    assert(forall|i: int| 0 <= i < t.len() ==> #[trigger] t[i] != '.');
                }
            }
            r
        },
        Some(d) => {
            let ghost di = d - from;
            assert(t[di] == '.');
            if to - from <= 1 {
                proof {
                    assert(!all_dec_digits(t)) by { assert(!is_dec_digit(t[di])); }
                }
                return false;
            }
            let left_ok = check_digits(s, from, d);
            let right_ok = check_digits(s, d + 1, to);
            proof {
                assert(t.take(di) =~= s@.subrange(from as int, d as int));
                assert(t.skip(di + 1) =~= s@.subrange(d + 1, to as int));
                assert(!all_dec_digits(t)) by { assert(!is_dec_digit(t[di])); }
                if left_ok && right_ok {
                    assert(is_mantissa(t)) by {
                        assert(t[di] == '.' && all_dec_digits(t.take(di)) && all_dec_digits(t.skip(di + 1)));
                    }
                } else {
                    // any witness dot must be the first dot
                    assert forall|i: int|
                        0 <= i < t.len() && #[trigger] t[i] == '.'
                        && all_dec_digits(t.take(i)) && all_dec_digits(t.skip(i + 1))
                    implies false by {
                        if i < di {
                            assert(!(s@[from + i] == '.' || s@[from + i] == '.'));
                        } else if i > di {
                            assert(is_dec_digit(t.take(i)[di]));
                        } else {
                            assert(t.take(di) =~= s@.subrange(from as int, d as int));
                            assert(t.skip(di + 1) =~= s@.subrange(d + 1, to as int));
                        }
                    }
                }
            }
            left_ok && right_ok
        },
    }
}

fn check_int_text_from(s: &str, from: usize) -> (r: bool)
    requires
        from <= s@.len(),
    ensures
        r == is_int_text(s@.skip(from as int)),
{
    let ghost t = s@.skip(from as int);
    let n = s.unicode_len();
    if from >= n {
        return false;
    }
    let c0 = s.get_char(from);
    assert(t[0] == c0);
    let start: usize = if c0 == '-' || c0 == '+' { from + 1 } else { from };
    assert(int_text_body(t) =~= s@.subrange(start as int, n as int));
    start < n && check_digits(s, start, n)
}

/// Whether `str::parse::<f32>` accepts this text, decided by the documented
/// grammar alone.
#[verifier::rlimit(60)]
pub fn check_float_text(s: &str) -> (r: bool)
    ensures
        r == is_float_text(s@),
{
    let n = s.unicode_len();
    let start: usize = if n > 0 {
        let c0 = s.get_char(0);
        if c0 == '-' || c0 == '+' { 1 } else { 0 }
    } else {
        0
    };
    assert(strip_sign(s@) =~= s@.skip(start as int));
    let ghost t = s@.skip(start as int);
    if check_inf_nan(s, start) {
        return true;
    }
    match find_first_of(s, start, n, 'e', 'E') {
        None => {
            let r = check_mantissa(s, start, n);
            proof {
                assert(t =~= s@.subrange(start as int, n as int));
                if !r {
                    assert forall|j: int|
                        0 <= j < t.len() && (#[trigger] t[j] == 'e' || #[trigger] t[j] == 'E')
                    implies false by {
                        assert(!(s@[start + j] == 'e' || s@[start + j] == 'E'));
                    }
                }
            }
            r
        },
        Some(e) => {
            let ghost ei = e - start;
            assert(t[ei] == 'e' || t[ei] == 'E');
            let m_ok = check_mantissa(s, start, e);
            let x_ok = check_int_text_from(s, e + 1);
            proof {
                assert(t.take(ei) =~= s@.subrange(start as int, e as int));
                assert(t.skip(ei + 1) =~= s@.skip(e + 1));
                if m_ok && x_ok {
                    assert(is_number_text(t)) by {
                        assert((t[ei] == 'e' || t[ei] == 'E') && is_mantissa(t.take(ei)) && is_int_text(t.skip(ei + 1)));
                    }
                } else {
                    assert(!is_mantissa(t)) by {
                        assert(!is_dec_digit(t[ei]) && t[ei] != '.');
                        if t.len() > 1 && exists|i: int|
                            0 <= i < t.len() && #[trigger] t[i] == '.'
                            && all_dec_digits(t.take(i)) && all_dec_digits(t.skip(i + 1)) {
                            let i = choose|i: int|
                                0 <= i < t.len() && #[trigger] t[i] == '.'
                                && all_dec_digits(t.take(i)) && all_dec_digits(t.skip(i + 1));
                            if ei < i {
                                assert(is_dec_digit(t.take(i)[ei]));
                            } else {
                                assert(is_dec_digit(t.skip(i + 1)[ei - i - 1]));
                            }
                        }
                    }
                    assert forall|j: int|
                        0 <= j < t.len() && (#[trigger] t[j] == 'e' || #[trigger] t[j] == 'E')
                        && is_mantissa(t.take(j)) && is_int_text(t.skip(j + 1))
                    implies false by {
                        if j < ei {
                            assert(!(s@[start + j] == 'e' || s@[start + j] == 'E'));
                        } else if j > ei {
                            let ghost u = t.take(j);
                            assert(u[ei] == t[ei]);
                            assert(!is_dec_digit(u[ei]) && u[ei] != '.');
                            if u.len() > 1 && exists|i: int|
                                0 <= i < u.len() && #[trigger] u[i] == '.'
                                && all_dec_digits(u.take(i)) && all_dec_digits(u.skip(i + 1)) {
                                let i = choose|i: int|
                                    0 <= i < u.len() && #[trigger] u[i] == '.'
                                    && all_dec_digits(u.take(i)) && all_dec_digits(u.skip(i + 1));
                                if ei < i {
                                    assert(is_dec_digit(u.take(i)[ei]));
                                } else {
                                    assert(is_dec_digit(u.skip(i + 1)[ei - i - 1]));
                                }
                            }
                            assert(!is_mantissa(u));
                        }
                    }
                }
            }
            m_ok && x_ok
        },
    }
}

// ---------------------------------------------------------------------------
// Free-text sanitizing for numeric edit fields
// ---------------------------------------------------------------------------

/// The decimal digits of a text, in order.
pub open spec fn digits_of(s: Seq<char>) -> Seq<char>
    decreases s.len(),
{
    if s.len() == 0 {
        Seq::empty()
    } else if is_dec_digit(s[0]) {
        seq![s[0]] + digits_of(s.drop_first())
    } else {
        digits_of(s.drop_first())
    }
}

/// The decimal digits of a text together with its first decimal point.
pub open spec fn digits_dot_of(s: Seq<char>, seen_dot: bool) -> Seq<char>
    decreases s.len(),
{
    if s.len() == 0 {
        Seq::empty()
    } else if is_dec_digit(s[0]) {
        seq![s[0]] + digits_dot_of(s.drop_first(), seen_dot)
    } else if s[0] == '.' && !seen_dot {
        seq!['.'] + digits_dot_of(s.drop_first(), true)
    } else {
        digits_dot_of(s.drop_first(), seen_dot)
    }
}

fn filter_digits(s: &str) -> (r: String)
    ensures
        r@ == digits_of(s@),
{
    let n = s.unicode_len();
    let mut out: Vec<u8> = Vec::new();
    proof {
        assert(s@.skip(0) =~= s@);
        assert(out@.map_values(|b: u8| b as char) =~= Seq::<char>::empty());
    }
    let mut i: usize = 0;
    while i < n
        invariant
            0 <= i <= n,
            n == s@.len(),
            forall|k: int| 0 <= k < out@.len() ==> #[trigger] out@[k] < 128,
            digits_of(s@) =~= out@.map_values(|b: u8| b as char) + digits_of(s@.skip(i as int)),
        decreases n - i,
    {
        let c = s.get_char(i);
        let ghost rest = s@.skip(i as int);
        proof {
            assert(rest[0] == c);
            assert(rest.drop_first() =~= s@.skip(i + 1));
        }
        if '0' <= c && c <= '9' {
            out.push(c as u8);
            proof {
                assert(digits_of(rest) =~= seq![c] + digits_of(s@.skip(i + 1)));
            }
        } else {
            proof {
                assert(digits_of(rest) =~= digits_of(s@.skip(i + 1)));
            }
        }
        i = i + 1;
    }
    proof {
        assert(s@.skip(n as int) =~= Seq::<char>::empty());
    }
    string_from_ascii(out)
}

fn filter_digits_dot(s: &str) -> (r: String)
    ensures
        r@ == digits_dot_of(s@, false),
{
    let n = s.unicode_len();
    let mut out: Vec<u8> = Vec::new();
    proof {
        assert(s@.skip(0) =~= s@);
        assert(out@.map_values(|b: u8| b as char) =~= Seq::<char>::empty());
    }
    let mut seen: bool = false;
    let mut i: usize = 0;
    while i < n
        invariant
            0 <= i <= n,
            n == s@.len(),
            forall|k: int| 0 <= k < out@.len() ==> #[trigger] out@[k] < 128,
            digits_dot_of(s@, false) =~= out@.map_values(|b: u8| b as char) + digits_dot_of(s@.skip(i as int), seen),
        decreases n - i,
    {
        let c = s.get_char(i);
        let ghost rest = s@.skip(i as int);
        proof {
            assert(rest[0] == c);
            assert(rest.drop_first() =~= s@.skip(i + 1));
        }
        if '0' <= c && c <= '9' {
            out.push(c as u8);
            proof {
                assert(digits_dot_of(rest, seen) =~= seq![c] + digits_dot_of(s@.skip(i + 1), seen));
            }
        } else if c == '.' && !seen {
            out.push(46);
            seen = true;
            proof {
                assert(digits_dot_of(rest, false) =~= seq!['.'] + digits_dot_of(s@.skip(i + 1), true));
            }
        } else {
            proof {
                assert(digits_dot_of(rest, seen) =~= digits_dot_of(s@.skip(i + 1), seen));
            }
        }
        i = i + 1;
    }
    proof {
        assert(s@.skip(n as int) =~= Seq::<char>::empty());
    }
    string_from_ascii(out)
}

/// What a text becomes after unsigned-integer sanitizing: kept when empty or
/// already accepted, else its digits when those are accepted, else empty.
pub open spec fn validate_u32_spec(s: Seq<char>) -> Seq<char> {
    if s.len() == 0 || parse_u32_spec(s) is Some {
        s
    } else if parse_u32_spec(digits_of(s)) is Some {
        digits_of(s)
    } else {
        Seq::<char>::empty()
    }
}

/// Keep a text editable as a `u32`: a text that does not parse is reduced to
/// its digits, and cleared when even those do not parse.
pub fn validate_u32(value: &mut String)
    ensures
        final(value)@ == validate_u32_spec(old(value)@),
{
    if value.as_str().is_empty() {
        return;
    }
    if parse_u32(value.as_str()).is_some() {
        return;
    }
    let filtered = filter_digits(value.as_str());
    if parse_u32(filtered.as_str()).is_some() {
        *value = filtered;
    } else {
        *value = String::new();
    }
}

/// What a text becomes after float sanitizing: kept when empty or already
/// accepted, else its digits and first decimal point when those are
/// accepted, else empty.
pub open spec fn validate_f32_spec(s: Seq<char>) -> Seq<char> {
    if s.len() == 0 || is_float_text(s) {
        s
    } else if is_float_text(digits_dot_of(s, false)) {
        digits_dot_of(s, false)
    } else {
        Seq::<char>::empty()
    }
}

/// Keep a text editable as an `f32`: a text outside the float grammar is
/// reduced to its digits and first decimal point, and cleared when even that
/// is outside the grammar.
pub fn validate_f32(value: &mut String)
    ensures
        final(value)@ == validate_f32_spec(old(value)@),
{
    if value.as_str().is_empty() {
        return;
    }
    if check_float_text(value.as_str()) {
        return;
    }
    let filtered = filter_digits_dot(value.as_str());
    if check_float_text(filtered.as_str()) {
        *value = filtered;
    } else {
        *value = String::new();
    }
}

} // verus!
