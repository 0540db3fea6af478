//! The inbound message grammar. A job arrives as structured text: an
//! object with an unsigned `job_id` and an ordered `parameters` array
//! of tagged objects. The grammar below is stated as spec functions
//! over the UTF-8 bytes of the message; the executable parser is
//! proved to return exactly what the grammar says, all-or-nothing.
use vstd::prelude::*;
use vstd::string::StringSliceAdditionalSpecFns;
use vstd::string::is_ascii_spec_bytes;
use crate::model::Job;
use crate::model::JobV;
use crate::model::MessageError;
use crate::model::MessageErrorV;
use crate::model::Parameter;
use crate::model::ParameterV;
use crate::model::Requirement;
use crate::model::RequirementV;
use crate::model::bytes_eq;

verus! {

broadcast use crate::model::lemma_bytes_deep_view;

/// The UTF-8 bytes of an ASCII character sequence.
pub open spec fn ascii_bytes(s: Seq<char>) -> Seq<u8> {
    Seq::new(s.len(), |i: int| s[i] as u8)
}

/// The bytes of an ASCII string literal, tied to its spec image.
fn ascii_key<'a>(s: &'a str) -> (r: &'a [u8])
    requires
        vstd::string::is_ascii(s),
    ensures
        r@ == ascii_bytes(s@),
{
    proof {
        is_ascii_spec_bytes(s);
        assert(s.spec_bytes() =~= ascii_bytes(s@));
    }
    s.as_bytes()
}

/// The member name of the job identifier.
pub open spec fn key_job_id() -> Seq<u8> {
    ascii_bytes("job_id"@)
}

/// The member name of the parameter list.
pub open spec fn key_parameters() -> Seq<u8> {
    ascii_bytes("parameters"@)
}

/// The member name of a parameter's id.
pub open spec fn key_id() -> Seq<u8> {
    ascii_bytes("id"@)
}

/// The member name of a parameter's type tag.
pub open spec fn key_type() -> Seq<u8> {
    ascii_bytes("type"@)
}

/// The member name of a parameter's declared value.
pub open spec fn key_value() -> Seq<u8> {
    ascii_bytes("value"@)
}

/// The member name of a parameter's default.
pub open spec fn key_default() -> Seq<u8> {
    ascii_bytes("default"@)
}

/// The member name of a requirement's path list.
pub open spec fn key_paths() -> Seq<u8> {
    ascii_bytes("paths"@)
}

/// The tag of the single-string parameter kind.
pub open spec fn tag_string() -> Seq<u8> {
    ascii_bytes("string"@)
}

/// The primary tag of the list-of-strings parameter kind.
pub open spec fn tag_array_of_strings() -> Seq<u8> {
    ascii_bytes("array_of_strings"@)
}

/// The alternate tag of the list-of-strings parameter kind.
pub open spec fn tag_paths() -> Seq<u8> {
    ascii_bytes("paths"@)
}

/// The tag of the requirements parameter kind.
pub open spec fn tag_requirements() -> Seq<u8> {
    ascii_bytes("requirements"@)
}

pub(crate) fn kb_job_id() -> (r: &'static [u8])
    ensures
        r@ == key_job_id(),
{
    proof {
        reveal_strlit("job_id");
        assert(vstd::string::is_ascii("job_id")) by {
            assert(forall|i: int| 0 <= i < "job_id"@.len() ==> ("job_id"@[i] as u32) < 128);
        }
    }
    ascii_key("job_id")
}

pub(crate) fn kb_parameters() -> (r: &'static [u8])
    ensures
        r@ == key_parameters(),
{
    proof {
        reveal_strlit("parameters");
        assert(vstd::string::is_ascii("parameters")) by {
            assert(forall|i: int| 0 <= i < "parameters"@.len() ==> ("parameters"@[i] as u32) < 128);
        }
    }
    ascii_key("parameters")
}

pub(crate) fn kb_id() -> (r: &'static [u8])
    ensures
        r@ == key_id(),
{
    proof {
        reveal_strlit("id");
        assert(vstd::string::is_ascii("id")) by {
            assert(forall|i: int| 0 <= i < "id"@.len() ==> ("id"@[i] as u32) < 128);
        }
    }
    ascii_key("id")
}

pub(crate) fn kb_type() -> (r: &'static [u8])
    ensures
        r@ == key_type(),
{
    proof {
        reveal_strlit("type");
        assert(vstd::string::is_ascii("type")) by {
            assert(forall|i: int| 0 <= i < "type"@.len() ==> ("type"@[i] as u32) < 128);
        }
    }
    ascii_key("type")
}

pub(crate) fn kb_value() -> (r: &'static [u8])
    ensures
        r@ == key_value(),
{
    proof {
        reveal_strlit("value");
        assert(vstd::string::is_ascii("value")) by {
            assert(forall|i: int| 0 <= i < "value"@.len() ==> ("value"@[i] as u32) < 128);
        }
    }
    ascii_key("value")
}

pub(crate) fn kb_default() -> (r: &'static [u8])
    ensures
        r@ == key_default(),
{
    proof {
        reveal_strlit("default");
        assert(vstd::string::is_ascii("default")) by {
            assert(forall|i: int| 0 <= i < "default"@.len() ==> ("default"@[i] as u32) < 128);
        }
    }
    ascii_key("default")
}

pub(crate) fn kb_paths() -> (r: &'static [u8])
    ensures
        r@ == key_paths(),
{
    proof {
        reveal_strlit("paths");
        assert(vstd::string::is_ascii("paths")) by {
            assert(forall|i: int| 0 <= i < "paths"@.len() ==> ("paths"@[i] as u32) < 128);
        }
    }
    ascii_key("paths")
}

pub(crate) fn kb_string() -> (r: &'static [u8])
    ensures
        r@ == tag_string(),
{
    proof {
        reveal_strlit("string");
        assert(vstd::string::is_ascii("string")) by {
            assert(forall|i: int| 0 <= i < "string"@.len() ==> ("string"@[i] as u32) < 128);
        }
    }
    ascii_key("string")
}

pub(crate) fn kb_array_of_strings() -> (r: &'static [u8])
    ensures
        r@ == tag_array_of_strings(),
{
    proof {
        reveal_strlit("array_of_strings");
        assert(vstd::string::is_ascii("array_of_strings")) by {
            assert(forall|i: int|
                0 <= i < "array_of_strings"@.len() ==> ("array_of_strings"@[i] as u32) < 128);
        }
    }
    ascii_key("array_of_strings")
}

pub(crate) fn kb_requirements() -> (r: &'static [u8])
    ensures
        r@ == tag_requirements(),
{
    proof {
        reveal_strlit("requirements");
        assert(vstd::string::is_ascii("requirements")) by {
            assert(forall|i: int|
                0 <= i < "requirements"@.len() ==> ("requirements"@[i] as u32) < 128);
        }
    }
    ascii_key("requirements")
}

/// The four whitespace bytes the grammar skips between tokens.
pub open spec fn is_ws_byte(b: u8) -> bool {
    b == 32 || b == 9 || b == 10 || b == 13
}

/// The first position at or after `i` holding a non-whitespace byte
/// (or the end of the input).
pub open spec fn spec_ws(s: Seq<u8>, i: int) -> int
    decreases s.len() - i,
{
    if 0 <= i && i < s.len() && is_ws_byte(s[i]) {
        spec_ws(s, i + 1)
    } else {
        i
    }
}

fn skip_ws(s: &[u8], i: usize) -> (r: usize)
    requires
        i <= s.len(),
    ensures
        r as int == spec_ws(s@, i as int),
        i <= r <= s.len(),
{
    let mut j: usize = i;
    while j < s.len() && (s[j] == 32 || s[j] == 9 || s[j] == 10 || s[j] == 13)
        invariant
            i <= j <= s.len(),
            spec_ws(s@, i as int) == spec_ws(s@, j as int),
        decreases s.len() - j,
    {
        j += 1;
    }
    j
}

/// The value of a hexadecimal digit byte.
pub open spec fn spec_hex(b: u8) -> Option<u8> {
    if 48 <= b && b <= 57 {
        Some((b - 48) as u8)
    } else if 65 <= b && b <= 70 {
        Some((b - 55) as u8)
    } else if 97 <= b && b <= 102 {
        Some((b - 87) as u8)
    } else {
        None
    }
}

/// The byte produced by a single-character escape.
pub open spec fn spec_esc(b: u8) -> Option<u8> {
    if b == 34 {
        Some(34u8)
    } else if b == 92 {
        Some(92u8)
    } else if b == 47 {
        Some(47u8)
    } else if b == 98 {
        Some(8u8)
    } else if b == 102 {
        Some(12u8)
    } else if b == 110 {
        Some(10u8)
    } else if b == 114 {
        Some(13u8)
    } else if b == 116 {
        Some(9u8)
    } else {
        None
    }
}

/// The value of the four hexadecimal digits at `i`, if they are there.
pub open spec fn spec_hex4(s: Seq<u8>, i: int) -> Option<u32> {
    if 0 <= i && i + 4 <= s.len() && spec_hex(s[i]) is Some && spec_hex(s[i + 1]) is Some
        && spec_hex(s[i + 2]) is Some && spec_hex(s[i + 3]) is Some {
        Some(
            ((spec_hex(s[i]).unwrap() as u32) * 4096 + (spec_hex(s[i + 1]).unwrap() as u32) * 256
                + (spec_hex(s[i + 2]).unwrap() as u32) * 16 + (
            spec_hex(s[i + 3]).unwrap() as u32)) as u32,
        )
    } else {
        None
    }
}

/// The UTF-8 encoding of a scalar value below 0x110000.
pub open spec fn spec_utf8(cp: u32) -> Seq<u8> {
    if cp < 0x80 {
        seq![cp as u8]
    } else if cp < 0x800 {
        seq![(0xC0u32 | (cp >> 6u32)) as u8, (0x80u32 | (cp & 0x3Fu32)) as u8]
    } else if cp < 0x10000 {
        seq![
            (0xE0u32 | (cp >> 12u32)) as u8,
            (0x80u32 | ((cp >> 6u32) & 0x3Fu32)) as u8,
            (0x80u32 | (cp & 0x3Fu32)) as u8,
        ]
    } else {
        seq![
            (0xF0u32 | (cp >> 18u32)) as u8,
            (0x80u32 | ((cp >> 12u32) & 0x3Fu32)) as u8,
            (0x80u32 | ((cp >> 6u32) & 0x3Fu32)) as u8,
            (0x80u32 | (cp & 0x3Fu32)) as u8,
        ]
    }
}

/// String contents from just after the opening quote: `acc` holds the
/// bytes decoded so far; the result is the decoded contents and the
/// position just after the closing quote. Escapes follow the usual
/// rules, a high surrogate escape must be followed by a low one, and
/// unescaped control bytes are refused.
pub open spec fn spec_string_body(s: Seq<u8>, i: int, acc: Seq<u8>) -> Option<(Seq<u8>, int)>
    decreases s.len() - i,
{
    if !(0 <= i && i < s.len()) {
        None
    } else {
        let b = s[i];
        if b == 34 {
            Some((acc, i + 1))
        } else if b == 92 {
            if i + 1 < s.len() {
                let e = s[i + 1];
                if spec_esc(e) is Some {
                    spec_string_body(s, i + 2, acc.push(spec_esc(e).unwrap()))
                } else if e == 117 {
                    match spec_hex4(s, i + 2) {
                        Some(cp) => if 0xD800 <= cp && cp < 0xDC00 {
                            if i + 12 <= s.len() && s[i + 6] == 92 && s[i + 7] == 117 {
                                match spec_hex4(s, i + 8) {
                                    Some(lo) => if 0xDC00 <= lo && lo < 0xE000 {
                                        spec_string_body(
                                            s,
                                            i + 12,
                                            acc + spec_utf8(
                                                (0x10000 + (cp - 0xD800) * 0x400 + (lo
                                                    - 0xDC00)) as u32,
                                            ),
                                        )
                                    } else {
                                        None
                                    },
                                    None => None,
                                }
                            } else {
                                None
                            }
                        } else if 0xDC00 <= cp && cp < 0xE000 {
                            None
                        } else {
                            spec_string_body(s, i + 6, acc + spec_utf8(cp))
                        },
                        None => None,
                    }
                } else {
                    None
                }
            } else {
                None
            }
        } else if b < 32 {
            None
        } else {
            spec_string_body(s, i + 1, acc.push(b))
        }
    }
}

/// A string token at `i`: an opening quote, contents, a closing quote.
pub open spec fn spec_string(s: Seq<u8>, i: int) -> Option<(Seq<u8>, int)> {
    if 0 <= i && i < s.len() && s[i] == 34 {
        spec_string_body(s, i + 1, Seq::empty())
    } else {
        None
    }
}

/// Whatever the string grammar accepts ends within the input.
pub proof fn lemma_string_body_end(s: Seq<u8>, i: int, acc: Seq<u8>)
    requires
        spec_string_body(s, i, acc) is Some,
    ensures
        i < spec_string_body(s, i, acc).unwrap().1 <= s.len(),
    decreases s.len() - i,
{
    let b = s[i];
    if b == 34 {
    } else if b == 92 {
        let e = s[i + 1];
        if spec_esc(e) is Some {
            lemma_string_body_end(s, i + 2, acc.push(spec_esc(e).unwrap()));
        } else {
            let cp = spec_hex4(s, i + 2).unwrap();
            if 0xD800 <= cp && cp < 0xDC00 {
                let lo = spec_hex4(s, i + 8).unwrap();
                lemma_string_body_end(
                    s,
                    i + 12,
                    acc + spec_utf8((0x10000 + (cp - 0xD800) * 0x400 + (lo - 0xDC00)) as u32),
                );
            } else {
                lemma_string_body_end(s, i + 6, acc + spec_utf8(cp));
            }
        }
    } else {
        lemma_string_body_end(s, i + 1, acc.push(b));
    }
}

fn hex_digit(b: u8) -> (r: Option<u8>)
    ensures
        r == spec_hex(b),
{
    if 48 <= b && b <= 57 {
        Some(b - 48)
    } else if 65 <= b && b <= 70 {
        Some(b - 55)
    } else if 97 <= b && b <= 102 {
        Some(b - 87)
    } else {
        None
    }
}

fn hex4(s: &[u8], i: usize) -> (r: Option<u32>)
    ensures
        r == spec_hex4(s@, i as int),
{
    if i < s.len() && s.len() - i >= 4 {
        match (hex_digit(s[i]), hex_digit(s[i + 1]), hex_digit(s[i + 2]), hex_digit(s[i + 3])) {
            (Some(h0), Some(h1), Some(h2), Some(h3)) => Some(
                (h0 as u32) * 4096 + (h1 as u32) * 256 + (h2 as u32) * 16 + (h3 as u32),
            ),
            _ => None,
        }
    } else {
        None
    }
}

/// Appends the UTF-8 encoding of `cp` to `acc`.
fn push_utf8(acc: &mut Vec<u8>, cp: u32)
    requires
        cp < 0x110000,
    ensures
        final(acc)@ == old(acc)@ + spec_utf8(cp),
{
    if cp < 0x80 {
        acc.push(cp as u8);
        assert(final(acc)@ =~= old(acc)@ + spec_utf8(cp));
    } else if cp < 0x800 {
        acc.push((0xC0u32 | (cp >> 6u32)) as u8);
        acc.push((0x80u32 | (cp & 0x3Fu32)) as u8);
        assert(final(acc)@ =~= old(acc)@ + spec_utf8(cp));
    } else if cp < 0x10000 {
        acc.push((0xE0u32 | (cp >> 12u32)) as u8);
        acc.push((0x80u32 | ((cp >> 6u32) & 0x3Fu32)) as u8);
        acc.push((0x80u32 | (cp & 0x3Fu32)) as u8);
        assert(final(acc)@ =~= old(acc)@ + spec_utf8(cp));
    } else {
        acc.push((0xF0u32 | (cp >> 18u32)) as u8);
        acc.push((0x80u32 | ((cp >> 12u32) & 0x3Fu32)) as u8);
        acc.push((0x80u32 | ((cp >> 6u32) & 0x3Fu32)) as u8);
        acc.push((0x80u32 | (cp & 0x3Fu32)) as u8);
        assert(final(acc)@ =~= old(acc)@ + spec_utf8(cp));
    }
}

/// Parses the string token at `i`, returning its decoded contents and
/// the position just after the closing quote.
fn p_string(s: &[u8], i: usize) -> (r: Option<(Vec<u8>, usize)>)
    requires
        i <= s.len(),
    ensures
        match r {
            Some(p) => {
                &&& spec_string(s@, i as int) == Some((p.0@, p.1 as int))
                &&& i < p.1 <= s.len()
            },
            None => spec_string(s@, i as int) is None,
        },
{
    if i >= s.len() || s[i] != 34 {
        return None;
    }
    let mut acc: Vec<u8> = Vec::new();
    let mut j: usize = i + 1;
    loop
        invariant
            i + 1 <= j <= s.len(),
            spec_string_body(s@, i + 1 as int, Seq::empty()) == spec_string_body(
                s@,
                j as int,
                acc@,
            ),
        decreases s.len() - j,
    {
        if j >= s.len() {
            return None;
        }
        let b = s[j];
        if b == 34 {
            proof {
                lemma_string_body_end(s@, j as int, acc@);
            }
            return Some((acc, j + 1));
        } else if b == 92 {
            if j + 1 >= s.len() {
                return None;
            }
            let e = s[j + 1];
            if let Some(d) = esc_byte(e) {
                acc.push(d);
                j = j + 2;
            } else if e == 117 {
                match hex4(s, j + 2) {
                    Some(cp) => {
                        if 0xD800 <= cp && cp < 0xDC00 {
                            if s.len() - j >= 12 && s[j + 6] == 92 && s[j + 7] == 117 {
                                match hex4(s, j + 8) {
                                    Some(lo) => {
                                        if 0xDC00 <= lo && lo < 0xE000 {
                                            let scalar: u32 = 0x10000 + (cp - 0xD800) * 0x400 + (lo
                                                - 0xDC00);
                                            push_utf8(&mut acc, scalar);
                                            j = j + 12;
                                        } else {
                                            return None;
                                        }
                                    },
                                    None => {
                                        return None;
                                    },
                                }
                            } else {
                                return None;
                            }
                        } else if 0xDC00 <= cp && cp < 0xE000 {
                            return None;
                        } else {
                            push_utf8(&mut acc, cp);
                            j = j + 6;
                        }
                    },
                    None => {
                        return None;
                    },
                }
            } else {
                return None;
            }
        } else if b < 32 {
            return None;
        } else {
            acc.push(b);
            j = j + 1;
        }
    }
}

/// A decimal digit byte.
pub open spec fn is_digit(b: u8) -> bool {
    48 <= b && b <= 57
}

/// The first position at or after `i` holding a non-digit byte.
pub open spec fn spec_digits_end(s: Seq<u8>, i: int) -> int
    decreases s.len() - i,
{
    if 0 <= i && i < s.len() && is_digit(s[i]) {
        spec_digits_end(s, i + 1)
    } else {
        i
    }
}

/// The value of the digit run `s[i..j]`.
pub open spec fn spec_digits_val(s: Seq<u8>, i: int, j: int) -> int
    decreases j - i,
{
    if i < j {
        spec_digits_val(s, i, j - 1) * 10 + (s[j - 1] - 48)
    } else {
        0
    }
}

/// End of the integer part starting at a digit: a leading zero stands
/// alone, any other digit opens a run.
pub open spec fn spec_int_end(s: Seq<u8>, i: int) -> int {
    if 0 <= i && i < s.len() && s[i] == 48 {
        i + 1
    } else {
        spec_digits_end(s, i)
    }
}

/// End of an optional fraction part at `i`; a bare dot is refused.
pub open spec fn spec_frac_end(s: Seq<u8>, i: int) -> Option<int> {
    if 0 <= i && i < s.len() && s[i] == 46 {
        if i + 1 < s.len() && is_digit(s[i + 1]) {
            Some(spec_digits_end(s, i + 1))
        } else {
            None
        }
    } else {
        Some(i)
    }
}

/// End of an optional exponent part at `i`; a bare marker is refused.
pub open spec fn spec_exp_end(s: Seq<u8>, i: int) -> Option<int> {
    if 0 <= i && i < s.len() && (s[i] == 101 || s[i] == 69) {
        let j = if i + 1 < s.len() && (s[i + 1] == 43 || s[i + 1] == 45) {
            i + 2
        } else {
            i + 1
        };
        if j < s.len() && is_digit(s[j]) {
            Some(spec_digits_end(s, j))
        } else {
            None
        }
    } else {
        Some(i)
    }
}

/// A number token at `i`: its end, and its value exactly when it is an
/// unsigned integer that fits in 64 bits (the only numbers whose value
/// the schema reads). Any other well-formed number keeps its syntax
/// but carries no value.
pub open spec fn spec_number(s: Seq<u8>, i: int) -> Option<(Option<u64>, int)> {
    let neg = 0 <= i && i < s.len() && s[i] == 45;
    let i0 = if neg {
        i + 1
    } else {
        i
    };
    if 0 <= i0 && i0 < s.len() && is_digit(s[i0]) {
        let ie = spec_int_end(s, i0);
        match spec_frac_end(s, ie) {
            Some(fe) => match spec_exp_end(s, fe) {
                Some(ee) => {
                    let v = spec_digits_val(s, i0, ie);
                    if !neg && fe == ie && ee == fe && v <= u64::MAX {
                        Some((Some(v as u64), ee))
                    } else {
                        Some((None, ee))
                    }
                },
                None => None,
            },
            None => None,
        }
    } else {
        None
    }
}

/// A digit run never moves backwards and never passes the end.
pub proof fn lemma_digits_end_bounds(s: Seq<u8>, i: int)
    requires
        0 <= i <= s.len(),
    ensures
        i <= spec_digits_end(s, i) <= s.len(),
    decreases s.len() - i,
{
    if i < s.len() && is_digit(s[i]) {
        lemma_digits_end_bounds(s, i + 1);
    }
}

/// Scans a digit run without reading its value.
fn digits_end(s: &[u8], i: usize) -> (r: usize)
    requires
        i <= s.len(),
    ensures
        r as int == spec_digits_end(s@, i as int),
        i <= r <= s.len(),
{
    let mut j: usize = i;
    while j < s.len() && 48 <= s[j] && s[j] <= 57
        invariant
            i <= j <= s.len(),
            spec_digits_end(s@, i as int) == spec_digits_end(s@, j as int),
        decreases s.len() - j,
    {
        j += 1;
    }
    j
}

/// Parses the number token at `i`.
fn p_number(s: &[u8], i: usize) -> (r: Option<(Option<u64>, usize)>)
    requires
        i <= s.len(),
    ensures
        match r {
            Some(p) => {
                &&& spec_number(s@, i as int) == Some((p.0, p.1 as int))
                &&& i < p.1 <= s.len()
            },
            None => spec_number(s@, i as int) is None,
        },
{
    let neg = i < s.len() && s[i] == 45;
    let i0: usize = if neg {
        i + 1
    } else {
        i
    };
    if i0 >= s.len() || s[i0] < 48 || s[i0] > 57 {
        return None;
    }
    let ie: usize;
    let mut val: u64 = 0;
    let mut over: bool = false;
    if s[i0] == 48 {
        ie = i0 + 1;
        proof {
            assert(spec_digits_val(s@, i0 as int, i0 as int) == 0);
            assert(spec_digits_val(s@, i0 as int, i0 + 1 as int) == 0);
        }
    } else {
        let mut j: usize = i0;
        while j < s.len() && 48 <= s[j] && s[j] <= 57
            invariant
                i0 <= j <= s.len(),
                spec_digits_end(s@, i0 as int) == spec_digits_end(s@, j as int),
                !over ==> val == spec_digits_val(s@, i0 as int, j as int),
                over ==> spec_digits_val(s@, i0 as int, j as int) > u64::MAX,
            decreases s.len() - j,
        {
            let d: u64 = (s[j] - 48) as u64;
            proof {
                assert(spec_digits_val(s@, i0 as int, j + 1 as int) == spec_digits_val(
                    s@,
                    i0 as int,
                    j as int,
                ) * 10 + d);
            }
            if !over {
                match val.checked_mul(10) {
                    Some(m) => match m.checked_add(d) {
                        Some(v2) => {
                            val = v2;
                        },
                        None => {
                            over = true;
                        },
                    },
                    None => {
                        over = true;
                    },
                }
            }
            j += 1;
        }
        ie = j;
        proof {
            assert(spec_digits_end(s@, i0 as int) == spec_digits_end(s@, i0 + 1 as int));
            lemma_digits_end_bounds(s@, i0 + 1 as int);
        }
    }
    let mut e: usize = ie;
    let mut pure_int: bool = true;
    if e < s.len() && s[e] == 46 {
        if e + 1 < s.len() && 48 <= s[e + 1] && s[e + 1] <= 57 {
            e = digits_end(s, e + 1);
            pure_int = false;
        } else {
            return None;
        }
    }
    if e < s.len() && (s[e] == 101 || s[e] == 69) {
        let j0: usize = if e + 1 < s.len() && (s[e + 1] == 43 || s[e + 1] == 45) {
            e + 2
        } else {
            e + 1
        };
        if j0 < s.len() && 48 <= s[j0] && s[j0] <= 57 {
            e = digits_end(s, j0);
            pure_int = false;
        } else {
            return None;
        }
    }
    if !neg && pure_int && !over {
        Some((Some(val), e))
    } else {
        Some((None, e))
    }
}

/// Whether the bytes of `w` stand verbatim at `i`.
pub open spec fn spec_lit(s: Seq<u8>, i: int, w: Seq<u8>) -> bool {
    0 <= i && i + w.len() <= s.len() && s.subrange(i, i + w.len()) == w
}

/// The keyword `true`.
pub open spec fn lit_true() -> Seq<u8> {
    ascii_bytes("true"@)
}

/// The keyword `false`.
pub open spec fn lit_false() -> Seq<u8> {
    ascii_bytes("false"@)
}

/// The keyword `null`.
pub open spec fn lit_null() -> Seq<u8> {
    ascii_bytes("null"@)
}

pub(crate) fn kb_true() -> (r: &'static [u8])
    ensures
        r@ == lit_true(),
{
    proof {
        reveal_strlit("true");
        assert(vstd::string::is_ascii("true")) by {
            assert(forall|i: int| 0 <= i < "true"@.len() ==> ("true"@[i] as u32) < 128);
        }
    }
    ascii_key("true")
}

pub(crate) fn kb_false() -> (r: &'static [u8])
    ensures
        r@ == lit_false(),
{
    proof {
        reveal_strlit("false");
        assert(vstd::string::is_ascii("false")) by {
            assert(forall|i: int| 0 <= i < "false"@.len() ==> ("false"@[i] as u32) < 128);
        }
    }
    ascii_key("false")
}

pub(crate) fn kb_null() -> (r: &'static [u8])
    ensures
        r@ == lit_null(),
{
    proof {
        reveal_strlit("null");
        assert(vstd::string::is_ascii("null")) by {
            assert(forall|i: int| 0 <= i < "null"@.len() ==> ("null"@[i] as u32) < 128);
        }
    }
    ascii_key("null")
}

/// The lengths of the three keyword literals.
pub proof fn lemma_lit_lens()
    ensures
        lit_true().len() == 4,
        lit_false().len() == 5,
        lit_null().len() == 4,
{
    reveal_strlit("true");
    reveal_strlit("false");
    reveal_strlit("null");
}

/// Whether the bytes of `w` stand verbatim at `i`.
fn match_lit(s: &[u8], i: usize, w: &[u8]) -> (r: bool)
    requires
        i <= s.len(),
    ensures
        r == spec_lit(s@, i as int, w@),
{
    if s.len() - i >= w.len() {
        let part = vstd::slice::slice_subrange(s, i, i + w.len());
        crate::model::bytes_eq(part, w)
    } else {
        false
    }
}

/// End of the value standing at `i`, whatever its kind; members whose
/// names the schema does not know are accepted by this rule. `fuel`
/// bounds the nesting depth and shrinks at every step down into an
/// array or object; the top level passes the input length, which no
/// well-formed nesting can reach.
pub open spec fn spec_skip(s: Seq<u8>, i: int, fuel: nat) -> Option<int>
    decreases fuel, s.len() - i, 0int,
{
    if !(0 <= i && i < s.len()) {
        None
    } else {
        let b = s[i];
        if b == 34 {
            match spec_string(s, i) {
                Some(p) => Some(p.1),
                None => None,
            }
        } else if b == 45 || is_digit(b) {
            match spec_number(s, i) {
                Some(p) => Some(p.1),
                None => None,
            }
        } else if b == 116 {
            if spec_lit(s, i, lit_true()) {
                Some(i + 4)
            } else {
                None
            }
        } else if b == 102 {
            if spec_lit(s, i, lit_false()) {
                Some(i + 5)
            } else {
                None
            }
        } else if b == 110 {
            if spec_lit(s, i, lit_null()) {
                Some(i + 4)
            } else {
                None
            }
        } else if b == 91 {
            if fuel == 0 {
                None
            } else {
                let j = spec_ws(s, i + 1);
                if j < s.len() && s[j] == 93 {
                    Some(j + 1)
                } else {
                    spec_skip_items(s, j, (fuel - 1) as nat)
                }
            }
        } else if b == 123 {
            if fuel == 0 {
                None
            } else {
                let j = spec_ws(s, i + 1);
                if j < s.len() && s[j] == 125 {
                    Some(j + 1)
                } else {
                    spec_skip_members(s, j, (fuel - 1) as nat)
                }
            }
        } else {
            None
        }
    }
}

/// One or more array items from `i`, up to and past the closing
/// bracket. The grammar only ever moves forward; positions that do
/// not are refused outright.
pub open spec fn spec_skip_items(s: Seq<u8>, i: int, fuel: nat) -> Option<int>
    decreases fuel, s.len() - i, 1int,
{
    match spec_skip(s, i, fuel) {
        Some(j) => {
            let a = spec_ws(s, j);
            if a < s.len() && s[a] == 93 {
                Some(a + 1)
            } else if a < s.len() && s[a] == 44 {
                let b2 = spec_ws(s, a + 1);
                if i < b2 <= s.len() {
                    spec_skip_items(s, b2, fuel)
                } else {
                    None
                }
            } else {
                None
            }
        },
        None => None,
    }
}

/// One or more object members from `i`, up to and past the closing
/// brace.
pub open spec fn spec_skip_members(s: Seq<u8>, i: int, fuel: nat) -> Option<int>
    decreases fuel, s.len() - i, 1int,
{
    match spec_string(s, i) {
        Some(p) => {
            let c = spec_ws(s, p.1);
            if c < s.len() && s[c] == 58 {
                let v = spec_ws(s, c + 1);
                if i <= v <= s.len() {
                    match spec_skip(s, v, fuel) {
                        Some(j2) => {
                            let a = spec_ws(s, j2);
                            if a < s.len() && s[a] == 125 {
                                Some(a + 1)
                            } else if a < s.len() && s[a] == 44 {
                                let b2 = spec_ws(s, a + 1);
                                if i < b2 <= s.len() {
                                    spec_skip_members(s, b2, fuel)
                                } else {
                                    None
                                }
                            } else {
                                None
                            }
                        },
                        None => None,
                    }
                } else {
                    None
                }
            } else {
                None
            }
        },
        None => None,
    }
}

/// Walks past the value standing at `i` without keeping it.
fn skip_value(s: &[u8], i: usize, fuel: usize) -> (r: Option<usize>)
    requires
        i <= s.len(),
    ensures
        match r {
            Some(j) => {
                &&& spec_skip(s@, i as int, fuel as nat) == Some(j as int)
                &&& i < j <= s.len()
            },
            None => spec_skip(s@, i as int, fuel as nat) is None,
        },
    decreases fuel, s.len() - i, 0int,
{
    if i >= s.len() {
        return None;
    }
    let b = s[i];
    if b == 34 {
        match p_string(s, i) {
            Some(p) => Some(p.1),
            None => None,
        }
    } else if b == 45 || (48 <= b && b <= 57) {
        match p_number(s, i) {
            Some(p) => Some(p.1),
            None => None,
        }
    } else if b == 116 {
        proof {
            lemma_lit_lens();
        }
        if match_lit(s, i, kb_true()) {
            Some(i + 4)
        } else {
            None
        }
    } else if b == 102 {
        proof {
            lemma_lit_lens();
        }
        if match_lit(s, i, kb_false()) {
            Some(i + 5)
        } else {
            None
        }
    } else if b == 110 {
        proof {
            lemma_lit_lens();
        }
        if match_lit(s, i, kb_null()) {
            Some(i + 4)
        } else {
            None
        }
    } else if b == 91 {
        if fuel == 0 {
            return None;
        }
        let j0 = skip_ws(s, i + 1);
        if j0 < s.len() && s[j0] == 93 {
            return Some(j0 + 1);
        }
        let mut pos: usize = j0;
        loop
            invariant
                i < pos <= s.len(),
                fuel >= 1,
                spec_skip(s@, i as int, fuel as nat) == spec_skip_items(
                    s@,
                    pos as int,
                    (fuel - 1) as nat,
                ),
            decreases s.len() - pos,
        {
            match skip_value(s, pos, fuel - 1) {
                Some(j) => {
                    let a = skip_ws(s, j);
                    if a < s.len() && s[a] == 93 {
                        return Some(a + 1);
                    } else if a < s.len() && s[a] == 44 {
                        let b2 = skip_ws(s, a + 1);
                        pos = b2;
                    } else {
                        return None;
                    }
                },
                None => {
                    return None;
                },
            }
        }
    } else if b == 123 {
        if fuel == 0 {
            return None;
        }
        let j0 = skip_ws(s, i + 1);
        if j0 < s.len() && s[j0] == 125 {
            return Some(j0 + 1);
        }
        let mut pos: usize = j0;
        loop
            invariant
                i < pos <= s.len(),
                fuel >= 1,
                spec_skip(s@, i as int, fuel as nat) == spec_skip_members(
                    s@,
                    pos as int,
                    (fuel - 1) as nat,
                ),
            decreases s.len() - pos,
        {
            match p_string(s, pos) {
                Some(p) => {
                    let c = skip_ws(s, p.1);
                    if !(c < s.len() && s[c] == 58) {
                        return None;
                    }
                    let v = skip_ws(s, c + 1);
                    match skip_value(s, v, fuel - 1) {
                        Some(j2) => {
                            let a = skip_ws(s, j2);
                            if a < s.len() && s[a] == 125 {
                                return Some(a + 1);
                            } else if a < s.len() && s[a] == 44 {
                                let b2 = skip_ws(s, a + 1);
                                pos = b2;
                            } else {
                                return None;
                            }
                        },
                        None => {
                            return None;
                        },
                    }
                },
                None => {
                    return None;
                },
            }
        }
    } else {
        None
    }
}

/// The shapes a parameter's `value` or `default` member may take:
/// a string, a list of strings, a requirement object, or null. Which
/// of them the schema admits is decided by the parameter's tag once
/// the whole parameter object has been read.
pub enum ShapeV {
    StrShape(Seq<u8>),
    ListShape(Seq<Seq<u8>>),
    ReqShape(Option<Seq<Seq<u8>>>),
    NullShape,
}

/// Executable counterpart of [`ShapeV`].
pub enum Shape {
    StrShape(Vec<u8>),
    ListShape(Vec<Vec<u8>>),
    ReqShape(Option<Vec<Vec<u8>>>),
    NullShape,
}

impl DeepView for Shape {
    type V = ShapeV;

    open spec fn deep_view(&self) -> ShapeV {
        self@
    }
}

impl View for Shape {
    type V = ShapeV;

    open spec fn view(&self) -> ShapeV {
        match self {
            Shape::StrShape(v) => ShapeV::StrShape(v@),
            Shape::ListShape(v) => ShapeV::ListShape(v.deep_view()),
            Shape::ReqShape(p) => ShapeV::ReqShape(
                match p {
                    Some(ps) => Some(ps.deep_view()),
                    None => None,
                },
            ),
            Shape::NullShape => ShapeV::NullShape,
        }
    }
}

/// String list items from `i` (just after a non-empty opening
/// bracket), with `acc` holding the strings read so far.
pub open spec fn spec_str_items(s: Seq<u8>, i: int, acc: Seq<Seq<u8>>) -> Option<
    (Seq<Seq<u8>>, int),
>
    decreases s.len() - i,
{
    match spec_string(s, i) {
        Some(p) => {
            let a = spec_ws(s, p.1);
            if a < s.len() && s[a] == 93 {
                Some((acc.push(p.0), a + 1))
            } else if a < s.len() && s[a] == 44 {
                let b2 = spec_ws(s, a + 1);
                if i < b2 <= s.len() {
                    spec_str_items(s, b2, acc.push(p.0))
                } else {
                    None
                }
            } else {
                None
            }
        },
        None => None,
    }
}

/// A (possibly empty) array of strings at `i`.
pub open spec fn spec_str_list(s: Seq<u8>, i: int) -> Option<(Seq<Seq<u8>>, int)> {
    if 0 <= i && i < s.len() && s[i] == 91 {
        let j = spec_ws(s, i + 1);
        if j < s.len() && s[j] == 93 {
            Some((Seq::empty(), j + 1))
        } else {
            spec_str_items(s, j, Seq::empty())
        }
    } else {
        None
    }
}

/// Members of a requirement object from `i` (just after a non-empty
/// opening brace): a `paths` member holds null or a list of strings
/// and may appear once; any other member is skipped.
pub open spec fn spec_req_members(
    s: Seq<u8>,
    i: int,
    seen_paths: bool,
    paths: Option<Seq<Seq<u8>>>,
    fuel: nat,
) -> Option<(Option<Seq<Seq<u8>>>, int)>
    decreases s.len() - i,
{
    match spec_string(s, i) {
        Some(kp) => {
            let c = spec_ws(s, kp.1);
            if c < s.len() && s[c] == 58 {
                let v = spec_ws(s, c + 1);
                if i <= v <= s.len() {
                    let step: Option<(bool, Option<Seq<Seq<u8>>>, int)> = if kp.0 == key_paths() {
                        if seen_paths {
                            None
                        } else if v < s.len() && s[v] == 110 {
                            if spec_lit(s, v, lit_null()) {
                                Some((true, None, v + 4))
                            } else {
                                None
                            }
                        } else {
                            match spec_str_list(s, v) {
                                Some(lp) => Some((true, Some(lp.0), lp.1)),
                                None => None,
                            }
                        }
                    } else {
                        match spec_skip(s, v, fuel) {
                            Some(j2) => Some((seen_paths, paths, j2)),
                            None => None,
                        }
                    };
                    match step {
                        Some(st) => {
                            let a = spec_ws(s, st.2);
                            if a < s.len() && s[a] == 125 {
                                Some((st.1, a + 1))
                            } else if a < s.len() && s[a] == 44 {
                                let b2 = spec_ws(s, a + 1);
                                if i < b2 <= s.len() {
                                    spec_req_members(s, b2, st.0, st.1, fuel)
                                } else {
                                    None
                                }
                            } else {
                                None
                            }
                        },
                        None => None,
                    }
                } else {
                    None
                }
            } else {
                None
            }
        },
        None => None,
    }
}

/// The shape standing at `i`.
pub open spec fn spec_shape(s: Seq<u8>, i: int, fuel: nat) -> Option<(ShapeV, int)> {
    if !(0 <= i && i < s.len()) {
        None
    } else {
        let b = s[i];
        if b == 34 {
            match spec_string(s, i) {
                Some(p) => Some((ShapeV::StrShape(p.0), p.1)),
                None => None,
            }
        } else if b == 91 {
            match spec_str_list(s, i) {
                Some(p) => Some((ShapeV::ListShape(p.0), p.1)),
                None => None,
            }
        } else if b == 123 {
            let j = spec_ws(s, i + 1);
            if j < s.len() && s[j] == 125 {
                Some((ShapeV::ReqShape(None), j + 1))
            } else {
                match spec_req_members(s, j, false, None, fuel) {
                    Some(p) => Some((ShapeV::ReqShape(p.0), p.1)),
                    None => None,
                }
            }
        } else if b == 110 {
            if spec_lit(s, i, lit_null()) {
                Some((ShapeV::NullShape, i + 4))
            } else {
                None
            }
        } else {
            None
        }
    }
}

/// Parses a (possibly empty) array of strings at `i`.
fn p_str_list(s: &[u8], i: usize) -> (r: Option<(Vec<Vec<u8>>, usize)>)
    requires
        i <= s.len(),
    ensures
        match r {
            Some(p) => {
                &&& spec_str_list(s@, i as int) == Some((p.0.deep_view(), p.1 as int))
                &&& i < p.1 <= s.len()
            },
            None => spec_str_list(s@, i as int) is None,
        },
{
    if !(i < s.len() && s[i] == 91) {
        return None;
    }
    let j0 = skip_ws(s, i + 1);
    if j0 < s.len() && s[j0] == 93 {
        let empty: Vec<Vec<u8>> = Vec::new();
        assert(Seq::<Seq<u8>>::empty() =~= empty.deep_view());
        return Some((empty, j0 + 1));
    }
    let mut acc: Vec<Vec<u8>> = Vec::new();
    let mut pos: usize = j0;
    proof {
        assert(acc.deep_view() =~= Seq::<Seq<u8>>::empty());
    }
    loop
        invariant
            i < pos <= s.len(),
            spec_str_list(s@, i as int) == spec_str_items(s@, pos as int, acc.deep_view()),
        decreases s.len() - pos,
    {
        match p_string(s, pos) {
            Some(p) => {
                let a = skip_ws(s, p.1);
                let ghost acc0 = acc.deep_view();
                acc.push(p.0);
                proof {
                    assert(acc.deep_view() =~~= acc0.push(p.0@));
                }
                if a < s.len() && s[a] == 93 {
                    return Some((acc, a + 1));
                } else if a < s.len() && s[a] == 44 {
                    let b2 = skip_ws(s, a + 1);
                    pos = b2;
                } else {
                    return None;
                }
            },
            None => {
                return None;
            },
        }
    }
}

/// Parses the shape standing at `i`.
fn p_shape(s: &[u8], i: usize, fuel: usize) -> (r: Option<(Shape, usize)>)
    requires
        i <= s.len(),
    ensures
        match r {
            Some(p) => {
                &&& spec_shape(s@, i as int, fuel as nat) == Some((p.0@, p.1 as int))
                &&& i < p.1 <= s.len()
            },
            None => spec_shape(s@, i as int, fuel as nat) is None,
        },
{
    if i >= s.len() {
        return None;
    }
    let b = s[i];
    if b == 34 {
        match p_string(s, i) {
            Some(p) => Some((Shape::StrShape(p.0), p.1)),
            None => None,
        }
    } else if b == 91 {
        match p_str_list(s, i) {
            Some(p) => Some((Shape::ListShape(p.0), p.1)),
            None => None,
        }
    } else if b == 123 {
        let j0 = skip_ws(s, i + 1);
        if j0 < s.len() && s[j0] == 125 {
            return Some((Shape::ReqShape(None), j0 + 1));
        }
        let mut seen_paths: bool = false;
        let mut paths: Option<Vec<Vec<u8>>> = None;
        let mut pos: usize = j0;
        loop
            invariant
                i < pos <= s.len(),
                spec_shape(s@, i as int, fuel as nat) == (match spec_req_members(
                    s@,
                    pos as int,
                    seen_paths,
                    paths.deep_view(),
                    fuel as nat,
                ) {
                    Some(p) => Some((ShapeV::ReqShape(p.0), p.1)),
                    None => None::<(ShapeV, int)>,
                }),
            decreases s.len() - pos,
        {
            match p_string(s, pos) {
                Some(kp) => {
                    let c = skip_ws(s, kp.1);
                    if !(c < s.len() && s[c] == 58) {
                        return None;
                    }
                    let v = skip_ws(s, c + 1);
                    let j2: usize;
                    if crate::model::bytes_eq(kp.0.as_slice(), kb_paths()) {
                        if seen_paths {
                            return None;
                        } else if v < s.len() && s[v] == 110 {
                            proof {
                                lemma_lit_lens();
                            }
                            if match_lit(s, v, kb_null()) {
                                seen_paths = true;
                                paths = None;
                                j2 = v + 4;
                            } else {
                                return None;
                            }
                        } else {
                            match p_str_list(s, v) {
                                Some(lp) => {
                                    seen_paths = true;
                                    paths = Some(lp.0);
                                    j2 = lp.1;
                                },
                                None => {
                                    return None;
                                },
                            }
                        }
                    } else {
                        match skip_value(s, v, fuel) {
                            Some(e) => {
                                j2 = e;
                            },
                            None => {
                                return None;
                            },
                        }
                    }
                    let a = skip_ws(s, j2);
                    if a < s.len() && s[a] == 125 {
                        return Some((Shape::ReqShape(paths), a + 1));
                    } else if a < s.len() && s[a] == 44 {
                        let b2 = skip_ws(s, a + 1);
                        pos = b2;
                    } else {
                        return None;
                    }
                },
                None => {
                    return None;
                },
            }
        }
    } else if b == 110 {
        proof {
            lemma_lit_lens();
        }
        if match_lit(s, i, kb_null()) {
            Some((Shape::NullShape, i + 4))
        } else {
            None
        }
    } else {
        None
    }
}

/// What a shape yields where the tag demands a string: absent and
/// null both mean "no value"; any other shape is a mismatch.
pub open spec fn conv_str(sh: Option<ShapeV>) -> Option<Option<Seq<u8>>> {
    match sh {
        None => Some(None),
        Some(ShapeV::NullShape) => Some(None),
        Some(ShapeV::StrShape(v)) => Some(Some(v)),
        Some(_) => None,
    }
}

/// What a shape yields where the tag demands a list of strings.
pub open spec fn conv_list(sh: Option<ShapeV>) -> Option<Option<Seq<Seq<u8>>>> {
    match sh {
        None => Some(None),
        Some(ShapeV::NullShape) => Some(None),
        Some(ShapeV::ListShape(v)) => Some(Some(v)),
        Some(_) => None,
    }
}

/// What a shape yields where the tag demands a requirement.
pub open spec fn conv_req(sh: Option<ShapeV>) -> Option<Option<RequirementV>> {
    match sh {
        None => Some(None),
        Some(ShapeV::NullShape) => Some(None),
        Some(ShapeV::ReqShape(p)) => Some(Some(RequirementV { paths: p })),
        Some(_) => None,
    }
}

/// The typed parameter made from the members of one parameter object,
/// once its closing brace has been read. The id and the tag must both
/// be present; the tag decides which shapes the `default` and `value`
/// members may have. The list-of-strings kind answers to either of its
/// two tags.
pub open spec fn spec_mk_param(
    id: Option<Seq<u8>>,
    tag: Option<Seq<u8>>,
    dflt: Option<ShapeV>,
    val: Option<ShapeV>,
) -> Option<ParameterV> {
    match (id, tag) {
        (Some(idv), Some(tagv)) => {
            if tagv == tag_string() {
                match (conv_str(dflt), conv_str(val)) {
                    (Some(d), Some(v)) => Some(
                        ParameterV::StringParam { id: idv, default: d, value: v },
                    ),
                    _ => None,
                }
            } else if tagv == tag_array_of_strings() || tagv == tag_paths() {
                match (conv_list(dflt), conv_list(val)) {
                    (Some(d), Some(v)) => Some(
                        ParameterV::PathsParam { id: idv, default: d, value: v },
                    ),
                    _ => None,
                }
            } else if tagv == tag_requirements() {
                match (conv_req(dflt), conv_req(val)) {
                    (Some(d), Some(v)) => Some(
                        ParameterV::RequirementsParam { id: idv, default: d, value: v },
                    ),
                    _ => None,
                }
            } else {
                None
            }
        },
        _ => None,
    }
}

/// Members of one parameter object from `i` (just after a non-empty
/// opening brace). `id` and `type` hold strings and `value` and
/// `default` hold shapes; each may appear once; anything else is
/// skipped.
pub open spec fn spec_param_members(
    s: Seq<u8>,
    i: int,
    id: Option<Seq<u8>>,
    tag: Option<Seq<u8>>,
    dflt: Option<ShapeV>,
    val: Option<ShapeV>,
    fuel: nat,
) -> Option<(ParameterV, int)>
    decreases s.len() - i,
{
    match spec_string(s, i) {
        Some(kp) => {
            let c = spec_ws(s, kp.1);
            if c < s.len() && s[c] == 58 {
                let v = spec_ws(s, c + 1);
                if i <= v <= s.len() {
                    let step: Option<
                        (Option<Seq<u8>>, Option<Seq<u8>>, Option<ShapeV>, Option<ShapeV>, int),
                    > = if kp.0 == key_id() {
                        if id is Some {
                            None
                        } else {
                            match spec_string(s, v) {
                                Some(sp) => Some((Some(sp.0), tag, dflt, val, sp.1)),
                                None => None,
                            }
                        }
                    } else if kp.0 == key_type() {
                        if tag is Some {
                            None
                        } else {
                            match spec_string(s, v) {
                                Some(sp) => Some((id, Some(sp.0), dflt, val, sp.1)),
                                None => None,
                            }
                        }
                    } else if kp.0 == key_default() {
                        if dflt is Some {
                            None
                        } else {
                            match spec_shape(s, v, fuel) {
                                Some(sp) => Some((id, tag, Some(sp.0), val, sp.1)),
                                None => None,
                            }
                        }
                    } else if kp.0 == key_value() {
                        if val is Some {
                            None
                        } else {
                            match spec_shape(s, v, fuel) {
                                Some(sp) => Some((id, tag, dflt, Some(sp.0), sp.1)),
                                None => None,
                            }
                        }
                    } else {
                        match spec_skip(s, v, fuel) {
                            Some(j2) => Some((id, tag, dflt, val, j2)),
                            None => None,
                        }
                    };
                    match step {
                        Some(st) => {
                            let a = spec_ws(s, st.4);
                            if a < s.len() && s[a] == 125 {
                                match spec_mk_param(st.0, st.1, st.2, st.3) {
                                    Some(p) => Some((p, a + 1)),
                                    None => None,
                                }
                            } else if a < s.len() && s[a] == 44 {
                                let b2 = spec_ws(s, a + 1);
                                if i < b2 <= s.len() {
                                    spec_param_members(s, b2, st.0, st.1, st.2, st.3, fuel)
                                } else {
                                    None
                                }
                            } else {
                                None
                            }
                        },
                        None => None,
                    }
                } else {
                    None
                }
            } else {
                None
            }
        },
        None => None,
    }
}

/// One parameter object at `i`. An empty object is refused: the id
/// and the tag are required members.
pub open spec fn spec_param_obj(s: Seq<u8>, i: int, fuel: nat) -> Option<(ParameterV, int)> {
    if 0 <= i && i < s.len() && s[i] == 123 {
        let j = spec_ws(s, i + 1);
        if j < s.len() && s[j] == 125 {
            None
        } else {
            spec_param_members(s, j, None, None, None, None, fuel)
        }
    } else {
        None
    }
}

/// Parameter array items from `i` (just after a non-empty opening
/// bracket).
pub open spec fn spec_param_items(s: Seq<u8>, i: int, acc: Seq<ParameterV>, fuel: nat) -> Option<
    (Seq<ParameterV>, int),
>
    decreases s.len() - i,
{
    match spec_param_obj(s, i, fuel) {
        Some(p) => {
            let a = spec_ws(s, p.1);
            if a < s.len() && s[a] == 93 {
                Some((acc.push(p.0), a + 1))
            } else if a < s.len() && s[a] == 44 {
                let b2 = spec_ws(s, a + 1);
                if i < b2 <= s.len() {
                    spec_param_items(s, b2, acc.push(p.0), fuel)
                } else {
                    None
                }
            } else {
                None
            }
        },
        None => None,
    }
}

/// The (possibly empty) parameter array at `i`.
pub open spec fn spec_params(s: Seq<u8>, i: int, fuel: nat) -> Option<(Seq<ParameterV>, int)> {
    if 0 <= i && i < s.len() && s[i] == 91 {
        let j = spec_ws(s, i + 1);
        if j < s.len() && s[j] == 93 {
            Some((Seq::empty(), j + 1))
        } else {
            spec_param_items(s, j, Seq::empty(), fuel)
        }
    } else {
        None
    }
}

/// Members of the top-level object from `i` (just after a non-empty
/// opening brace): `job_id` holds an unsigned 64-bit integer and
/// `parameters` holds the parameter array; each must appear exactly
/// once; anything else is skipped.
pub open spec fn spec_job_members(
    s: Seq<u8>,
    i: int,
    jid: Option<u64>,
    params: Option<Seq<ParameterV>>,
    fuel: nat,
) -> Option<(JobV, int)>
    decreases s.len() - i,
{
    match spec_string(s, i) {
        Some(kp) => {
            let c = spec_ws(s, kp.1);
            if c < s.len() && s[c] == 58 {
                let v = spec_ws(s, c + 1);
                if i <= v <= s.len() {
                    let step: Option<(Option<u64>, Option<Seq<ParameterV>>, int)> = if kp.0
                        == key_job_id() {
                        if jid is Some {
                            None
                        } else {
                            match spec_number(s, v) {
                                Some(np) => match np.0 {
                                    Some(n) => Some((Some(n), params, np.1)),
                                    None => None,
                                },
                                None => None,
                            }
                        }
                    } else if kp.0 == key_parameters() {
                        if params is Some {
                            None
                        } else {
                            match spec_params(s, v, fuel) {
                                Some(pp) => Some((jid, Some(pp.0), pp.1)),
                                None => None,
                            }
                        }
                    } else {
                        match spec_skip(s, v, fuel) {
                            Some(j2) => Some((jid, params, j2)),
                            None => None,
                        }
                    };
                    match step {
                        Some(st) => {
                            let a = spec_ws(s, st.2);
                            if a < s.len() && s[a] == 125 {
                                match (st.0, st.1) {
                                    (Some(n), Some(ps)) => Some(
                                        (JobV { job_id: n, parameters: ps }, a + 1),
                                    ),
                                    _ => None,
                                }
                            } else if a < s.len() && s[a] == 44 {
                                let b2 = spec_ws(s, a + 1);
                                if i < b2 <= s.len() {
                                    spec_job_members(s, b2, st.0, st.1, fuel)
                                } else {
                                    None
                                }
                            } else {
                                None
                            }
                        },
                        None => None,
                    }
                } else {
                    None
                }
            } else {
                None
            }
        },
        None => None,
    }
}

/// The whole message: one top-level object with a `job_id` and a
/// `parameters` member, surrounded by nothing but whitespace. This is
/// the grammar every inbound message is held to; a message on which
/// this function returns nothing is malformed.
pub open spec fn spec_parse_job(s: Seq<u8>) -> Option<JobV> {
    let i = spec_ws(s, 0);
    if i < s.len() && s[i] == 123 {
        let j = spec_ws(s, i + 1);
        if j < s.len() && s[j] == 125 {
            None
        } else {
            match spec_job_members(s, j, None, None, s.len() as nat) {
                Some(p) => {
                    let t = spec_ws(s, p.1);
                    if t == s.len() {
                        Some(p.0)
                    } else {
                        None
                    }
                },
                None => None,
            }
        }
    } else {
        None
    }
}

/// Builds the typed parameter for one finished parameter object.
fn mk_param(id: Vec<u8>, tag: Vec<u8>, dflt: Option<Shape>, val: Option<Shape>) -> (r: Option<
    Parameter,
>)
    ensures
        match r {
            Some(p) => spec_mk_param(Some(id@), Some(tag@), dflt.deep_view(), val.deep_view())
                == Some(p@),
            None => spec_mk_param(Some(id@), Some(tag@), dflt.deep_view(), val.deep_view())
                is None,
        },
{
    if bytes_eq(tag.as_slice(), kb_string()) {
        let d: Option<Vec<u8>> = match dflt {
            None => None,
            Some(Shape::NullShape) => None,
            Some(Shape::StrShape(v)) => Some(v),
            Some(_) => {
                return None;
            },
        };
        let v: Option<Vec<u8>> = match val {
            None => None,
            Some(Shape::NullShape) => None,
            Some(Shape::StrShape(v)) => Some(v),
            Some(_) => {
                return None;
            },
        };
        Some(Parameter::StringParam { id, default: d, value: v })
    } else if bytes_eq(tag.as_slice(), kb_array_of_strings()) || bytes_eq(
        tag.as_slice(),
        kb_paths(),
    ) {
        let d: Option<Vec<Vec<u8>>> = match dflt {
            None => None,
            Some(Shape::NullShape) => None,
            Some(Shape::ListShape(v)) => Some(v),
            Some(_) => {
                return None;
            },
        };
        let v: Option<Vec<Vec<u8>>> = match val {
            None => None,
            Some(Shape::NullShape) => None,
            Some(Shape::ListShape(v)) => Some(v),
            Some(_) => {
                return None;
            },
        };
        Some(Parameter::PathsParam { id, default: d, value: v })
    } else if bytes_eq(tag.as_slice(), kb_requirements()) {
        let d: Option<Requirement> = match dflt {
            None => None,
            Some(Shape::NullShape) => None,
            Some(Shape::ReqShape(p)) => Some(Requirement { paths: p }),
            Some(_) => {
                return None;
            },
        };
        let v: Option<Requirement> = match val {
            None => None,
            Some(Shape::NullShape) => None,
            Some(Shape::ReqShape(p)) => Some(Requirement { paths: p }),
            Some(_) => {
                return None;
            },
        };
        Some(Parameter::RequirementsParam { id, default: d, value: v })
    } else {
        None
    }
}

/// Parses one parameter object at `i`.
fn p_param(s: &[u8], i: usize, fuel: usize) -> (r: Option<(Parameter, usize)>)
    requires
        i <= s.len(),
    ensures
        match r {
            Some(p) => {
                &&& spec_param_obj(s@, i as int, fuel as nat) == Some((p.0@, p.1 as int))
                &&& i < p.1 <= s.len()
            },
            None => spec_param_obj(s@, i as int, fuel as nat) is None,
        },
{
    if !(i < s.len() && s[i] == 123) {
        return None;
    }
    let j0 = skip_ws(s, i + 1);
    if j0 < s.len() && s[j0] == 125 {
        return None;
    }
    let mut id: Option<Vec<u8>> = None;
    let mut tag: Option<Vec<u8>> = None;
    let mut dflt: Option<Shape> = None;
    let mut val: Option<Shape> = None;
    let mut pos: usize = j0;
    loop
        invariant
            i < pos <= s.len(),
            spec_param_obj(s@, i as int, fuel as nat) == spec_param_members(
                s@,
                pos as int,
                id.deep_view(),
                tag.deep_view(),
                dflt.deep_view(),
                val.deep_view(),
                fuel as nat,
            ),
        decreases s.len() - pos,
    {
        match p_string(s, pos) {
            Some(kp) => {
                let c = skip_ws(s, kp.1);
                if !(c < s.len() && s[c] == 58) {
                    return None;
                }
                let v = skip_ws(s, c + 1);
                let j2: usize;
                if bytes_eq(kp.0.as_slice(), kb_id()) {
                    if id.is_some() {
                        return None;
                    }
                    match p_string(s, v) {
                        Some(sp) => {
                            id = Some(sp.0);
                            j2 = sp.1;
                        },
                        None => {
                            return None;
                        },
                    }
                } else if bytes_eq(kp.0.as_slice(), kb_type()) {
                    if tag.is_some() {
                        return None;
                    }
                    match p_string(s, v) {
                        Some(sp) => {
                            tag = Some(sp.0);
                            j2 = sp.1;
                        },
                        None => {
                            return None;
                        },
                    }
                } else if bytes_eq(kp.0.as_slice(), kb_default()) {
                    if dflt.is_some() {
                        return None;
                    }
                    match p_shape(s, v, fuel) {
                        Some(sp) => {
                            dflt = Some(sp.0);
                            j2 = sp.1;
                        },
                        None => {
                            return None;
                        },
                    }
                } else if bytes_eq(kp.0.as_slice(), kb_value()) {
                    if val.is_some() {
                        return None;
                    }
                    match p_shape(s, v, fuel) {
                        Some(sp) => {
                            val = Some(sp.0);
                            j2 = sp.1;
                        },
                        None => {
                            return None;
                        },
                    }
                } else {
                    match skip_value(s, v, fuel) {
                        Some(e) => {
                            j2 = e;
                        },
                        None => {
                            return None;
                        },
                    }
                }
                let a = skip_ws(s, j2);
                if a < s.len() && s[a] == 125 {
                    let idv: Vec<u8> = match id {
                        Some(x) => x,
                        None => {
                            return None;
                        },
                    };
                    let tagv: Vec<u8> = match tag {
                        Some(x) => x,
                        None => {
                            return None;
                        },
                    };
                    match mk_param(idv, tagv, dflt, val) {
                        Some(p) => {
                            return Some((p, a + 1));
                        },
                        None => {
                            return None;
                        },
                    }
                } else if a < s.len() && s[a] == 44 {
                    pos = skip_ws(s, a + 1);
                } else {
                    return None;
                }
            },
            None => {
                return None;
            },
        }
    }
}

/// Parses the (possibly empty) parameter array at `i`.
fn p_params(s: &[u8], i: usize, fuel: usize) -> (r: Option<(Vec<Parameter>, usize)>)
    requires
        i <= s.len(),
    ensures
        match r {
            Some(p) => {
                &&& spec_params(s@, i as int, fuel as nat) == Some((p.0.deep_view(), p.1 as int))
                &&& i < p.1 <= s.len()
            },
            None => spec_params(s@, i as int, fuel as nat) is None,
        },
{
    if !(i < s.len() && s[i] == 91) {
        return None;
    }
    let j0 = skip_ws(s, i + 1);
    if j0 < s.len() && s[j0] == 93 {
        let empty: Vec<Parameter> = Vec::new();
        assert(Seq::<ParameterV>::empty() =~= empty.deep_view());
        return Some((empty, j0 + 1));
    }
    let mut acc: Vec<Parameter> = Vec::new();
    let mut pos: usize = j0;
    proof {
        assert(acc.deep_view() =~= Seq::<ParameterV>::empty());
    }
    loop
        invariant
            i < pos <= s.len(),
            spec_params(s@, i as int, fuel as nat) == spec_param_items(
                s@,
                pos as int,
                acc.deep_view(),
                fuel as nat,
            ),
        decreases s.len() - pos,
    {
        match p_param(s, pos, fuel) {
            Some(p) => {
                let a = skip_ws(s, p.1);
                let ghost acc0 = acc.deep_view();
                acc.push(p.0);
                proof {
                    assert(acc.deep_view() =~~= acc0.push(p.0@));
                }
                if a < s.len() && s[a] == 93 {
                    return Some((acc, a + 1));
                } else if a < s.len() && s[a] == 44 {
                    pos = skip_ws(s, a + 1);
                } else {
                    return None;
                }
            },
            None => {
                return None;
            },
        }
    }
}

/// Parses the whole message against the grammar.
fn p_job(s: &[u8]) -> (r: Option<Job>)
    ensures
        match r {
            Some(job) => spec_parse_job(s@) == Some(job@),
            None => spec_parse_job(s@) is None,
        },
{
    let i = skip_ws(s, 0);
    if !(i < s.len() && s[i] == 123) {
        return None;
    }
    let j0 = skip_ws(s, i + 1);
    if j0 < s.len() && s[j0] == 125 {
        return None;
    }
    let fuel: usize = s.len();
    let mut jid: Option<u64> = None;
    let mut params: Option<Vec<Parameter>> = None;
    let mut pos: usize = j0;
    loop
        invariant
            i < pos <= s.len(),
            spec_parse_job(s@) == (match spec_job_members(
                s@,
                pos as int,
                jid,
                params.deep_view(),
                fuel as nat,
            ) {
                Some(p) => {
                    if spec_ws(s@, p.1) == s@.len() {
                        Some(p.0)
                    } else {
                        None
                    }
                },
                None => None::<JobV>,
            }),
        decreases s.len() - pos,
    {
        match p_string(s, pos) {
            Some(kp) => {
                let c = skip_ws(s, kp.1);
                if !(c < s.len() && s[c] == 58) {
                    return None;
                }
                let v = skip_ws(s, c + 1);
                let j2: usize;
                if bytes_eq(kp.0.as_slice(), kb_job_id()) {
                    if jid.is_some() {
                        return None;
                    }
                    match p_number(s, v) {
                        Some(np) => match np.0 {
                            Some(n) => {
                                jid = Some(n);
                                j2 = np.1;
                            },
                            None => {
                                return None;
                            },
                        },
                        None => {
                            return None;
                        },
                    }
                } else if bytes_eq(kp.0.as_slice(), kb_parameters()) {
                    if params.is_some() {
                        return None;
                    }
                    match p_params(s, v, fuel) {
                        Some(pp) => {
                            params = Some(pp.0);
                            j2 = pp.1;
                        },
                        None => {
                            return None;
                        },
                    }
                } else {
                    match skip_value(s, v, fuel) {
                        Some(e) => {
                            j2 = e;
                        },
                        None => {
                            return None;
                        },
                    }
                }
                let a = skip_ws(s, j2);
                if a < s.len() && s[a] == 125 {
                    let n: u64 = match jid {
                        Some(x) => x,
                        None => {
                            return None;
                        },
                    };
                    let ps: Vec<Parameter> = match params {
                        Some(x) => x,
                        None => {
                            return None;
                        },
                    };
                    let t = skip_ws(s, a + 1);
                    if t == s.len() {
                        return Some(Job { job_id: n, parameters: ps });
                    } else {
                        return None;
                    }
                } else if a < s.len() && s[a] == 44 {
                    pos = skip_ws(s, a + 1);
                } else {
                    return None;
                }
            },
            None => {
                return None;
            },
        }
    }
}

/// Parses an inbound message. All-or-nothing: a text the grammar
/// refuses yields `MalformedInput`, never a partial job.
pub fn parse_message(msg: &str) -> (r: Result<Job, MessageError>)
    ensures
        match r {
            Ok(job) => spec_parse_job(msg.spec_bytes()) == Some(job@),
            Err(e) => {
                &&& e@ == MessageErrorV::MalformedInput
                &&& spec_parse_job(msg.spec_bytes()) is None
            },
        },
{
    match p_job(msg.as_bytes()) {
        Some(job) => Ok(job),
        None => Err(MessageError::MalformedInput),
    }
}

fn esc_byte(b: u8) -> (r: Option<u8>)
    ensures
        r == spec_esc(b),
{
    if b == 34 {
        Some(34)
    } else if b == 92 {
        Some(92)
    } else if b == 47 {
        Some(47)
    } else if b == 98 {
        Some(8)
    } else if b == 102 {
        Some(12)
    } else if b == 110 {
        Some(10)
    } else if b == 114 {
        Some(13)
    } else if b == 116 {
        Some(9)
    } else {
        None
    }
}

} // verus!
