//! Textual building blocks of the structured event payloads: quoted
//! strings with the standard escapes, whitespace-tolerant token
//! matching, and number tokens.
//!
//! A string holds any non-control character except `"` and `\`, the
//! single-character escapes, and `\uXXXX` escapes (astral characters
//! as surrogate pairs); an unescaped control character is malformed.
//! Whitespace may stand between tokens; numbers are an optional minus,
//! a digit run, and an optional fraction.

use vstd::prelude::*;
use crate::numeric::{
    is_digit, is_digit_char, lemma_sp_digits_bounds, lemma_sp_digits_step, sp_digits, sp_u64_at,
    parse_u64_at,
};
use crate::text::{push_char, prepend_char};

verus! {

/// The character an escape code stands for, `None` when the code is
/// not recognised (`u` is handled separately).
pub open spec fn escape_code(c: char) -> Option<char> {
    match c {
        '"' => Some('"'),
        '\\' => Some('\\'),
        '/' => Some('/'),
        'n' => Some('\n'),
        't' => Some('\t'),
        'r' => Some('\r'),
        'b' => Some('\u{8}'),
        'f' => Some('\u{c}'),
        _ => None,
    }
}

/// Decides `escape_code` on one character.
pub fn escape_char(c: char) -> (r: Option<char>)
    ensures
        r == escape_code(c),
{
    match c {
        '"' => Some('"'),
        '\\' => Some('\\'),
        '/' => Some('/'),
        'n' => Some('\n'),
        't' => Some('\t'),
        'r' => Some('\r'),
        'b' => Some('\u{8}'),
        'f' => Some('\u{c}'),
        _ => None,
    }
}

// ---------------------------------------------------------------
// Hex digits and characters from code points
// ---------------------------------------------------------------

pub open spec fn is_hex_digit(c: char) -> bool {
    (48 <= c as u32 && c as u32 <= 57)  // 0-9
    || (97 <= c as u32 && c as u32 <= 102)  // a-f
    || (65 <= c as u32 && c as u32 <= 70)  // A-F
}

pub open spec fn hex_val(c: char) -> int
    recommends
        is_hex_digit(c),
{
    if 48 <= c as u32 && c as u32 <= 57 {
        c as u32 - 48
    } else if 97 <= c as u32 && c as u32 <= 102 {
        c as u32 - 87
    } else {
        c as u32 - 55
    }
}

/// Decides `is_hex_digit`, returning the digit's value.
pub fn hex_digit_val(c: char) -> (r: Option<u32>)
    ensures
        r is Some <==> is_hex_digit(c),
        r matches Some(v) ==> v == hex_val(c),
{
    let u = c as u32;
    if 48 <= u && u <= 57 {
        Some(u - 48)
    } else if 97 <= u && u <= 102 {
        Some(u - 87)
    } else if 65 <= u && u <= 70 {
        Some(u - 55)
    } else {
        None
    }
}

/// Four hex digits stand at `i`.
pub open spec fn has_hex4(s: Seq<char>, i: int) -> bool {
    &&& i + 4 <= s.len()
    &&& is_hex_digit(s[i])
    &&& is_hex_digit(s[i + 1])
    &&& is_hex_digit(s[i + 2])
    &&& is_hex_digit(s[i + 3])
}

/// The value of the four hex digits at `i`.
pub open spec fn hex4_val(s: Seq<char>, i: int) -> int
    recommends
        has_hex4(s, i),
{
    hex_val(s[i]) * 4096 + hex_val(s[i + 1]) * 256 + hex_val(s[i + 2]) * 16 + hex_val(s[i + 3])
}

/// Reads four hex digits at `i`.
pub fn parse_hex4(s: &str, n: usize, i: usize) -> (r: Option<u32>)
    requires
        n == s@.len(),
        i <= n,
    ensures
        r is Some <==> has_hex4(s@, i as int),
        r matches Some(v) ==> v == hex4_val(s@, i as int) && v <= 0xFFFF,
{
    if n - i < 4 {
        return None;
    }
    let d0 = hex_digit_val(s.get_char(i));
    let d1 = hex_digit_val(s.get_char(i + 1));
    let d2 = hex_digit_val(s.get_char(i + 2));
    let d3 = hex_digit_val(s.get_char(i + 3));
    match (d0, d1, d2, d3) {
        (Some(a), Some(b), Some(c), Some(d)) => Some(a * 4096 + b * 256 + c * 16 + d),
        _ => None,
    }
}

/// A Unicode scalar value: what a `char` can hold.
pub open spec fn is_scalar_value(v: int) -> bool {
    (0 <= v && v < 0xD800) || (0xE000 <= v && v <= 0x10FFFF)
}

/// The character with scalar value `v`.
pub open spec fn char_of(v: int) -> char {
    choose|c: char| (#[trigger] (c as u32)) == v
}

/// `char_of` inverts the scalar-value cast.
pub proof fn lemma_char_of_value(c: char)
    ensures
        char_of(c as u32 as int) == c,
{
    assert(c as u32 == c as u32 as int);
    let d = char_of(c as u32 as int);
    assert(d as u32 == c as u32 as int);
    assert(d == c);
}

/// Relies on char::from_u32: it returns a character exactly on Unicode
/// scalar values (not a surrogate, at most 0x10FFFF), and the returned
/// character has that scalar value.
#[verifier::external_body]
fn char_from_u32(v: u32) -> (r: Option<char>)
    ensures
        r is Some <==> is_scalar_value(v as int),
        r matches Some(c) ==> c as u32 == v,
{
    char::from_u32(v)
}

// ---------------------------------------------------------------
// Whitespace and tokens
// ---------------------------------------------------------------

pub open spec fn is_json_ws(c: char) -> bool {
    c == ' ' || c == '\n' || c == '\t' || c == '\r'
}

/// End of the whitespace run that starts at `i`.
pub open spec fn sp_ws(s: Seq<char>, i: int) -> int
    decreases s.len() - i when 0 <= i <= s.len()
{
    if i < s.len() && is_json_ws(s[i]) {
        sp_ws(s, i + 1)
    } else {
        i
    }
}

pub proof fn lemma_sp_ws_step(s: Seq<char>, i: int, k: int)
    requires
        0 <= i <= k <= s.len(),
        forall|m: int| i <= m < k ==> is_json_ws(s[m]),
    ensures
        sp_ws(s, i) == sp_ws(s, k),
    decreases k - i,
{
    if i < k {
        lemma_sp_ws_step(s, i + 1, k);
    }
}

/// Decides `is_json_ws` on one character.
pub fn json_ws_char(c: char) -> (r: bool)
    ensures
        r == is_json_ws(c),
{
    c == ' ' || c == '\n' || c == '\t' || c == '\r'
}

/// Skips the whitespace run that starts at `i`.
pub fn scan_ws(s: &str, n: usize, i: usize) -> (j: usize)
    requires
        n == s@.len(),
        i <= n,
    ensures
        j == sp_ws(s@, i as int),
        i <= j <= n,
{
    let mut j: usize = i;
    while j < n && json_ws_char(s.get_char(j))
        invariant
            n == s@.len(),
            i <= j <= n,
            forall|m: int| i <= m < j ==> is_json_ws(s@[m]),
        decreases n - j,
    {
        j = j + 1;
    }
    proof {
        lemma_sp_ws_step(s@, i as int, j as int);
    }
    j
}

/// Expects the single character `c` after optional whitespace; on
/// success returns the position past it.
pub open spec fn sp_char_tok(s: Seq<char>, i: int, c: char) -> Option<int>
    recommends
        0 <= i <= s.len(),
{
    let k = sp_ws(s, i);
    if k < s.len() && s[k] == c {
        Some(k + 1)
    } else {
        None
    }
}

/// Matches the token character `c` at `i`, skipping whitespace.
pub fn parse_char_tok(s: &str, n: usize, i: usize, c: char) -> (r: Option<usize>)
    requires
        n == s@.len(),
        i <= n,
    ensures
        match r {
            Some(j) => sp_char_tok(s@, i as int, c) == Some(j as int) && i < j <= n,
            None => sp_char_tok(s@, i as int, c) is None,
        },
{
    let k = scan_ws(s, n, i);
    if k < n && s.get_char(k) == c {
        Some(k + 1)
    } else {
        None
    }
}

// ---------------------------------------------------------------
// Quoted strings
// ---------------------------------------------------------------

/// Body of a quoted string read from position `i` up to and past the
/// closing quote: the decoded text and the position after the quote.
/// Recognised escapes are the single-character codes and `\uXXXX`,
/// with astral characters written as surrogate pairs; an unescaped
/// control character or a lone surrogate is malformed.
pub open spec fn sp_str_body(s: Seq<char>, i: int) -> Option<(Seq<char>, int)>
    decreases s.len() - i when 0 <= i <= s.len()
{
    if i >= s.len() {
        None
    } else if s[i] == '"' {
        Some((Seq::empty(), i + 1))
    } else if s[i] == '\\' {
        if i + 1 < s.len() && s[i + 1] == 'u' {
            if has_hex4(s, i + 2) {
                let v = hex4_val(s, i + 2);
                if 0xD800 <= v && v < 0xDC00 {
                    // high surrogate: a low-surrogate escape must follow
                    if i + 12 <= s.len() && s[i + 6] == '\\' && s[i + 7] == 'u' && has_hex4(
                        s,
                        i + 8,
                    ) {
                        let w = hex4_val(s, i + 8);
                        if 0xDC00 <= w && w < 0xE000 {
                            let code = 0x10000 + (v - 0xD800) * 0x400 + (w - 0xDC00);
                            match sp_str_body(s, i + 12) {
                                Some(p) => Some((seq![char_of(code)] + p.0, p.1)),
                                None => None,
                            }
                        } else {
                            None
                        }
                    } else {
                        None
                    }
                } else if 0xDC00 <= v && v < 0xE000 {
                    None
                } else {
                    match sp_str_body(s, i + 6) {
                        Some(p) => Some((seq![char_of(v)] + p.0, p.1)),
                        None => None,
                    }
                }
            } else {
                None
            }
        } else if i + 1 < s.len() {
            match escape_code(s[i + 1]) {
                Some(c) => match sp_str_body(s, i + 2) {
                    Some(p) => Some((seq![c] + p.0, p.1)),
                    None => None,
                },
                None => None,
            }
        } else {
            None
        }
    } else if (s[i] as u32) < 0x20 {
        None
    } else {
        match sp_str_body(s, i + 1) {
            Some(p) => Some((seq![s[i]] + p.0, p.1)),
            None => None,
        }
    }
}

/// A quoted string: optional whitespace, opening quote, body, closing
/// quote.
pub open spec fn sp_string(s: Seq<char>, i: int) -> Option<(Seq<char>, int)>
    recommends
        0 <= i <= s.len(),
{
    let k = sp_ws(s, i);
    if k < s.len() && s[k] == '"' {
        sp_str_body(s, k + 1)
    } else {
        None
    }
}

pub proof fn lemma_sp_str_body_bounds(s: Seq<char>, i: int)
    requires
        0 <= i <= s.len(),
    ensures
        sp_str_body(s, i) matches Some(p) ==> i < p.1 <= s.len(),
    decreases s.len() - i,
{
    if i < s.len() && s[i] != '"' {
        if s[i] == '\\' {
            if i + 1 < s.len() && s[i + 1] == 'u' {
                if i + 6 <= s.len() {
                    lemma_sp_str_body_bounds(s, i + 6);
                }
                if i + 12 <= s.len() {
                    lemma_sp_str_body_bounds(s, i + 12);
                }
            } else if i + 1 < s.len() {
                lemma_sp_str_body_bounds(s, i + 2);
            }
        } else {
            lemma_sp_str_body_bounds(s, i + 1);
        }
    }
}

/// Reads a string body from `i`, returning the decoded text and the
/// position after the closing quote.
pub fn parse_str_body(s: &str, n: usize, i: usize) -> (r: Option<(String, usize)>)
    requires
        n == s@.len(),
        i <= n,
    ensures
        match r {
            Some(p) => sp_str_body(s@, i as int) == Some((p.0@, p.1 as int)) && i < p.1 <= n,
            None => sp_str_body(s@, i as int) is None,
        },
    decreases n - i,
{
    proof {
        lemma_sp_str_body_bounds(s@, i as int);
    }
    if i >= n {
        return None;
    }
    let c = s.get_char(i);
    if c == '"' {
        Some((String::new(), i + 1))
    } else if c == '\\' {
        if i + 1 < n && s.get_char(i + 1) == 'u' {
            match parse_hex4(s, n, i + 2) {
                Some(v) => {
                    if 0xD800 <= v && v < 0xDC00 {
                        if n - i >= 12 && s.get_char(i + 6) == '\\' && s.get_char(i + 7) == 'u' {
                            match parse_hex4(s, n, i + 8) {
                                Some(w) => {
                                    if 0xDC00 <= w && w < 0xE000 {
                                        let code = 0x10000 + (v - 0xD800) * 0x400 + (w - 0xDC00);
                                        match char_from_u32(code) {
                                            Some(d) => {
                                                proof {
                                                    lemma_char_of_value(d);
                                                    assert(code as int == d as u32 as int);
                                                    assert(char_of(code as int) == d);
                                                }
                                                match parse_str_body(s, n, i + 12) {
                                                    Some((mut rest, j)) => {
                                                        prepend_char(&mut rest, d);
                                                        Some((rest, j))
                                                    },
                                                    None => None,
                                                }
                                            },
                                            None => None,
                                        }
                                    } else {
                                        None
                                    }
                                },
                                None => None,
                            }
                        } else {
                            None
                        }
                    } else if 0xDC00 <= v && v < 0xE000 {
                        None
                    } else {
                        match char_from_u32(v) {
                            Some(d) => {
                                proof {
                                    lemma_char_of_value(d);
                                    assert(v as int == d as u32 as int);
                                    assert(char_of(v as int) == d);
                                }
                                match parse_str_body(s, n, i + 6) {
                                    Some((mut rest, j)) => {
                                        prepend_char(&mut rest, d);
                                        Some((rest, j))
                                    },
                                    None => None,
                                }
                            },
                            None => None,
                        }
                    }
                },
                None => None,
            }
        } else if i + 1 < n {
            match escape_char(s.get_char(i + 1)) {
                Some(d) => match parse_str_body(s, n, i + 2) {
                    Some((mut rest, j)) => {
                        prepend_char(&mut rest, d);
                        Some((rest, j))
                    },
                    None => None,
                },
                None => None,
            }
        } else {
            None
        }
    } else if (c as u32) < 0x20 {
        None
    } else {
        match parse_str_body(s, n, i + 1) {
            Some((mut rest, j)) => {
                prepend_char(&mut rest, c);
                Some((rest, j))
            },
            None => None,
        }
    }
}

/// Reads a quoted string at `i`, skipping leading whitespace.
pub fn parse_string(s: &str, n: usize, i: usize) -> (r: Option<(String, usize)>)
    requires
        n == s@.len(),
        i <= n,
    ensures
        match r {
            Some(p) => sp_string(s@, i as int) == Some((p.0@, p.1 as int)) && i < p.1 <= n,
            None => sp_string(s@, i as int) is None,
        },
{
    let k = scan_ws(s, n, i);
    if k < n && s.get_char(k) == '"' {
        parse_str_body(s, n, k + 1)
    } else {
        None
    }
}

// ---------------------------------------------------------------
// Literals and keys
// ---------------------------------------------------------------

/// Expects the exact text `lit` at `i`; on success returns the
/// position after it.
pub open spec fn sp_lit(s: Seq<char>, i: int, lit: Seq<char>) -> Option<int> {
    if 0 <= i && i + lit.len() <= s.len() && s.subrange(i, i + lit.len()) == lit {
        Some(i + lit.len())
    } else {
        None
    }
}

/// Matches the literal `lit` at position `i`, exactly.
pub fn parse_lit(s: &str, n: usize, i: usize, lit: &str) -> (r: Option<usize>)
    requires
        n == s@.len(),
        i <= n,
    ensures
        match r {
            Some(j) => sp_lit(s@, i as int, lit@) == Some(j as int) && i <= j <= n && j - i
                == lit@.len(),
            None => sp_lit(s@, i as int, lit@) is None,
        },
{
    let m = lit.unicode_len();
    if n - i < m {
        return None;
    }
    let mut k: usize = 0;
    while k < m
        invariant
            n == s@.len(),
            m == lit@.len(),
            i + m <= n,
            0 <= k <= m,
            forall|t: int| 0 <= t < k ==> s@[i + t] == lit@[t],
        decreases m - k,
    {
        if s.get_char(i + k) != lit.get_char(k) {
            proof {
                assert(s@.subrange(i as int, i + m) != lit@) by {
                    assert(s@.subrange(i as int, i + m)[k as int] == s@[i + k]);
                }
            }
            return None;
        }
        k = k + 1;
    }
    proof {
        assert(s@.subrange(i as int, i + m) =~= lit@);
    }
    Some(i + m)
}

// ---------------------------------------------------------------
// Numbers
// ---------------------------------------------------------------

/// The integer part of a number token: a lone `0`, or a digit run not
/// led by a zero.  Returns `st` itself when no integer part stands.
pub open spec fn sp_int_part(s: Seq<char>, i: int) -> int
    recommends
        0 <= i <= s.len(),
{
    if i < s.len() && s[i] == '0' {
        i + 1
    } else {
        sp_digits(s, i)
    }
}

/// An optional exponent at `e`: `e` or `E`, an optional sign, a digit
/// run.  `Some(e)` when no exponent stands; `None` when one starts but
/// is cut short.
pub open spec fn sp_exp_part(s: Seq<char>, e: int) -> Option<int>
    recommends
        0 <= e <= s.len(),
{
    if e < s.len() && (s[e] == 'e' || s[e] == 'E') {
        let q = if e + 1 < s.len() && (s[e + 1] == '+' || s[e + 1] == '-') {
            e + 2
        } else {
            e + 1
        };
        let r = sp_digits(s, q);
        if r == q {
            None
        } else {
            Some(r)
        }
    } else {
        Some(e)
    }
}

/// A number token: optional whitespace, then the number grammar of the
/// wire format — optional minus, an integer part without leading
/// zeros, an optional fraction, an optional exponent.  Returns the raw
/// token text (whitespace excluded) and the position after it.
pub open spec fn sp_number(s: Seq<char>, i: int) -> Option<(Seq<char>, int)>
    recommends
        0 <= i <= s.len(),
{
    let w = sp_ws(s, i);
    let st = if w < s.len() && s[w] == '-' { w + 1 } else { w };
    let j = sp_int_part(s, st);
    if j == st {
        None
    } else if j < s.len() && s[j] == '.' {
        let k = sp_digits(s, j + 1);
        if k == j + 1 {
            None
        } else {
            match sp_exp_part(s, k) {
                Some(e) => Some((s.subrange(w, e), e)),
                None => None,
            }
        }
    } else {
        match sp_exp_part(s, j) {
            Some(e) => Some((s.subrange(w, e), e)),
            None => None,
        }
    }
}

/// Skips the digit run that starts at `i`.
fn scan_digits(s: &str, n: usize, i: usize) -> (j: usize)
    requires
        n == s@.len(),
        i <= n,
    ensures
        j == sp_digits(s@, i as int),
        i <= j <= n,
{
    let mut j: usize = i;
    while j < n && is_digit_char(s.get_char(j))
        invariant
            n == s@.len(),
            i <= j <= n,
            forall|m: int| i <= m < j ==> is_digit(s@[m]),
        decreases n - j,
    {
        j = j + 1;
    }
    proof {
        lemma_sp_digits_step(s@, i as int, j as int);
    }
    j
}

/// Reads a number token at `i`, keeping its raw text.
pub fn parse_number(s: &str, n: usize, i: usize) -> (r: Option<(String, usize)>)
    requires
        n == s@.len(),
        i <= n,
    ensures
        match r {
            Some(p) => sp_number(s@, i as int) == Some((p.0@, p.1 as int)) && i < p.1 <= n,
            None => sp_number(s@, i as int) is None,
        },
{
    let w = scan_ws(s, n, i);
    let st = if w < n && s.get_char(w) == '-' { w + 1 } else { w };
    let j = if st < n && s.get_char(st) == '0' {
        st + 1
    } else {
        scan_digits(s, n, st)
    };
    proof {
        lemma_sp_digits_bounds(s@, st as int);
    }
    if j == st {
        return None;
    }
    let e0 = if j < n && s.get_char(j) == '.' {
        let k = scan_digits(s, n, j + 1);
        proof {
            lemma_sp_digits_bounds(s@, j + 1);
        }
        if k == j + 1 {
            return None;
        }
        k
    } else {
        j
    };
    match scan_exp(s, n, e0) {
        Some(e) => {
            let tok = s.substring_char(w, e).to_owned();
            Some((tok, e))
        },
        None => None,
    }
}

/// Skips the optional exponent at `e0`.
fn scan_exp(s: &str, n: usize, e0: usize) -> (r: Option<usize>)
    requires
        n == s@.len(),
        e0 <= n,
    ensures
        match r {
            Some(e) => sp_exp_part(s@, e0 as int) == Some(e as int) && e0 <= e <= n,
            None => sp_exp_part(s@, e0 as int) is None,
        },
{
    if e0 < n && (s.get_char(e0) == 'e' || s.get_char(e0) == 'E') {
        let q = if e0 + 1 < n && (s.get_char(e0 + 1) == '+' || s.get_char(e0 + 1) == '-') {
            e0 + 2
        } else {
            e0 + 1
        };
        let r = scan_digits(s, n, q);
        if r == q {
            None
        } else {
            Some(r)
        }
    } else {
        Some(e0)
    }
}

/// An unsigned 64-bit number token: optional whitespace, then a digit
/// run without a leading zero whose value fits.
pub open spec fn sp_u64_tok(s: Seq<char>, i: int) -> Option<(u64, int)>
    recommends
        0 <= i <= s.len(),
{
    let w = sp_ws(s, i);
    match sp_u64_at(s, w) {
        Some(p) => if w < s.len() && s[w] == '0' && p.1 != w + 1 {
            None
        } else {
            Some(p)
        },
        None => None,
    }
}

/// Reads an unsigned 64-bit number token at `i`.
pub fn parse_u64_tok(s: &str, n: usize, i: usize) -> (r: Option<(u64, usize)>)
    requires
        n == s@.len(),
        i <= n,
    ensures
        match r {
            Some(p) => sp_u64_tok(s@, i as int) == Some((p.0, p.1 as int)) && i < p.1 <= n,
            None => sp_u64_tok(s@, i as int) is None,
        },
{
    let w = scan_ws(s, n, i);
    match parse_u64_at(s, n, w) {
        Some((v, j)) => {
            if s.get_char(w) == '0' && j != w + 1 {
                None
            } else {
                Some((v, j))
            }
        },
        None => None,
    }
}

// ---------------------------------------------------------------
// Skipping unknown values
// ---------------------------------------------------------------

/// Skips one value of any kind — string, object, array, number,
/// `null`, `true` or `false` — returning the position after it.
/// Unknown object members run through this.
pub open spec fn sp_skip_value(s: Seq<char>, i: int) -> Option<int>
    decreases s.len() - i, 0int when 0 <= i <= s.len()
{
    let k = sp_ws(s, i);
    if k < s.len() {
        if s[k] == '"' {
            match sp_str_body(s, k + 1) {
                Some(p) => Some(p.1),
                None => None,
            }
        } else if s[k] == '{' {
            match sp_char_tok(s, k + 1, '}') {
                Some(e) => Some(e),
                None => if i < k + 1 && k + 1 <= s.len() {
                    sp_skip_members(s, k + 1)
                } else {
                    None
                },
            }
        } else if s[k] == '[' {
            match sp_char_tok(s, k + 1, ']') {
                Some(e) => Some(e),
                None => if i < k + 1 && k + 1 <= s.len() {
                    sp_skip_elems(s, k + 1)
                } else {
                    None
                },
            }
        } else if s[k] == 'n' {
            sp_lit(s, k, "null"@)
        } else if s[k] == 't' {
            sp_lit(s, k, "true"@)
        } else if s[k] == 'f' {
            sp_lit(s, k, "false"@)
        } else {
            match sp_number(s, i) {
                Some(p) => Some(p.1),
                None => None,
            }
        }
    } else {
        None
    }
}

/// Skips the members of an object and its closing brace.
pub open spec fn sp_skip_members(s: Seq<char>, i: int) -> Option<int>
    decreases s.len() - i, 1int when 0 <= i <= s.len()
{
    match sp_string(s, i) {
        Some(key) => if i < key.1 <= s.len() {
            match sp_char_tok(s, key.1, ':') {
                Some(c) => if key.1 < c <= s.len() {
                    match sp_skip_value(s, c) {
                        Some(e) => if c <= e <= s.len() {
                            match sp_char_tok(s, e, ',') {
                                Some(j) => if e < j <= s.len() {
                                    sp_skip_members(s, j)
                                } else {
                                    None
                                },
                                None => sp_char_tok(s, e, '}'),
                            }
                        } else {
                            None
                        },
                        None => None,
                    }
                } else {
                    None
                },
                None => None,
            }
        } else {
            None
        },
        None => None,
    }
}

/// Skips the elements of an array and its closing bracket.
pub open spec fn sp_skip_elems(s: Seq<char>, i: int) -> Option<int>
    decreases s.len() - i, 1int when 0 <= i <= s.len()
{
    match sp_skip_value(s, i) {
        Some(e) => if i <= e <= s.len() {
            match sp_char_tok(s, e, ',') {
                Some(j) => if e < j <= s.len() && i < j {
                    sp_skip_elems(s, j)
                } else {
                    None
                },
                None => sp_char_tok(s, e, ']'),
            }
        } else {
            None
        },
        None => None,
    }
}

/// Skips one value at `i`.
pub fn skip_value(s: &str, n: usize, i: usize) -> (r: Option<usize>)
    requires
        n == s@.len(),
        i <= n,
    ensures
        match r {
            Some(e) => sp_skip_value(s@, i as int) == Some(e as int) && i <= e <= n,
            None => sp_skip_value(s@, i as int) is None,
        },
    decreases n - i, 0int,
{
    let k = scan_ws(s, n, i);
    if k < n {
        let c = s.get_char(k);
        if c == '"' {
            match parse_str_body(s, n, k + 1) {
                Some((_, e)) => Some(e),
                None => None,
            }
        } else if c == '{' {
            match parse_char_tok(s, n, k + 1, '}') {
                Some(e) => Some(e),
                None => skip_members(s, n, k + 1),
            }
        } else if c == '[' {
            match parse_char_tok(s, n, k + 1, ']') {
                Some(e) => Some(e),
                None => skip_elems(s, n, k + 1),
            }
        } else if c == 'n' {
            parse_lit(s, n, k, "null")
        } else if c == 't' {
            parse_lit(s, n, k, "true")
        } else if c == 'f' {
            parse_lit(s, n, k, "false")
        } else {
            match parse_number(s, n, i) {
                Some((_, e)) => Some(e),
                None => None,
            }
        }
    } else {
        None
    }
}

/// Skips object members and the closing brace at `i`.
fn skip_members(s: &str, n: usize, i: usize) -> (r: Option<usize>)
    requires
        n == s@.len(),
        i <= n,
    ensures
        match r {
            Some(e) => sp_skip_members(s@, i as int) == Some(e as int) && i <= e <= n,
            None => sp_skip_members(s@, i as int) is None,
        },
    decreases n - i, 1int,
{
    match parse_string(s, n, i) {
        Some((_, kpos)) => match parse_char_tok(s, n, kpos, ':') {
            Some(c) => match skip_value(s, n, c) {
                Some(e) => match parse_char_tok(s, n, e, ',') {
                    Some(j) => skip_members(s, n, j),
                    None => parse_char_tok(s, n, e, '}'),
                },
                None => None,
            },
            None => None,
        },
        None => None,
    }
}

/// Skips array elements and the closing bracket at `i`.
fn skip_elems(s: &str, n: usize, i: usize) -> (r: Option<usize>)
    requires
        n == s@.len(),
        i <= n,
    ensures
        match r {
            Some(e) => sp_skip_elems(s@, i as int) == Some(e as int) && i <= e <= n,
            None => sp_skip_elems(s@, i as int) is None,
        },
    decreases n - i, 1int,
{
    match skip_value(s, n, i) {
        Some(e) => match parse_char_tok(s, n, e, ',') {
            Some(j) => skip_elems(s, n, j),
            None => parse_char_tok(s, n, e, ']'),
        },
        None => None,
    }
}

/// Compares two strings' text.
pub fn str_eq(a: &str, b: &str) -> (r: bool)
    ensures
        r == (a@ == b@),
{
    let na = a.unicode_len();
    let nb = b.unicode_len();
    if na != nb {
        return false;
    }
    let mut k: usize = 0;
    while k < na
        invariant
            na == a@.len(),
            na == b@.len(),
            0 <= k <= na,
            forall|t: int| 0 <= t < k ==> a@[t] == b@[t],
        decreases na - k,
    {
        if a.get_char(k) != b.get_char(k) {
            return false;
        }
        k = k + 1;
    }
    proof {
        assert(a@ =~= b@);
    }
    true
}

// ---------------------------------------------------------------
// Escaping
// ---------------------------------------------------------------

/// The lowercase hex digit for a value below sixteen.
pub open spec fn hex_digit_char(d: int) -> char
    recommends
        0 <= d < 16,
{
    if d < 10 {
        ((d + 48) as u8) as char
    } else {
        ((d + 87) as u8) as char
    }
}

/// How one character stands inside a quoted string: `"` and `\` and
/// the common control characters get their short escapes, any other
/// control character a `\u00XX` escape, everything else stands as it
/// is.
pub open spec fn escape_one(c: char) -> Seq<char> {
    if c == '"' {
        seq!['\\', '"']
    } else if c == '\\' {
        seq!['\\', '\\']
    } else if c == '\n' {
        seq!['\\', 'n']
    } else if c == '\t' {
        seq!['\\', 't']
    } else if c == '\r' {
        seq!['\\', 'r']
    } else if c as u32 == 8 {
        seq!['\\', 'b']
    } else if c as u32 == 12 {
        seq!['\\', 'f']
    } else if (c as u32) < 0x20 {
        seq!['\\', 'u', '0', '0', hex_digit_char(c as u32 as int / 16), hex_digit_char(
            c as u32 as int % 16,
        )]
    } else {
        seq![c]
    }
}

/// Text escaped so it can stand inside a quoted string.
pub open spec fn escape_of(s: Seq<char>) -> Seq<char>
    decreases s.len(),
{
    if s.len() == 0 {
        Seq::empty()
    } else {
        escape_of(s.drop_last()) + escape_one(s.last())
    }
}

/// Writes the lowercase hex digit for a value below sixteen.
fn hex_digit_of(d: u32) -> (r: char)
    requires
        d < 16,
    ensures
        r == hex_digit_char(d as int),
{
    if d < 10 {
        (d as u8 + 48) as char
    } else {
        (d as u8 + 87) as char
    }
}

/// Escapes text so it can stand inside a quoted string.
pub fn escape_text(s: &str) -> (r: String)
    ensures
        r@ == escape_of(s@),
{
    let n = s.unicode_len();
    let mut out = String::new();
    let mut i: usize = 0;
    while i < n
        invariant
            n == s@.len(),
            0 <= i <= n,
            out@ == escape_of(s@.subrange(0, i as int)),
        decreases n - i,
    {
        let c = s.get_char(i);
        let u = c as u32;
        if c == '"' || c == '\\' {
            push_char(&mut out, '\\');
            push_char(&mut out, c);
        } else if c == '\n' {
            push_char(&mut out, '\\');
            push_char(&mut out, 'n');
        } else if c == '\t' {
            push_char(&mut out, '\\');
            push_char(&mut out, 't');
        } else if c == '\r' {
            push_char(&mut out, '\\');
            push_char(&mut out, 'r');
        } else if u == 8 {
            push_char(&mut out, '\\');
            push_char(&mut out, 'b');
        } else if u == 12 {
            push_char(&mut out, '\\');
            push_char(&mut out, 'f');
        } else if u < 0x20 {
            push_char(&mut out, '\\');
            push_char(&mut out, 'u');
            push_char(&mut out, '0');
            push_char(&mut out, '0');
            push_char(&mut out, hex_digit_of(u / 16));
            push_char(&mut out, hex_digit_of(u % 16));
        } else {
            push_char(&mut out, c);
        }
        proof {
            let pre = s@.subrange(0, i as int);
            let cur = s@.subrange(0, i + 1);
            assert(cur.drop_last() =~= pre);
            assert(out@ =~= escape_of(pre) + escape_one(s@[i as int]));
        }
        i = i + 1;
    }
    proof {
        assert(s@.subrange(0, n as int) =~= s@);
    }
    out
}

/// Text without quotes, backslashes or control characters stands
/// unchanged inside a quoted string.
pub proof fn lemma_escape_of_plain(k: Seq<char>)
    requires
        forall|t: int| 0 <= t < k.len() ==> k[t] != '"' && k[t] != '\\' && (k[t] as u32) >= 0x20,
    ensures
        escape_of(k) == k,
    decreases k.len(),
{
    if k.len() > 0 {
        assert forall|t: int| 0 <= t < k.drop_last().len() implies k.drop_last()[t] != '"'
            && k.drop_last()[t] != '\\' && (k.drop_last()[t] as u32) >= 0x20 by {
            assert(k.drop_last()[t] == k[t]);
        }
        lemma_escape_of_plain(k.drop_last());
        assert(escape_one(k.last()) =~= seq![k.last()]);
        assert(escape_of(k) =~= k);
    }
}

pub proof fn lemma_escape_of_add(a: Seq<char>, b: Seq<char>)
    ensures
        escape_of(a + b) == escape_of(a) + escape_of(b),
    decreases b.len(),
{
    if b.len() == 0 {
        assert(a + b =~= a);
        assert(escape_of(a) + escape_of(b) =~= escape_of(a));
    } else {
        assert((a + b).drop_last() =~= a + b.drop_last());
        assert((a + b).last() == b.last());
        lemma_escape_of_add(a, b.drop_last());
        assert(escape_of(a) + escape_of(b) =~= (escape_of(a) + escape_of(b.drop_last()))
            + escape_one(b.last()));
    }
}

/// Reading a string body over escaped text recovers the text: where
/// `escape_of(k)` stands at `i` and a quote closes it, the body parse
/// yields exactly `k`.
#[verifier::rlimit(60)]
pub proof fn lemma_str_body_of_escaped(s: Seq<char>, i: int, k: Seq<char>)
    requires
        0 <= i,
        i + escape_of(k).len() + 1 <= s.len(),
        s.subrange(i, i + escape_of(k).len()) == escape_of(k),
        s[i + escape_of(k).len()] == '"',
    ensures
        sp_str_body(s, i) == Some((k, i + escape_of(k).len() + 1)),
    decreases k.len(),
{
    if k.len() == 0 {
        assert(escape_of(k).len() == 0);
        assert(s[i] == '"');
        assert(sp_str_body(s, i) == Some((Seq::<char>::empty(), i + 1)));
        assert(Seq::<char>::empty() =~= k);
    } else {
        let c = k[0];
        let rest = k.subrange(1, k.len() as int);
        assert(k =~= seq![c] + rest);
        lemma_escape_of_add(seq![c], rest);
        assert(escape_of(seq![c]) =~= escape_one(c)) by {
            assert(seq![c].drop_last() =~= Seq::<char>::empty());
            assert(escape_of(Seq::<char>::empty()) =~= Seq::<char>::empty());
            assert(Seq::<char>::empty() + escape_one(c) =~= escape_one(c));
        }
        let el = escape_one(c).len();
        let er = escape_of(rest).len();
        assert(escape_of(k).len() == el + er);
        assert forall|t: int| 0 <= t < el implies s[i + t] == escape_one(c)[t] by {
            assert(s.subrange(i, i + el + er)[t] == s[i + t]);
            assert((escape_one(c) + escape_of(rest))[t] == escape_one(c)[t]);
        }
        assert(s.subrange(i + el, i + el + er) =~= escape_of(rest)) by {
            assert forall|t: int| 0 <= t < er implies s.subrange(i + el, i + el + er)[t]
                == escape_of(rest)[t] by {
                assert(s.subrange(i, i + el + er)[el + t] == s[i + el + t]);
                assert((escape_one(c) + escape_of(rest))[el + t] == escape_of(rest)[t]);
            }
        }
        lemma_str_body_of_escaped(s, i + el, rest);
        let u = c as u32 as int;
        if c == '"' || c == '\\' || c == '\n' || c == '\t' || c == '\r' || u == 8 || u == 12 {
            // a two-character escape: backslash plus its code
            assert(s[i] == escape_one(c)[0]);
            assert(s[i + 1] == escape_one(c)[1]);
            assert(s[i] == '\\');
            if u == 8 {
                assert(escape_one(c) =~= seq!['\\', 'b']);
                assert(s[i + 1] == 'b');
                lemma_char_of_value(c);
                lemma_char_of_value('\u{8}');
                assert('\u{8}' as u32 == 8);
                assert(char_of(8) == c && char_of(8) == '\u{8}');
                assert('\u{8}' == c);
                assert(escape_code(s[i + 1]) == Some(c));
            } else if u == 12 {
                assert(escape_one(c) =~= seq!['\\', 'f']);
                assert(s[i + 1] == 'f');
                lemma_char_of_value(c);
                lemma_char_of_value('\u{c}');
                assert('\u{c}' as u32 == 12);
                assert(char_of(12) == c && char_of(12) == '\u{c}');
                assert('\u{c}' == c);
                assert(escape_code(s[i + 1]) == Some(c));
            } else {
                assert(escape_code(s[i + 1]) == Some(c));
            }
            assert(seq![c] + rest =~= k);
        } else if u < 0x20 {
            // a \u00XX escape of a rarer control character
            assert(s[i] == escape_one(c)[0]);
            assert(s[i + 1] == escape_one(c)[1]);
            assert(s[i + 2] == escape_one(c)[2]);
            assert(s[i + 3] == escape_one(c)[3]);
            assert(s[i + 4] == escape_one(c)[4]);
            assert(s[i + 5] == escape_one(c)[5]);
            assert(s[i] == '\\');
            assert(s[i + 1] == 'u');
            assert(s[i + 2] == '0');
            assert(s[i + 3] == '0');
            assert(s[i + 4] == hex_digit_char(u / 16));
            assert(s[i + 5] == hex_digit_char(u % 16));
            lemma_hex_digit_char_val(u / 16);
            lemma_hex_digit_char_val(u % 16);
            assert(hex4_val(s, i + 2) == (u / 16) * 16 + u % 16);
            assert((u / 16) * 16 + u % 16 == u);
            assert(!(0xD800 <= u && u < 0xE000));
            lemma_char_of_value(c);
            assert(char_of(u) == c);
            assert(seq![c] + rest =~= k);
        } else {
            assert(s[i] == escape_one(c)[0]);
            assert(s[i] == c);
            assert(c != '"' && c != '\\');
            assert(seq![c] + rest =~= k);
        }
    }
}

pub proof fn lemma_hex_digit_char_val(d: int)
    requires
        0 <= d < 16,
    ensures
        is_hex_digit(hex_digit_char(d)),
        hex_val(hex_digit_char(d)) == d,
{
}

} // verus!
