//! Decimal text: reading unsigned 64-bit values from digit runs and
//! writing them back, with exact character-level specifications.

use vstd::prelude::*;
use crate::text::push_char;

verus! {

pub open spec fn is_digit(c: char) -> bool {
    48 <= c as u32 && c as u32 <= 57
}

pub open spec fn digit_val(c: char) -> nat
    recommends
        is_digit(c),
{
    (c as u32 - 48) as nat
}

/// Numeric value of a digit string, most significant digit first.
pub open spec fn dec_value(s: Seq<char>) -> nat
    decreases s.len(),
{
    if s.len() == 0 {
        0
    } else {
        dec_value(s.drop_last()) * 10 + digit_val(s.last())
    }
}

pub open spec fn all_digits(s: Seq<char>) -> bool {
    forall|i: int| 0 <= i < s.len() ==> is_digit(s[i])
}

/// End of the digit run that starts at `i`.
pub open spec fn sp_digits(s: Seq<char>, i: int) -> int
    decreases s.len() - i when 0 <= i <= s.len()
{
    if i < s.len() && is_digit(s[i]) {
        sp_digits(s, i + 1)
    } else {
        i
    }
}

pub proof fn lemma_sp_digits_bounds(s: Seq<char>, i: int)
    requires
        0 <= i <= s.len(),
    ensures
        i <= sp_digits(s, i) <= s.len(),
        all_digits(s.subrange(i, sp_digits(s, i))),
        sp_digits(s, i) < s.len() ==> !is_digit(s[sp_digits(s, i)]),
    decreases s.len() - i,
{
    if i < s.len() && is_digit(s[i]) {
        lemma_sp_digits_bounds(s, i + 1);
        let j = sp_digits(s, i);
        assert forall|k: int| i <= k < j implies is_digit(s[k]) by {
            if k > i {
                assert(is_digit(s.subrange(i + 1, j)[k - i - 1]));
            }
        }
        assert(all_digits(s.subrange(i, j))) by {
            assert forall|k: int| 0 <= k < j - i implies is_digit(s.subrange(i, j)[k]) by {
                assert(s.subrange(i, j)[k] == s[i + k]);
            }
        }
    }
}

/// A digit run that stays still is exhausted: `sp_digits` is a fixpoint
/// past any prefix of the run.
pub proof fn lemma_sp_digits_step(s: Seq<char>, i: int, k: int)
    requires
        0 <= i <= k <= s.len(),
        forall|m: int| i <= m < k ==> is_digit(s[m]),
    ensures
        sp_digits(s, i) == sp_digits(s, k),
    decreases k - i,
{
    if i < k {
        lemma_sp_digits_step(s, i + 1, k);
    }
}

/// Appending one digit multiplies the value by ten.
pub proof fn lemma_dec_value_snoc(s: Seq<char>, c: char)
    ensures
        dec_value(s.push(c)) == dec_value(s) * 10 + digit_val(c),
{
    assert(s.push(c).drop_last() =~= s);
    assert(s.push(c).last() == c);
}

/// The value of a digit string is no less than the value of any prefix.
pub proof fn lemma_dec_value_prefix_le(s: Seq<char>, k: int)
    requires
        0 <= k <= s.len(),
        all_digits(s),
    ensures
        dec_value(s.subrange(0, k)) <= dec_value(s),
    decreases s.len() - k,
{
    if k < s.len() {
        let p = s.subrange(0, k);
        let q = s.subrange(0, k + 1);
        assert(q =~= p.push(s[k]));
        lemma_dec_value_snoc(p, s[k]);
        assert(dec_value(p) <= dec_value(p) * 10 + digit_val(s[k])) by (nonlinear_arith)
            requires dec_value(p) >= 0, digit_val(s[k]) >= 0;
        lemma_dec_value_prefix_le(s, k + 1);
    } else {
        assert(s.subrange(0, k) =~= s);
    }
}

/// The digit run at `i`, read as a `u64`; `None` when the run is empty
/// or its value does not fit.
pub open spec fn sp_u64_at(s: Seq<char>, i: int) -> Option<(u64, int)> {
    let j = sp_digits(s, i);
    if j > i && dec_value(s.subrange(i, j)) <= u64::MAX {
        Some((dec_value(s.subrange(i, j)) as u64, j))
    } else {
        None
    }
}

/// The whole string as a `u64`: a non-empty all-digit string whose
/// value fits in 64 bits.
pub open spec fn parse_u64_spec(s: Seq<char>) -> Option<u64> {
    if s.len() > 0 && all_digits(s) && dec_value(s) <= u64::MAX {
        Some(dec_value(s) as u64)
    } else {
        None
    }
}

/// Reads the digit run starting at `i` as a `u64`.
pub fn parse_u64_at(s: &str, n: usize, i: usize) -> (r: Option<(u64, usize)>)
    requires
        n == s@.len(),
        i <= n,
    ensures
        match r {
            Some(p) => sp_u64_at(s@, i as int) == Some((p.0, p.1 as int)) && i < p.1 <= n,
            None => sp_u64_at(s@, i as int) is None,
        },
{
    let mut j: usize = i;
    while j < n && is_digit_char(s.get_char(j))
        invariant
            n == s@.len(),
            i <= j <= n,
            forall|m: int| i <= m < j ==> is_digit(s@[m]),
        decreases n - j,
    {
        j = j + 1;
    }
    proof {
        lemma_sp_digits_step(s@, i as int, j as int);
        lemma_sp_digits_bounds(s@, i as int);
        assert(sp_digits(s@, i as int) == j);
    }
    if j == i {
        return None;
    }
    let ghost run = s@.subrange(i as int, j as int);
    let mut k: usize = i;
    let mut acc: u64 = 0;
    while k < j
        invariant
            n == s@.len(),
            i <= k <= j <= n,
            forall|m: int| i <= m < j ==> is_digit(s@[m]),
            run == s@.subrange(i as int, j as int),
            sp_digits(s@, i as int) == j,
            all_digits(run),
            acc == dec_value(s@.subrange(i as int, k as int)),
        decreases j - k,
    {
        let c = s.get_char(k);
        let u = c as u32;
        let d = (u - 48) as u64;
        proof {
            assert(s@.subrange(i as int, k + 1) =~= s@.subrange(i as int, k as int).push(s@[k as int]));
            lemma_dec_value_snoc(s@.subrange(i as int, k as int), s@[k as int]);
        }
        if acc > (u64::MAX - d) / 10 {
            // the run overflows a u64: its full value only grows further
            proof {
                let pre = s@.subrange(i as int, k as int);
                assert(dec_value(pre) * 10 + digit_val(s@[k as int]) > u64::MAX) by (nonlinear_arith)
                    requires
                        dec_value(pre) == acc,
                        digit_val(s@[k as int]) == d,
                        acc > (u64::MAX - d) / 10,
                        d <= u64::MAX,
                        acc >= 0;
                assert(s@.subrange(i as int, k + 1) =~= run.subrange(0, k + 1 - i));
                lemma_dec_value_prefix_le(run, k + 1 - i);
            }
            return None;
        }
        proof {
            let pre = s@.subrange(i as int, k as int);
            assert(dec_value(pre) * 10 + digit_val(s@[k as int]) <= u64::MAX) by (nonlinear_arith)
                requires
                    dec_value(pre) == acc,
                    digit_val(s@[k as int]) == d,
                    acc <= (u64::MAX - d) / 10,
                    d <= u64::MAX,
                    acc >= 0;
        }
        acc = acc * 10 + d;
        k = k + 1;
    }
    Some((acc, j))
}

/// Decides `is_digit` on one character.
pub fn is_digit_char(c: char) -> (r: bool)
    ensures
        r == is_digit(c),
{
    let u = c as u32;
    48 <= u && u <= 57
}

/// Reads a whole string as a decimal `u64`.
pub fn parse_u64_str(s: &str) -> (r: Option<u64>)
    ensures
        r == parse_u64_spec(s@),
{
    let n = s.unicode_len();
    match parse_u64_at(s, n, 0) {
        Some((v, j)) => {
            if j == n {
                proof {
                    assert(s@.subrange(0, n as int) =~= s@);
                    lemma_sp_digits_bounds(s@, 0);
                }
                Some(v)
            } else {
                // a non-digit follows the run, so the string is not all digits
                proof {
                    lemma_sp_digits_bounds(s@, 0);
                }
                None
            }
        },
        None => {
            proof {
                lemma_sp_digits_bounds(s@, 0);
                if s@.len() > 0 && all_digits(s@) {
                    lemma_sp_digits_step(s@, 0, s@.len() as int);
                    assert(s@.subrange(0, s@.len() as int) =~= s@);
                }
            }
            None
        },
    }
}

/// Decimal text of `n`, most significant digit first, no sign and no
/// leading zeros.
pub open spec fn dec_str_of(n: nat) -> Seq<char>
    decreases n,
{
    if n < 10 {
        seq![((n + 48) as u8) as char]
    } else {
        dec_str_of(n / 10).push(((n % 10 + 48) as u8) as char)
    }
}

/// The last `width` decimal digits of `n`, zero padded on the left.
pub open spec fn pad_str_of(n: nat, width: nat) -> Seq<char>
    decreases width,
{
    if width == 0 {
        Seq::empty()
    } else {
        pad_str_of(n / 10, (width - 1) as nat).push(((n % 10 + 48) as u8) as char)
    }
}

/// Writes `n` in decimal.
pub fn u64_to_string(n: u64) -> (r: String)
    ensures
        r@ == dec_str_of(n as nat),
    decreases n,
{
    if n < 10 {
        let mut s = String::new();
        push_char(&mut s, (n as u8 + 48) as char);
        s
    } else {
        let mut s = u64_to_string(n / 10);
        push_char(&mut s, ((n % 10) as u8 + 48) as char);
        s
    }
}

/// Writes the last `width` decimal digits of `n`, zero padded.
pub fn u64_to_padded_string(n: u64, width: usize) -> (r: String)
    ensures
        r@ == pad_str_of(n as nat, width as nat),
    decreases width,
{
    if width == 0 {
        String::new()
    } else {
        let mut s = u64_to_padded_string(n / 10, width - 1);
        push_char(&mut s, ((n % 10) as u8 + 48) as char);
        s
    }
}

} // verus!
