//! Character-level helpers: moving between `&str`, `String` and
//! `Vec<char>`, rendering integers as decimal text, and parsing decimal
//! text back into integers the way the year attribute needs it.

use vstd::prelude::*;
use vstd::string::StrSliceExecFns;

verus! {

/// Decimal digit, `'0'` to `'9'`.
pub open spec fn is_digit_char(c: char) -> bool {
    '0' as u32 <= c as u32 && c as u32 <= '9' as u32
}

/// Numeric value of a decimal digit character.
pub open spec fn digit_val(c: char) -> int {
    c as u32 - '0' as u32
}

/// Value of a digit string read most-significant first. Meaningful only
/// when every character is a digit.
pub open spec fn digits_val(s: Seq<char>) -> int
    decreases s.len(),
{
    if s.len() == 0 {
        0
    } else {
        digits_val(s.drop_last()) * 10 + digit_val(s.last())
    }
}

pub open spec fn all_digits(s: Seq<char>) -> bool {
    forall|i: int| 0 <= i < s.len() ==> is_digit_char(#[trigger] s[i])
}

pub proof fn lemma_digits_val_nonneg(s: Seq<char>)
    requires
        all_digits(s),
    ensures
        digits_val(s) >= 0,
    decreases s.len(),
{
    if s.len() > 0 {
        assert(all_digits(s.drop_last())) by {
            assert(forall|i: int|
                0 <= i < s.len() - 1 ==> is_digit_char(#[trigger] s.drop_last()[i]));
        }
        lemma_digits_val_nonneg(s.drop_last());
        assert(is_digit_char(s.last()));
    }
}

/// Appending digits never shrinks the value.
pub proof fn lemma_digits_val_prefix(s: Seq<char>, n: int)
    requires
        all_digits(s),
        0 <= n <= s.len(),
    ensures
        digits_val(s) >= digits_val(s.take(n)),
    decreases s.len() - n,
{
    if n < s.len() {
        lemma_digits_val_prefix(s, n + 1);
        let t = s.take(n + 1);
        assert(t.drop_last() =~= s.take(n));
        assert(all_digits(t)) by {
            assert(forall|i: int| 0 <= i < t.len() ==> is_digit_char(#[trigger] s[i]));
        }
        lemma_digits_val_nonneg(s.take(n));
        assert(digits_val(t) == digits_val(s.take(n)) * 10 + digit_val(t.last()));
        assert(is_digit_char(s[n]));
    } else {
        assert(s.take(n) =~= s);
    }
}

/// What parsing a decimal integer yields: an optional sign, then at least
/// one digit and nothing else, and a value that fits the target range.
pub open spec fn parse_i32_spec(s: Seq<char>) -> Option<i32> {
    let body = if s.len() > 0 && (s[0] == '-' || s[0] == '+') {
        s.drop_first()
    } else {
        s
    };
    let negative = s.len() > 0 && s[0] == '-';
    if body.len() == 0 || !all_digits(body) {
        None
    } else {
        let v = if negative {
            -digits_val(body)
        } else {
            digits_val(body)
        };
        if i32::MIN <= v <= i32::MAX {
            Some(v as i32)
        } else {
            None
        }
    }
}

/// Parse a whole character vector as a decimal `i32`, accepting exactly
/// what `parse_i32_spec` describes.
pub fn parse_i32_chars(v: &Vec<char>) -> (r: Option<i32>)
    ensures
        r == parse_i32_spec(v@),
{
    let n = v.len();
    if n == 0 {
        return None;
    }
    let first = v[0];
    let negative = first == '-';
    let start: usize = if negative || first == '+' {
        1
    } else {
        0
    };
    let ghost body = if negative || first == '+' {
        v@.drop_first()
    } else {
        v@
    };
    assert(body =~= v@.subrange(start as int, n as int));
    if start == n {
        return None;
    }
    let mut acc: i64 = 0;
    let mut i: usize = start;
    while i < n
        invariant
            start <= i <= n,
            start < n,
            n == v@.len(),
            n > 0,
            negative == (v@[0] == '-'),
            (v@[0] == '-' || v@[0] == '+') ==> start == 1,
            !(v@[0] == '-' || v@[0] == '+') ==> start == 0,
            body == (if v@[0] == '-' || v@[0] == '+' {
                v@.drop_first()
            } else {
                v@
            }),
            body =~= v@.subrange(start as int, n as int),
            all_digits(v@.subrange(start as int, i as int)),
            acc == digits_val(v@.subrange(start as int, i as int)),
            0 <= acc <= 0x8000_0000,
        decreases n - i,
    {
        let c = v[i];
        let cu = c as u32;
        if cu < '0' as u32 || cu > '9' as u32 {
            proof {
                assert(body[i - start] == v@[i as int]);
                assert(!is_digit_char(body[i - start]));
            }
            return None;
        }
        let d = (cu - '0' as u32) as i64;
        acc = acc * 10 + d;
        assert(v@.subrange(start as int, (i + 1) as int).drop_last() =~= v@.subrange(
            start as int,
            i as int,
        ));
        i = i + 1;
        if acc > 0x8000_0000 {
            // The value already exceeds the widest magnitude an i32 can
            // carry, and appending digits cannot bring it back down.
            let ghost pre = v@.subrange(start as int, i as int);
            proof {
                if all_digits(body) {
                    assert(pre =~= body.take(i - start));
                    lemma_digits_val_prefix(body, i - start);
                }
            }
            return None;
        }
    }
    assert(v@.subrange(start as int, i as int) =~= body);
    if negative {
        let r: i64 = -acc;
        assert(i32::MIN <= r <= i32::MAX);
        Some(r as i32)
    } else {
        if acc <= i32::MAX as i64 {
            Some(acc as i32)
        } else {
            None
        }
    }
}

/// The digit character for a value below ten.
pub open spec fn spec_digit_char(d: int) -> char {
    if d == 0 {
        '0'
    } else if d == 1 {
        '1'
    } else if d == 2 {
        '2'
    } else if d == 3 {
        '3'
    } else if d == 4 {
        '4'
    } else if d == 5 {
        '5'
    } else if d == 6 {
        '6'
    } else if d == 7 {
        '7'
    } else if d == 8 {
        '8'
    } else {
        '9'
    }
}

pub fn digit_char(d: u32) -> (c: char)
    requires
        d < 10,
    ensures
        c == spec_digit_char(d as int),
{
    if d == 0 {
        '0'
    } else if d == 1 {
        '1'
    } else if d == 2 {
        '2'
    } else if d == 3 {
        '3'
    } else if d == 4 {
        '4'
    } else if d == 5 {
        '5'
    } else if d == 6 {
        '6'
    } else if d == 7 {
        '7'
    } else if d == 8 {
        '8'
    } else {
        '9'
    }
}

/// Decimal rendering of a non-negative value, most-significant digit
/// first, with no sign and no leading zero except for zero itself.
pub open spec fn spec_u32_chars(n: int) -> Seq<char>
    decreases n,
{
    if n < 10 {
        seq![spec_digit_char(n)]
    } else {
        spec_u32_chars(n / 10).push(spec_digit_char(n % 10))
    }
}

pub fn u32_chars(n: u32) -> (v: Vec<char>)
    ensures
        v@ =~= spec_u32_chars(n as int),
    decreases n,
{
    if n < 10 {
        let mut v: Vec<char> = Vec::new();
        v.push(digit_char(n));
        v
    } else {
        let mut v = u32_chars(n / 10);
        v.push(digit_char(n % 10));
        v
    }
}

/// Decimal rendering of a signed value: a leading minus for negatives,
/// then the digits of the magnitude.
pub open spec fn spec_i32_chars(n: int) -> Seq<char> {
    if n < 0 {
        seq!['-'] + spec_u32_chars(-n)
    } else {
        spec_u32_chars(n)
    }
}

pub fn i32_chars(n: i32) -> (v: Vec<char>)
    ensures
        v@ =~= spec_i32_chars(n as int),
{
    if n < 0 {
        let wide: i64 = n as i64;
        let mag: u32 = (-wide) as u32;
        let digits = u32_chars(mag);
        let mut v: Vec<char> = Vec::new();
        v.push('-');
        let mut i: usize = 0;
        while i < digits.len()
            invariant
                0 <= i <= digits@.len(),
                digits@ =~= spec_u32_chars(-(n as int)),
                v@ =~= seq!['-'] + digits@.take(i as int),
            decreases digits@.len() - i,
        {
            v.push(digits[i]);
            i = i + 1;
        }
        assert(digits@.take(digits@.len() as int) =~= digits@);
        v
    } else {
        u32_chars(n as u32)
    }
}

/// Copy the characters of a string slice into a vector.
pub fn to_chars(s: &str) -> (v: Vec<char>)
    ensures
        v@ =~= s@,
{
    let n = s.unicode_len();
    let mut v: Vec<char> = Vec::new();
    let mut i: usize = 0;
    while i < n
        invariant
            0 <= i <= n,
            n == s@.len(),
            v@ =~= s@.take(i as int),
        decreases n - i,
    {
        v.push(s.get_char(i));
        i = i + 1;
    }
    assert(s@.take(n as int) =~= s@);
    v
}

/// Relies on `Iterator::collect` for `String`: collecting characters
/// yields the string with exactly those characters in order.
#[verifier::external_body]
pub fn string_from_chars(v: &Vec<char>) -> (s: String)
    ensures
        s@ =~= v@,
{
    v.iter().collect()
}

/// Whether a character vector spells the same text as a string slice.
pub fn chars_eq_str(v: &Vec<char>, s: &str) -> (r: bool)
    ensures
        r == (v@ == s@),
{
    let n = s.unicode_len();
    if v.len() != n {
        return false;
    }
    let mut i: usize = 0;
    while i < n
        invariant
            0 <= i <= n,
            n == s@.len(),
            v@.len() == n,
            forall|k: int| 0 <= k < i ==> v@[k] == s@[k],
        decreases n - i,
    {
        if v[i] != s.get_char(i) {
            return false;
        }
        i = i + 1;
    }
    proof {
        assert(v@ =~= s@);
    }
    true
}

} // verus!
