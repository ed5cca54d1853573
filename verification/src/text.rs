//! Character-level text utilities: extracting characters from strings,
//! comparing strings, and the trusted bridges to Unicode case folding and
//! whitespace classification.

use vstd::prelude::*;
use vstd::string::*;

verus! {

/// The Unicode lowercase folding of a string, as computed by
/// `str::to_lowercase`. The folding depends on the characters alone.
pub uninterp spec fn lower_of(s: Seq<char>) -> Seq<char>;

/// Whether a character has the Unicode white-space property, as decided by
/// `char::is_whitespace`. The answer depends on the character alone.
pub uninterp spec fn is_space(c: char) -> bool;

/// Relies on `str::to_lowercase`: the result is the Unicode lowercase
/// folding of the input, a function of the input characters alone.
#[verifier::external_body]
pub fn lowercase(s: &str) -> (r: String)
    ensures
        r@ == lower_of(s@),
        s@.len() == 0 ==> r@.len() == 0,
{
    s.to_lowercase()
}

/// Relies on `char::is_whitespace`: true exactly for characters with the
/// Unicode white-space property.
#[verifier::external_body]
pub fn char_is_space(c: char) -> (r: bool)
    ensures
        r == is_space(c),
{
    c.is_whitespace()
}

/// Relies on `String`'s `FromIterator<char>` impl (via `Iterator::collect`):
/// collecting characters yields the string with exactly those characters.
#[verifier::external_body]
pub fn chars_to_string(v: &Vec<char>) -> (s: String)
    ensures
        s@ == v@,
{
    v.iter().collect()
}

/// Collects the characters of a string into a vector, in order.
pub fn chars_of(s: &str) -> (r: Vec<char>)
    ensures
        r@ == s@,
{
    let n = s.unicode_len();
    let mut r: Vec<char> = Vec::new();
    let mut i: usize = 0;
    while i < n
        invariant
            i <= n,
            n == s@.len(),
            r@ == s@.subrange(0, i as int),
        decreases n - i,
    {
        r.push(s.get_char(i));
        proof {
            assert(s@.subrange(0, i + 1) =~= s@.subrange(0, i as int).push(s@[i as int]));
        }
        i = i + 1;
    }
    proof {
        assert(s@.subrange(0, n as int) =~= s@);
    }
    r
}

/// Whether a character is an ASCII decimal digit.
pub open spec fn is_digit(c: char) -> bool {
    48 <= c as u32 <= 57
}

/// The numeric value of an ASCII decimal digit.
pub open spec fn digit_val(c: char) -> int {
    c as u32 - 48
}

/// Whether every character of the sequence is an ASCII decimal digit.
pub open spec fn all_digits(s: Seq<char>) -> bool {
    forall|i: int| 0 <= i < s.len() ==> is_digit(s[i])
}

/// The value of a sequence of decimal digits, most significant first.
pub open spec fn digits_val(s: Seq<char>) -> int
    decreases s.len(),
{
    if s.len() == 0 {
        0
    } else {
        digits_val(s.drop_last()) * 10 + digit_val(s.last())
    }
}

/// The digit sequence of a signed decimal numeral: everything after an
/// optional leading `+` or `-`.
pub open spec fn numeral_body(s: Seq<char>) -> Seq<char> {
    if s.len() > 0 && (s[0] == '+' || s[0] == '-') {
        s.subrange(1, s.len() as int)
    } else {
        s
    }
}

/// Whether the numeral carries a leading minus sign.
pub open spec fn numeral_negative(s: Seq<char>) -> bool {
    s.len() > 0 && s[0] == '-'
}

/// The signed value denoted by a decimal numeral.
pub open spec fn numeral_value(s: Seq<char>) -> int {
    if numeral_negative(s) {
        -digits_val(numeral_body(s))
    } else {
        digits_val(numeral_body(s))
    }
}

/// Whether the string is a decimal numeral that `i32` accepts: an optional
/// sign, one or more ASCII digits, and a value within the `i32` range.
pub open spec fn is_i32_numeral(s: Seq<char>) -> bool {
    &&& numeral_body(s).len() > 0
    &&& all_digits(numeral_body(s))
    &&& i32::MIN <= numeral_value(s) <= i32::MAX
}

/// A digit string has a non-negative value.
proof fn lemma_digits_val_nonneg(s: Seq<char>)
    requires
        all_digits(s),
    ensures
        digits_val(s) >= 0,
    decreases s.len(),
{
    if s.len() > 0 {
        lemma_digits_val_nonneg(s.drop_last());
    }
}

/// Extending a digit string never decreases its value.
proof fn lemma_digits_val_prefix(s: Seq<char>, k: int)
    requires
        all_digits(s),
        0 <= k <= s.len(),
    ensures
        digits_val(s.subrange(0, k)) <= digits_val(s),
    decreases s.len() - k,
{
    if k == s.len() {
        assert(s.subrange(0, k) =~= s);
    } else {
        lemma_digits_val_nonneg(s.subrange(0, k));
        assert(s.subrange(0, k + 1).drop_last() =~= s.subrange(0, k));
        assert(s.subrange(0, k + 1).last() == s[k]);
        lemma_digits_val_prefix(s, k + 1);
    }
}

/// Parses a signed decimal numeral exactly as `i32::from_str` does: an
/// optional sign, one or more ASCII digits, and a value within range.
pub fn parse_i32(s: &Vec<char>) -> (r: Option<i32>)
    ensures
        r is Some <==> is_i32_numeral(s@),
        r is Some ==> r->Some_0 == numeral_value(s@),
{
    let n = s.len();
    let mut start: usize = 0;
    let mut neg = false;
    if n > 0 && (s[0] == '+' || s[0] == '-') {
        neg = s[0] == '-';
        start = 1;
    }
    let ghost body = numeral_body(s@);
    proof {
        assert(body =~= s@.subrange(start as int, n as int));
        assert(neg == numeral_negative(s@));
    }
    if start == n {
        return None;
    }
    let mut acc: u64 = 0;
    let mut i: usize = start;
    while i < n
        invariant
            start <= i <= n,
            n == s@.len(),
            start < n,
            body == numeral_body(s@),
            neg == numeral_negative(s@),
            body == s@.subrange(start as int, n as int),
            acc == digits_val(body.subrange(0, i - start)),
            acc <= 2147483648,
            all_digits(body.subrange(0, i - start)),
        decreases n - i,
    {
        let u = s[i] as u32;
        if u < 48 || u > 57 {
            proof {
                assert(body[i - start] == s@[i as int]);
                assert(!is_digit(body[i - start]));
            }
            return None;
        }
        let d = (u - 48) as u64;
        proof {
            assert(body.subrange(0, i + 1 - start).drop_last() =~= body.subrange(0, i - start));
            assert(body.subrange(0, i + 1 - start).last() == s@[i as int]);
        }
        acc = acc * 10 + d;
        i = i + 1;
        if acc > 2147483648 {
            proof {
                if all_digits(body) {
                    lemma_digits_val_prefix(body, i - start);
                }
            }
            return None;
        }
    }
    proof {
        assert(body.subrange(0, n - start) =~= body);
    }
    if neg {
        proof {
            assert(numeral_value(s@) == -(acc as int));
        }
        Some((-(acc as i64)) as i32)
    } else {
        if acc > 2147483647 {
            return None;
        }
        Some(acc as i32)
    }
}

/// The decimal digit character for a value below ten.
pub open spec fn dec_digit(d: int) -> char {
    if d == 0 {
        '0'
    } else if d == 1 {
        '1'
    } else if d == 2 {
        '2'
    } else if d == 3 {
        '3'
    } else if d == 4 {
        '4'
    } else if d == 5 {
        '5'
    } else if d == 6 {
        '6'
    } else if d == 7 {
        '7'
    } else if d == 8 {
        '8'
    } else {
        '9'
    }
}

/// The decimal representation of a non-negative integer, without leading
/// zeros (a single `0` for zero itself).
pub open spec fn dec_str(n: int) -> Seq<char>
    recommends
        n >= 0,
    decreases n,
{
    if n < 10 {
        seq![dec_digit(n)]
    } else {
        dec_str(n / 10).push(dec_digit(n % 10))
    }
}

/// The decimal digit character for a value below ten.
fn digit_char_of(d: u64) -> (c: char)
    requires
        d < 10,
    ensures
        c == dec_digit(d as int),
{
    if d == 0 {
        '0'
    } else if d == 1 {
        '1'
    } else if d == 2 {
        '2'
    } else if d == 3 {
        '3'
    } else if d == 4 {
        '4'
    } else if d == 5 {
        '5'
    } else if d == 6 {
        '6'
    } else if d == 7 {
        '7'
    } else if d == 8 {
        '8'
    } else {
        '9'
    }
}

/// Writes a non-negative integer in decimal, most significant digit first.
pub fn u64_dec_chars(n: u64) -> (r: Vec<char>)
    ensures
        r@ == dec_str(n as int),
{
    let mut m = n;
    let mut out: Vec<char> = Vec::new();
    proof {
        assert(dec_str(n as int) =~= dec_str(n as int) + Seq::<char>::empty());
    }
    loop
        invariant_except_break
            (m >= 1 && dec_str(n as int) == dec_str(m as int) + out@) || (m == 0 && n == 0
                && out@ == Seq::<char>::empty()),
        ensures
            dec_str(n as int) == out@,
        decreases m,
    {
        let ghost prev = out@;
        let ghost mm = m as int;
        let c = digit_char_of(m % 10);
        out.insert(0, c);
        m = m / 10;
        proof {
            assert(out@ =~= seq![dec_digit(mm % 10)] + prev);
            if mm >= 10 {
                assert(dec_str(mm) == dec_str(mm / 10).push(dec_digit(mm % 10)));
                assert(dec_str(mm / 10) + out@ =~= (dec_str(mm / 10) + seq![
                    dec_digit(mm % 10),
                ]) + prev);
                assert(dec_str(mm / 10) + seq![dec_digit(mm % 10)] =~= dec_str(mm));
                assert(dec_str(n as int) =~= dec_str(m as int) + out@);
            } else if mm >= 1 {
                assert(dec_str(mm) =~= seq![dec_digit(mm)]);
                assert(dec_str(n as int) =~= out@);
            } else {
                assert(dec_str(0int) =~= seq![dec_digit(0int)]);
                assert(dec_str(n as int) =~= out@);
            }
        }
        if m == 0 {
            break;
        }
    }
    out
}

/// Writes a non-negative integer as a decimal string.
pub fn u64_dec_string(n: u64) -> (r: String)
    ensures
        r@ == dec_str(n as int),
{
    let chars = u64_dec_chars(n);
    chars_to_string(&chars)
}

/// Compares two strings character by character.
pub fn str_eq(a: &str, b: &str) -> (r: bool)
    ensures
        r == (a@ == b@),
{
    let na = a.unicode_len();
    let nb = b.unicode_len();
    if na != nb {
        return false;
    }
    let mut i: usize = 0;
    while i < na
        invariant
            i <= na,
            na == a@.len(),
            na == b@.len(),
            forall|j: int| 0 <= j < i ==> a@[j] == b@[j],
        decreases na - i,
    {
        if a.get_char(i) != b.get_char(i) {
            return false;
        }
        i = i + 1;
    }
    proof {
        assert(a@ =~= b@);
    }
    true
}

} // verus!
