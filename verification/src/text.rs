//! Decimal text for integer values.
//!
//! Column values travel through the engine as text: validation parses a
//! candidate string into an integer to check it against a column's range, and
//! expression evaluation renders numeric results back into text.  This module
//! gives both directions an exact specification: `dec_digits` / `dec_string`
//! say what the rendering of an integer is, and `is_int_literal` /
//! `int_literal_val` say which strings denote integers and which integer each
//! one denotes.

use vstd::prelude::*;
use vstd::string::StrSliceExecFns;

verus! {

/// Relies on `String::push`: appends the given character to the end of the
/// string.
pub assume_specification[ String::push ](s: &mut String, ch: char)
    ensures
        final(s)@ == old(s)@.push(ch),
;

/// Relies on `String::push_str`: appends the given string slice onto the end
/// of the string.
pub assume_specification[ String::push_str ](s: &mut String, other: &str)
    ensures
        final(s)@ == old(s)@ + other@,
;

/// The decimal digit character for `d`, when `0 <= d < 10`.
pub open spec fn digit_char(d: int) -> char {
    if d == 0 {
        '0'
    } else if d == 1 {
        '1'
    } else if d == 2 {
        '2'
    } else if d == 3 {
        '3'
    } else if d == 4 {
        '4'
    } else if d == 5 {
        '5'
    } else if d == 6 {
        '6'
    } else if d == 7 {
        '7'
    } else if d == 8 {
        '8'
    } else {
        '9'
    }
}

/// The value of a decimal digit character, or `-1` when `c` is not a digit.
pub open spec fn digit_of(c: char) -> int {
    if c == '0' {
        0
    } else if c == '1' {
        1
    } else if c == '2' {
        2
    } else if c == '3' {
        3
    } else if c == '4' {
        4
    } else if c == '5' {
        5
    } else if c == '6' {
        6
    } else if c == '7' {
        7
    } else if c == '8' {
        8
    } else if c == '9' {
        9
    } else {
        -1
    }
}

pub open spec fn is_digit(c: char) -> bool {
    digit_of(c) >= 0
}

pub open spec fn all_digits(s: Seq<char>) -> bool {
    forall|i: int| 0 <= i < s.len() ==> is_digit(#[trigger] s[i])
}

/// The integer denoted by a sequence of digit characters (most significant
/// first); the empty sequence denotes `0`.
pub open spec fn digits_val(s: Seq<char>) -> int
    decreases s.len(),
{
    if s.len() == 0 {
        0
    } else {
        digits_val(s.drop_last()) * 10 + digit_of(s.last())
    }
}

/// Whether `s` is an integer literal: an optional sign followed by at least
/// one digit, and nothing else.
pub open spec fn is_int_literal(s: Seq<char>) -> bool {
    if s.len() == 0 {
        false
    } else if s[0] == '-' || s[0] == '+' {
        s.len() > 1 && all_digits(s.skip(1))
    } else {
        all_digits(s)
    }
}

/// The integer denoted by an integer literal.
pub open spec fn int_literal_val(s: Seq<char>) -> int
    recommends
        is_int_literal(s),
{
    if s.len() > 0 && s[0] == '-' {
        -digits_val(s.skip(1))
    } else if s.len() > 0 && s[0] == '+' {
        digits_val(s.skip(1))
    } else {
        digits_val(s)
    }
}

/// The decimal rendering of a nonnegative integer, without sign and without
/// leading zeros (`0` renders as `"0"`).
pub open spec fn dec_digits(n: nat) -> Seq<char>
    decreases n,
{
    if n < 10 {
        seq![digit_char(n as int)]
    } else {
        dec_digits(n / 10).push(digit_char((n % 10) as int))
    }
}

/// The decimal rendering of an integer: a `-` sign for negative values,
/// then the digits.
pub open spec fn dec_string(n: int) -> Seq<char> {
    if n < 0 {
        seq!['-'] + dec_digits((-n) as nat)
    } else {
        dec_digits(n as nat)
    }
}

proof fn lemma_digits_val_nonneg(s: Seq<char>)
    requires
        all_digits(s),
    ensures
        digits_val(s) >= 0,
    decreases s.len(),
{
    if s.len() > 0 {
        assert forall|i: int| 0 <= i < s.drop_last().len() implies is_digit(
            #[trigger] s.drop_last()[i],
        ) by {
            assert(s.drop_last()[i] == s[i]);
        }
        lemma_digits_val_nonneg(s.drop_last());
        assert(is_digit(s.last()));
    }
}

/// Appending digits never decreases the denoted value: the value of a prefix
/// of a digit string is at most the value of the whole string.
proof fn lemma_digits_val_prefix_le(s: Seq<char>, i: int)
    requires
        all_digits(s),
        0 <= i <= s.len(),
    ensures
        digits_val(s.take(i)) <= digits_val(s),
    decreases s.len() - i,
{
    if i < s.len() {
        lemma_digits_val_prefix_le(s, i + 1);
        assert(s.take(i + 1).drop_last() =~= s.take(i));
        assert(s.take(i + 1).last() == s[i]);
        assert forall|j: int| 0 <= j < s.take(i).len() implies is_digit(
            #[trigger] s.take(i)[j],
        ) by {
            assert(s.take(i)[j] == s[j]);
        }
        lemma_digits_val_nonneg(s.take(i));
        assert(is_digit(s[i]));
        assert(digits_val(s.take(i + 1)) == digits_val(s.take(i)) * 10 + digit_of(s[i]));
    } else {
        assert(s.take(i) =~= s);
    }
}

/// The decimal rendering of a nonnegative integer consists of digits and
/// denotes that integer.
pub proof fn lemma_dec_digits_value(n: nat)
    ensures
        all_digits(dec_digits(n)),
        digits_val(dec_digits(n)) == n,
        dec_digits(n).len() >= 1,
    decreases n,
{
    if n < 10 {
        let s = dec_digits(n);
        assert(s.drop_last() =~= Seq::<char>::empty());
        assert(s.last() == digit_char(n as int));
        assert(digit_of(digit_char(n as int)) == n);
        assert(digits_val(Seq::<char>::empty()) == 0);
        assert(digits_val(s) == digits_val(s.drop_last()) * 10 + digit_of(s.last()));
    } else {
        lemma_dec_digits_value(n / 10);
        let s = dec_digits(n);
        let prefix = dec_digits(n / 10);
        assert(s == prefix.push(digit_char((n % 10) as int)));
        assert(s.drop_last() =~= prefix);
        assert(s.last() == digit_char((n % 10) as int));
        assert(digit_of(digit_char((n % 10) as int)) == n % 10);
        assert(digits_val(s) == digits_val(prefix) * 10 + (n % 10));
        assert(n / 10 * 10 + n % 10 == n) by (nonlinear_arith);
        assert forall|i: int| 0 <= i < s.len() implies is_digit(#[trigger] s[i]) by {
            if i < prefix.len() {
                assert(s[i] == prefix[i]);
            }
        }
    }
}

/// Rendering an integer and reading the text back yields the integer: the
/// rendering is an integer literal denoting exactly the rendered value.
pub proof fn lemma_dec_string_int_literal(n: int)
    ensures
        is_int_literal(dec_string(n)),
        int_literal_val(dec_string(n)) == n,
{
    if n >= 0 {
        lemma_dec_digits_value(n as nat);
        let s = dec_string(n);
        assert(is_digit(s[0]));
        assert(s[0] != '-' && s[0] != '+');
    } else {
        lemma_dec_digits_value((-n) as nat);
        let s = dec_string(n);
        assert(s == seq!['-'] + dec_digits((-n) as nat));
        assert(s[0] == '-');
        assert(s.skip(1) =~= dec_digits((-n) as nat));
        assert(s.len() > 1);
    }
}

/// How an integer-valued string parses: as a value that fits in `i64`, as a
/// numeric value outside the `i64` range, or not as a number at all.
#[derive(Clone, Copy, Debug, PartialEq, Eq, Structural)]
pub enum IntParse {
    Value(i64),
    NotNumeric,
    OutOfBounds,
}

/// What `parse_i64` returns for a given string.
pub open spec fn int_parse_spec(s: Seq<char>) -> IntParse {
    if !is_int_literal(s) {
        IntParse::NotNumeric
    } else if int_literal_val(s) < i64::MIN || int_literal_val(s) > i64::MAX {
        IntParse::OutOfBounds
    } else {
        IntParse::Value(int_literal_val(s) as i64)
    }
}

/// The value of a decimal digit character, or `None` when `c` is not a digit.
fn digit_lookup(c: char) -> (d: Option<u64>)
    ensures
        d is Some <==> is_digit(c),
        d is Some ==> d->Some_0 == digit_of(c),
{
    if c == '0' {
        Some(0)
    } else if c == '1' {
        Some(1)
    } else if c == '2' {
        Some(2)
    } else if c == '3' {
        Some(3)
    } else if c == '4' {
        Some(4)
    } else if c == '5' {
        Some(5)
    } else if c == '6' {
        Some(6)
    } else if c == '7' {
        Some(7)
    } else if c == '8' {
        Some(8)
    } else if c == '9' {
        Some(9)
    } else {
        None
    }
}

/// Parses a string as a decimal integer, classifying it per `int_parse_spec`:
/// not numeric at all, numeric but outside the `i64` range, or a value.
#[verifier::loop_isolation(false)]
pub fn parse_i64(s: &str) -> (r: IntParse)
    ensures
        r == int_parse_spec(s@),
{
    let len = s.unicode_len();
    if len == 0 {
        return IntParse::NotNumeric;
    }
    let first = s.get_char(0);
    let signed: bool = first == '-' || first == '+';
    let neg = first == '-';
    let start: usize = if signed {
        1
    } else {
        0
    };
    if len == start {
        // a bare sign has no digits
        return IntParse::NotNumeric;
    }
    let mut i: usize = start;
    while i < len
        invariant
            start <= i <= len,
            len == s@.len(),
            forall|j: int| start <= j < i ==> is_digit(#[trigger] s@[j]),
        decreases len - i,
    {
        let c = s.get_char(i);
        if digit_lookup(c).is_none() {
            proof {
                assert(!is_digit(s@[i as int]));
                if signed {
                    assert(s@.skip(1)[i as int - 1] == s@[i as int]);
                }
            }
            return IntParse::NotNumeric;
        }
        i = i + 1;
    }
    proof {
        if signed {
            assert forall|j: int| 0 <= j < s@.skip(1).len() implies is_digit(
                #[trigger] s@.skip(1)[j],
            ) by {
                assert(s@.skip(1)[j] == s@[j + 1]);
            }
        }
        assert(is_int_literal(s@));
    }
    let ghost digits: Seq<char> = s@.skip(start as int);
    let mut acc: u64 = 0;
    let mut k: usize = start;
    while k < len
        invariant
            start <= k <= len,
            len == s@.len(),
            start <= 1,
            digits == s@.skip(start as int),
            all_digits(digits),
            acc == digits_val(s@.subrange(start as int, k as int)),
        decreases len - k,
    {
        let c = s.get_char(k);
        proof {
            assert(digits[k as int - start as int] == s@[k as int]);
        }
        let d = digit_lookup(c).unwrap();
        let ghost prefix = s@.subrange(start as int, k as int);
        let ghost prefix1 = s@.subrange(start as int, k as int + 1);
        proof {
            assert(prefix1.drop_last() =~= prefix);
            assert(prefix1.last() == s@[k as int]);
            assert(digits_val(prefix1) == digits_val(prefix) * 10 + digit_of(s@[k as int]));
        }
        let next = match acc.checked_mul(10) {
            Some(m) => m.checked_add(d),
            None => None,
        };
        match next {
            Some(a) => {
                acc = a;
            },
            None => {
                // the magnitude already exceeds u64::MAX, so the full literal
                // is far outside the i64 range
                proof {
                    assert(digits_val(prefix1) > u64::MAX);
                    assert(prefix1 =~= digits.take(k as int + 1 - start as int));
                    lemma_digits_val_prefix_le(digits, k as int + 1 - start as int);
                    assert(digits_val(digits) > u64::MAX);
                    assert(s@.skip(1) =~= s@.subrange(1, len as int));
                    if start == 0 {
                        assert(digits =~= s@);
                    }
                }
                return IntParse::OutOfBounds;
            },
        }
        k = k + 1;
    }
    proof {
        assert(s@.subrange(start as int, len as int) =~= digits);
        assert(s@.skip(1) =~= s@.subrange(1, len as int));
        if start == 0 {
            assert(digits =~= s@);
        }
        assert(acc == digits_val(digits));
        if neg {
            assert(int_literal_val(s@) == -digits_val(digits));
        } else {
            assert(int_literal_val(s@) == digits_val(digits));
        }
    }
    if neg {
        if acc <= i64::MAX as u64 {
            IntParse::Value(-(acc as i64))
        } else if acc == (i64::MAX as u64) + 1 {
            IntParse::Value(i64::MIN)
        } else {
            IntParse::OutOfBounds
        }
    } else {
        if acc <= i64::MAX as u64 {
            IntParse::Value(acc as i64)
        } else {
            IntParse::OutOfBounds
        }
    }
}

/// Character-wise string equality.
#[verifier::loop_isolation(false)]
pub fn str_eq(a: &str, b: &str) -> (r: bool)
    ensures
        r == (a@ == b@),
{
    let la = a.unicode_len();
    let lb = b.unicode_len();
    if la != lb {
        return false;
    }
    let mut i: usize = 0;
    while i < la
        invariant
            0 <= i <= la,
            forall|j: int| 0 <= j < i ==> a@[j] == b@[j],
        decreases la - i,
    {
        if a.get_char(i) != b.get_char(i) {
            return false;
        }
        i = i + 1;
    }
    proof {
        assert(a@ =~= b@);
    }
    true
}

fn digit_to_char(d: u64) -> (c: char)
    requires
        d < 10,
    ensures
        c == digit_char(d as int),
{
    if d == 0 {
        '0'
    } else if d == 1 {
        '1'
    } else if d == 2 {
        '2'
    } else if d == 3 {
        '3'
    } else if d == 4 {
        '4'
    } else if d == 5 {
        '5'
    } else if d == 6 {
        '6'
    } else if d == 7 {
        '7'
    } else if d == 8 {
        '8'
    } else {
        '9'
    }
}

fn push_dec_digits(n: u64, out: &mut String)
    ensures
        final(out)@ == old(out)@ + dec_digits(n as nat),
    decreases n,
{
    if n < 10 {
        out.push(digit_to_char(n));
        proof {
            assert(old(out)@ + dec_digits(n as nat) =~= old(out)@.push(digit_char(n as int)));
        }
    } else {
        let q = n / 10;
        let r = n % 10;
        push_dec_digits(q, out);
        out.push(digit_to_char(r));
        proof {
            assert(old(out)@ + dec_digits(n as nat) =~= (old(out)@ + dec_digits(
                (n / 10) as nat,
            )).push(digit_char((n % 10) as int)));
        }
    }
}

/// Renders a nonnegative integer in decimal.
pub fn format_u64(n: u64) -> (s: String)
    ensures
        s@ == dec_digits(n as nat),
{
    let mut s = String::new();
    push_dec_digits(n, &mut s);
    proof {
        assert(Seq::<char>::empty() + dec_digits(n as nat) =~= dec_digits(n as nat));
    }
    s
}

/// Renders a signed integer in decimal, per `dec_string`.
pub fn format_i64(n: i64) -> (s: String)
    ensures
        s@ == dec_string(n as int),
{
    if n >= 0 {
        format_u64(n as u64)
    } else {
        // magnitude of n, computed without overflowing at i64::MIN
        let mag: u64 = ((-(n + 1)) as u64) + 1;
        let mut s = String::new();
        s.push('-');
        push_dec_digits(mag, &mut s);
        proof {
            assert(mag as nat == (-(n as int)) as nat);
            assert(Seq::<char>::empty().push('-') + dec_digits(mag as nat) =~= seq!['-']
                + dec_digits((-(n as int)) as nat));
        }
        s
    }
}

} // verus!
