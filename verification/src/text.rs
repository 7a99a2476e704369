//! Character and string groundwork: decimal rendering and parsing,
//! hexadecimal rendering, and byte-exact string comparison.

use vstd::prelude::*;
use vstd::string::StringSliceAdditionalSpecFns;
use vstd::string::StrSliceExecFns;
use vstd::string::StringExecFns;
use vstd::utf8::encode_utf8;
use vstd::utf8::encode_utf8_decode_utf8;

verus! {

/// Appends one character.
///
/// Relies on `String::push`, which appends the given `char` to the end of
/// the string.
#[verifier::external_body]
pub fn push_char(s: &mut String, c: char)
    ensures
        final(s)@ == old(s)@.push(c),
{
    s.push(c)
}

/// The decimal digit characters in order of value.
pub open spec fn dec_digits() -> Seq<char> {
    seq!['0', '1', '2', '3', '4', '5', '6', '7', '8', '9']
}

pub open spec fn dec_digit(d: int) -> char {
    dec_digits()[d]
}

/// The canonical decimal rendering of a natural number: no sign, no
/// leading zero except for the number zero itself.
pub open spec fn dec_rep(n: nat) -> Seq<char>
    decreases n,
{
    if n < 10 {
        seq![dec_digit(n as int)]
    } else {
        dec_rep(n / 10).push(dec_digit((n % 10) as int))
    }
}

/// The decimal rendering of a signed number: a `-` sign ahead of the
/// digits when the number is negative.
pub open spec fn dec_rep_int(n: int) -> Seq<char> {
    if n >= 0 {
        dec_rep(n as nat)
    } else {
        seq!['-'] + dec_rep((-n) as nat)
    }
}

fn digit_char(d: u8) -> (c: char)
    requires
        d < 10,
    ensures
        c == dec_digit(d as int),
{
    let c = (48 + d) as char;
    proof {
        assert(dec_digits()[d as int] == c) by {
            assert(c as u32 == 48 + d);
        }
    }
    c
}

/// Appends the decimal rendering of `n`.
pub fn push_dec_u64(s: &mut String, n: u64)
    ensures
        final(s)@ == old(s)@ + dec_rep(n as nat),
    decreases n,
{
    if n < 10 {
        push_char(s, digit_char(n as u8));
        assert(final(s)@ =~= old(s)@ + dec_rep(n as nat));
    } else {
        push_dec_u64(s, n / 10);
        push_char(s, digit_char((n % 10) as u8));
        assert(final(s)@ =~= old(s)@ + dec_rep(n as nat));
    }
}

/// Appends the decimal rendering of a signed number.
pub fn push_dec_i64(s: &mut String, n: i64)
    ensures
        final(s)@ == old(s)@ + dec_rep_int(n as int),
{
    if n < 0 {
        push_char(s, '-');
        let m: u64 = (-(n as i128)) as u64;
        push_dec_u64(s, m);
        assert(final(s)@ =~= old(s)@ + dec_rep_int(n as int));
    } else {
        push_dec_u64(s, n as u64);
    }
}

/// The decimal rendering of `n`, as its own string.
pub fn u64_to_string(n: u64) -> (r: String)
    ensures
        r@ == dec_rep(n as nat),
{
    let mut s = String::new();
    push_dec_u64(&mut s, n);
    assert(s@ =~= dec_rep(n as nat));
    s
}

/// The decimal rendering of `n`, as its own string.
pub fn i64_to_string(n: i64) -> (r: String)
    ensures
        r@ == dec_rep_int(n as int),
{
    let mut s = String::new();
    push_dec_i64(&mut s, n);
    assert(s@ =~= dec_rep_int(n as int));
    s
}

/// The hexadecimal digit characters in order of value, lower case.
pub open spec fn hex_digits() -> Seq<char> {
    seq![
        '0', '1', '2', '3', '4', '5', '6', '7', '8', '9', 'a', 'b', 'c', 'd', 'e',
        'f',
    ]
}

pub open spec fn hex_digit(d: int) -> char {
    hex_digits()[d]
}

pub(crate) fn hex_digit_char(d: u8) -> (c: char)
    requires
        d < 16,
    ensures
        c == hex_digit(d as int),
{
    let c = if d < 10 {
        (48 + d) as char
    } else {
        (87 + d) as char
    };
    proof {
        assert(hex_digits()[d as int] == c) by {
            if d < 10 {
                assert(c as u32 == 48 + d);
            } else {
                assert(c as u32 == 87 + d);
            }
        }
    }
    c
}

/// The hexadecimal digit characters in order of value, upper case.
pub open spec fn hex_digits_upper() -> Seq<char> {
    seq![
        '0', '1', '2', '3', '4', '5', '6', '7', '8', '9', 'A', 'B', 'C', 'D', 'E',
        'F',
    ]
}

pub open spec fn hex_digit_upper(d: int) -> char {
    hex_digits_upper()[d]
}

pub fn hex_digit_upper_char(d: u8) -> (c: char)
    requires
        d < 16,
    ensures
        c == hex_digit_upper(d as int),
{
    let c = if d < 10 {
        (48 + d) as char
    } else {
        (55 + d) as char
    };
    proof {
        assert(hex_digits_upper()[d as int] == c) by {
            if d < 10 {
                assert(c as u32 == 48 + d);
            } else {
                assert(c as u32 == 55 + d);
            }
        }
    }
    c
}

/// Two lower-case hexadecimal digits for each byte, high nibble first.
pub open spec fn hex_rep(bytes: Seq<u8>) -> Seq<char>
    decreases bytes.len(),
{
    if bytes.len() == 0 {
        Seq::empty()
    } else {
        seq![hex_digit(bytes[0] as int / 16), hex_digit(bytes[0] as int % 16)] + hex_rep(
            bytes.drop_first(),
        )
    }
}

/// The lower-case hexadecimal rendering of a byte string.
pub fn bytes_to_hex(bytes: &Vec<u8>) -> (r: String)
    ensures
        r@ == hex_rep(bytes@),
{
    let mut s = String::new();
    let mut i: usize = 0;
    while i < bytes.len()
        invariant
            i <= bytes.len(),
            s@ == hex_rep(bytes@.take(i as int)),
        decreases bytes.len() - i,
    {
        let b = bytes[i];
        push_char(&mut s, hex_digit_char(b / 16));
        push_char(&mut s, hex_digit_char(b % 16));
        proof {
            lemma_hex_rep_snoc(bytes@, i as int);
        }
        i += 1;
    }
    proof {
        assert(bytes@.take(bytes@.len() as int) =~= bytes@);
    }
    s
}

proof fn lemma_hex_rep_snoc(bytes: Seq<u8>, i: int)
    requires
        0 <= i < bytes.len(),
    ensures
        hex_rep(bytes.take(i + 1)) == hex_rep(bytes.take(i)) + seq![
            hex_digit(bytes[i] as int / 16),
            hex_digit(bytes[i] as int % 16),
        ],
    decreases i,
{
    if i == 0 {
        assert(bytes.take(1).drop_first() =~= Seq::empty());
        assert(bytes.take(0) =~= Seq::empty());
        assert(hex_rep(bytes.take(1)) =~= hex_rep(bytes.take(0)) + seq![
            hex_digit(bytes[0] as int / 16),
            hex_digit(bytes[0] as int % 16),
        ]);
    } else {
        lemma_hex_rep_snoc(bytes.drop_first(), i - 1);
        assert(bytes.take(i + 1).drop_first() =~= bytes.drop_first().take(i));
        assert(bytes.take(i).drop_first() =~= bytes.drop_first().take(i - 1));
        assert(hex_rep(bytes.take(i + 1)) =~= hex_rep(bytes.take(i)) + seq![
            hex_digit(bytes[i] as int / 16),
            hex_digit(bytes[i] as int % 16),
        ]);
    }
}

/// Byte-for-byte equality of two byte strings.
pub fn bytes_eq(a: &[u8], b: &[u8]) -> (r: bool)
    ensures
        r == (a@ == b@),
{
    if a.len() != b.len() {
        proof {
            assert(a@ != b@) by {
                assert(a@.len() != b@.len());
            }
        }
        return false;
    }
    let mut i: usize = 0;
    while i < a.len()
        invariant
            i <= a.len(),
            a.len() == b.len(),
            forall|j: int| 0 <= j < i ==> a@[j] == b@[j],
        decreases a.len() - i,
    {
        if a[i] != b[i] {
            return false;
        }
        i += 1;
    }
    proof {
        assert(a@ =~= b@);
    }
    true
}

/// Character-for-character equality of two strings, decided over their
/// UTF-8 bytes.
pub fn str_eq(a: &str, b: &str) -> (r: bool)
    ensures
        r == (a@ == b@),
{
    let r = bytes_eq(a.as_bytes(), b.as_bytes());
    proof {
        if a.spec_bytes() == b.spec_bytes() {
            encode_utf8_decode_utf8(a@);
            encode_utf8_decode_utf8(b@);
            assert(a@ == b@);
        }
    }
    r
}

/// Whether `c` is a decimal digit character.
pub open spec fn is_dec_digit(c: char) -> bool {
    48 <= c as u32 <= 57
}

pub open spec fn dec_digit_val(c: char) -> nat {
    (c as u32 - 48) as nat
}

/// The value of a string of decimal digit characters, most significant
/// first.
pub open spec fn dec_val(s: Seq<char>) -> nat
    decreases s.len(),
{
    if s.len() == 0 {
        0
    } else {
        dec_val(s.drop_last()) * 10 + dec_digit_val(s.last())
    }
}

/// The value of a digit string, if it is one or more decimal digits whose
/// value fits in 32 bits.
pub open spec fn parse_dec_digits_spec(digits: Seq<char>) -> Option<u32> {
    if digits.len() > 0 && (forall|i: int| 0 <= i < digits.len() ==> is_dec_digit(#[trigger] digits[i]))
        && dec_val(digits) <= u32::MAX {
        Some(dec_val(digits) as u32)
    } else {
        None
    }
}

/// What `u32::from_str` accepts: an optional leading `+`, then one or more
/// decimal digits, whose value fits in 32 bits.
pub open spec fn parse_u32_spec(s: Seq<char>) -> Option<u32> {
    if s.len() > 0 && s[0] == '+' {
        parse_dec_digits_spec(s.drop_first())
    } else {
        parse_dec_digits_spec(s)
    }
}

proof fn lemma_dec_val_take_grows(s: Seq<char>, i: int)
    requires
        0 <= i < s.len(),
    ensures
        dec_val(s.take(i + 1)) == dec_val(s.take(i)) * 10 + dec_digit_val(s[i]),
{
    assert(s.take(i + 1).drop_last() =~= s.take(i));
    assert(s.take(i + 1).last() == s[i]);
}

proof fn lemma_dec_val_monotone(s: Seq<char>, i: int)
    requires
        0 <= i <= s.len(),
    ensures
        dec_val(s) >= dec_val(s.take(i)),
    decreases s.len() - i,
{
    if i < s.len() {
        lemma_dec_val_take_grows(s, i);
        lemma_dec_val_monotone(s, i + 1);
        assert(s.take(s.len() as int) =~= s);
    } else {
        assert(s.take(i) =~= s);
    }
}

/// Parses a decimal digit string the way `u32::from_str` does.
pub fn parse_u32(s: &str) -> (r: Option<u32>)
    ensures
        r == parse_u32_spec(s@),
{
    let n = s.unicode_len();
    let mut i: usize = 0;
    if n > 0 && s.get_char(0) == '+' {
        i = 1;
    }
    let ghost digits: Seq<char> = if s@.len() > 0 && s@[0] == '+' {
        s@.drop_first()
    } else {
        s@
    };
    if i >= n {
        return None;
    }
    let mut acc: u64 = 0;
    let start = i;
    proof {
        assert(s@.subrange(0, n as int) =~= s@);
        assert(s@.subrange(1, n as int) =~= s@.drop_first());
    }
    while i < n
        invariant
            start <= i <= n,
            n == s@.len(),
            start == if s@.len() > 0 && s@[0] == '+' { 1int } else { 0int },
            digits == (if s@.len() > 0 && s@[0] == '+' { s@.drop_first() } else { s@ }),
            digits == s@.subrange(start as int, n as int),
            forall|j: int| start <= j < i ==> is_dec_digit(#[trigger] s@[j]),
            acc == dec_val(digits.take(i - start)),
            acc <= u32::MAX,
        decreases n - i,
    {
        let c = s.get_char(i);
        let cv = c as u32;
        if cv < 48 || cv > 57 {
            proof {
                assert(digits[i - start] == s@[i as int]);
                assert(!is_dec_digit(digits[i - start]));
                assert(parse_dec_digits_spec(digits) is None);
            }
            return None;
        }
        let d = (cv - 48) as u64;
        let next = acc * 10 + d;
        proof {
            lemma_dec_val_take_grows(digits, i - start);
            assert(digits[i - start] == s@[i as int]);
        }
        if next > 0xffff_ffff {
            proof {
                lemma_dec_val_monotone(digits, i - start + 1);
                assert(dec_val(digits.take(i - start + 1)) == next);
                assert(dec_val(digits) > u32::MAX);
            }
            return None;
        }
        acc = next;
        i += 1;
    }
    proof {
        assert(digits.take(n - start) =~= digits);
    }
    Some(acc as u32)
}

} // verus!
