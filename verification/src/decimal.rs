//! Signed decimal integers written as text.
//!
//! A number is an optional sign (`+` or `-`) followed by one or more ASCII
//! digits and nothing else; it is accepted when its value fits in an `i64`.

use vstd::prelude::*;
use vstd::string::StringExecFns;

verus! {

/// Whether `c` is one of the ASCII digits `0` to `9`.
pub open spec fn is_digit(c: char) -> bool {
    '0' <= c && c <= '9'
}

/// Whether every character of `s` is an ASCII digit.
pub open spec fn all_digits(s: Seq<char>) -> bool {
    forall|i: int| 0 <= i < s.len() ==> is_digit(#[trigger] s[i])
}

/// The number that the digits of `s` spell in base ten; 0 for no digits.
pub open spec fn digits_value(s: Seq<char>) -> nat
    decreases s.len(),
{
    if s.len() == 0 {
        0
    } else {
        (digits_value(s.drop_last()) * 10 + (s.last() as int - '0' as int)) as nat
    }
}

/// Whether `s` starts with a sign character.
pub open spec fn has_sign(s: Seq<char>) -> bool {
    s.len() > 0 && (s[0] == '-' || s[0] == '+')
}

/// The characters of `s` after its sign, all of `s` where it has none.
pub open spec fn unsigned_part(s: Seq<char>) -> Seq<char> {
    if has_sign(s) {
        s.subrange(1, s.len() as int)
    } else {
        s
    }
}

/// Whether `s` is a number as this module reads it: an optional sign, then
/// at least one digit, then nothing.
pub open spec fn is_decimal(s: Seq<char>) -> bool {
    unsigned_part(s).len() > 0 && all_digits(unsigned_part(s))
}

/// The integer that `s` denotes, whatever its size.
pub open spec fn signed_value(s: Seq<char>) -> int {
    if s.len() > 0 && s[0] == '-' {
        -(digits_value(unsigned_part(s)) as int)
    } else {
        digits_value(unsigned_part(s)) as int
    }
}

/// What `s` parses to: its value where `s` is a number that fits in an
/// `i64`, nothing otherwise.
pub open spec fn decimal_i64(s: Seq<char>) -> Option<i64> {
    if is_decimal(s) && i64::MIN <= signed_value(s) <= i64::MAX {
        Some(signed_value(s) as i64)
    } else {
        None
    }
}

/// Appending a digit to digits multiplies their value by ten and adds it.
pub proof fn lemma_digits_value_push(s: Seq<char>, c: char)
    ensures
        digits_value(s.push(c)) == (digits_value(s) * 10 + (c as int - '0' as int)) as nat,
{
    assert(s.push(c).drop_last() =~= s);
}

/// Digits never lose value as more digits follow them.
pub proof fn lemma_digits_value_grows(s: Seq<char>, n: int)
    requires
        all_digits(s),
        0 <= n <= s.len(),
    ensures
        digits_value(s.take(n)) <= digits_value(s),
    decreases s.len() - n,
{
    if n == s.len() {
        assert(s.take(n) =~= s);
    } else {
        lemma_digits_value_grows(s, n + 1);
        assert(s.take(n + 1) =~= s.take(n).push(s[n]));
        lemma_digits_value_push(s.take(n), s[n]);
        assert(is_digit(s[n]));
    }
}

/// Reads a signed decimal integer.
///
/// Accepts exactly the texts of [`is_decimal`] whose value fits in an `i64`;
/// leading zeros are allowed, white space and an empty text are not.
pub fn parse_i64(s: &str) -> (r: Option<i64>)
    ensures
        r == decimal_i64(s@),
{
    broadcast use vstd::string::group_string_axioms;

    let mut negative = false;
    let mut signed = false;
    let mut count: usize = 0;
    let mut magnitude: u64 = 0;
    for c in it: s.chars()
        invariant
            it.seq() == s@,
            count <= 1,
            count == 0 <==> it.index() == if signed { 1int } else { 0int },
            signed ==> has_sign(s@),
            signed <==> it.index() > 0 && has_sign(s@),
            negative <==> signed && s@[0] == '-',
            all_digits(unsigned_part(s@.take(it.index()))),
            magnitude == digits_value(unsigned_part(s@.take(it.index()))),
            magnitude <= 0x8000_0000_0000_0000,
    {
        let ghost k = it.index();
        let ghost before = unsigned_part(s@.take(k));
        let ghost after = unsigned_part(s@.take(k + 1));
        if count == 0 && !signed && (c == '-' || c == '+') {
            signed = true;
            negative = c == '-';
            proof {
                assert(after =~= Seq::<char>::empty());
            }
        } else if c >= '0' && c <= '9' {
            let digit: u64 = (c as u32 - '0' as u32) as u64;
            proof {
                assert(after =~= before.push(c));
                lemma_digits_value_push(before, c);
            }
            if magnitude > 922_337_203_685_477_580 || magnitude * 10 + digit
                > 0x8000_0000_0000_0000 {
                proof {
                    lemma_out_of_range(s@, k + 1);
                }
                return None;
            }
            magnitude = magnitude * 10 + digit;
            count = 1;
        } else {
            proof {
                lemma_not_decimal(s@, k);
            }
            return None;
        }
    }
    proof {
        assert(s@.take(s@.len() as int) =~= s@);
    }
    if count == 0 {
        None
    } else if negative {
        if magnitude == 0x8000_0000_0000_0000 {
            Some(i64::MIN)
        } else {
            Some(-(magnitude as i64))
        }
    } else if magnitude > 0x7fff_ffff_ffff_ffff {
        None
    } else {
        Some(magnitude as i64)
    }
}

/// A text whose first `n` characters already spell more than 2^63 is out of
/// range whatever follows, provided it is a number at all.
proof fn lemma_out_of_range(s: Seq<char>, n: int)
    requires
        0 < n <= s.len(),
        unsigned_part(s.take(n)).len() > 0,
        digits_value(unsigned_part(s.take(n))) > 0x8000_0000_0000_0000,
    ensures
        decimal_i64(s) is None,
{
    if is_decimal(s) {
        let body = unsigned_part(s);
        let m = unsigned_part(s.take(n)).len() as int;
        assert(unsigned_part(s.take(n)) =~= body.take(m));
        lemma_digits_value_grows(body, m);
    }
}

/// A text with a character at `k` that is neither a digit nor a leading
/// sign is no number.
proof fn lemma_not_decimal(s: Seq<char>, k: int)
    requires
        0 <= k < s.len(),
        !is_digit(s[k]),
        k > 0 || !has_sign(s),
    ensures
        decimal_i64(s) is None,
{
    if has_sign(s) {
        assert(unsigned_part(s)[k - 1] == s[k]);
    } else {
        assert(unsigned_part(s)[k] == s[k]);
    }
}

/// The character that writes the digit `d`.
pub open spec fn digit_char(d: int) -> char {
    if d == 0 {
        '0'
    } else if d == 1 {
        '1'
    } else if d == 2 {
        '2'
    } else if d == 3 {
        '3'
    } else if d == 4 {
        '4'
    } else if d == 5 {
        '5'
    } else if d == 6 {
        '6'
    } else if d == 7 {
        '7'
    } else if d == 8 {
        '8'
    } else {
        '9'
    }
}

/// The digits that spell `n` in base ten, without leading zeros; `0` for
/// zero.
pub open spec fn decimal_text(n: nat) -> Seq<char>
    decreases n,
{
    if n < 10 {
        seq![digit_char(n as int)]
    } else {
        decimal_text(n / 10).push(digit_char((n % 10) as int))
    }
}

/// How the integer `n` is written: its digits, after a `-` where it is
/// negative.
pub open spec fn signed_text(n: int) -> Seq<char> {
    if n < 0 {
        seq!['-'] + decimal_text((-n) as nat)
    } else {
        decimal_text(n as nat)
    }
}

/// The text of one digit.
fn digit_str(d: u64) -> (r: &'static str)
    requires
        d < 10,
    ensures
        r@ == seq![digit_char(d as int)],
{
    proof {
        reveal_strlit("0");
        reveal_strlit("1");
        reveal_strlit("2");
        reveal_strlit("3");
        reveal_strlit("4");
        reveal_strlit("5");
        reveal_strlit("6");
        reveal_strlit("7");
        reveal_strlit("8");
        reveal_strlit("9");
    }
    let r = match d {
        0 => "0",
        1 => "1",
        2 => "2",
        3 => "3",
        4 => "4",
        5 => "5",
        6 => "6",
        7 => "7",
        8 => "8",
        _ => "9",
    };
    assert(r@ =~= seq![digit_char(d as int)]);
    r
}

/// Writes a natural number in base ten.
pub fn format_u64(n: u64) -> (r: String)
    ensures
        r@ == decimal_text(n as nat),
    decreases n,
{
    if n < 10 {
        digit_str(n).to_owned()
    } else {
        let mut r = format_u64(n / 10);
        r.append(digit_str(n % 10));
        r
    }
}

/// Writes an integer in base ten.
pub fn format_i64(n: i64) -> (r: String)
    ensures
        r@ == signed_text(n as int),
{
    if n < 0 {
        proof {
            reveal_strlit("-");
        }
        let magnitude: u64 = (-(n as i128)) as u64;
        let mut r = "-".to_owned();
        r.append(format_u64(magnitude).as_str());
        assert("-"@ =~= seq!['-']);
        r
    } else {
        format_u64(n as u64)
    }
}

/// How the natural number `n` is written in at least two digits: with a
/// zero before it where it has only one.
pub open spec fn two_digit_text(n: nat) -> Seq<char> {
    if n < 10 {
        seq!['0'] + decimal_text(n)
    } else {
        decimal_text(n)
    }
}

/// Writes a natural number in at least two digits, as days of the month are
/// written.
pub fn format_two_digits(n: u32) -> (r: String)
    ensures
        r@ == two_digit_text(n as nat),
{
    if n < 10 {
        proof {
            reveal_strlit("0");
        }
        let mut r = "0".to_owned();
        r.append(format_u64(n as u64).as_str());
        assert("0"@ =~= seq!['0']);
        r
    } else {
        format_u64(n as u64)
    }
}

/// The digits of a number are digits, at least one, and spell the number.
pub proof fn lemma_decimal_text(n: nat)
    ensures
        decimal_text(n).len() > 0,
        all_digits(decimal_text(n)),
        digits_value(decimal_text(n)) == n,
    decreases n,
{
    if n < 10 {
        let s = decimal_text(n);
        assert(s.drop_last() =~= Seq::<char>::empty());
        assert(digits_value(s.drop_last()) == 0);
    } else {
        lemma_decimal_text(n / 10);
        lemma_digits_value_push(decimal_text(n / 10), digit_char((n % 10) as int));
    }
}

/// What is written is read back: an integer of 64 bits, written by
/// [`format_i64`], parses to itself.
pub proof fn law_written_is_read(n: i64)
    ensures
        decimal_i64(signed_text(n as int)) == Some(n),
{
    if n < 0 {
        let digits = decimal_text((-n) as nat);
        lemma_decimal_text((-n) as nat);
        assert(unsigned_part(signed_text(n as int)) =~= digits);
    } else {
        lemma_decimal_text(n as nat);
        assert(is_digit(decimal_text(n as nat)[0]));
    }
}

} // verus!
