//! Decimal and boolean field grammars: reading typed values out of text and
//! writing them back.
use vstd::prelude::*;

verus! {

/// Whether `c` is one of the ten ASCII digits.
pub open spec fn is_digit(c: char) -> bool {
    '0' <= c && c <= '9'
}

/// The value of an ASCII digit.
pub open spec fn digit_value(c: char) -> nat {
    (c as int - '0' as int) as nat
}

/// The ASCII digit that stands for `d`, for `d` below ten.
pub open spec fn digit_char(d: nat) -> char {
    if d == 0 {
        '0'
    } else if d == 1 {
        '1'
    } else if d == 2 {
        '2'
    } else if d == 3 {
        '3'
    } else if d == 4 {
        '4'
    } else if d == 5 {
        '5'
    } else if d == 6 {
        '6'
    } else if d == 7 {
        '7'
    } else if d == 8 {
        '8'
    } else {
        '9'
    }
}

/// Whether every character of `s` is an ASCII digit.
pub open spec fn all_digits(s: Seq<char>) -> bool {
    forall|i: int| 0 <= i < s.len() ==> is_digit(#[trigger] s[i])
}

/// The number that a run of digits denotes, most significant digit first.
pub open spec fn digits_value(s: Seq<char>) -> nat
    decreases s.len(),
{
    if s.len() == 0 {
        0
    } else {
        digits_value(s.drop_last()) * 10 + digit_value(s.last())
    }
}

/// A run of digits that denotes a number no greater than `max`.
pub open spec fn bounded_digits(s: Seq<char>, max: nat) -> Option<nat> {
    if s.len() > 0 && all_digits(s) && digits_value(s) <= max {
        Some(digits_value(s))
    } else {
        None
    }
}

/// The unsigned decimal grammar: an optional `+`, then one or more digits
/// whose value does not exceed `max`.
pub open spec fn parse_unsigned(s: Seq<char>, max: nat) -> Option<nat> {
    if s.len() > 0 && s[0] == '+' {
        bounded_digits(s.subrange(1, s.len() as int), max)
    } else {
        bounded_digits(s, max)
    }
}

/// The signed decimal grammar: an optional `+` or `-`, then one or more
/// digits; the signed value lies between `-min_magnitude` and `max`.
pub open spec fn parse_signed(s: Seq<char>, min_magnitude: nat, max: nat) -> Option<int> {
    if s.len() > 0 && s[0] == '-' {
        match bounded_digits(s.subrange(1, s.len() as int), min_magnitude) {
            Some(v) => Some(-(v as int)),
            None => None,
        }
    } else {
        match parse_unsigned(s, max) {
            Some(v) => Some(v as int),
            None => None,
        }
    }
}

/// The boolean grammar: exactly `true` or `false`.
pub open spec fn parse_flag(s: Seq<char>) -> Option<bool> {
    if s == "true"@ {
        Some(true)
    } else if s == "false"@ {
        Some(false)
    } else {
        None
    }
}

/// The shortest decimal numeral for `n`.
pub open spec fn decimal(n: nat) -> Seq<char>
    decreases n,
{
    if n < 10 {
        seq![digit_char(n)]
    } else {
        decimal(n / 10).push(digit_char(n % 10))
    }
}

/// The decimal numeral for an integer, with a leading `-` below zero.
pub open spec fn signed_decimal(i: int) -> Seq<char> {
    if i < 0 {
        seq!['-'] + decimal((-i) as nat)
    } else {
        decimal(i as nat)
    }
}

/// The text of a boolean.
pub open spec fn flag_text(b: bool) -> Seq<char> {
    if b {
        "true"@
    } else {
        "false"@
    }
}

/// A prefix of a run of digits never denotes more than the whole run.
pub proof fn lemma_prefix_value(s: Seq<char>, k: int)
    requires
        0 <= k <= s.len(),
    ensures
        digits_value(s.subrange(0, k)) <= digits_value(s),
    decreases s.len(),
{
    if k == s.len() {
        assert(s.subrange(0, k) =~= s);
    } else {
        lemma_prefix_value(s.drop_last(), k);
        assert(s.drop_last().subrange(0, k) =~= s.subrange(0, k));
    }
}

/// Reads the digits of `s` from position `start` on.
fn read_digits(s: &str, start: usize, max: u64) -> (r: Option<u64>)
    requires
        start <= s@.len(),
    ensures
        match bounded_digits(s@.subrange(start as int, s@.len() as int), max as nat) {
            Some(v) => r == Some(v as u64),
            None => r is None,
        },
{
    let n = s.unicode_len();
    if start == n {
        return None;
    }
    let ghost body = s@.subrange(start as int, n as int);
    let mut acc: u64 = 0;
    let mut index: usize = 0;
    for c in it: s.chars()
        invariant
            it.seq() == s@,
            index == it.index(),
            n == s@.len(),
            start < n,
            body == s@.subrange(start as int, n as int),
            index <= start ==> acc == 0,
            index >= start ==> all_digits(body.subrange(0, index - start)),
            index >= start ==> acc == digits_value(body.subrange(0, index - start)),
            acc <= max,
    {
        if index >= start {
            assert(body[index - start] == c);
            if c < '0' || c > '9' {
                return None;
            }
            let d: u64 = (c as u32 - '0' as u32) as u64;
            let ghost next = body.subrange(0, index - start + 1);
            proof {
                assert(next.drop_last() =~= body.subrange(0, index - start));
                lemma_prefix_value(body, index - start + 1);
            }
            if max < d || acc > (max - d) / 10 {
                return None;
            }
            acc = acc * 10 + d;
        }
        index = index + 1;
    }
    assert(body.subrange(0, n - start) =~= body);
    Some(acc)
}

/// Whether `s` begins with `c`.
fn begins_with(s: &str, c: char) -> (r: bool)
    ensures
        r == (s@.len() > 0 && s@[0] == c),
{
    !s.is_empty() && s.get_char(0) == c
}

/// Whether two strings hold the same characters.
pub fn same_text(a: &str, b: &str) -> (r: bool)
    ensures
        r == (a@ == b@),
{
    let left = String::from_str(a);
    let right = String::from_str(b);
    left == right
}

/// Reads an unsigned 64-bit number.
pub fn parse_u64(s: &str) -> (r: Option<u64>)
    ensures
        match parse_unsigned(s@, u64::MAX as nat) {
            Some(v) => r == Some(v as u64),
            None => r is None,
        },
{
    assert(s@.subrange(0, s@.len() as int) =~= s@);
    if begins_with(s, '+') {
        read_digits(s, 1, u64::MAX)
    } else {
        read_digits(s, 0, u64::MAX)
    }
}

/// Reads an unsigned number of pointer width.
pub fn parse_usize(s: &str) -> (r: Option<usize>)
    ensures
        match parse_unsigned(s@, usize::MAX as nat) {
            Some(v) => r == Some(v as usize),
            None => r is None,
        },
{
    assert(s@.subrange(0, s@.len() as int) =~= s@);
    let start: usize = if begins_with(s, '+') {
        1
    } else {
        0
    };
    match read_digits(s, start, usize::MAX as u64) {
        Some(v) => Some(v as usize),
        None => None,
    }
}

/// Reads a signed 64-bit number.
pub fn parse_i64(s: &str) -> (r: Option<i64>)
    ensures
        match parse_signed(s@, 0x8000_0000_0000_0000, i64::MAX as nat) {
            Some(v) => r == Some(v as i64),
            None => r is None,
        },
{
    assert(s@.subrange(0, s@.len() as int) =~= s@);
    if begins_with(s, '-') {
        match read_digits(s, 1, 0x8000_0000_0000_0000) {
            Some(v) => {
                if v == 0x8000_0000_0000_0000 {
                    Some(i64::MIN)
                } else {
                    Some(-(v as i64))
                }
            },
            None => None,
        }
    } else {
        let start: usize = if begins_with(s, '+') {
            1
        } else {
            0
        };
        match read_digits(s, start, i64::MAX as u64) {
            Some(v) => Some(v as i64),
            None => None,
        }
    }
}

/// Reads a boolean.
pub fn parse_bool(s: &str) -> (r: Option<bool>)
    ensures
        r == parse_flag(s@),
{
    if same_text(s, "true") {
        Some(true)
    } else if same_text(s, "false") {
        Some(false)
    } else {
        None
    }
}

/// The one-character string for a digit.
fn digit_str(d: u128) -> (r: &'static str)
    requires
        d < 10,
    ensures
        r@ == seq![digit_char(d as nat)],
{
    proof {
        reveal_strlit("0");
        reveal_strlit("1");
        reveal_strlit("2");
        reveal_strlit("3");
        reveal_strlit("4");
        reveal_strlit("5");
        reveal_strlit("6");
        reveal_strlit("7");
        reveal_strlit("8");
        reveal_strlit("9");
    }
    let r = if d == 0 {
        "0"
    } else if d == 1 {
        "1"
    } else if d == 2 {
        "2"
    } else if d == 3 {
        "3"
    } else if d == 4 {
        "4"
    } else if d == 5 {
        "5"
    } else if d == 6 {
        "6"
    } else if d == 7 {
        "7"
    } else if d == 8 {
        "8"
    } else {
        "9"
    };
    r
}

/// Writes an unsigned 128-bit number in decimal.
pub fn u128_to_string(n: u128) -> (r: String)
    ensures
        r@ == decimal(n as nat),
    decreases n,
{
    if n < 10 {
        String::from_str(digit_str(n))
    } else {
        let mut r = u128_to_string(n / 10);
        r.append(digit_str(n % 10));
        r
    }
}

/// Writes an unsigned 64-bit number in decimal.
pub fn u64_to_string(n: u64) -> (r: String)
    ensures
        r@ == decimal(n as nat),
{
    u128_to_string(n as u128)
}

/// Writes an unsigned number of pointer width in decimal.
pub fn usize_to_string(n: usize) -> (r: String)
    ensures
        r@ == decimal(n as nat),
{
    u64_to_string(n as u64)
}

/// Writes a signed 64-bit number in decimal.
pub fn i64_to_string(i: i64) -> (r: String)
    ensures
        r@ == signed_decimal(i as int),
{
    if i < 0 {
        let magnitude: u64 = if i == i64::MIN {
            0x8000_0000_0000_0000
        } else {
            (-i) as u64
        };
        proof {
            reveal_strlit("-");
        }
        let mut r = String::from_str("-");
        r.append(u64_to_string(magnitude).as_str());
        r
    } else {
        u64_to_string(i as u64)
    }
}

/// Writes a boolean as `true` or `false`.
pub fn bool_to_string(b: bool) -> (r: String)
    ensures
        r@ == flag_text(b),
{
    if b {
        String::from_str("true")
    } else {
        String::from_str("false")
    }
}

/// A decimal numeral is a non-empty run of digits that denotes its number.
pub proof fn lemma_decimal_digits(n: nat)
    ensures
        decimal(n).len() > 0,
        all_digits(decimal(n)),
        digits_value(decimal(n)) == n,
    decreases n,
{
    if n < 10 {
        assert(digits_value(decimal(n).drop_last()) == 0);
    } else {
        lemma_decimal_digits(n / 10);
        assert(decimal(n).drop_last() =~= decimal(n / 10));
    }
}

/// Writing an unsigned number and reading it back gives the number.
pub proof fn lemma_unsigned_round_trip(n: nat, max: nat)
    requires
        n <= max,
    ensures
        parse_unsigned(decimal(n), max) == Some(n),
{
    lemma_decimal_digits(n);
}

/// Writing a signed number and reading it back gives the number.
pub proof fn lemma_signed_round_trip(i: int, min_magnitude: nat, max: nat)
    requires
        -(min_magnitude as int) <= i <= max,
    ensures
        parse_signed(signed_decimal(i), min_magnitude, max) == Some(i),
{
    if i < 0 {
        let m = (-i) as nat;
        lemma_decimal_digits(m);
        assert(signed_decimal(i).subrange(1, signed_decimal(i).len() as int) =~= decimal(m));
    } else {
        lemma_unsigned_round_trip(i as nat, max);
        assert(is_digit(decimal(i as nat)[0])) by {
            lemma_decimal_digits(i as nat);
        }
    }
}

/// Writing a boolean and reading it back gives the boolean.
pub proof fn lemma_flag_round_trip(b: bool)
    ensures
        parse_flag(flag_text(b)) == Some(b),
{
    reveal_strlit("true");
    reveal_strlit("false");
    assert("true"@.len() == 4);
}

} // verus!
