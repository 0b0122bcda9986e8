//! Decimal literal grammar for the integer leaf kinds: the mathematical
//! meaning of digit strings, and verified conversions between machine
//! integers and their canonical decimal text.

use vstd::prelude::*;

verus! {

/// A decimal digit character.
pub open spec fn is_digit(c: char) -> bool {
    '0' as u32 <= c as u32 && c as u32 <= '9' as u32
}

/// Numeric value of one digit character.
pub open spec fn digit_val(c: char) -> nat
    recommends
        is_digit(c),
{
    (c as u32 - '0' as u32) as nat
}

/// The digit character for one value below ten.
pub open spec fn digit_char(d: nat) -> char
    recommends
        d < 10,
{
    (('0' as u32 + d) as u8) as char
}

/// Every character of `s` is a decimal digit.
pub open spec fn all_digits(s: Seq<char>) -> bool {
    forall|i: int| 0 <= i < s.len() ==> is_digit(#[trigger] s[i])
}

/// Value of a digit string read most-significant first.
pub open spec fn digits_val(s: Seq<char>) -> nat
    decreases s.len(),
{
    if s.len() == 0 {
        0
    } else {
        10 * digits_val(s.drop_last()) + digit_val(s.last())
    }
}

/// Canonical decimal representation of a natural number: no sign, no
/// leading zeros (a single `'0'` for zero).
pub open spec fn dec_rep(n: nat) -> Seq<char>
    decreases n,
{
    if n < 10 {
        seq![digit_char(n)]
    } else {
        dec_rep(n / 10).push(digit_char(n % 10))
    }
}

/// Representation of a signed value: a `'-'` sign for negative values,
/// then the canonical representation of the magnitude.
pub open spec fn dec_rep_int(n: int) -> Seq<char> {
    if n >= 0 {
        dec_rep(n as nat)
    } else {
        seq!['-'] + dec_rep((-n) as nat)
    }
}

/// The digits of an unsigned literal: everything after an optional
/// leading `'+'`.
pub open spec fn unsigned_digits(s: Seq<char>) -> Seq<char> {
    if s.len() > 0 && s[0] == '+' {
        s.drop_first()
    } else {
        s
    }
}

/// An unsigned literal is an optional `'+'` followed by one or more
/// decimal digits; this is the grammar of unsigned integer parsing.
pub open spec fn is_unsigned_literal(s: Seq<char>) -> bool {
    unsigned_digits(s).len() > 0 && all_digits(unsigned_digits(s))
}

/// Value of an unsigned literal.
pub open spec fn unsigned_literal_val(s: Seq<char>) -> nat {
    digits_val(unsigned_digits(s))
}

/// The sign that a signed literal denotes.
pub open spec fn signed_sign(s: Seq<char>) -> int {
    if s.len() > 0 && s[0] == '-' {
        -1
    } else {
        1
    }
}

/// The digits of a signed literal: everything after an optional leading
/// `'+'` or `'-'`.
pub open spec fn signed_digits(s: Seq<char>) -> Seq<char> {
    if s.len() > 0 && (s[0] == '-' || s[0] == '+') {
        s.drop_first()
    } else {
        s
    }
}

/// A signed literal is an optional sign followed by one or more decimal
/// digits.
pub open spec fn is_signed_literal(s: Seq<char>) -> bool {
    signed_digits(s).len() > 0 && all_digits(signed_digits(s))
}

/// Value of a signed literal.
pub open spec fn signed_literal_val(s: Seq<char>) -> int {
    signed_sign(s) * digits_val(signed_digits(s))
}

/// What parsing text as an unsigned 32-bit value yields: the value when
/// the text is an unsigned literal in range, nothing otherwise.
pub open spec fn parse_u32_spec(s: Seq<char>) -> Option<u32> {
    if is_unsigned_literal(s) && unsigned_literal_val(s) <= u32::MAX {
        Some(unsigned_literal_val(s) as u32)
    } else {
        None
    }
}

/// What parsing text as an unsigned 64-bit value yields.
pub open spec fn parse_u64_spec(s: Seq<char>) -> Option<u64> {
    if is_unsigned_literal(s) && unsigned_literal_val(s) <= u64::MAX {
        Some(unsigned_literal_val(s) as u64)
    } else {
        None
    }
}

/// What parsing text as a signed 32-bit value yields.
pub open spec fn parse_i32_spec(s: Seq<char>) -> Option<i32> {
    if is_signed_literal(s) && i32::MIN <= signed_literal_val(s) <= i32::MAX {
        Some(signed_literal_val(s) as i32)
    } else {
        None
    }
}

/// What parsing text as a signed 64-bit value yields.
pub open spec fn parse_i64_spec(s: Seq<char>) -> Option<i64> {
    if is_signed_literal(s) && i64::MIN <= signed_literal_val(s) <= i64::MAX {
        Some(signed_literal_val(s) as i64)
    } else {
        None
    }
}

proof fn lemma_digit_char_val(d: nat)
    requires
        d < 10,
    ensures
        is_digit(digit_char(d)),
        digit_val(digit_char(d)) == d,
{
    assert(('0' as u32 + d) < 256);
    assert(digit_char(d) as u32 == '0' as u32 + d);
}

/// The canonical representation is made of digits and evaluates back to
/// the number it was made from.
pub proof fn lemma_dec_rep_val(n: nat)
    ensures
        dec_rep(n).len() >= 1,
        all_digits(dec_rep(n)),
        digits_val(dec_rep(n)) == n,
    decreases n,
{
    if n < 10 {
        lemma_digit_char_val(n);
        let s = dec_rep(n);
        assert(s =~= seq![digit_char(n)]);
        assert(s.last() == digit_char(n));
        assert(s.drop_last() =~= Seq::<char>::empty());
        assert(digits_val(s) == 10 * digits_val(s.drop_last()) + digit_val(s.last()));
        assert(digits_val(s.drop_last()) == 0);
    } else {
        lemma_dec_rep_val(n / 10);
        lemma_digit_char_val(n % 10);
        let s = dec_rep(n);
        assert(s == dec_rep(n / 10).push(digit_char(n % 10)));
        assert(s.drop_last() =~= dec_rep(n / 10));
        assert(s.last() == digit_char(n % 10));
        assert forall|i: int| 0 <= i < s.len() implies is_digit(#[trigger] s[i]) by {
            if i < s.len() - 1 {
                assert(s[i] == dec_rep(n / 10)[i]);
            }
        }
        assert(digits_val(s) == 10 * (n / 10) + n % 10);
    }
}

/// Appending one digit multiplies the value by ten and adds the digit.
proof fn lemma_digits_val_snoc(u: Seq<char>, c: char)
    ensures
        digits_val(u.push(c)) == 10 * digits_val(u) + digit_val(c),
{
    assert(u.push(c).drop_last() =~= u);
    assert(u.push(c).last() == c);
}

/// The value of a prefix of a digit string never exceeds the value of a
/// longer prefix.
proof fn lemma_digits_val_take_mono(t: Seq<char>, i: int, j: int)
    requires
        0 <= i <= j <= t.len(),
    ensures
        digits_val(t.take(i)) <= digits_val(t.take(j)),
    decreases j - i,
{
    if i < j {
        lemma_digits_val_take_mono(t, i, j - 1);
        assert(t.take(j).drop_last() =~= t.take(j - 1));
        assert(digits_val(t.take(j)) == 10 * digits_val(t.take(j - 1)) + digit_val(
            t.take(j).last(),
        ));
    }
}

/// Reads the digit run of `s` from `start` to the end, refusing any
/// non-digit, an empty run, and any value above `limit`.
fn parse_digits_limited(s: &str, start: usize, limit: u64) -> (r: Option<u64>)
    requires
        start <= s@.len(),
    ensures
        ({
            let d = s@.skip(start as int);
            match r {
                Some(v) => d.len() > 0 && all_digits(d) && digits_val(d) <= limit && v == digits_val(
                    d,
                ),
                None => !(d.len() > 0 && all_digits(d) && digits_val(d) <= limit),
            }
        }),
{
    let ghost whole = s@.skip(start as int);
    let len = s.unicode_len();
    if start == len {
        return None;
    }
    let mut i = start;
    let mut acc: u64 = 0;
    while i < len
        invariant
            start <= i <= len,
            len == s@.len(),
            start < len,
            whole == s@.skip(start as int),
            acc == digits_val(s@.subrange(start as int, i as int)),
            all_digits(s@.subrange(start as int, i as int)),
            acc <= limit,
        decreases len - i,
    {
        let ghost pre = s@.subrange(start as int, i as int);
        let ghost pre1 = s@.subrange(start as int, i as int + 1);
        proof {
            assert(pre1.drop_last() =~= pre);
            assert(pre1.last() == s@[i as int]);
            assert(whole.take(i as int + 1 - start) =~= pre1);
        }
        let c = s.get_char(i);
        let cu = c as u32;
        if cu < '0' as u32 || cu > '9' as u32 {
            proof {
                assert(whole[i - start] == s@[i as int]);
                assert(!is_digit(whole[i - start]));
            }
            return None;
        }
        let d = (cu - '0' as u32) as u64;
        proof {
            assert(d == digit_val(s@[i as int]));
            assert(digits_val(pre1) == 10 * digits_val(pre) + digit_val(s@[i as int]));
        }
        if d > limit || acc > (limit - d) / 10 {
            proof {
                let l = (limit - d) as int;
                assert(l / 10 * 10 + l % 10 == l);
                assert(10 * digits_val(pre) + d > limit);
                lemma_digits_val_take_mono(whole, i as int + 1 - start, whole.len() as int);
                assert(whole.take(whole.len() as int) =~= whole);
                assert(digits_val(whole) > limit);
            }
            return None;
        }
        acc = acc * 10 + d;
        i = i + 1;
    }
    proof {
        assert(s@.subrange(start as int, len as int) =~= whole);
    }
    Some(acc)
}

/// Parses text as an unsigned 64-bit decimal literal.
pub fn parse_u64(s: &str) -> (r: Option<u64>)
    ensures
        r == parse_u64_spec(s@),
{
    let len = s.unicode_len();
    let start: usize = if len > 0 && s.get_char(0) == '+' {
        1
    } else {
        0
    };
    proof {
        assert(s@.skip(start as int) =~= unsigned_digits(s@));
    }
    parse_digits_limited(s, start, u64::MAX)
}

/// Parses text as an unsigned 32-bit decimal literal.
pub fn parse_u32(s: &str) -> (r: Option<u32>)
    ensures
        r == parse_u32_spec(s@),
{
    let len = s.unicode_len();
    let start: usize = if len > 0 && s.get_char(0) == '+' {
        1
    } else {
        0
    };
    proof {
        assert(s@.skip(start as int) =~= unsigned_digits(s@));
    }
    match parse_digits_limited(s, start, 0xffff_ffff) {
        Some(v) => Some(v as u32),
        None => None,
    }
}

/// Parses text as a signed 64-bit decimal literal.
pub fn parse_i64(s: &str) -> (r: Option<i64>)
    ensures
        r == parse_i64_spec(s@),
{
    let len = s.unicode_len();
    let neg = len > 0 && s.get_char(0) == '-';
    let signed = neg || (len > 0 && s.get_char(0) == '+');
    let start: usize = if signed {
        1
    } else {
        0
    };
    let limit: u64 = if neg {
        9223372036854775808
    } else {
        9223372036854775807
    };
    proof {
        assert(s@.skip(start as int) =~= signed_digits(s@));
    }
    match parse_digits_limited(s, start, limit) {
        Some(v) => if neg {
            if v == 9223372036854775808 {
                Some(i64::MIN)
            } else {
                Some(-(v as i64))
            }
        } else {
            Some(v as i64)
        },
        None => None,
    }
}

/// Parses text as a signed 32-bit decimal literal.
pub fn parse_i32(s: &str) -> (r: Option<i32>)
    ensures
        r == parse_i32_spec(s@),
{
    let len = s.unicode_len();
    let neg = len > 0 && s.get_char(0) == '-';
    let signed = neg || (len > 0 && s.get_char(0) == '+');
    let start: usize = if signed {
        1
    } else {
        0
    };
    let limit: u64 = if neg {
        2147483648
    } else {
        2147483647
    };
    proof {
        assert(s@.skip(start as int) =~= signed_digits(s@));
    }
    match parse_digits_limited(s, start, limit) {
        Some(v) => if neg {
            if v == 2147483648 {
                Some(i32::MIN)
            } else {
                Some(-(v as i32))
            }
        } else {
            Some(v as i32)
        },
        None => None,
    }
}

/// Parsing the canonical text of an unsigned 32-bit value yields that
/// value back.
pub proof fn lemma_u32_round_trip(n: u32)
    ensures
        parse_u32_spec(dec_rep(n as nat)) == Some(n),
{
    lemma_dec_rep_val(n as nat);
    let s = dec_rep(n as nat);
    assert(is_digit(s[0]));
    assert(s[0] != '+');
    assert(unsigned_digits(s) == s);
}

/// Parsing the canonical text of an unsigned 64-bit value yields that
/// value back.
pub proof fn lemma_u64_round_trip(n: u64)
    ensures
        parse_u64_spec(dec_rep(n as nat)) == Some(n),
{
    lemma_dec_rep_val(n as nat);
    let s = dec_rep(n as nat);
    assert(is_digit(s[0]));
    assert(s[0] != '+');
    assert(unsigned_digits(s) == s);
}

/// Parsing the canonical text of a signed 64-bit value yields that value
/// back.
pub proof fn lemma_i64_round_trip(n: i64)
    ensures
        parse_i64_spec(dec_rep_int(n as int)) == Some(n),
{
    let s = dec_rep_int(n as int);
    if n >= 0 {
        lemma_dec_rep_val(n as nat);
        assert(is_digit(s[0]));
        assert(s[0] != '+' && s[0] != '-');
        assert(signed_digits(s) == s);
    } else {
        let m = (-(n as int)) as nat;
        lemma_dec_rep_val(m);
        assert(s[0] == '-');
        assert(signed_digits(s) =~= dec_rep(m));
        assert(signed_literal_val(s) == -1 * (m as int));
    }
}

/// Parsing the canonical text of a signed 32-bit value yields that value
/// back.
pub proof fn lemma_i32_round_trip(n: i32)
    ensures
        parse_i32_spec(dec_rep_int(n as int)) == Some(n),
{
    let s = dec_rep_int(n as int);
    if n >= 0 {
        lemma_dec_rep_val(n as nat);
        assert(is_digit(s[0]));
        assert(s[0] != '+' && s[0] != '-');
        assert(signed_digits(s) == s);
    } else {
        let m = (-(n as int)) as nat;
        lemma_dec_rep_val(m);
        assert(s[0] == '-');
        assert(signed_digits(s) =~= dec_rep(m));
        assert(signed_literal_val(s) == -1 * (m as int));
    }
}

/// The one-character string for one digit value.
fn digit_str(d: u8) -> (r: &'static str)
    requires
        d < 10,
    ensures
        r@ == seq![digit_char(d as nat)],
{
    proof {
        reveal_strlit("0");
        reveal_strlit("1");
        reveal_strlit("2");
        reveal_strlit("3");
        reveal_strlit("4");
        reveal_strlit("5");
        reveal_strlit("6");
        reveal_strlit("7");
        reveal_strlit("8");
        reveal_strlit("9");
    }
    let r = match d {
        0 => "0",
        1 => "1",
        2 => "2",
        3 => "3",
        4 => "4",
        5 => "5",
        6 => "6",
        7 => "7",
        8 => "8",
        9 => "9",
        _ => "0",
    };
    proof {
        assert(r@ =~= seq![digit_char(d as nat)]);
    }
    r
}

/// Canonical decimal text of an unsigned 64-bit value.
pub fn format_u64(n: u64) -> (r: String)
    ensures
        r@ == dec_rep(n as nat),
    decreases n,
{
    if n < 10 {
        String::from_str(digit_str(n as u8))
    } else {
        let front = format_u64(n / 10);
        let r = front.concat(digit_str((n % 10) as u8));
        proof {
            assert(r@ =~= dec_rep((n / 10) as nat).push(digit_char((n % 10) as nat)));
        }
        r
    }
}

/// Canonical decimal text of an unsigned 32-bit value.
pub fn format_u32(n: u32) -> (r: String)
    ensures
        r@ == dec_rep(n as nat),
{
    format_u64(n as u64)
}

/// Canonical decimal text of a signed 64-bit value.
pub fn format_i64(n: i64) -> (r: String)
    ensures
        r@ == dec_rep_int(n as int),
{
    if n >= 0 {
        format_u64(n as u64)
    } else {
        let mag: u64 = ((-(n + 1)) as u64) + 1;
        assert(mag == -(n as int));
        let r = String::from_str("-").concat(format_u64(mag).as_str());
        proof {
            reveal_strlit("-");
            assert("-"@ =~= seq!['-']);
        }
        r
    }
}

/// Canonical decimal text of a signed 32-bit value.
pub fn format_i32(n: i32) -> (r: String)
    ensures
        r@ == dec_rep_int(n as int),
{
    format_i64(n as i64)
}

} // verus!
