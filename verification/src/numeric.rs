//! Lossless parsing of the unsigned decimal numerals in which on-chain
//! amounts, reserves and timestamps arrive, and the one deliberate exception:
//! narrowing a spin amount into a 32-bit counter with a zero fallback.

use vstd::prelude::*;

verus! {

pub open spec fn is_dec_digit(c: char) -> bool {
    '0' as u32 <= c as u32 && c as u32 <= '9' as u32
}

pub open spec fn digit_val(c: char) -> nat {
    (c as int - '0' as int) as nat
}

/// A non-empty string of ASCII decimal digits.
pub open spec fn is_dec_numeral(s: Seq<char>) -> bool {
    s.len() > 0 && forall|i: int| 0 <= i < s.len() ==> is_dec_digit(#[trigger] s[i])
}

/// Value of a digit string, most significant digit first.
pub open spec fn dec_val(s: Seq<char>) -> nat
    decreases s.len(),
{
    if s.len() == 0 {
        0
    } else {
        dec_val(s.drop_last()) * 10 + digit_val(s.last())
    }
}

/// A prefix of a digit string never exceeds the whole string's value.
proof fn lemma_dec_val_prefix_le(s: Seq<char>, i: int)
    requires
        0 <= i <= s.len(),
    ensures
        dec_val(s.take(i)) <= dec_val(s),
    decreases s.len() - i,
{
    if i < s.len() {
        assert(s.take(i + 1).drop_last() =~= s.take(i));
        assert(dec_val(s.take(i + 1)) == dec_val(s.take(i)) * 10 + digit_val(s.take(i + 1).last()));
        assert(dec_val(s.take(i)) * 10 >= dec_val(s.take(i)));
        lemma_dec_val_prefix_le(s, i + 1);
    } else {
        assert(s.take(i) =~= s);
    }
}

/// Parses a non-empty unsigned decimal numeral, losslessly; anything else,
/// and any value beyond the 128-bit range, is rejected.
pub fn parse_u128(s: &str) -> (r: Option<u128>)
    ensures
        r is Some <==> is_dec_numeral(s@) && dec_val(s@) <= u128::MAX,
        r matches Some(v) ==> v == dec_val(s@),
{
    let n = s.unicode_len();
    if n == 0 {
        return None;
    }
    let mut acc: u128 = 0;
    let mut i: usize = 0;
    proof {
        assert(s@.take(0) =~= Seq::<char>::empty());
    }
    while i < n
        invariant
            i <= n,
            n == s@.len(),
            forall|j: int| 0 <= j < i ==> is_dec_digit(#[trigger] s@[j]),
            acc == dec_val(s@.take(i as int)),
        decreases n - i,
    {
        let c = s.get_char(i);
        let d = c as u32;
        if d < 48 || d > 57 {
            return None;
        }
        proof {
            assert(s@.take(i as int + 1).drop_last() =~= s@.take(i as int));
            assert(s@.take(i as int + 1).last() == s@[i as int]);
        }
        let acc10 = match acc.checked_mul(10) {
            Some(x) => x,
            None => {
                proof {
                    assert(dec_val(s@.take(i as int + 1)) > u128::MAX);
                    lemma_dec_val_prefix_le(s@, i as int + 1);
                }
                return None;
            },
        };
        acc = match acc10.checked_add((d - 48) as u128) {
            Some(x) => x,
            None => {
                proof {
                    assert(dec_val(s@.take(i as int + 1)) > u128::MAX);
                    lemma_dec_val_prefix_le(s@, i as int + 1);
                }
                return None;
            },
        };
        i = i + 1;
    }
    proof {
        assert(s@.take(n as int) =~= s@);
    }
    Some(acc)
}

/// Parses a non-empty unsigned decimal numeral into a signed 64-bit column
/// value; values beyond `i64::MAX` are rejected rather than wrapped.
pub fn parse_i64(s: &str) -> (r: Option<i64>)
    ensures
        r is Some <==> is_dec_numeral(s@) && dec_val(s@) <= i64::MAX,
        r matches Some(v) ==> v == dec_val(s@),
{
    match parse_u128(s) {
        Some(v) => {
            if v <= i64::MAX as u128 {
                Some(v as i64)
            } else {
                None
            }
        },
        None => None,
    }
}

/// Value a spin amount contributes to the 32-bit experience counters: the
/// amount itself when it fits, and zero when it is out of range.  An
/// out-of-range amount is treated as a zero-value spin, not as an error.
pub open spec fn spec_narrowed_xp(amount: i64) -> i32 {
    if i32::MIN <= amount <= i32::MAX {
        amount as i32
    } else {
        0
    }
}

pub fn narrowed_xp(amount: i64) -> (r: i32)
    ensures
        r == spec_narrowed_xp(amount),
{
    if amount >= i32::MIN as i64 && amount <= i32::MAX as i64 {
        amount as i32
    } else {
        0
    }
}

/// The decimal digit character for a value below ten.
pub open spec fn digit_char(d: int) -> char {
    if d == 0 {
        '0'
    } else if d == 1 {
        '1'
    } else if d == 2 {
        '2'
    } else if d == 3 {
        '3'
    } else if d == 4 {
        '4'
    } else if d == 5 {
        '5'
    } else if d == 6 {
        '6'
    } else if d == 7 {
        '7'
    } else if d == 8 {
        '8'
    } else {
        '9'
    }
}

/// The canonical decimal numeral of a value: most significant digit first,
/// no leading zeros.
pub open spec fn dec_digits_of(v: nat) -> Seq<char>
    decreases v,
{
    if v < 10 {
        seq![digit_char(v as int)]
    } else {
        dec_digits_of((v / 10) as nat).push(digit_char((v % 10) as int))
    }
}

/// Formatting is the inverse of parsing: the canonical numeral of `v` is a
/// digit string whose value is `v`.
pub proof fn lemma_dec_digits_of_value(v: nat)
    ensures
        is_dec_numeral(dec_digits_of(v)),
        dec_val(dec_digits_of(v)) == v,
    decreases v,
{
    if v < 10 {
        let s = seq![digit_char(v as int)];
        assert(s.drop_last() =~= Seq::<char>::empty());
        assert(s.last() == digit_char(v as int));
        assert(dec_val(s) == dec_val(s.drop_last()) * 10 + digit_val(s.last()));
        assert(digit_val(digit_char(v as int)) == v);
    } else {
        lemma_dec_digits_of_value((v / 10) as nat);
        let s = dec_digits_of((v / 10) as nat);
        let c = digit_char((v % 10) as int);
        assert(s.push(c).drop_last() =~= s);
        assert(s.push(c).last() == c);
        assert forall|i: int| 0 <= i < s.push(c).len() implies is_dec_digit(
            #[trigger] s.push(c)[i],
        ) by {
            if i < s.len() {
                assert(s.push(c)[i] == s[i]);
            }
        }
    }
}

fn digit_str(d: u64) -> (r: &'static str)
    requires
        d < 10,
    ensures
        r@ == seq![digit_char(d as int)],
{
    proof {
        reveal_strlit("0");
        reveal_strlit("1");
        reveal_strlit("2");
        reveal_strlit("3");
        reveal_strlit("4");
        reveal_strlit("5");
        reveal_strlit("6");
        reveal_strlit("7");
        reveal_strlit("8");
        reveal_strlit("9");
    }
    let r = match d {
        0 => "0",
        1 => "1",
        2 => "2",
        3 => "3",
        4 => "4",
        5 => "5",
        6 => "6",
        7 => "7",
        8 => "8",
        _ => "9",
    };
    proof {
        assert(r@ =~= seq![digit_char(d as int)]);
    }
    r
}

/// Formats a value as its canonical decimal numeral.
pub fn u64_to_dec(v: u64) -> (r: String)
    ensures
        r@ == dec_digits_of(v as nat),
    decreases v,
{
    if v < 10 {
        String::from_str(digit_str(v))
    } else {
        let mut s = u64_to_dec(v / 10);
        s.append(digit_str(v % 10));
        proof {
            assert(dec_digits_of((v / 10) as nat) + seq![digit_char((v % 10) as int)]
                =~= dec_digits_of((v / 10) as nat).push(digit_char((v % 10) as int)));
        }
        s
    }
}

/// The canonical signed decimal numeral: a minus sign before the magnitude
/// for negative values.
pub open spec fn dec_digits_of_i64(v: int) -> Seq<char> {
    if v >= 0 {
        dec_digits_of(v as nat)
    } else {
        seq!['-'] + dec_digits_of((-v) as nat)
    }
}

/// Formats a signed value as its canonical decimal numeral.
pub fn i64_to_dec(v: i64) -> (r: String)
    ensures
        r@ == dec_digits_of_i64(v as int),
{
    if v >= 0 {
        u64_to_dec(v as u64)
    } else {
        let m = (-(v as i128)) as u64;
        proof {
            assert(m == -(v as int));
            reveal_strlit("-");
        }
        let mut s = String::from_str("-");
        let digits = u64_to_dec(m);
        s.append(digits.as_str());
        proof {
            assert("-"@ + dec_digits_of(m as nat) =~= seq!['-'] + dec_digits_of((-(v as int)) as nat));
        }
        s
    }
}

} // verus!
