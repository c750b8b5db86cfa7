//! Numbers as decimal text, for messages and for the wire.

use vstd::prelude::*;
use vstd::string::*;

verus! {

/// The character of a decimal digit.
pub open spec fn digit_char(d: int) -> char {
    if d == 0 {
        '0'
    } else if d == 1 {
        '1'
    } else if d == 2 {
        '2'
    } else if d == 3 {
        '3'
    } else if d == 4 {
        '4'
    } else if d == 5 {
        '5'
    } else if d == 6 {
        '6'
    } else if d == 7 {
        '7'
    } else if d == 8 {
        '8'
    } else {
        '9'
    }
}

/// The decimal digits of a natural number, without leading zeros.
pub open spec fn decimal_nat(n: nat) -> Seq<char>
    decreases n,
{
    if n < 10 {
        seq![digit_char(n as int)]
    } else {
        decimal_nat(n / 10).push(digit_char((n % 10) as int))
    }
}

/// The decimal form of an integer: a minus sign for a negative number, then
/// the digits.
pub open spec fn decimal(i: int) -> Seq<char> {
    if i < 0 {
        seq!['-'] + decimal_nat((-i) as nat)
    } else {
        decimal_nat(i as nat)
    }
}

/// The text of one decimal digit.
fn digit_str(d: u64) -> (s: &'static str)
    requires
        d < 10,
    ensures
        s@ == seq![digit_char(d as int)],
{
    proof {
        reveal_strlit("0");
        reveal_strlit("1");
        reveal_strlit("2");
        reveal_strlit("3");
        reveal_strlit("4");
        reveal_strlit("5");
        reveal_strlit("6");
        reveal_strlit("7");
        reveal_strlit("8");
        reveal_strlit("9");
    }
    let s = if d == 0 {
        "0"
    } else if d == 1 {
        "1"
    } else if d == 2 {
        "2"
    } else if d == 3 {
        "3"
    } else if d == 4 {
        "4"
    } else if d == 5 {
        "5"
    } else if d == 6 {
        "6"
    } else if d == 7 {
        "7"
    } else if d == 8 {
        "8"
    } else {
        "9"
    };
    assert(s@ =~= seq![digit_char(d as int)]);
    s
}

/// Appends the decimal digits of `n` to `out`.
pub fn append_decimal_nat(out: &mut String, n: u64)
    ensures
        final(out)@ == old(out)@ + decimal_nat(n as nat),
    decreases n,
{
    if n >= 10 {
        append_decimal_nat(out, n / 10);
    }
    out.append(digit_str(n % 10));
    assert(out@ =~= old(out)@ + decimal_nat(n as nat));
}

/// Appends the decimal form of `v` to `out`.
pub fn append_decimal(out: &mut String, v: i64)
    ensures
        final(out)@ == old(out)@ + decimal(v as int),
{
    if v < 0 {
        proof {
            reveal_strlit("-");
        }
        out.append("-");
        let magnitude: u64 = if v == i64::MIN {
            9223372036854775808u64
        } else {
            (-v) as u64
        };
        append_decimal_nat(out, magnitude);
        assert(out@ =~= old(out)@ + decimal(v as int));
    } else {
        append_decimal_nat(out, v as u64);
    }
}

/// The decimal form of `v`.
pub fn to_decimal(v: i64) -> (s: String)
    ensures
        s@ == decimal(v as int),
{
    let mut out = String::new();
    append_decimal(&mut out, v);
    assert(out@ =~= decimal(v as int));
    out
}

/// The digit that a byte is the decimal character of, if it is one.
pub open spec fn digit_of(b: u8) -> Option<nat> {
    if 48 <= b && b <= 57 {
        Some((b - 48) as nat)
    } else {
        None
    }
}

/// The number that a run of decimal digits means; nothing for an empty run
/// and for one that holds anything but digits.
pub open spec fn digits_value(s: Seq<u8>) -> Option<nat>
    decreases s.len(),
{
    if s.len() == 0 {
        None
    } else if s.len() == 1 {
        digit_of(s[0])
    } else {
        match (digits_value(s.drop_last()), digit_of(s.last())) {
            (Some(upper), Some(digit)) => Some(upper * 10 + digit),
            _ => None,
        }
    }
}

/// The integer that a text means, given by its bytes: an optional sign and
/// then decimal digits, with a value that a 64-bit integer holds.
pub open spec fn integer_of(s: Seq<u8>) -> Option<i64> {
    if s.len() > 0 && s[0] == 45 {
        match digits_value(s.skip(1)) {
            Some(magnitude) => if magnitude <= 0x8000_0000_0000_0000 {
                Some((-(magnitude as int)) as i64)
            } else {
                None
            },
            None => None,
        }
    } else {
        let digits = if s.len() > 0 && s[0] == 43 {
            s.skip(1)
        } else {
            s
        };
        match digits_value(digits) {
            Some(magnitude) => if magnitude <= 0x7FFF_FFFF_FFFF_FFFF {
                Some(magnitude as i64)
            } else {
                None
            },
            None => None,
        }
    }
}

/// The bytes of a text of ASCII characters.
pub open spec fn ascii_bytes(chars: Seq<char>) -> Seq<u8> {
    Seq::new(chars.len(), |i: int| chars[i] as u8)
}

/// A run of digits means ten times what it means without its last digit,
/// plus that digit.
proof fn lemma_digits_step(s: Seq<u8>, k: int)
    requires
        1 <= k < s.len(),
    ensures
        digits_value(s.take(k + 1)) == match (digits_value(s.take(k)), digit_of(s[k])) {
            (Some(upper), Some(digit)) => Some(upper * 10 + digit),
            _ => None,
        },
{
    assert(s.take(k + 1).drop_last() =~= s.take(k));
    assert(s.take(k + 1).last() == s[k]);
}

/// What the start of a run means bounds what the run means: the run means
/// nothing if its start means nothing, and no less than its start.
proof fn lemma_digits_grow(s: Seq<u8>, k: int)
    requires
        1 <= k <= s.len(),
    ensures
        digits_value(s.take(k)) is None ==> digits_value(s) is None,
        digits_value(s) matches Some(v) ==> digits_value(s.take(k)) matches Some(p) && p <= v,
    decreases s.len() - k,
{
    if k < s.len() {
        lemma_digits_step(s, k);
        lemma_digits_grow(s, k + 1);
    } else {
        assert(s.take(k) =~= s);
    }
}

/// The digits of a number mean that number.
pub proof fn lemma_digits_of_decimal(n: nat)
    ensures
        digits_value(ascii_bytes(decimal_nat(n))) == Some(n),
        decimal_nat(n).len() >= 1,
        48 <= ascii_bytes(decimal_nat(n))[0] <= 57,
        forall|i: int|
            0 <= i < decimal_nat(n).len() ==> 48 <= (#[trigger] decimal_nat(n)[i]) as int <= 57,
    decreases n,
{
    if n < 10 {
        assert(digit_char(n as int) as int == 48 + n);
        assert(ascii_bytes(decimal_nat(n)) =~= seq![(48 + n) as u8]);
    } else {
        lemma_digits_of_decimal(n / 10);
        let upper = decimal_nat(n / 10);
        let all = decimal_nat(n);
        assert(all == upper.push(digit_char((n % 10) as int)));
        assert(digit_char((n % 10) as int) as int == 48 + n % 10);
        assert(ascii_bytes(all).drop_last() =~= ascii_bytes(upper));
        assert(ascii_bytes(all).last() == (48 + n % 10) as u8);
        assert(ascii_bytes(all)[0] == ascii_bytes(upper)[0]);
        assert forall|i: int| 0 <= i < all.len() implies 48 <= (#[trigger] all[i]) as int <= 57 by {
            if i < upper.len() {
                assert(all[i] == upper[i]);
            }
        }
    }
}

/// The decimal form of an integer means that integer.
pub proof fn lemma_decimal_round_trip(v: i64)
    ensures
        integer_of(ascii_bytes(decimal(v as int))) == Some(v),
        vstd::utf8::is_ascii_chars(decimal(v as int)),
{
    if v < 0 {
        let magnitude = (-(v as int)) as nat;
        lemma_digits_of_decimal(magnitude);
        let text = decimal(v as int);
        assert(ascii_bytes(text).skip(1) =~= ascii_bytes(decimal_nat(magnitude)));
        assert(ascii_bytes(text)[0] == 45);
        assert forall|i: int| 0 <= i < text.len() implies '\0' <= (#[trigger] text[i]) <= '\u{7f}' by {
            if i > 0 {
                assert(text[i] == decimal_nat(magnitude)[i - 1]);
                assert(48 <= decimal_nat(magnitude)[i - 1] as int <= 57);
            }
        }
    } else {
        lemma_digits_of_decimal(v as nat);
        let text = decimal(v as int);
        assert forall|i: int| 0 <= i < text.len() implies '\0' <= (#[trigger] text[i]) <= '\u{7f}' by {
            assert(48 <= text[i] as int <= 57);
        }
    }
}

/// Reads an integer from its decimal text: an optional sign, then digits.
/// Nothing is read from any other text, nor from digits whose value a 64-bit
/// integer does not hold.
pub fn parse_decimal(text: &str) -> (r: Option<i64>)
    ensures
        r == integer_of(text.spec_bytes()),
{
    let bytes = text.as_bytes();
    let len: usize = bytes.len();
    let negative: bool = len > 0 && bytes[0] == 45;
    let start: usize = if len > 0 && (bytes[0] == 45 || bytes[0] == 43) {
        1
    } else {
        0
    };
    let limit: u64 = if negative {
        0x8000_0000_0000_0000
    } else {
        0x7FFF_FFFF_FFFF_FFFF
    };
    let ghost digits = bytes@.skip(start as int);
    if start == len {
        return None;
    }
    assert(start == 0 ==> digits =~= bytes@);
    let mut acc: u64 = 0;
    let mut i: usize = start;
    while i < len
        invariant
            start <= i <= len,
            start < len,
            len == bytes@.len(),
            digits == bytes@.skip(start as int),
            start == 0 ==> digits == bytes@,
            bytes@ == text.spec_bytes(),
            negative == (bytes@[0] == 45),
            start == (if bytes@[0] == 45 || bytes@[0] == 43 { 1int } else { 0int }),
            limit == (if negative { 0x8000_0000_0000_0000u64 } else { 0x7FFF_FFFF_FFFF_FFFFu64 }),
            acc <= limit,
            i == start ==> acc == 0,
            i > start ==> digits_value(digits.take(i - start)) == Some(acc as nat),
        decreases len - i,
    {
        let b: u8 = bytes[i];
        let ghost k = i - start;
        assert(digits[k] == b);
        proof {
            if k >= 1 {
                lemma_digits_step(digits, k);
            } else {
                assert(digits.take(1) =~= seq![b]);
            }
            lemma_digits_grow(digits, k + 1);
        }
        if b < 48 || b > 57 {
            assert(digits_value(digits.take(k + 1)) is None);
            return None;
        }
        let d: u64 = (b - 48) as u64;
        if acc > (limit - d) / 10 {
            assert(digits_value(digits.take(k + 1)) == Some((acc * 10 + d) as nat));
            assert(acc * 10 + d > limit);
            return None;
        }
        assert(digits_value(digits.take(k + 1)) == Some((acc * 10 + d) as nat));
        acc = acc * 10 + d;
        i += 1;
    }
    assert(digits.take(len - start) =~= digits);
    if negative {
        if acc == 0x8000_0000_0000_0000 {
            Some(i64::MIN)
        } else {
            Some(-(acc as i64))
        }
    } else {
        Some(acc as i64)
    }
}

} // verus!
