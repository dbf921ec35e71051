//! Numbers in decimal notation.
use crate::text::{chars_of, push_text, whole_string};
use vstd::prelude::*;

verus! {

/// The character of a digit from 0 to 9.
pub open spec fn digit_char(d: int) -> char {
    (48 + d) as char
}

/// A natural number in decimal notation.
pub open spec fn decimal(n: nat) -> Seq<char>
    decreases n,
{
    if n < 10 {
        seq![digit_char(n as int)]
    } else {
        decimal(n / 10).push(digit_char((n % 10) as int))
    }
}

/// An integer in decimal notation, with a minus sign where it is negative.
pub open spec fn signed_decimal(i: int) -> Seq<char> {
    if i < 0 {
        seq!['-'] + decimal((-i) as nat)
    } else {
        decimal(i as nat)
    }
}

/// `s` with zeros in front, so that it has at least `width` characters.
pub open spec fn zero_padded(s: Seq<char>, width: int) -> Seq<char> {
    Seq::new(
        if s.len() < width {
            (width - s.len()) as nat
        } else {
            0
        },
        |i: int| '0',
    ) + s
}

/// An integer in decimal notation, at least `width` characters wide. The zeros
/// that fill it up stand behind the minus sign.
pub open spec fn padded_decimal(i: int, width: int) -> Seq<char> {
    if i < 0 {
        seq!['-'] + zero_padded(decimal((-i) as nat), width - 1)
    } else {
        zero_padded(decimal(i as nat), width)
    }
}

/// Whether `c` is an ASCII digit.
pub open spec fn ascii_digit(c: char) -> bool {
    '0' <= c <= '9'
}

/// Whether all characters of `s` are ASCII digits.
pub open spec fn all_digits(s: Seq<char>) -> bool {
    forall|i: int| 0 <= i < s.len() ==> ascii_digit(#[trigger] s[i])
}

/// The number that a sequence of ASCII digits denotes.
pub open spec fn decimal_value(s: Seq<char>) -> nat
    decreases s.len(),
{
    if s.len() == 0 {
        0
    } else {
        decimal_value(s.drop_last()) * 10 + ((s.last() as int - 48) as nat)
    }
}

/// The number that `s` denotes: digits, with an optional plus sign in front.
/// `None` where `s` is anything else, or where the number is over `max`.
pub open spec fn unsigned_value(s: Seq<char>, max: nat) -> Option<nat> {
    let digits = if s.len() > 1 && s[0] == '+' {
        s.subrange(1, s.len() as int)
    } else {
        s
    };
    if digits.len() > 0 && all_digits(digits) && decimal_value(digits) <= max {
        Some(decimal_value(digits))
    } else {
        None
    }
}

/// Decimal notation is digits only and has no leading zero.
pub proof fn lemma_decimal_digits(n: nat)
    ensures
        decimal(n).len() > 0,
        all_digits(decimal(n)),
        n > 0 ==> decimal(n)[0] != '0',
    decreases n,
{
    if n >= 10 {
        lemma_decimal_digits(n / 10);
    }
}

/// Reading a number in decimal notation gives the number back.
pub proof fn law_decimal_reads_back(n: nat)
    ensures
        decimal_value(decimal(n)) == n,
    decreases n,
{
    reveal_with_fuel(decimal_value, 2);
    if n >= 10 {
        law_decimal_reads_back(n / 10);
        assert(decimal(n).drop_last() == decimal(n / 10));
    } else {
        assert(decimal(n).drop_last() == Seq::<char>::empty());
    }
}

/// Two numbers in the same decimal notation are the same number.
pub proof fn law_decimal_injective(m: nat, n: nat)
    requires
        decimal(m) == decimal(n),
    ensures
        m == n,
{
    law_decimal_reads_back(m);
    law_decimal_reads_back(n);
}

/// The value of the first `i` digits is at most the value of all of them.
proof fn lemma_value_grows(s: Seq<char>, i: int)
    requires
        0 <= i <= s.len(),
        all_digits(s),
    ensures
        decimal_value(s.subrange(0, i)) <= decimal_value(s),
    decreases s.len(),
{
    if i < s.len() {
        lemma_value_grows(s.drop_last(), i);
        assert(s.drop_last().subrange(0, i) == s.subrange(0, i));
    } else {
        assert(s.subrange(0, i) == s);
    }
}

/// `k` digits denote a number below ten to the `k`.
pub proof fn lemma_value_bound(s: Seq<char>, k: nat)
    requires
        all_digits(s),
        s.len() <= k,
    ensures
        decimal_value(s) < vstd::arithmetic::power::pow(10, k),
    decreases s.len(),
{
    vstd::arithmetic::power::lemma_pow_positive(10, k);
    if s.len() > 0 {
        lemma_value_bound(s.drop_last(), (k - 1) as nat);
        vstd::arithmetic::power::lemma_pow_adds(10, (k - 1) as nat, 1);
        vstd::arithmetic::power::lemma_pow1(10);
        assert(ascii_digit(s.last()));
    }
}

/// `n` in decimal notation.
pub fn to_decimal(n: u128) -> (r: String)
    ensures
        r@ == decimal(n as nat),
{
    let mut digits: Vec<char> = Vec::new();
    let mut rest: u128 = n;
    let ghost mut tail: Seq<char> = Seq::empty();
    while rest >= 10
        invariant
            decimal(n as nat) == decimal(rest as nat) + tail,
            tail.len() == digits@.len(),
            forall|k: int| 0 <= k < tail.len() ==> tail[k] == digits@[tail.len() - 1 - k],
        decreases rest,
    {
        let d: u8 = (rest % 10) as u8;
        digits.push((48 + d) as char);
        proof {
            let c = digit_char((rest % 10) as int);
            assert(decimal(rest as nat) == decimal((rest / 10) as nat).push(c));
            assert(decimal((rest / 10) as nat).push(c) + tail == decimal((rest / 10) as nat) + (
            seq![c] + tail));
            tail = seq![c] + tail;
        }
        rest = rest / 10;
    }
    let d: u8 = rest as u8;
    digits.push((48 + d) as char);
    proof {
        tail = seq![digit_char(rest as int)] + tail;
        assert(decimal(n as nat) == tail);
    }
    let mut out = String::new();
    let mut i: usize = digits.len();
    while i > 0
        invariant
            0 <= i <= digits@.len(),
            tail.len() == digits@.len(),
            forall|k: int| 0 <= k < tail.len() ==> tail[k] == digits@[tail.len() - 1 - k],
            out@ == tail.subrange(0, digits@.len() - i),
        decreases i,
    {
        i = i - 1;
        out.push(digits[i]);
        assert(out@ == tail.subrange(0, digits@.len() - i));
    }
    assert(tail.subrange(0, tail.len() as int) == tail);
    out
}

/// `i` in decimal notation, with a minus sign where it is negative.
pub fn to_signed_decimal(i: i64) -> (r: String)
    ensures
        r@ == signed_decimal(i as int),
{
    if i < 0 {
        let mut out = String::new();
        out.push('-');
        push_text(&mut out, to_decimal(magnitude(i)).as_str());
        assert(out@ == signed_decimal(i as int));
        out
    } else {
        to_decimal(i as u128)
    }
}

/// The absolute value of `i`.
fn magnitude(i: i64) -> (r: u128)
    ensures
        r == if i < 0 {
            -(i as int)
        } else {
            i as int
        },
{
    if i < 0 {
        (-(i as i128)) as u128
    } else {
        i as u128
    }
}

/// `i` in decimal notation, filled up with zeros to `width` characters.
pub fn to_padded_decimal(i: i64, width: usize) -> (r: String)
    ensures
        r@ == padded_decimal(i as int, width as int),
{
    let digits = chars_of(to_decimal(magnitude(i)).as_str());
    let mut out = String::new();
    let room: usize = if i < 0 {
        out.push('-');
        if width > 0 {
            width - 1
        } else {
            0
        }
    } else {
        width
    };
    let ghost sign = out@;
    let mut filled: usize = digits.len();
    let ghost mut zeros: Seq<char> = Seq::empty();
    while filled < room
        invariant
            digits@.len() <= filled,
            filled > digits@.len() ==> filled <= room,
            zeros.len() == filled - digits@.len(),
            forall|k: int| 0 <= k < zeros.len() ==> zeros[k] == '0',
            out@ == sign + zeros,
        decreases room - filled,
    {
        out.push('0');
        filled = filled + 1;
        proof {
            zeros = zeros.push('0');
            assert(out@ == sign + zeros);
        }
    }
    push_text(&mut out, whole_string(&digits).as_str());
    assert(zeros + digits@ == zero_padded(digits@, room as int));
    assert(out@ == sign + zero_padded(digits@, room as int));
    assert(out@ == padded_decimal(i as int, width as int));
    out
}

/// Reads digits, with an optional plus sign in front, as a number up to `max`.
fn read_unsigned(s: &Vec<char>, max: u64) -> (r: Option<u64>)
    ensures
        match r {
            Some(n) => unsigned_value(s@, max as nat) == Some(n as nat),
            None => unsigned_value(s@, max as nat) is None,
        },
{
    let start: usize = if s.len() > 1 && s[0] == '+' {
        1
    } else {
        0
    };
    let ghost digits = s@.subrange(start as int, s@.len() as int);
    assert(start == 0 ==> digits == s@);
    if s.len() == 0 {
        return None;
    }
    let mut value: u64 = 0;
    let mut i: usize = start;
    while i < s.len()
        invariant
            start <= i <= s@.len(),
            start <= 1,
            s@.len() > start,
            digits == s@.subrange(start as int, s@.len() as int),
            start == 1 <==> (s@.len() > 1 && s@[0] == '+'),
            start == 0 ==> digits == s@,
            all_digits(digits.subrange(0, i - start)),
            value == decimal_value(digits.subrange(0, i - start)),
            value <= max,
        decreases s@.len() - i,
    {
        let c = s[i];
        assert(digits[i - start] == c);
        if !('0' <= c && c <= '9') {
            assert(!ascii_digit(digits[i - start]));
            return None;
        }
        let d: u64 = (c as u64) - 48;
        proof {
            assert(digits.subrange(0, i + 1 - start).drop_last() == digits.subrange(0, i - start));
            if all_digits(digits) {
                lemma_value_grows(digits, i + 1 - start);
            }
        }
        if value > max / 10 || d > max - value * 10 {
            return None;
        }
        value = value * 10 + d;
        i = i + 1;
    }
    assert(digits.subrange(0, digits.len() as int) == digits);
    Some(value)
}

/// Reads a `u64` from digits with an optional plus sign in front.
pub fn parse_u64(s: &str) -> (r: Option<u64>)
    ensures
        match r {
            Some(n) => unsigned_value(s@, u64::MAX as nat) == Some(n as nat),
            None => unsigned_value(s@, u64::MAX as nat) is None,
        },
{
    read_unsigned(&chars_of(s), u64::MAX)
}

/// Reads a `u32` from digits with an optional plus sign in front.
pub fn parse_u32(s: &str) -> (r: Option<u32>)
    ensures
        match r {
            Some(n) => unsigned_value(s@, u32::MAX as nat) == Some(n as nat),
            None => unsigned_value(s@, u32::MAX as nat) is None,
        },
{
    match read_unsigned(&chars_of(s), u32::MAX as u64) {
        Some(n) => Some(n as u32),
        None => None,
    }
}

/// Digits without a zero in front are the decimal notation of the number that
/// they denote.
pub proof fn lemma_decimal_of_value(s: Seq<char>)
    requires
        s.len() > 0,
        all_digits(s),
        s.len() > 1 ==> s[0] != '0',
    ensures
        decimal(decimal_value(s)) == s,
        s[0] != '0' ==> decimal_value(s) > 0,
    decreases s.len(),
{
    let front = s.drop_last();
    let d = s.last();
    assert(ascii_digit(s[s.len() - 1]));
    if s.len() == 1 {
        reveal_with_fuel(decimal_value, 2);
        assert(front == Seq::<char>::empty());
        assert(decimal(decimal_value(s)) == s);
    } else {
        assert forall|i: int| 0 <= i < front.len() implies ascii_digit(#[trigger] front[i]) by {
            assert(ascii_digit(s[i]));
        }
        assert(front[0] == s[0]);
        lemma_decimal_of_value(front);
        let v = decimal_value(front);
        assert(decimal_value(s) == v * 10 + (d as int - 48));
        assert(decimal_value(s) / 10 == v);
        assert(decimal_value(s) % 10 == d as int - 48);
        assert(decimal(v).push(d) == s);
    }
}

/// Padding puts zeros in front, as many as are missing, and changes nothing else.
pub proof fn law_padding_puts_zeros_in_front(s: Seq<char>, width: nat)
    ensures
        s.is_suffix_of(zero_padded(s, width as int)),
        zero_padded(s, width as int).len() == if s.len() < width {
            width
        } else {
            s.len()
        },
        forall|k: int|
            0 <= k < zero_padded(s, width as int).len() - s.len() ==> #[trigger] zero_padded(
                s,
                width as int,
            )[k] == '0',
{
    let p = zero_padded(s, width as int);
    assert(s == p.subrange(p.len() - s.len(), p.len() as int));
}

/// A negative number has a minus sign in front of its digits, with the zeros that
/// fill it up between the two; one from 0 on has none.
pub proof fn law_sign_comes_first(n: nat, width: nat)
    ensures
        signed_decimal(n as int) == decimal(n),
        n > 0 ==> signed_decimal(-n) == seq!['-'] + decimal(n),
        padded_decimal(n as int, width as int) == zero_padded(decimal(n), width as int),
        n > 0 && width > 0 ==> padded_decimal(-n, width as int) == seq!['-'] + zero_padded(
            decimal(n),
            width - 1,
        ),
{
}

/// A text denotes a number exactly when it is digits, with a plus sign in front or
/// not, and the number is not over the limit.
pub proof fn law_numbers_are_digits(digits: Seq<char>, max: nat)
    requires
        digits.len() > 0,
    ensures
        all_digits(digits) && decimal_value(digits) <= max ==> unsigned_value(digits, max) == Some(
            decimal_value(digits),
        ) && unsigned_value(seq!['+'] + digits, max) == Some(decimal_value(digits)),
        all_digits(digits) && decimal_value(digits) > max ==> unsigned_value(digits, max) is None,
        (exists|k: int| 0 < k < digits.len() && !ascii_digit(#[trigger] digits[k]))
            ==> unsigned_value(digits, max) is None,
        !ascii_digit(digits[0]) && digits[0] != '+' ==> unsigned_value(digits, max) is None,
        unsigned_value(Seq::empty(), max) is None,
        unsigned_value(seq!['+'], max) is None,
{
    let signed = seq!['+'] + digits;
    assert(signed.subrange(1, signed.len() as int) == digits);
    if all_digits(digits) {
        assert(ascii_digit(digits[0]));
    }
    if exists|k: int| 0 < k < digits.len() && !ascii_digit(#[trigger] digits[k]) {
        let k = choose|k: int| 0 < k < digits.len() && !ascii_digit(#[trigger] digits[k]);
        assert(!all_digits(digits));
        if digits.len() > 1 && digits[0] == '+' {
            let rest = digits.subrange(1, digits.len() as int);
            assert(rest[k - 1] == digits[k]);
            assert(!all_digits(rest));
        }
    }
    assert(!all_digits(seq!['+'])) by {
        assert(!ascii_digit(seq!['+'][0]));
    }
}

} // verus!
