//! Whole numbers in decimal notation.

use crate::text;
use vstd::prelude::*;

verus! {

/// The smaller of two numbers.
pub open spec fn least(a: u32, b: u32) -> u32 {
    if a <= b {
        a
    } else {
        b
    }
}

/// The smaller of two numbers.
pub fn lesser(a: u32, b: u32) -> (r: u32)
    ensures
        r == least(a, b),
{
    if a <= b {
        a
    } else {
        b
    }
}

/// The digit for a number below ten.
pub open spec fn digit(d: nat) -> char {
    ('0' as u32 + d) as char
}

/// The decimal notation of a natural number.
pub open spec fn decimal(n: nat) -> Seq<char>
    decreases n,
{
    if n < 10 {
        seq![digit(n)]
    } else {
        decimal(n / 10).push(digit(n % 10))
    }
}

/// The decimal notation of an integer.
pub open spec fn signed_decimal(i: int) -> Seq<char> {
    if i < 0 {
        seq!['-'] + decimal((-i) as nat)
    } else {
        decimal(i as nat)
    }
}

/// Whether every character is a decimal digit.
pub open spec fn all_digits(s: Seq<char>) -> bool {
    forall|i: int| 0 <= i < s.len() ==> '0' <= #[trigger] s[i] <= '9'
}

/// The number that a run of digits denotes.
pub open spec fn digits_value(s: Seq<char>) -> nat
    decreases s.len(),
{
    if s.len() == 0 {
        0
    } else {
        digits_value(s.drop_last()) * 10 + (s.last() as nat - '0' as nat) as nat
    }
}

/// The number that a string denotes: digits, with a plus sign before them or without.
pub open spec fn unsigned_value(s: Seq<char>) -> Option<nat> {
    let digits = if s.len() > 0 && s[0] == '+' {
        s.skip(1)
    } else {
        s
    };
    if digits.len() > 0 && all_digits(digits) {
        Some(digits_value(digits))
    } else {
        None
    }
}

/// The integer that a string denotes: digits, with a plus or minus sign before them or without.
pub open spec fn signed_value(s: Seq<char>) -> Option<int> {
    if s.len() > 0 && s[0] == '-' {
        let digits = s.skip(1);
        if digits.len() > 0 && all_digits(digits) {
            Some(-(digits_value(digits) as int))
        } else {
            None
        }
    } else {
        match unsigned_value(s) {
            Some(n) => Some(n as int),
            None => None,
        }
    }
}

proof fn lemma_value_grows(s: Seq<char>, from: int, to: int)
    requires
        0 <= from <= to <= s.len(),
        all_digits(s),
    ensures
        digits_value(s.take(from)) <= digits_value(s.take(to)),
    decreases to - from,
{
    if from < to {
        lemma_value_grows(s, from, to - 1);
        assert(s.take(to).drop_last() =~= s.take(to - 1));
        assert(s.take(to).last() == s[to - 1]);
    }
}

/// The number that the characters from `from` on denote, if they are all digits, there is at
/// least one, and the number is at most `max`.
fn digits_up_to(v: &Vec<char>, from: usize, max: u64) -> (r: Option<u64>)
    requires
        from <= v@.len(),
    ensures
        ({
            let s = v@.skip(from as int);
            r == if s.len() > 0 && all_digits(s) && digits_value(s) <= max {
                Some(digits_value(s) as u64)
            } else {
                None::<u64>
            }
        }),
{
    let ghost s = v@.skip(from as int);
    if from == v.len() {
        return None;
    }
    let mut n: u64 = 0;
    let mut i: usize = from;
    while i < v.len()
        invariant
            from <= i <= v@.len(),
            s == v@.skip(from as int),
            s.len() > 0,
            n == digits_value(s.take(i - from)),
            n <= max,
            forall|j: int| 0 <= j < i - from ==> '0' <= #[trigger] s[j] <= '9',
        decreases v@.len() - i,
    {
        let c = v[i];
        assert(c == s[i - from]);
        if c < '0' || '9' < c {
            return None;
        }
        let d: u64 = c as u64 - '0' as u64;
        assert(s.take(i + 1 - from).drop_last() =~= s.take(i - from));
        assert(digits_value(s.take(i + 1 - from)) == n * 10 + d);
        if d > max || n > (max - d) / 10 {
            proof {
                assert(n * 10 + d > max);
                if all_digits(s) {
                    lemma_value_grows(s, i + 1 - from, s.len() as int);
                    assert(s.take(s.len() as int) =~= s);
                }
            }
            return None;
        }
        n = n * 10 + d;
        i += 1;
    }
    assert(s.take(i - from) =~= s);
    Some(n)
}

/// Reads an unsigned number of at most `max`.
pub fn parse_unsigned(s: &str, max: u64) -> (r: Option<u64>)
    ensures
        r == match unsigned_value(s@) {
            Some(n) => if n <= max {
                Some(n as u64)
            } else {
                None::<u64>
            },
            None => None::<u64>,
        },
{
    let v = text::chars_of(s);
    if v.len() > 0 && v[0] == '+' {
        digits_up_to(&v, 1, max)
    } else {
        assert(v@.skip(0) =~= v@);
        digits_up_to(&v, 0, max)
    }
}

/// Reads a signed number that an `i32` can hold.
pub fn parse_i32(s: &str) -> (r: Option<i32>)
    ensures
        r == match signed_value(s@) {
            Some(i) => if i32::MIN <= i <= i32::MAX {
                Some(i as i32)
            } else {
                None::<i32>
            },
            None => None::<i32>,
        },
{
    let v = text::chars_of(s);
    if v.len() > 0 && v[0] == '-' {
        match digits_up_to(&v, 1, 0x8000_0000) {
            Some(n) => Some((0 - n as i64) as i32),
            None => None,
        }
    } else {
        match parse_unsigned(s, 0x7fff_ffff) {
            Some(n) => Some(n as i32),
            None => None,
        }
    }
}

/// The decimal notation of an unsigned number.
pub fn unsigned_text(n: u64) -> (r: String)
    ensures
        r@ == decimal(n as nat),
    decreases n,
{
    let last = (48 + (n % 10) as u8) as char;
    if n < 10 {
        let mut s = String::new();
        s.push(last);
        assert(s@ =~= decimal(n as nat));
        s
    } else {
        let mut s = unsigned_text(n / 10);
        s.push(last);
        s
    }
}

/// The decimal notation of a signed number.
pub fn signed_text(i: i32) -> (r: String)
    ensures
        r@ == signed_decimal(i as int),
{
    if i < 0 {
        let mut s = String::new();
        s.push('-');
        s.append(&unsigned_text((0 - i as i64) as u64));
        assert(s@ =~= signed_decimal(i as int));
        s
    } else {
        unsigned_text(i as u64)
    }
}

proof fn lemma_decimal_digits(n: nat)
    ensures
        decimal(n).len() > 0,
        all_digits(decimal(n)),
        digits_value(decimal(n)) == n,
    decreases n,
{
    if n < 10 {
        assert(decimal(n).drop_last() =~= seq![]);
        assert(digits_value(seq![]) == 0);
    } else {
        lemma_decimal_digits(n / 10);
        assert(decimal(n).drop_last() =~= decimal(n / 10));
        assert forall|i: int| 0 <= i < decimal(n).len() implies '0' <= #[trigger] decimal(n)[i]
            <= '9' by {
            if i < decimal(n / 10).len() {
                assert(decimal(n)[i] == decimal(n / 10)[i]);
            }
        }
    }
}

/// Reading the decimal notation of a number gives the number back.
pub proof fn law_numbers_are_read_back(n: nat, i: int)
    ensures
        unsigned_value(decimal(n)) == Some(n),
        signed_value(signed_decimal(i)) == Some(i),
{
    lemma_decimal_digits(n);
    assert('0' <= decimal(n)[0] <= '9');
    if i < 0 {
        let m = (-i) as nat;
        lemma_decimal_digits(m);
        assert(signed_decimal(i).skip(1) =~= decimal(m));
    } else {
        lemma_decimal_digits(i as nat);
        assert('0' <= decimal(i as nat)[0] <= '9');
    }
}

/// The smaller of two numbers is one of them and above neither.
pub proof fn law_least_is_below_both(a: u32, b: u32)
    ensures
        least(a, b) <= a,
        least(a, b) <= b,
        least(a, b) == a || least(a, b) == b,
        least(a, b) == least(b, a),
{
}

/// Digits are read from the left, each worth ten times the next: one more digit at the end
/// makes the number ten times as large plus that digit, and a zero at the front changes
/// nothing.
pub proof fn law_digits_are_read_from_the_left(s: Seq<char>, d: nat)
    requires
        d < 10,
        all_digits(s),
        s.len() > 0,
    ensures
        unsigned_value(seq![digit(d)]) == Some(d),
        unsigned_value(s) is Some,
        unsigned_value(s.push(digit(d))) == Some(unsigned_value(s)->0 * 10 + d),
        unsigned_value(seq!['0'] + s) == unsigned_value(s),
{
    let one = seq![digit(d)];
    let more = s.push(digit(d));
    assert(one.drop_last() =~= seq![]);
    assert(digits_value(seq![]) == 0);
    assert(digits_value(one) == d);
    assert(all_digits(one));
    assert(more.drop_last() =~= s);
    assert(all_digits(more)) by {
        assert forall|i: int| 0 <= i < more.len() implies '0' <= #[trigger] more[i] <= '9' by {
            if i < s.len() {
                assert(more[i] == s[i]);
            }
        }
    }
    assert('0' <= s[0] <= '9');
    assert(more[0] == s[0]);
    lemma_leading_zero(s);
    let padded = seq!['0'] + s;
    assert(all_digits(padded)) by {
        assert forall|i: int| 0 <= i < padded.len() implies '0' <= #[trigger] padded[i] <= '9' by {
            if i > 0 {
                assert(padded[i] == s[i - 1]);
            }
        }
    }
}

proof fn lemma_leading_zero(s: Seq<char>)
    ensures
        digits_value(seq!['0'] + s) == digits_value(s),
    decreases s.len(),
{
    let padded = seq!['0'] + s;
    if s.len() == 0 {
        assert(padded.drop_last() =~= s);
    } else {
        lemma_leading_zero(s.drop_last());
        assert(padded.drop_last() =~= seq!['0'] + s.drop_last());
        assert(padded.last() == s.last());
    }
}

/// A plus sign before digits changes nothing, a minus sign turns the number round where a sign
/// is allowed and makes it unreadable where it is not. Anything but digits behind the sign is
/// unreadable, and so are no digits at all.
pub proof fn law_signs_stand_before_digits(s: Seq<char>)
    requires
        s.len() > 0 ==> s[0] != '+' && s[0] != '-',
    ensures
        unsigned_value(seq!['+'] + s) == unsigned_value(s),
        unsigned_value(seq!['-'] + s) is None,
        signed_value(seq!['+'] + s) == signed_value(s),
        unsigned_value(s) is Some <==> s.len() > 0 && forall|i: int|
            0 <= i < s.len() ==> '0' <= #[trigger] s[i] <= '9',
        signed_value(s) is Some <==> unsigned_value(s) is Some,
        signed_value(s) matches Some(n) ==> n == unsigned_value(s)->0,
        signed_value(seq!['-'] + s) is Some <==> unsigned_value(s) is Some,
        signed_value(seq!['-'] + s) matches Some(n) ==> n == -(unsigned_value(s)->0 as int),
{
    let plus = seq!['+'] + s;
    let minus = seq!['-'] + s;
    assert(plus.skip(1) =~= s);
    assert(minus.skip(1) =~= s);
    assert(minus[0] == '-');
    assert(!all_digits(minus));
    assert(plus[0] == '+');
}

/// A number is written in digits alone, with a minus sign before them exactly if it is
/// negative, and without needless zeros.
pub proof fn law_numbers_are_written_in_digits(n: nat, i: int)
    ensures
        decimal(n).len() > 0,
        all_digits(decimal(n)),
        n > 0 ==> decimal(n)[0] != '0',
        n == 0 ==> decimal(n) == seq!['0'],
        i < 0 ==> signed_decimal(i) == seq!['-'] + signed_decimal(-i),
        i >= 0 ==> signed_decimal(i) == decimal(i as nat),
{
    lemma_decimal_digits(n);
    lemma_no_leading_zero(n);
    assert(decimal(0) =~= seq!['0']);
}

proof fn lemma_no_leading_zero(n: nat)
    ensures
        n > 0 ==> decimal(n).len() > 0 && decimal(n)[0] != '0',
    decreases n,
{
    if n >= 10 {
        lemma_no_leading_zero(n / 10);
        assert(decimal(n)[0] == decimal(n / 10)[0]);
    }
}

} // verus!
