//! Decimal numerals of timestamps and the search for a character, on
//! which the stored text of a request rests.

use vstd::prelude::*;
use vstd::string::*;

verus! {

/// The character of a decimal digit.
pub open spec fn digit_char(d: int) -> char {
    if d == 0 {
        '0'
    } else if d == 1 {
        '1'
    } else if d == 2 {
        '2'
    } else if d == 3 {
        '3'
    } else if d == 4 {
        '4'
    } else if d == 5 {
        '5'
    } else if d == 6 {
        '6'
    } else if d == 7 {
        '7'
    } else if d == 8 {
        '8'
    } else {
        '9'
    }
}

/// The value of a decimal digit character, if it is one.
pub open spec fn digit_value(c: char) -> Option<int> {
    if c == '0' {
        Some(0)
    } else if c == '1' {
        Some(1)
    } else if c == '2' {
        Some(2)
    } else if c == '3' {
        Some(3)
    } else if c == '4' {
        Some(4)
    } else if c == '5' {
        Some(5)
    } else if c == '6' {
        Some(6)
    } else if c == '7' {
        Some(7)
    } else if c == '8' {
        Some(8)
    } else if c == '9' {
        Some(9)
    } else {
        None
    }
}

pub open spec fn pow10(k: nat) -> nat
    decreases k,
{
    if k == 0 {
        1
    } else {
        10 * pow10((k - 1) as nat)
    }
}

/// The shortest decimal numeral of `n`.
pub open spec fn digits_of(n: nat) -> Seq<char>
    decreases n,
{
    if n < 10 {
        seq![digit_char(n as int)]
    } else {
        digits_of(n / 10).push(digit_char((n % 10) as int))
    }
}

pub open spec fn all_digits(s: Seq<char>) -> bool {
    forall|i: int| 0 <= i < s.len() ==> (#[trigger] digit_value(s[i])) is Some
}

/// The value of a numeral made of decimal digits.
pub open spec fn digits_value(s: Seq<char>) -> int
    decreases s.len(),
{
    if s.len() == 0 {
        0
    } else {
        digits_value(s.drop_last()) * 10 + digit_value(s.last())->0
    }
}

/// One to nineteen decimal digits: the numerals that a timestamp is read from.
pub open spec fn is_numeral(s: Seq<char>) -> bool {
    1 <= s.len() <= 19 && all_digits(s)
}

/// The decimal text of a signed 64-bit integer.
pub open spec fn decimal(n: i64) -> Seq<char> {
    if n < 0 {
        seq!['-'] + digits_of((-n) as nat)
    } else {
        digits_of(n as nat)
    }
}

/// Reads a signed 64-bit integer written as an optional `-` and one to
/// nineteen decimal digits.
pub open spec fn parse_decimal(t: Seq<char>) -> Option<i64> {
    if t.len() > 0 && t[0] == '-' {
        let b = t.drop_first();
        if is_numeral(b) && digits_value(b) <= 0x8000_0000_0000_0000 {
            Some((-digits_value(b)) as i64)
        } else {
            None
        }
    } else if is_numeral(t) && digits_value(t) <= 0x7fff_ffff_ffff_ffff {
        Some(digits_value(t) as i64)
    } else {
        None
    }
}

/// The position of the first `c` in `s`.
pub open spec fn find(s: Seq<char>, c: char) -> Option<int>
    decreases s.len(),
{
    if s.len() == 0 {
        None
    } else if s[0] == c {
        Some(0)
    } else {
        match find(s.drop_first(), c) {
            Some(k) => Some(k + 1),
            None => None,
        }
    }
}

pub proof fn lemma_find(s: Seq<char>, c: char, i: int)
    requires
        0 <= i <= s.len(),
        forall|k: int| 0 <= k < i ==> s[k] != c,
    ensures
        i < s.len() && s[i] == c ==> find(s, c) == Some(i),
        i == s.len() ==> find(s, c) is None,
    decreases i,
{
    if i > 0 {
        let t = s.drop_first();
        assert forall|k: int| 0 <= k < i - 1 implies t[k] != c by {
            assert(t[k] == s[k + 1]);
        }
        lemma_find(t, c, i - 1);
        if i < s.len() {
            assert(t[i - 1] == s[i]);
        }
    }
}

/// What `find` reports: the first position of `c`, or that `c` is absent.
pub proof fn lemma_find_props(s: Seq<char>, c: char)
    ensures
        find(s, c) matches Some(j) ==> 0 <= j < s.len() && s[j] == c && forall|k: int|
            0 <= k < j ==> s[k] != c,
        find(s, c) is None ==> forall|k: int| 0 <= k < s.len() ==> s[k] != c,
    decreases s.len(),
{
    if s.len() > 0 && s[0] != c {
        let t = s.drop_first();
        lemma_find_props(t, c);
        assert forall|k: int| 1 <= k < s.len() implies s[k] == t[k - 1] by {}
    }
}

pub proof fn lemma_pow10_mono(a: nat, b: nat)
    requires
        a <= b,
    ensures
        1 <= pow10(a) <= pow10(b),
    decreases b,
{
    if b == 0 {
    } else if a == b {
        lemma_pow10_mono((a - 1) as nat, (b - 1) as nat);
    } else {
        lemma_pow10_mono(a, (b - 1) as nat);
    }
}

pub proof fn lemma_digit_char(d: int)
    requires
        0 <= d < 10,
    ensures
        digit_value(digit_char(d)) == Some(d),
        digit_char(d) != '\n',
        digit_char(d) != '-',
{
}

/// The numeral of `n` is made of digits, reads back as `n`, and has no more
/// than `k` digits where `n` is below `10^k`.
pub proof fn lemma_digits_of(n: nat, k: nat)
    requires
        1 <= k,
        n < pow10(k),
    ensures
        all_digits(digits_of(n)),
        digits_value(digits_of(n)) == n,
        1 <= digits_of(n).len() <= k,
    decreases n,
{
    if n < 10 {
        lemma_digit_char(n as int);
        lemma_pow10_mono(1, k);
        let s = digits_of(n);
        assert(s.drop_last() =~= Seq::<char>::empty());
        assert(digits_value(Seq::<char>::empty()) == 0);
        assert(s.last() == digit_char(n as int));
    } else {
        let m = n / 10;
        let km1 = (k - 1) as nat;
        if k == 1 {
            assert(pow10(1) == 10) by {
                reveal_with_fuel(pow10, 2);
            }
        }
        assert(pow10(k) == 10 * pow10(km1));
        assert(m < pow10(km1)) by (nonlinear_arith)
            requires
                n < 10 * pow10(km1),
                m == n / 10,
        ;
        lemma_digits_of(m, km1);
        lemma_digit_char((n % 10) as int);
        let s = digits_of(n);
        assert(s.drop_last() =~= digits_of(m));
        assert(s.last() == digit_char((n % 10) as int));
        assert(n == m * 10 + n % 10);
        assert forall|i: int| 0 <= i < s.len() implies (#[trigger] digit_value(s[i])) is Some by {
            if i < s.len() - 1 {
                assert(s[i] == digits_of(m)[i]);
            }
        }
    }
}

pub proof fn lemma_pow10_19()
    ensures
        pow10(18) == 1_000_000_000_000_000_000,
        pow10(19) == 10_000_000_000_000_000_000,
{
    reveal_with_fuel(pow10, 20);
}

/// Reading the decimal text of an integer gives the integer back.
pub proof fn lemma_decimal_round_trip(n: i64)
    ensures
        parse_decimal(decimal(n)) == Some(n),
        forall|i: int| 0 <= i < decimal(n).len() ==> decimal(n)[i] != '\n',
{
    lemma_pow10_19();
    let m: nat = if n < 0 {
        (-n) as nat
    } else {
        n as nat
    };
    lemma_digits_of(m, 19);
    let ds = digits_of(m);
    assert forall|i: int| 0 <= i < ds.len() implies ds[i] != '\n' && ds[i] != '-' by {
        assert(digit_value(ds[i]) is Some);
    }
    if n < 0 {
        let t = decimal(n);
        assert(t.drop_first() =~= ds);
        assert forall|i: int| 0 <= i < t.len() implies t[i] != '\n' by {
            if i > 0 {
                assert(t[i] == ds[i - 1]);
            }
        }
    } else {
        assert(digit_value(ds[0]) is Some);
    }
}


/// Relies on `String::push`, which appends one character.
#[verifier::external_body]
pub(crate) fn push_char(s: &mut String, c: char)
    ensures
        final(s)@ == old(s)@.push(c),
{
    s.push(c);
}

fn digit_to_char(d: u64) -> (c: char)
    requires
        d < 10,
    ensures
        c == digit_char(d as int),
{
    if d == 0 {
        '0'
    } else if d == 1 {
        '1'
    } else if d == 2 {
        '2'
    } else if d == 3 {
        '3'
    } else if d == 4 {
        '4'
    } else if d == 5 {
        '5'
    } else if d == 6 {
        '6'
    } else if d == 7 {
        '7'
    } else if d == 8 {
        '8'
    } else {
        '9'
    }
}

fn char_to_digit(c: char) -> (r: Option<u64>)
    ensures
        r matches Some(v) ==> digit_value(c) == Some(v as int) && v < 10,
        r is None <==> digit_value(c) is None,
{
    if c == '0' {
        Some(0)
    } else if c == '1' {
        Some(1)
    } else if c == '2' {
        Some(2)
    } else if c == '3' {
        Some(3)
    } else if c == '4' {
        Some(4)
    } else if c == '5' {
        Some(5)
    } else if c == '6' {
        Some(6)
    } else if c == '7' {
        Some(7)
    } else if c == '8' {
        Some(8)
    } else if c == '9' {
        Some(9)
    } else {
        None
    }
}

fn push_digits(s: &mut String, n: u64)
    ensures
        final(s)@ == old(s)@ + digits_of(n as nat),
    decreases n,
{
    if n >= 10 {
        push_digits(s, n / 10);
    }
    let c = digit_to_char(n % 10);
    push_char(s, c);
    proof {
        if n >= 10 {
            assert(s@ =~= old(s)@ + digits_of(n as nat));
        } else {
            assert(s@ =~= old(s)@ + digits_of(n as nat));
        }
    }
}

/// Appends the decimal text of `n`.
pub fn push_decimal(s: &mut String, n: i64)
    ensures
        final(s)@ == old(s)@ + decimal(n),
{
    if n < 0 {
        push_char(s, '-');
        let m: u64 = (-(n as i128)) as u64;
        push_digits(s, m);
        assert(s@ =~= old(s)@ + decimal(n));
    } else {
        push_digits(s, n as u64);
    }
}

/// Reads the integer written in `text` between `start` and `end`.
pub(crate) fn parse_timestamp(text: &str, start: usize, end: usize) -> (r: Option<i64>)
    requires
        start <= end <= text@.len(),
    ensures
        r == parse_decimal(text@.subrange(start as int, end as int)),
{
    let ghost t = text@.subrange(start as int, end as int);
    let neg = start < end && text.get_char(start) == '-';
    assert(start < end ==> t[0] == text@[start as int]);
    let b: usize = if neg {
        start + 1
    } else {
        start
    };
    let ghost body = text@.subrange(b as int, end as int);
    assert(neg ==> body =~= t.drop_first());
    assert(!neg ==> body =~= t);
    if end - b < 1 || end - b > 19 {
        return None;
    }
    proof {
        lemma_pow10_19();
        lemma_pow10_mono((end - b) as nat, 19);
    }
    let mut v: u64 = 0;
    let mut k: usize = b;
    while k < end
        invariant
            b <= k <= end <= text@.len(),
            end - b <= 19,
            body == text@.subrange(b as int, end as int),
            t == text@.subrange(start as int, end as int),
            neg ==> body == t.drop_first(),
            !neg ==> body == t,
            neg == (t.len() > 0 && t[0] == '-'),
            all_digits(text@.subrange(b as int, k as int)),
            v as int == digits_value(text@.subrange(b as int, k as int)),
            v < pow10((k - b) as nat),
            pow10(19) == 10_000_000_000_000_000_000,
        decreases end - k,
    {
        let c = text.get_char(k);
        match char_to_digit(c) {
            None => {
                assert(body[k - b] == c);
                return None;
            },
            Some(d) => {
                let ghost prev = text@.subrange(b as int, k as int);
                let ghost next = text@.subrange(b as int, k + 1);
                assert(next.drop_last() =~= prev);
                assert(next.last() == c);
                proof {
                    lemma_pow10_mono((k + 1 - b) as nat, 19);
                    assert(pow10((k + 1 - b) as nat) == 10 * pow10((k - b) as nat));
                    assert(v * 10 + d < 10 * pow10((k - b) as nat)) by (nonlinear_arith)
                        requires
                            v < pow10((k - b) as nat),
                            d < 10,
                    ;
                }
                v = v * 10 + d;
                k = k + 1;
                assert forall|i: int| 0 <= i < next.len() implies (#[trigger] digit_value(
                    next[i],
                )) is Some by {
                    if i < next.len() - 1 {
                        assert(next[i] == prev[i]);
                    }
                }
            },
        }
    }
    assert(text@.subrange(b as int, k as int) =~= body);
    if neg {
        if v <= 0x8000_0000_0000_0000 {
            Some((-(v as i128)) as i64)
        } else {
            None
        }
    } else {
        if v <= 0x7fff_ffff_ffff_ffff {
            Some(v as i64)
        } else {
            None
        }
    }
}

} // verus!
