//! Decimal numbers in text: reading an unsigned number and writing one.

use vstd::prelude::*;

verus! {

/// Whether `c` is one of the ten ASCII digits.
pub open spec fn is_digit(c: char) -> bool {
    '0' <= c && c <= '9'
}

/// The value of a digit character.
pub open spec fn digit_value(c: char) -> int {
    c as int - '0' as int
}

/// The character that writes the digit `d`.
pub open spec fn digit_char(d: int) -> char {
    if d == 0 {
        '0'
    } else if d == 1 {
        '1'
    } else if d == 2 {
        '2'
    } else if d == 3 {
        '3'
    } else if d == 4 {
        '4'
    } else if d == 5 {
        '5'
    } else if d == 6 {
        '6'
    } else if d == 7 {
        '7'
    } else if d == 8 {
        '8'
    } else {
        '9'
    }
}

/// Whether every character of `s` is a digit.
pub open spec fn all_digits(s: Seq<char>) -> bool {
    forall|i: int| 0 <= i < s.len() ==> is_digit(#[trigger] s[i])
}

/// The number that the digits of `s` write in base ten.
pub open spec fn decimal_value(s: Seq<char>) -> int
    decreases s.len(),
{
    if s.len() == 0 {
        0
    } else {
        decimal_value(s.drop_last()) * 10 + digit_value(s.last())
    }
}

/// The digits of a text once an optional leading `+` is set aside.
pub open spec fn unsigned_body(s: Seq<char>) -> Seq<char> {
    if s.len() > 0 && s[0] == '+' {
        s.subrange(1, s.len() as int)
    } else {
        s
    }
}

/// The number that `s` writes: an optional `+`, then one or more digits and
/// nothing else, with a value that fits the machine word.
pub open spec fn parse_unsigned(s: Seq<char>) -> Option<usize> {
    let body = unsigned_body(s);
    if body.len() > 0 && all_digits(body) && decimal_value(body) <= usize::MAX {
        Some(decimal_value(body) as usize)
    } else {
        None
    }
}

/// The decimal writing of `n`, without leading zeros.
pub open spec fn decimal(n: nat) -> Seq<char>
    decreases n,
{
    if n < 10 {
        seq![digit_char(n as int)]
    } else {
        decimal(n / 10).push(digit_char((n % 10) as int))
    }
}

/// A prefix of a number writes no more than the number.
proof fn lemma_decimal_value_grows(s: Seq<char>, k: int)
    requires
        all_digits(s),
        0 <= k <= s.len(),
    ensures
        0 <= decimal_value(s.take(k)) <= decimal_value(s),
    decreases s.len() - k,
{
    lemma_decimal_value_nonneg(s.take(k));
    if k < s.len() {
        lemma_decimal_value_grows(s, k + 1);
        assert(s.take(k + 1).drop_last() == s.take(k));
        assert(is_digit(s[k]));
    } else {
        assert(s.take(k) == s);
    }
}

/// Digits write no negative number.
proof fn lemma_decimal_value_nonneg(s: Seq<char>)
    requires
        all_digits(s),
    ensures
        0 <= decimal_value(s),
    decreases s.len(),
{
    if s.len() > 0 {
        assert(is_digit(s.last()));
        lemma_decimal_value_nonneg(s.drop_last());
    }
}

/// Reads the number written by `v[from..to]`, digits only.
fn read_digits(v: &Vec<char>, from: usize, to: usize) -> (r: Option<usize>)
    requires
        from <= to <= v.len(),
    ensures
        r == (if all_digits(v@.subrange(from as int, to as int)) && decimal_value(
            v@.subrange(from as int, to as int),
        ) <= usize::MAX {
            Some(decimal_value(v@.subrange(from as int, to as int)) as usize)
        } else {
            None::<usize>
        }),
{
    let ghost body = v@.subrange(from as int, to as int);
    let mut acc: usize = 0;
    let mut i: usize = from;
    while i < to
        invariant
            from <= i <= to <= v.len(),
            body == v@.subrange(from as int, to as int),
            all_digits(body.take(i - from)),
            acc == decimal_value(body.take(i - from)),
        decreases to - i,
    {
        let c = v[i];
        assert(body[i - from] == c);
        if !('0' <= c && c <= '9') {
            assert(!is_digit(body[i - from]));
            return None;
        }
        let d: usize = (c as u8 - '0' as u8) as usize;
        assert(d == digit_value(c));
        assert(body.take(i + 1 - from).drop_last() == body.take(i - from));
        assert(body.take(i + 1 - from).last() == c);
        assert(all_digits(body.take(i + 1 - from))) by {
            assert forall|k: int| 0 <= k < i + 1 - from implies is_digit(
                #[trigger] body.take(i + 1 - from)[k],
            ) by {
                if k < i - from {
                    assert(body.take(i - from)[k] == body.take(i + 1 - from)[k]);
                }
            }
        }
        let next = match acc.checked_mul(10) {
            Some(m) => m.checked_add(d),
            None => None,
        };
        match next {
            Some(n) => {
                acc = n;
            },
            None => {
                proof {
                    assert(decimal_value(body.take(i + 1 - from)) > usize::MAX);
                    if all_digits(body) {
                        lemma_decimal_value_grows(body, i + 1 - from);
                    }
                }
                return None;
            },
        }
        i += 1;
    }
    assert(body.take(to - from) == body);
    Some(acc)
}

/// Reads an unsigned decimal number: an optional `+`, then digits only.
pub fn parse_usize(v: &Vec<char>) -> (r: Option<usize>)
    ensures
        r == parse_unsigned(v@),
{
    let from: usize = if v.len() > 0 && v[0] == '+' { 1 } else { 0 };
    if from == 0 {
        assert(v@.subrange(0, v.len() as int) == v@);
    }
    if from == v.len() {
        return None;
    }
    read_digits(v, from, v.len())
}

/// The character that writes the digit `d`.
fn digit_of(d: u8) -> (c: char)
    requires
        d < 10,
    ensures
        c == digit_char(d as int),
{
    match d {
        0 => '0',
        1 => '1',
        2 => '2',
        3 => '3',
        4 => '4',
        5 => '5',
        6 => '6',
        7 => '7',
        8 => '8',
        _ => '9',
    }
}

/// Appends the decimal writing of `n` to `dst`.
pub fn push_decimal(dst: &mut Vec<char>, n: u128)
    ensures
        final(dst)@ == old(dst)@ + decimal(n as nat),
    decreases n,
{
    if n >= 10 {
        push_decimal(dst, n / 10);
        dst.push(digit_of((n % 10) as u8));
        assert(final(dst)@ =~= old(dst)@ + decimal(n as nat));
    } else {
        dst.push(digit_of(n as u8));
        assert(final(dst)@ =~= old(dst)@ + decimal(n as nat));
    }
}

} // verus!
