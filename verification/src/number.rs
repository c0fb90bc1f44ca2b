//! Unsigned numbers written in a given base.

use vstd::prelude::*;

verus! {

/// The value of `c` as a digit in base `radix`: `0`-`9`, then the letters
/// of either case from ten on.
pub open spec fn digit_value(c: char, radix: nat) -> Option<nat> {
    let n = c as nat;
    let v: nat = if 0x30 <= n <= 0x39 {
        (n - 0x30) as nat
    } else if 0x61 <= n <= 0x7a {
        (n - 0x61 + 10) as nat
    } else if 0x41 <= n <= 0x5a {
        (n - 0x41 + 10) as nat
    } else {
        radix
    };
    if v < radix {
        Some(v)
    } else {
        None
    }
}

/// The value of a run of digits in base `radix`, the most significant
/// first; `None` where a character is no digit of that base.
pub open spec fn digits_value(s: Seq<char>, radix: nat) -> Option<nat>
    decreases s.len(),
{
    if s.len() == 0 {
        Some(0)
    } else {
        match (digits_value(s.drop_last(), radix), digit_value(s.last(), radix)) {
            (Some(high), Some(low)) => Some(high * radix + low),
            _ => None,
        }
    }
}

/// The number that `s` writes in base `radix`, where it is at most `max`:
/// an optional `+`, then one digit or more and nothing else.
pub open spec fn number_of(s: Seq<char>, radix: nat, max: nat) -> Option<nat> {
    let digits = if s.len() > 0 && s[0] == '+' {
        s.drop_first()
    } else {
        s
    };
    if digits.len() == 0 {
        None
    } else {
        match digits_value(digits, radix) {
            Some(v) => if v <= max {
                Some(v)
            } else {
                None
            },
            None => None,
        }
    }
}

/// Decides [`digit_value`].
pub fn digit_of(c: char, radix: u32) -> (d: Option<u32>)
    requires
        2 <= radix <= 36,
    ensures
        match d {
            Some(v) => digit_value(c, radix as nat) == Some(v as nat),
            None => digit_value(c, radix as nat) is None,
        },
{
    let n: u32 = c as u32;
    let v: u32 = if 0x30 <= n && n <= 0x39 {
        n - 0x30
    } else if 0x61 <= n && n <= 0x7a {
        n - 0x61 + 10
    } else if 0x41 <= n && n <= 0x5a {
        n - 0x41 + 10
    } else {
        radix
    };
    if v < radix {
        Some(v)
    } else {
        None
    }
}

/// Where a run of digits has a value, each of its prefixes has one, and
/// none that is larger.
pub proof fn lemma_digits_prefix(s: Seq<char>, k: int, radix: nat)
    requires
        0 <= k <= s.len(),
        radix >= 1,
        digits_value(s, radix) is Some,
    ensures
        digits_value(s.take(k), radix) is Some,
        digits_value(s.take(k), radix)->0 <= digits_value(s, radix)->0,
        k < s.len() ==> digit_value(s[k], radix) is Some,
    decreases s.len(),
{
    if k == s.len() {
        assert(s.take(k) == s);
    } else {
        let t = s.drop_last();
        assert(t.take(k) == s.take(k));
        if k < t.len() {
            lemma_digits_prefix(t, k, radix);
        } else {
            assert(t.take(k) == t);
        }
        let high = digits_value(t, radix)->0;
        assert(high <= high * radix) by (nonlinear_arith)
            requires
                radix >= 1,
                high >= 0,
        ;
    }
}

/// The number that `chars[from..to]` writes in base `radix`, where it is
/// at most `max`.
pub fn parse_number(chars: &[char], from: usize, to: usize, radix: u32, max: u64) -> (r: Option<
    u64,
>)
    requires
        from <= to <= chars@.len(),
        2 <= radix <= 36,
    ensures
        match r {
            Some(v) => number_of(
                chars@.subrange(from as int, to as int),
                radix as nat,
                max as nat,
            ) == Some(v as nat),
            None => number_of(
                chars@.subrange(from as int, to as int),
                radix as nat,
                max as nat,
            ) is None,
        },
{
    let ghost s = chars@.subrange(from as int, to as int);
    let start: usize = if from < to && chars[from] == '+' {
        from + 1
    } else {
        from
    };
    let ghost digits = chars@.subrange(start as int, to as int);
    assert(digits == if s.len() > 0 && s[0] == '+' {
        s.drop_first()
    } else {
        s
    });
    if start == to {
        return None;
    }
    let mut acc: u64 = 0;
    let mut i: usize = start;
    while i < to
        invariant
            start <= i <= to <= chars@.len(),
            2 <= radix <= 36,
            from <= start,
            s == chars@.subrange(from as int, to as int),
            digits == chars@.subrange(start as int, to as int),
            digits == if s.len() > 0 && s[0] == '+' {
                s.drop_first()
            } else {
                s
            },
            digits_value(digits.take(i - start), radix as nat) == Some(acc as nat),
            acc <= max,
        decreases to - i,
    {
        let ghost k = i - start;
        let d = match digit_of(chars[i], radix) {
            Some(d) => d,
            None => {
                proof {
                    if digits_value(digits, radix as nat) is Some {
                        lemma_digits_prefix(digits, k, radix as nat);
                    }
                }
                return None;
            },
        };
        assert(digits.take(k + 1).drop_last() == digits.take(k));
        assert((acc as u128) * (radix as u128) + (d as u128) < 0x1_0000_0000_0000_0000 * 37)
            by (nonlinear_arith)
            requires
                acc <= 0xffff_ffff_ffff_ffff,
                radix <= 36,
                d < radix,
        ;
        let next: u128 = (acc as u128) * (radix as u128) + (d as u128);
        if next > max as u128 {
            proof {
                if digits_value(digits, radix as nat) is Some {
                    lemma_digits_prefix(digits, k + 1, radix as nat);
                }
            }
            return None;
        }
        acc = next as u64;
        i += 1;
    }
    assert(digits.take(to - start) == digits);
    Some(acc)
}

/// The digit of base 16 with the value `d`, in lower case.
pub open spec fn hex_digit(d: u64) -> char {
    match d {
        0 => '0',
        1 => '1',
        2 => '2',
        3 => '3',
        4 => '4',
        5 => '5',
        6 => '6',
        7 => '7',
        8 => '8',
        9 => '9',
        10 => 'a',
        11 => 'b',
        12 => 'c',
        13 => 'd',
        14 => 'e',
        _ => 'f',
    }
}

/// `n` in base 16, in lower case and without leading zeros.
pub open spec fn hex_text(n: u64) -> Seq<char>
    decreases n,
{
    if n < 16 {
        seq![hex_digit(n)]
    } else {
        hex_text(n / 16).push(hex_digit(n % 16))
    }
}

/// Computes [`hex_digit`].
fn hex_digit_of(d: u64) -> (c: char)
    ensures
        c == hex_digit(d),
{
    match d {
        0 => '0',
        1 => '1',
        2 => '2',
        3 => '3',
        4 => '4',
        5 => '5',
        6 => '6',
        7 => '7',
        8 => '8',
        9 => '9',
        10 => 'a',
        11 => 'b',
        12 => 'c',
        13 => 'd',
        14 => 'e',
        _ => 'f',
    }
}

/// Appends `n` in base 16 to `text`.
pub fn push_hex(text: &mut String, n: u64)
    ensures
        final(text)@ == old(text)@ + hex_text(n),
{
    let mut digits: Vec<char> = Vec::new();
    let mut rest: u64 = n;
    loop
        invariant_except_break
            hex_text(n) == hex_text(rest) + digits@.reverse(),
        ensures
            hex_text(n) == digits@.reverse(),
        decreases rest,
    {
        let ghost before = digits@;
        digits.push(hex_digit_of(rest % 16));
        assert(digits@.reverse() == seq![hex_digit(rest % 16)] + before.reverse());
        if rest < 16 {
            break ;
        }
        assert(hex_text(rest) + before.reverse() == hex_text(rest / 16) + digits@.reverse());
        rest = rest / 16;
    }
    let mut i: usize = digits.len();
    while i > 0
        invariant
            i <= digits@.len(),
            text@ == old(text)@ + digits@.reverse().take(digits@.len() - i),
        decreases i,
    {
        i -= 1;
        text.push(digits[i]);
        assert(digits@.reverse().take(digits@.len() - i) == digits@.reverse().take(
            digits@.len() - i - 1,
        ).push(digits@[i as int]));
    }
    assert(digits@.reverse().take(digits@.len() as int) == digits@.reverse());
}

} // verus!
