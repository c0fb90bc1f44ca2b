//! Characters and character sequences: white space, trimming, tokens.

use vstd::prelude::*;

verus! {

/// Whether `c` has the Unicode property `White_Space`.
pub open spec fn is_space(c: char) -> bool {
    let n = c as u32;
    ||| 0x09 <= n <= 0x0d
    ||| n == 0x20
    ||| n == 0x85
    ||| n == 0xa0
    ||| n == 0x1680
    ||| 0x2000 <= n <= 0x200a
    ||| n == 0x2028
    ||| n == 0x2029
    ||| n == 0x202f
    ||| n == 0x205f
    ||| n == 0x3000
}

/// Decides [`is_space`].
pub fn is_whitespace(c: char) -> (b: bool)
    ensures
        b == is_space(c),
{
    let n: u32 = c as u32;
    (0x09 <= n && n <= 0x0d) || n == 0x20 || n == 0x85 || n == 0xa0 || n == 0x1680 || (0x2000 <= n
        && n <= 0x200a) || n == 0x2028 || n == 0x2029 || n == 0x202f || n == 0x205f || n == 0x3000
}

/// `String::push` of the standard library appends `c` to the end of the
/// string: afterwards the string holds what it held before, and then `c`.
pub assume_specification[ String::push ](s: &mut String, c: char)
    ensures
        final(s)@ == old(s)@.push(c),
;

/// The characters of `s`, in order.
pub fn chars_of(s: &str) -> (chars: Vec<char>)
    ensures
        chars@ == s@,
{
    let mut chars: Vec<char> = Vec::new();
    for c in it: s.chars()
        invariant
            chars@ == it.seq().take(it.index()),
    {
        chars.push(c);
    }
    chars
}

/// The string made of `chars[from..to]`.
pub fn text_of(chars: &[char], from: usize, to: usize) -> (text: String)
    requires
        from <= to <= chars@.len(),
    ensures
        text@ == chars@.subrange(from as int, to as int),
{
    let mut text = String::new();
    let mut i: usize = from;
    while i < to
        invariant
            from <= i <= to <= chars@.len(),
            text@ == chars@.subrange(from as int, i as int),
        decreases to - i,
    {
        text.push(chars[i]);
        i += 1;
    }
    text
}

/// `s` without its leading white space.
pub open spec fn trim_start(s: Seq<char>) -> Seq<char>
    decreases s.len(),
{
    if s.len() > 0 && is_space(s[0]) {
        trim_start(s.drop_first())
    } else {
        s
    }
}

/// `s` without its trailing white space.
pub open spec fn trim_end(s: Seq<char>) -> Seq<char>
    decreases s.len(),
{
    if s.len() > 0 && is_space(s.last()) {
        trim_end(s.drop_last())
    } else {
        s
    }
}

/// `s` without its leading and trailing white space.
pub open spec fn trim(s: Seq<char>) -> Seq<char> {
    trim_end(trim_start(s))
}

/// The bounds within `chars[from..to]` of what `trim` leaves of it.
pub fn trim_range(chars: &[char], from: usize, to: usize) -> (r: (usize, usize))
    requires
        from <= to <= chars@.len(),
    ensures
        from <= r.0 <= r.1 <= to,
        chars@.subrange(r.0 as int, r.1 as int) == trim(chars@.subrange(from as int, to as int)),
{
    let mut a: usize = from;
    while a < to && is_whitespace(chars[a])
        invariant
            from <= a <= to <= chars@.len(),
            trim_start(chars@.subrange(from as int, to as int)) == trim_start(
                chars@.subrange(a as int, to as int),
            ),
        decreases to - a,
    {
        assert(chars@.subrange(a as int, to as int).drop_first() == chars@.subrange(
            a + 1,
            to as int,
        ));
        a += 1;
    }
    let mut b: usize = to;
    while a < b && is_whitespace(chars[b - 1])
        invariant
            a <= b <= to <= chars@.len(),
            trim_end(chars@.subrange(a as int, to as int)) == trim_end(
                chars@.subrange(a as int, b as int),
            ),
        decreases b - a,
    {
        assert(chars@.subrange(a as int, b as int).drop_last() == chars@.subrange(
            a as int,
            b - 1,
        ));
        b -= 1;
    }
    (a, b)
}

/// The first index at or after `i` that holds no white space, or the length.
pub open spec fn skip_spaces(s: Seq<char>, i: int) -> int
    decreases s.len() - i,
{
    if 0 <= i < s.len() && is_space(s[i]) {
        skip_spaces(s, i + 1)
    } else {
        i
    }
}

/// The first index at or after `i` that holds white space, or the length.
pub open spec fn skip_word(s: Seq<char>, i: int) -> int
    decreases s.len() - i,
{
    if 0 <= i < s.len() && !is_space(s[i]) {
        skip_word(s, i + 1)
    } else {
        i
    }
}

pub proof fn lemma_skip_bounds(s: Seq<char>, i: int)
    requires
        0 <= i <= s.len(),
    ensures
        i <= skip_spaces(s, i) <= s.len(),
        i <= skip_word(s, i) <= s.len(),
        i < s.len() && !is_space(s[i]) ==> i < skip_word(s, i),
    decreases s.len() - i,
{
    if i < s.len() {
        lemma_skip_bounds(s, i + 1);
    }
}

/// The words of `s` that start at or after `i`: the maximal runs without
/// white space, each as its bounds `(start, end)` in `s`, in order.
pub open spec fn words_from(s: Seq<char>, i: int) -> Seq<(int, int)>
    decreases s.len() - i,
{
    let start = skip_spaces(s, i);
    let end = skip_word(s, start);
    if 0 <= i <= s.len() && start < end {
        proof {
            lemma_skip_bounds(s, i);
            lemma_skip_bounds(s, start);
        }
        seq![(start, end)] + words_from(s, end)
    } else {
        Seq::empty()
    }
}

/// The words of `s`, as `split_whitespace` yields them, each as its bounds.
pub open spec fn words(s: Seq<char>) -> Seq<(int, int)> {
    words_from(s, 0)
}

/// The text of the word of `s` with the bounds `w`.
pub open spec fn word_text(s: Seq<char>, w: (int, int)) -> Seq<char> {
    s.subrange(w.0, w.1)
}

/// The next word of `chars` at or after `pos`, if there is one.
pub fn next_word(chars: &[char], pos: usize) -> (r: Option<(usize, usize)>)
    requires
        pos <= chars@.len(),
    ensures
        match r {
            Some((a, b)) => {
                &&& pos <= a < b <= chars@.len()
                &&& a == skip_spaces(chars@, pos as int)
                &&& b == skip_word(chars@, a as int)
                &&& words_from(chars@, pos as int) == seq![(a as int, b as int)] + words_from(
                    chars@,
                    b as int,
                )
            },
            None => words_from(chars@, pos as int) == Seq::<(int, int)>::empty(),
        },
{
    let n = chars.len();
    let mut a: usize = pos;
    while a < n && is_whitespace(chars[a])
        invariant
            pos <= a <= n == chars@.len(),
            skip_spaces(chars@, pos as int) == skip_spaces(chars@, a as int),
        decreases n - a,
    {
        a += 1;
    }
    if a == n {
        return None;
    }
    let mut b: usize = a + 1;
    while b < n && !is_whitespace(chars[b])
        invariant
            a < b <= n == chars@.len(),
            skip_word(chars@, a as int) == skip_word(chars@, b as int),
        decreases n - b,
    {
        b += 1;
    }
    Some((a, b))
}

/// The texts `parts` in a row, with `separator` between each two.
pub open spec fn joined(parts: Seq<Seq<char>>, separator: Seq<char>) -> Seq<char>
    decreases parts.len(),
{
    if parts.len() == 0 {
        Seq::empty()
    } else if parts.len() == 1 {
        parts[0]
    } else {
        joined(parts.drop_last(), separator) + separator + parts.last()
    }
}

/// Whether `chars[from..to]` is the text `text`.
pub fn range_is(chars: &[char], from: usize, to: usize, text: &str) -> (b: bool)
    requires
        from <= to <= chars@.len(),
    ensures
        b == (chars@.subrange(from as int, to as int) == text@),
{
    let other = chars_of(text);
    if to - from != other.len() {
        return false;
    }
    match strip_prefix(chars, from, to, other.as_slice()) {
        Some(_) => {
            assert(chars@.subrange(from as int, to as int).subrange(0, other@.len() as int)
                == chars@.subrange(from as int, to as int));
            true
        },
        None => false,
    }
}

/// Where `chars[from..to]` starts with `prefix`, the index in `chars` at
/// which the rest starts.
pub fn strip_prefix(chars: &[char], from: usize, to: usize, prefix: &[char]) -> (rest: Option<usize>)
    requires
        from <= to <= chars@.len(),
    ensures
        match rest {
            Some(start) => prefix@.is_prefix_of(chars@.subrange(from as int, to as int)) && start
                == from + prefix@.len(),
            None => !prefix@.is_prefix_of(chars@.subrange(from as int, to as int)),
        },
{
    let ghost s = chars@.subrange(from as int, to as int);
    let n = prefix.len();
    if to - from < n {
        return None;
    }
    let mut i: usize = 0;
    while i < n
        invariant
            from <= to <= chars@.len(),
            n == prefix@.len(),
            n <= to - from,
            i <= n,
            s == chars@.subrange(from as int, to as int),
            s.subrange(0, i as int) == prefix@.subrange(0, i as int),
        decreases n - i,
    {
        if chars[from + i] != prefix[i] {
            assert(s.subrange(0, n as int)[i as int] != prefix@[i as int]);
            return None;
        }
        assert(s.subrange(0, i + 1) == s.subrange(0, i as int).push(s[i as int]));
        assert(prefix@.subrange(0, i + 1) == prefix@.subrange(0, i as int).push(prefix@[i as int]));
        i += 1;
    }
    assert(prefix@.subrange(0, n as int) == prefix@);
    Some(from + n)
}

/// Whether `chars[from..to]` starts with the text `prefix`; where it does,
/// the index in `chars` at which the rest starts.
pub fn strip_text(chars: &[char], from: usize, to: usize, prefix: &str) -> (rest: Option<usize>)
    requires
        from <= to <= chars@.len(),
    ensures
        match rest {
            Some(start) => prefix@.is_prefix_of(chars@.subrange(from as int, to as int)) && start
                == from + prefix@.len(),
            None => !prefix@.is_prefix_of(chars@.subrange(from as int, to as int)),
        },
{
    let other = chars_of(prefix);
    strip_prefix(chars, from, to, other.as_slice())
}

/// Whether `part` stands somewhere in `s`.
pub open spec fn contains_text(s: Seq<char>, part: Seq<char>) -> bool {
    exists|i: int| 0 <= i <= s.len() - part.len() && #[trigger] s.subrange(i, i + part.len()) == part
}

/// Whether the text `part` stands somewhere in `chars`.
pub fn contains(chars: &[char], part: &str) -> (b: bool)
    ensures
        b == contains_text(chars@, part@),
{
    let other = chars_of(part);
    let n = chars.len();
    let m = other.len();
    if n < m {
        return false;
    }
    let mut i: usize = 0;
    while i <= n - m
        invariant
            n == chars@.len(),
            m == other@.len(),
            other@ == part@,
            m <= n,
            i <= n - m + 1,
            forall|j: int| 0 <= j < i ==> #[trigger] chars@.subrange(j, j + m) != part@,
        decreases n - m + 1 - i,
    {
        match strip_prefix(chars, i, n, other.as_slice()) {
            Some(_) => {
                assert(chars@.subrange(i as int, n as int).subrange(0, m as int) == chars@.subrange(
                    i as int,
                    i + m,
                ));
                return true;
            },
            None => {
                assert(chars@.subrange(i as int, n as int).subrange(0, m as int) == chars@.subrange(
                    i as int,
                    i + m,
                ));
            },
        }
        i += 1;
    }
    false
}

/// The first index of `s` at or after `from` that holds `c`, or the
/// length.
pub open spec fn index_of(s: Seq<char>, c: char, from: int) -> int
    decreases s.len() - from,
{
    if 0 <= from < s.len() && s[from] != c {
        index_of(s, c, from + 1)
    } else {
        from
    }
}

/// The first index of `chars[a..b]` at or after `from` that holds `c`, or
/// `b`; as an index of `chars`, as `a`, `b` and `from` are.
pub fn find_char(chars: &[char], a: usize, b: usize, from: usize, c: char) -> (at: usize)
    requires
        a <= from <= b <= chars@.len(),
    ensures
        from <= at <= b,
        at - a == index_of(chars@.subrange(a as int, b as int), c, from - a),
{
    let ghost s = chars@.subrange(a as int, b as int);
    let mut at: usize = from;
    while at < b && chars[at] != c
        invariant
            a <= from <= at <= b <= chars@.len(),
            s == chars@.subrange(a as int, b as int),
            index_of(s, c, from - a) == index_of(s, c, at - a),
        decreases b - at,
    {
        at += 1;
    }
    at
}

/// The lines of `s` from `from` on: what stands between the line feeds.
/// There is always a last line, which may be empty.
pub open spec fn lines_from(s: Seq<char>, from: int) -> Seq<Seq<char>>
    decreases s.len() - from,
{
    let end = index_of(s, '\n', from);
    if 0 <= from <= end < s.len() {
        seq![s.subrange(from, end)] + lines_from(s, end + 1)
    } else {
        seq![s.subrange(from, end)]
    }
}

/// The lines of `s`.
pub open spec fn lines(s: Seq<char>) -> Seq<Seq<char>> {
    lines_from(s, 0)
}

} // verus!
