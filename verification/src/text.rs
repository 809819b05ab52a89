//! Scanning of character sequences: separators, fields and decimal numbers.
//!
//! The executable functions work on one buffer of characters and on spans of
//! it; their contracts speak of the characters that a span covers.

use vstd::prelude::*;

verus! {

/// A stretch of a character buffer, from `start` up to `end`.
#[derive(Clone, Copy, Debug, PartialEq, Eq, Structural)]
pub struct Span {
    pub start: usize,
    pub end: usize,
}

impl Span {
    /// The span lies inside a buffer that holds the characters `s`.
    pub open spec fn within(self, s: Seq<char>) -> bool {
        self.start <= self.end <= s.len()
    }

    /// The characters of `s` that the span covers.
    pub open spec fn of(self, s: Seq<char>) -> Seq<char> {
        s.subrange(self.start as int, self.end as int)
    }

    /// The number of characters covered.
    pub fn len(&self) -> (n: usize)
        requires
            self.start <= self.end,
        ensures
            n == self.end - self.start,
    {
        self.end - self.start
    }
}

/// The first position of `c` in `s`, or the length of `s` where `c` does not
/// occur.
pub open spec fn first_index(s: Seq<char>, c: char) -> int
    decreases s.len(),
{
    if s.len() == 0 {
        0
    } else if s[0] == c {
        0
    } else {
        1 + first_index(s.drop_first(), c)
    }
}

/// A position that is in range, has no `c` before it and, where it is a
/// position of `s`, holds `c`, is the first index.
pub proof fn lemma_first_index_unique(s: Seq<char>, c: char, i: int)
    requires
        0 <= i <= s.len(),
        forall|j: int| 0 <= j < i ==> s[j] != c,
        i < s.len() ==> s[i] == c,
    ensures
        first_index(s, c) == i,
    decreases s.len(),
{
    if s.len() == 0 {
    } else if s[0] == c {
        if i > 0 {
            assert(s[0] != c);
        }
    } else {
        let rest = s.drop_first();
        assert forall|j: int| 0 <= j < i - 1 implies rest[j] != c by {
            assert(rest[j] == s[j + 1]);
        }
        if i < s.len() {
            assert(rest[i - 1] == s[i]);
        }
        lemma_first_index_unique(rest, c, i - 1);
    }
}

/// The fields of `s` between occurrences of `sep`: one more than `sep` has
/// occurrences, so never none; a field may be empty.
pub open spec fn split(s: Seq<char>, sep: char) -> Seq<Seq<char>>
    decreases s.len(),
{
    let i = first_index(s, sep);
    if i < 0 || i >= s.len() {
        seq![s]
    } else {
        seq![s.subrange(0, i)] + split(s.subrange(i + 1, s.len() as int), sep)
    }
}

/// The position of the first `c` within the span, or the span's end.
pub fn find_char(v: &Vec<char>, span: Span, c: char) -> (at: usize)
    requires
        span.within(v@),
    ensures
        span.start <= at <= span.end,
        at - span.start == first_index(span.of(v@), c),
{
    let mut i: usize = span.start;
    while i < span.end && v[i] != c
        invariant
            span.within(v@),
            span.start <= i <= span.end,
            forall|j: int| span.start <= j < i ==> v@[j] != c,
        decreases span.end - i,
    {
        i += 1;
    }
    proof {
        lemma_first_index_unique(span.of(v@), c, i - span.start);
    }
    i
}

/// Cuts the span at each `sep`. The spans returned cover, in order, the fields
/// of `split`.
pub fn split_span(v: &Vec<char>, span: Span, sep: char) -> (out: Vec<Span>)
    requires
        span.within(v@),
    ensures
        out@.len() == split(span.of(v@), sep).len(),
        out@.len() >= 1,
        forall|k: int|
            0 <= k < out@.len() ==> (#[trigger] out@[k]).within(v@) && out@[k].of(v@) == split(
                span.of(v@),
                sep,
            )[k],
{
    let mut out: Vec<Span> = Vec::new();
    let mut begin: usize = span.start;
    let mut i: usize = span.start;
    let ghost whole = span.of(v@);
    let ghost mut done: Seq<Seq<char>> = Seq::empty();
    proof {
        assert(v@.subrange(begin as int, span.end as int) =~= whole);
        assert(done + split(whole, sep) =~= split(whole, sep));
    }
    while i < span.end
        invariant
            span.within(v@),
            whole == span.of(v@),
            span.start <= begin <= i <= span.end,
            forall|j: int| begin <= j < i ==> v@[j] != sep,
            done.len() == out@.len(),
            forall|k: int|
                0 <= k < out@.len() ==> (#[trigger] out@[k]).within(v@) && out@[k].of(v@)
                    == done[k],
            split(whole, sep) == done + split(v@.subrange(begin as int, span.end as int), sep),
        decreases span.end - i,
    {
        if v[i] == sep {
            let piece = Span { start: begin, end: i };
            proof {
                let rest = v@.subrange(begin as int, span.end as int);
                lemma_first_index_unique(rest, sep, i - begin);
                assert(rest.subrange(0, i - begin) =~= piece.of(v@));
                assert(rest.subrange(i - begin + 1, rest.len() as int) =~= v@.subrange(
                    i + 1,
                    span.end as int,
                ));
                let next = split(v@.subrange(i + 1, span.end as int), sep);
                assert(split(rest, sep) == seq![piece.of(v@)] + next);
                assert(done + (seq![piece.of(v@)] + next) =~= done.push(piece.of(v@)) + next);
                done = done.push(piece.of(v@));
            }
            out.push(piece);
            begin = i + 1;
        }
        i += 1;
    }
    let last = Span { start: begin, end: span.end };
    proof {
        let rest = v@.subrange(begin as int, span.end as int);
        lemma_first_index_unique(rest, sep, rest.len() as int);
        assert(split(rest, sep) == seq![rest]);
        assert(done + seq![rest] =~= done.push(rest));
        done = done.push(rest);
    }
    out.push(last);
    out
}

/// `pat` stands in `s` at position `i`.
pub open spec fn occurs_at(s: Seq<char>, pat: Seq<char>, i: int) -> bool {
    0 <= i && i + pat.len() <= s.len() && s.subrange(i, i + pat.len()) == pat
}

/// `pat` stands somewhere in `s`.
pub open spec fn contains(s: Seq<char>, pat: Seq<char>) -> bool {
    exists|i: int| occurs_at(s, pat, i)
}

/// Whether `pat` stands in the buffer at position `at`, inside the span.
fn matches_at(v: &Vec<char>, span: Span, at: usize, pat: &Vec<char>) -> (hit: bool)
    requires
        span.within(v@),
        span.start <= at,
        at + pat@.len() <= span.end,
    ensures
        hit == occurs_at(span.of(v@), pat@, at - span.start),
{
    let mut k: usize = 0;
    while k < pat.len()
        invariant
            span.within(v@),
            span.start <= at,
            at + pat@.len() <= span.end,
            k <= pat@.len(),
            forall|j: int| 0 <= j < k ==> v@[at + j] == pat@[j],
        decreases pat@.len() - k,
    {
        if v[at + k] != pat[k] {
            proof {
                let window = span.of(v@).subrange(
                    at - span.start,
                    at - span.start + pat@.len(),
                );
                assert(window[k as int] == v@[at + k]);
            }
            return false;
        }
        k += 1;
    }
    proof {
        let window = span.of(v@).subrange(at - span.start, at - span.start + pat@.len());
        assert(window =~= pat@);
    }
    true
}

/// Whether `pat` stands somewhere in the span.
pub fn contains_in(v: &Vec<char>, span: Span, pat: &Vec<char>) -> (found: bool)
    requires
        span.within(v@),
    ensures
        found == contains(span.of(v@), pat@),
{
    let n: usize = span.len();
    if pat.len() == 0 {
        proof {
            assert(span.of(v@).subrange(0, 0) =~= pat@);
            assert(occurs_at(span.of(v@), pat@, 0));
        }
        return true;
    }
    if pat.len() > n {
        return false;
    }
    let last: usize = span.end - pat.len();
    let mut at: usize = span.start;
    while at <= last
        invariant
            span.within(v@),
            0 < pat@.len() <= span.end - span.start,
            last == span.end - pat@.len(),
            span.start <= at <= last + 1,
            forall|i: int| 0 <= i < at - span.start ==> !occurs_at(span.of(v@), pat@, i),
        decreases last + 1 - at,
    {
        if matches_at(v, span, at, pat) {
            return true;
        }
        at += 1;
    }
    false
}

/// `c` is one of the ten decimal digits.
pub open spec fn is_digit(c: char) -> bool {
    '0' <= c && c <= '9'
}

/// The digit's value.
pub open spec fn digit_value(c: char) -> int {
    c as int - '0' as int
}

/// Every character is a decimal digit.
pub open spec fn all_digits(s: Seq<char>) -> bool {
    forall|i: int| 0 <= i < s.len() ==> is_digit(#[trigger] s[i])
}

/// The number that the digits `s` write in base ten; 0 for no digits.
pub open spec fn decimal_value(s: Seq<char>) -> int
    decreases s.len(),
{
    if s.len() == 0 {
        0
    } else {
        decimal_value(s.drop_last()) * 10 + digit_value(s.last())
    }
}

/// The digits of a number text: the text without one leading plus sign.
pub open spec fn unsigned_digits(s: Seq<char>) -> Seq<char> {
    if s.len() > 0 && s[0] == '+' {
        s.drop_first()
    } else {
        s
    }
}

/// The number that `s` writes: an optional plus sign, then one or more
/// decimal digits, with a value that fits in 32 bits. `None` for any other
/// text.
pub open spec fn parse_number(s: Seq<char>) -> Option<u32> {
    let digits = unsigned_digits(s);
    if digits.len() > 0 && all_digits(digits) && decimal_value(digits) <= u32::MAX {
        Some(decimal_value(digits) as u32)
    } else {
        None
    }
}

/// A number written in digits is not less than the number that fewer of its
/// leading digits write.
pub proof fn lemma_decimal_prefix(s: Seq<char>, k: int)
    requires
        all_digits(s),
        0 <= k <= s.len(),
    ensures
        0 <= decimal_value(s.subrange(0, k)) <= decimal_value(s),
    decreases s.len() - k,
{
    if k == s.len() {
        assert(s.subrange(0, k) =~= s);
        lemma_decimal_nonnegative(s);
    } else {
        lemma_decimal_prefix(s, k + 1);
        let longer = s.subrange(0, k + 1);
        assert(longer.drop_last() =~= s.subrange(0, k));
        assert(is_digit(s[k]));
        assert(longer.last() == s[k]);
        lemma_decimal_nonnegative(s.subrange(0, k));
    }
}

/// Digits write a number that is not negative.
pub proof fn lemma_decimal_nonnegative(s: Seq<char>)
    requires
        all_digits(s),
    ensures
        decimal_value(s) >= 0,
    decreases s.len(),
{
    if s.len() > 0 {
        assert forall|i: int| 0 <= i < s.drop_last().len() implies is_digit(
            #[trigger] s.drop_last()[i],
        ) by {
            assert(s.drop_last()[i] == s[i]);
        }
        lemma_decimal_nonnegative(s.drop_last());
        assert(is_digit(s[s.len() - 1]));
    }
}

/// Reads the number that the span writes.
pub fn parse_u32(v: &Vec<char>, span: Span) -> (out: Option<u32>)
    requires
        span.within(v@),
    ensures
        out == parse_number(span.of(v@)),
{
    let ghost text = span.of(v@);
    let mut begin: usize = span.start;
    if begin < span.end && v[begin] == '+' {
        begin += 1;
    }
    let ghost digits = unsigned_digits(text);
    proof {
        assert(digits =~= v@.subrange(begin as int, span.end as int));
    }
    if begin == span.end {
        return None;
    }
    let mut value: u64 = 0;
    let mut i: usize = begin;
    while i < span.end
        invariant
            span.within(v@),
            span.start <= begin <= i <= span.end,
            digits == v@.subrange(begin as int, span.end as int),
            digits == unsigned_digits(span.of(v@)),
            all_digits(digits.subrange(0, i - begin)),
            value == decimal_value(digits.subrange(0, i - begin)),
            value <= u32::MAX,
        decreases span.end - i,
    {
        let c: char = v[i];
        if c < '0' || c > '9' {
            proof {
                assert(digits[i - begin] == c);
                assert(!is_digit(digits[i - begin]));
            }
            return None;
        }
        let d: u64 = (c as u32 - '0' as u32) as u64;
        let ghost shorter = digits.subrange(0, i - begin);
        let ghost longer = digits.subrange(0, i - begin + 1);
        proof {
            assert(longer.drop_last() =~= shorter);
            assert(longer.last() == c);
            assert forall|j: int| 0 <= j < longer.len() implies is_digit(#[trigger] longer[j]) by {
                if j < shorter.len() {
                    assert(longer[j] == shorter[j]);
                }
            }
        }
        value = value * 10 + d;
        if value > u32::MAX as u64 {
            proof {
                if all_digits(digits) {
                    lemma_decimal_prefix(digits, i - begin + 1);
                }
            }
            return None;
        }
        i += 1;
    }
    proof {
        assert(digits.subrange(0, i - begin) =~= digits);
    }
    Some(value as u32)
}

/// The characters of a string, in a buffer.
pub fn chars_of(s: &str) -> (v: Vec<char>)
    ensures
        v@ == s@,
{
    let n: usize = s.unicode_len();
    let mut v: Vec<char> = Vec::new();
    let mut i: usize = 0;
    while i < n
        invariant
            n == s@.len(),
            i <= n,
            v@ == s@.subrange(0, i as int),
        decreases n - i,
    {
        v.push(s.get_char(i));
        proof {
            assert(v@ =~= s@.subrange(0, i + 1));
        }
        i += 1;
    }
    proof {
        assert(s@.subrange(0, n as int) =~= s@);
    }
    v
}

} // verus!
