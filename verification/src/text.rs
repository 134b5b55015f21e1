//! Character-level building blocks of the control message grammar:
//! whitespace, trimming, splitting and decimal numbers.
//!
//! Each operation is described by a spec function over `Seq<char>` and
//! carried out by an executable function over `&[char]` that is proved to
//! compute it.

use vstd::prelude::*;
use vstd::slice::slice_subrange;

verus! {

/// `String::push` appends one character to the end of the string.
pub assume_specification[ String::push ](s: &mut String, c: char)
    ensures
        final(s)@ == old(s)@.push(c),
;

/// Whether `c` is white space: the Unicode characters with the `White_Space`
/// property, of which the ASCII ones are tab, line feed, vertical tab, form
/// feed, carriage return and space.
pub open spec fn is_space(c: char) -> bool {
    let n = c as u32;
    ||| 0x09 <= n <= 0x0d
    ||| n == 0x20
    ||| n == 0x85
    ||| n == 0xa0
    ||| n == 0x1680
    ||| 0x2000 <= n <= 0x200a
    ||| n == 0x2028
    ||| n == 0x2029
    ||| n == 0x202f
    ||| n == 0x205f
    ||| n == 0x3000
}

/// Index of the first `c` in `s`, or the length of `s` if there is none.
pub open spec fn find_char(s: Seq<char>, c: char) -> nat
    decreases s.len(),
{
    if s.len() == 0 || s[0] == c {
        0
    } else {
        1 + find_char(s.drop_first(), c)
    }
}

/// Number of white space characters at the start of `s`.
pub open spec fn space_run(s: Seq<char>) -> nat
    decreases s.len(),
{
    if s.len() == 0 || !is_space(s[0]) {
        0
    } else {
        1 + space_run(s.drop_first())
    }
}

/// Number of characters at the start of `s` that are not white space.
pub open spec fn word_run(s: Seq<char>) -> nat
    decreases s.len(),
{
    if s.len() == 0 || is_space(s[0]) {
        0
    } else {
        1 + word_run(s.drop_first())
    }
}

/// Number of white space characters at the end of `s`.
pub open spec fn trailing_space_run(s: Seq<char>) -> nat
    decreases s.len(),
{
    if s.len() == 0 || !is_space(s.last()) {
        0
    } else {
        1 + trailing_space_run(s.drop_last())
    }
}

/// `s` without the white space at its start and at its end.
pub open spec fn spec_trim(s: Seq<char>) -> Seq<char> {
    let t = s.skip(space_run(s) as int);
    t.take(t.len() - trailing_space_run(t))
}

/// An index up to which no `c` occurs, and at which `s` ends or holds `c`,
/// is `find_char(s, c)`.
pub proof fn lemma_find_char_is(s: Seq<char>, c: char, n: nat)
    requires
        n <= s.len(),
        forall|i: int| 0 <= i < n ==> s[i] != c,
        n < s.len() ==> s[n as int] == c,
    ensures
        find_char(s, c) == n,
    decreases s.len(),
{
    if s.len() == 0 || s[0] == c {
    } else {
        let t = s.drop_first();
        assert forall|i: int| 0 <= i < n - 1 implies t[i] != c by {
            assert(t[i] == s[i + 1]);
        }
        lemma_find_char_is(t, c, (n - 1) as nat);
    }
}

/// `space_run(s)` is the one index up to which every character is white
/// space and at which `s` ends or holds another character.
pub proof fn lemma_space_run(s: Seq<char>)
    ensures
        space_run(s) <= s.len(),
        forall|i: int| 0 <= i < space_run(s) ==> is_space(s[i]),
        space_run(s) < s.len() ==> !is_space(s[space_run(s) as int]),
    decreases s.len(),
{
    if s.len() == 0 || !is_space(s[0]) {
    } else {
        let t = s.drop_first();
        lemma_space_run(t);
        assert forall|i: int| 0 <= i < space_run(s) implies is_space(s[i]) by {
            if i > 0 {
                assert(s[i] == t[i - 1]);
            }
        }
        if space_run(s) < s.len() {
            assert(s[space_run(s) as int] == t[space_run(t) as int]);
        }
    }
}

/// Any index with the properties of [`lemma_space_run`] is `space_run(s)`.
pub proof fn lemma_space_run_is(s: Seq<char>, n: nat)
    requires
        n <= s.len(),
        forall|i: int| 0 <= i < n ==> is_space(s[i]),
        n < s.len() ==> !is_space(s[n as int]),
    ensures
        space_run(s) == n,
    decreases s.len(),
{
    if s.len() == 0 || !is_space(s[0]) {
    } else {
        let t = s.drop_first();
        assert forall|i: int| 0 <= i < n - 1 implies is_space(t[i]) by {
            assert(t[i] == s[i + 1]);
        }
        lemma_space_run_is(t, (n - 1) as nat);
    }
}

/// `word_run(s)` is the one index up to which no character is white space
/// and at which `s` ends or holds white space.
pub proof fn lemma_word_run(s: Seq<char>)
    ensures
        word_run(s) <= s.len(),
        forall|i: int| 0 <= i < word_run(s) ==> !is_space(s[i]),
        word_run(s) < s.len() ==> is_space(s[word_run(s) as int]),
    decreases s.len(),
{
    if s.len() == 0 || is_space(s[0]) {
    } else {
        let t = s.drop_first();
        lemma_word_run(t);
        assert forall|i: int| 0 <= i < word_run(s) implies !is_space(s[i]) by {
            if i > 0 {
                assert(s[i] == t[i - 1]);
            }
        }
        if word_run(s) < s.len() {
            assert(s[word_run(s) as int] == t[word_run(t) as int]);
        }
    }
}

/// Any index with the properties of [`lemma_word_run`] is `word_run(s)`.
pub proof fn lemma_word_run_is(s: Seq<char>, n: nat)
    requires
        n <= s.len(),
        forall|i: int| 0 <= i < n ==> !is_space(s[i]),
        n < s.len() ==> is_space(s[n as int]),
    ensures
        word_run(s) == n,
    decreases s.len(),
{
    if s.len() == 0 || is_space(s[0]) {
    } else {
        let t = s.drop_first();
        assert forall|i: int| 0 <= i < n - 1 implies !is_space(t[i]) by {
            assert(t[i] == s[i + 1]);
        }
        lemma_word_run_is(t, (n - 1) as nat);
    }
}

/// A count of characters at the end of `s` that are all white space, and
/// before which `s` starts or holds another character, is
/// `trailing_space_run(s)`.
pub proof fn lemma_trailing_space_run_is(s: Seq<char>, n: nat)
    requires
        n <= s.len(),
        forall|i: int| s.len() - n <= i < s.len() ==> is_space(s[i]),
        n < s.len() ==> !is_space(s[s.len() - n - 1]),
    ensures
        trailing_space_run(s) == n,
    decreases s.len(),
{
    if s.len() == 0 || !is_space(s.last()) {
    } else {
        let t = s.drop_last();
        assert forall|i: int| t.len() - (n - 1) <= i < t.len() implies is_space(t[i]) by {
            assert(t[i] == s[i]);
        }
        lemma_trailing_space_run_is(t, (n - 1) as nat);
    }
}

/// Tells white space from other characters.
pub fn is_whitespace(c: char) -> (r: bool)
    ensures
        r == is_space(c),
{
    let n: u32 = c as u32;
    (0x09 <= n && n <= 0x0d) || n == 0x20 || n == 0x85 || n == 0xa0 || n == 0x1680 || (0x2000 <= n
        && n <= 0x200a) || n == 0x2028 || n == 0x2029 || n == 0x202f || n == 0x205f || n == 0x3000
}

/// Finds the first `c` at or after `from`; returns the length of `s` if
/// there is none.
pub fn find_from(s: &[char], from: usize, c: char) -> (at: usize)
    ensures
        from <= s@.len() ==> at == from + find_char(s@.skip(from as int), c) && from <= at,
        from > s@.len() ==> at == s@.len(),
        at <= s@.len(),
{
    if from > s.len() {
        return s.len();
    }
    let mut at: usize = from;
    while at < s.len() && s[at] != c
        invariant
            from <= at <= s@.len(),
            forall|i: int| from <= i < at ==> s@[i] != c,
        decreases s@.len() - at,
    {
        at = at + 1;
    }
    proof {
        let t = s@.skip(from as int);
        assert forall|i: int| 0 <= i < at - from implies t[i] != c by {
            assert(t[i] == s@[from + i]);
        }
        lemma_find_char_is(t, c, (at - from) as nat);
    }
    at
}

/// Removes the white space at both ends of `s`.
pub fn trim(s: &[char]) -> (r: &[char])
    ensures
        r@ == spec_trim(s@),
{
    let mut start: usize = 0;
    while start < s.len() && is_whitespace(s[start])
        invariant
            start <= s@.len(),
            forall|i: int| 0 <= i < start ==> is_space(s@[i]),
        decreases s@.len() - start,
    {
        start = start + 1;
    }
    proof {
        lemma_space_run_is(s@, start as nat);
    }
    let ghost t = s@.skip(start as int);
    let mut end: usize = s.len();
    while end > start && is_whitespace(s[end - 1])
        invariant
            start <= end <= s@.len(),
            forall|i: int| end <= i < s@.len() ==> is_space(s@[i]),
        decreases end,
    {
        end = end - 1;
    }
    proof {
        let n = (s@.len() - end) as nat;
        assert forall|i: int| t.len() - n <= i < t.len() implies is_space(t[i]) by {
            assert(t[i] == s@[start + i]);
        }
        if n < t.len() {
            assert(t[t.len() - n - 1] == s@[end - 1]);
        }
        lemma_trailing_space_run_is(t, n);
        assert(s@.subrange(start as int, end as int) =~= t.take(t.len() - n));
    }
    slice_subrange(s, start, end)
}

/// `line` without one carriage return at its end, if it has one.
pub open spec fn strip_cr(line: Seq<char>) -> Seq<char> {
    if line.len() > 0 && line.last() == '\r' {
        line.drop_last()
    } else {
        line
    }
}

/// The lines of `s`.
///
/// A line ends at a line feed; a carriage return just before that line feed
/// is not part of the line. Text after the last line feed is a line of its
/// own, kept as it is; an empty text has no lines.
pub open spec fn spec_lines(s: Seq<char>) -> Seq<Seq<char>>
    decreases s.len(),
{
    let n = find_char(s, '\n');
    if s.len() == 0 {
        Seq::empty()
    } else if n >= s.len() {
        seq![s]
    } else {
        seq![strip_cr(s.take(n as int))] + spec_lines(s.skip(n as int + 1))
    }
}

/// The words of `s`: the maximal runs of characters that are not white
/// space, in order.
pub open spec fn spec_words(s: Seq<char>) -> Seq<Seq<char>>
    decreases s.len(),
    via spec_words_decreases
{
    let t = s.skip(space_run(s) as int);
    if t.len() == 0 {
        Seq::empty()
    } else {
        seq![t.take(word_run(t) as int)] + spec_words(t.skip(word_run(t) as int))
    }
}

#[via_fn]
proof fn spec_words_decreases(s: Seq<char>) {
    let t = s.skip(space_run(s) as int);
    lemma_space_run(s);
    lemma_word_run(t);
    if t.len() != 0 {
        assert(!is_space(t[0]));
        assert(word_run(t) >= 1);
    }
}

/// The pieces of `s` between occurrences of `sep`. There is always at least
/// one piece; pieces may be empty.
pub open spec fn spec_split(s: Seq<char>, sep: char) -> Seq<Seq<char>>
    decreases s.len(),
{
    let n = find_char(s, sep);
    if n >= s.len() {
        seq![s]
    } else {
        seq![s.take(n as int)] + spec_split(s.skip(n as int + 1), sep)
    }
}

/// The sequences that a vector of slices stands for.
pub open spec fn slices_view(v: Seq<&[char]>) -> Seq<Seq<char>> {
    Seq::new(v.len(), |i: int| v[i]@)
}

/// Splits a text into its lines.
pub fn split_lines<'a>(text: &'a [char]) -> (lines: Vec<&'a [char]>)
    ensures
        slices_view(lines@) == spec_lines(text@),
{
    let mut lines: Vec<&'a [char]> = Vec::new();
    let mut pos: usize = 0;
    assert(text@.skip(0) =~= text@);
    assert(slices_view(lines@) + spec_lines(text@) =~= spec_lines(text@));
    while pos < text.len()
        invariant
            pos <= text@.len(),
            spec_lines(text@) == slices_view(lines@) + spec_lines(text@.skip(pos as int)),
        decreases text@.len() - pos,
    {
        let ghost rest = text@.skip(pos as int);
        let ghost before = slices_view(lines@);
        let end = find_from(text, pos, '\n');
        if end >= text.len() {
            let line = slice_subrange(text, pos, text.len());
            lines.push(line);
            proof {
                assert(line@ =~= rest);
                assert(spec_lines(rest) == seq![rest]);
                assert(spec_lines(text@.skip(text@.len() as int)) =~= Seq::<Seq<char>>::empty());
                assert(slices_view(lines@) =~= before.push(rest));
                assert(before + seq![rest] =~= before.push(rest));
            }
            pos = text.len();
        } else {
            let mut line_end = end;
            if line_end > pos && text[line_end - 1] == '\r' {
                line_end = line_end - 1;
            }
            let line = slice_subrange(text, pos, line_end);
            lines.push(line);
            proof {
                let n = (end - pos) as int;
                let raw = rest.take(n);
                assert(raw =~= text@.subrange(pos as int, end as int));
                if raw.len() > 0 {
                    assert(raw.last() == text@[end - 1]);
                }
                assert(line@ =~= strip_cr(raw));
                assert(rest.skip(n + 1) =~= text@.skip(end + 1));
                assert(slices_view(lines@) =~= before.push(line@));
                assert(before + (seq![line@] + spec_lines(text@.skip(end + 1))) =~= before.push(
                    line@,
                ) + spec_lines(text@.skip(end + 1)));
            }
            pos = end + 1;
        }
    }
    assert(spec_lines(text@.skip(pos as int)) =~= Seq::<Seq<char>>::empty());
    assert(slices_view(lines@) + Seq::<Seq<char>>::empty() =~= slices_view(lines@));
    lines
}

/// Splits a text into its words.
pub fn split_words<'a>(text: &'a [char]) -> (words: Vec<&'a [char]>)
    ensures
        slices_view(words@) == spec_words(text@),
{
    let mut words: Vec<&'a [char]> = Vec::new();
    let mut pos: usize = 0;
    assert(text@.skip(0) =~= text@);
    assert(slices_view(words@) + spec_words(text@) =~= spec_words(text@));
    loop
        invariant
            pos <= text@.len(),
            spec_words(text@) == slices_view(words@) + spec_words(text@.skip(pos as int)),
        ensures
            spec_words(text@) == slices_view(words@),
        decreases text@.len() - pos,
    {
        let ghost rest = text@.skip(pos as int);
        let ghost before = slices_view(words@);
        let mut start: usize = pos;
        while start < text.len() && is_whitespace(text[start])
            invariant
                pos <= start <= text@.len(),
                forall|i: int| pos <= i < start ==> is_space(text@[i]),
            decreases text@.len() - start,
        {
            start = start + 1;
        }
        proof {
            assert forall|i: int| 0 <= i < start - pos implies is_space(rest[i]) by {
                assert(rest[i] == text@[pos + i]);
            }
            lemma_space_run_is(rest, (start - pos) as nat);
            assert(rest.skip(start - pos) =~= text@.skip(start as int));
        }
        let ghost tail = text@.skip(start as int);
        if start >= text.len() {
            proof {
                assert(spec_words(rest) =~= Seq::<Seq<char>>::empty());
                assert(before + Seq::<Seq<char>>::empty() =~= before);
            }
            break ;
        }
        let mut end: usize = start;
        while end < text.len() && !is_whitespace(text[end])
            invariant
                start <= end <= text@.len(),
                forall|i: int| start <= i < end ==> !is_space(text@[i]),
            decreases text@.len() - end,
        {
            end = end + 1;
        }
        let word = slice_subrange(text, start, end);
        words.push(word);
        proof {
            assert forall|i: int| 0 <= i < end - start implies !is_space(tail[i]) by {
                assert(tail[i] == text@[start + i]);
            }
            lemma_word_run_is(tail, (end - start) as nat);
            assert(word@ =~= tail.take(end - start));
            assert(tail.skip(end - start) =~= text@.skip(end as int));
            assert(spec_words(rest) == seq![word@] + spec_words(text@.skip(end as int)));
            assert(slices_view(words@) =~= before.push(word@));
            assert(before + (seq![word@] + spec_words(text@.skip(end as int))) =~= before.push(
                word@,
            ) + spec_words(text@.skip(end as int)));
        }
        pos = end;
    }
    words
}

/// Splits a text at every occurrence of `sep`.
pub fn split<'a>(text: &'a [char], sep: char) -> (parts: Vec<&'a [char]>)
    ensures
        slices_view(parts@) == spec_split(text@, sep),
{
    let mut parts: Vec<&'a [char]> = Vec::new();
    let mut pos: usize = 0;
    assert(text@.skip(0) =~= text@);
    assert(slices_view(parts@) + spec_split(text@, sep) =~= spec_split(text@, sep));
    loop
        invariant_except_break
            spec_split(text@, sep) == slices_view(parts@) + spec_split(
                text@.skip(pos as int),
                sep,
            ),
        invariant
            pos <= text@.len(),
        ensures
            spec_split(text@, sep) == slices_view(parts@),
        decreases text@.len() - pos,
    {
        let ghost rest = text@.skip(pos as int);
        let ghost before = slices_view(parts@);
        let end = find_from(text, pos, sep);
        let part = slice_subrange(text, pos, end);
        parts.push(part);
        proof {
            assert(part@ =~= rest.take(end - pos));
            assert(slices_view(parts@) =~= before.push(part@));
        }
        if end >= text.len() {
            proof {
                assert(part@ =~= rest);
                assert(before + seq![rest] =~= before.push(rest));
            }
            break ;
        }
        proof {
            assert(rest.skip(end - pos + 1) =~= text@.skip(end + 1));
            assert(before + (seq![part@] + spec_split(text@.skip(end + 1), sep)) =~= before.push(
                part@,
            ) + spec_split(text@.skip(end + 1), sep));
        }
        pos = end + 1;
    }
    parts
}

/// Whether `c` is one of the ten ASCII digits.
pub open spec fn is_digit(c: char) -> bool {
    0x30 <= c as u32 <= 0x39
}

/// The number that the digit `c` stands for.
pub open spec fn digit_value(c: char) -> nat {
    (c as u32 - 0x30) as nat
}

/// The digit that stands for `d`, a number below ten.
pub open spec fn digit_char(d: nat) -> char {
    (d + 0x30) as char
}

/// Whether `s` holds digits only.
pub open spec fn all_digits(s: Seq<char>) -> bool {
    forall|i: int| 0 <= i < s.len() ==> is_digit(#[trigger] s[i])
}

/// The number that a sequence of digits spells in base ten.
pub open spec fn digits_value(s: Seq<char>) -> nat
    decreases s.len(),
{
    if s.len() == 0 {
        0
    } else {
        digits_value(s.drop_last()) * 10 + digit_value(s.last())
    }
}

/// The number that `s` spells, if it spells one that is at most `max`.
///
/// A number is written as one or more digits, with any number of leading
/// zeros, optionally after a single plus sign. Nothing else is accepted: no
/// white space, no minus sign, no empty text.
pub open spec fn spec_parse_number(s: Seq<char>, max: nat) -> Option<nat> {
    let digits = if s.len() > 0 && s[0] == '+' {
        s.drop_first()
    } else {
        s
    };
    if digits.len() > 0 && all_digits(digits) && digits_value(digits) <= max {
        Some(digits_value(digits))
    } else {
        None
    }
}

/// The shortest way to write `n` in base ten: no sign and no leading zeros.
pub open spec fn spec_decimal(n: nat) -> Seq<char>
    decreases n,
{
    if n < 10 {
        seq![digit_char(n)]
    } else {
        spec_decimal(n / 10).push(digit_char(n % 10))
    }
}

/// A character with its ASCII capital letters folded to small ones, as a
/// code point.
pub open spec fn fold_case(c: char) -> u32 {
    let n = c as u32;
    if 0x41 <= n <= 0x5a {
        (n + 32) as u32
    } else {
        n
    }
}

/// Whether `s` is `name` but for the case of its ASCII letters, where `name`
/// itself holds no capital letters.
pub open spec fn matches_ignoring_case(s: Seq<char>, name: Seq<char>) -> bool {
    &&& s.len() == name.len()
    &&& forall|i: int| 0 <= i < s.len() ==> fold_case(#[trigger] s[i]) == name[i] as u32
}

/// The value of the digits read so far never exceeds the value of them all.
pub proof fn lemma_digits_value_grows(s: Seq<char>, k: int)
    requires
        0 <= k <= s.len(),
    ensures
        digits_value(s.take(k)) <= digits_value(s),
    decreases s.len() - k,
{
    if k == s.len() {
        assert(s.take(k) =~= s);
    } else {
        lemma_digits_value_grows(s, k + 1);
        assert(s.take(k + 1).drop_last() =~= s.take(k));
    }
}

/// What is known of the decimal form of a number: it is made of digits, has
/// at least one, and spells the number.
pub proof fn lemma_decimal(n: nat)
    ensures
        spec_decimal(n).len() >= 1,
        all_digits(spec_decimal(n)),
        digits_value(spec_decimal(n)) == n,
    decreases n,
{
    if n < 10 {
        let s = spec_decimal(n);
        assert(s.drop_last() =~= Seq::<char>::empty());
        assert(digits_value(s.drop_last()) == 0);
    } else {
        lemma_decimal(n / 10);
        let s = spec_decimal(n);
        assert(s.drop_last() =~= spec_decimal(n / 10));
    }
}

/// Reading inverts writing: the decimal form of a number that is at most
/// `max` parses to that number.
pub proof fn lemma_parse_decimal(n: nat, max: nat)
    requires
        n <= max,
    ensures
        spec_parse_number(spec_decimal(n), max) == Some(n),
{
    lemma_decimal(n);
    assert(is_digit(spec_decimal(n)[0]));
}

fn parse_bounded(s: &[char], max: u64) -> (r: Option<u64>)
    requires
        max <= 0xffff_ffff,
    ensures
        r matches Some(v) ==> spec_parse_number(s@, max as nat) == Some(v as nat),
        r is None ==> spec_parse_number(s@, max as nat) is None,
{
    let start: usize = if s.len() > 0 && s[0] == '+' {
        1
    } else {
        0
    };
    let ghost digits = if s@.len() > 0 && s@[0] == '+' {
        s@.drop_first()
    } else {
        s@
    };
    assert(digits =~= s@.skip(start as int));
    if start >= s.len() {
        return None;
    }
    let mut acc: u64 = 0;
    let mut i: usize = start;
    assert(digits.take(0) =~= Seq::<char>::empty());
    while i < s.len()
        invariant
            start <= i <= s@.len(),
            digits == s@.skip(start as int),
            digits == if s@.len() > 0 && s@[0] == '+' {
                s@.drop_first()
            } else {
                s@
            },
            all_digits(digits.take(i - start)),
            acc == digits_value(digits.take(i - start)),
            acc <= max <= 0xffff_ffff,
        decreases s@.len() - i,
    {
        let n: u32 = s[i] as u32;
        let ghost k = i - start;
        assert(digits[k] == s@[i as int]);
        if n < 0x30 || n > 0x39 {
            assert(!is_digit(digits[k]));
            return None;
        }
        acc = acc * 10 + (n - 0x30) as u64;
        proof {
            let next = digits.take(k + 1);
            assert(next.drop_last() =~= digits.take(k));
            assert(next.last() == digits[k]);
            assert forall|j: int| 0 <= j < next.len() implies is_digit(#[trigger] next[j]) by {
                if j < k {
                    assert(next[j] == digits.take(k)[j]);
                }
            }
        }
        if acc > max {
            proof {
                lemma_digits_value_grows(digits, k + 1);
            }
            return None;
        }
        i = i + 1;
    }
    assert(digits.take(i - start) =~= digits);
    Some(acc)
}

/// Reads a number that fits in 32 bits.
pub fn parse_u32(s: &[char]) -> (r: Option<u32>)
    ensures
        r matches Some(v) ==> spec_parse_number(s@, u32::MAX as nat) == Some(v as nat),
        r is None ==> spec_parse_number(s@, u32::MAX as nat) is None,
{
    match parse_bounded(s, 0xffff_ffff) {
        Some(v) => Some(v as u32),
        None => None,
    }
}

/// Reads a number that fits in 16 bits.
pub fn parse_u16(s: &[char]) -> (r: Option<u16>)
    ensures
        r matches Some(v) ==> spec_parse_number(s@, u16::MAX as nat) == Some(v as nat),
        r is None ==> spec_parse_number(s@, u16::MAX as nat) is None,
{
    match parse_bounded(s, 0xffff) {
        Some(v) => Some(v as u16),
        None => None,
    }
}

fn digit_of(d: u32) -> (c: char)
    requires
        d < 10,
    ensures
        c == digit_char(d as nat),
{
    if d == 0 {
        '0'
    } else if d == 1 {
        '1'
    } else if d == 2 {
        '2'
    } else if d == 3 {
        '3'
    } else if d == 4 {
        '4'
    } else if d == 5 {
        '5'
    } else if d == 6 {
        '6'
    } else if d == 7 {
        '7'
    } else if d == 8 {
        '8'
    } else {
        '9'
    }
}

/// Appends the decimal form of `n` to `out`.
pub fn push_decimal(out: &mut String, n: u32)
    ensures
        final(out)@ == old(out)@ + spec_decimal(n as nat),
    decreases n,
{
    if n >= 10 {
        push_decimal(out, n / 10);
    }
    out.push(digit_of(n % 10));
    proof {
        if n < 10 {
            assert(old(out)@.push(digit_char(n as nat)) =~= old(out)@ + spec_decimal(n as nat));
        } else {
            assert((old(out)@ + spec_decimal((n / 10) as nat)).push(digit_char((n % 10) as nat))
                =~= old(out)@ + spec_decimal(n as nat));
        }
    }
}

/// Whether `s` holds exactly the characters of `literal`.
pub fn equals(s: &[char], literal: &str) -> (r: bool)
    ensures
        r == (s@ == literal@),
{
    let wanted = to_chars(literal);
    if s.len() != wanted.len() {
        return false;
    }
    let mut i: usize = 0;
    while i < s.len()
        invariant
            i <= s@.len(),
            s@.len() == wanted@.len(),
            wanted@ == literal@,
            forall|j: int| 0 <= j < i ==> s@[j] == wanted@[j],
        decreases s@.len() - i,
    {
        if s[i] != wanted[i] {
            return false;
        }
        i = i + 1;
    }
    assert(s@ =~= wanted@);
    true
}

/// Whether `s` is `name` but for the case of its ASCII letters.
pub fn equals_ignoring_case(s: &[char], name: &str) -> (r: bool)
    ensures
        r == matches_ignoring_case(s@, name@),
{
    let wanted = to_chars(name);
    if s.len() != wanted.len() {
        return false;
    }
    let mut i: usize = 0;
    while i < s.len()
        invariant
            i <= s@.len(),
            s@.len() == wanted@.len(),
            wanted@ == name@,
            forall|j: int| 0 <= j < i ==> fold_case(#[trigger] s@[j]) == wanted@[j] as u32,
        decreases s@.len() - i,
    {
        let n: u32 = s[i] as u32;
        let folded: u32 = if 0x41 <= n && n <= 0x5a {
            n + 32
        } else {
            n
        };
        if folded != wanted[i] as u32 {
            return false;
        }
        i = i + 1;
    }
    true
}

/// Whether `s` begins with the characters of `literal`.
pub fn starts_with(s: &[char], literal: &str) -> (r: bool)
    ensures
        r == literal@.is_prefix_of(s@),
{
    let wanted = to_chars(literal);
    if s.len() < wanted.len() {
        return false;
    }
    let mut i: usize = 0;
    while i < wanted.len()
        invariant
            i <= wanted@.len() <= s@.len(),
            wanted@ == literal@,
            forall|j: int| 0 <= j < i ==> s@[j] == wanted@[j],
        decreases wanted@.len() - i,
    {
        if s[i] != wanted[i] {
            assert(s@.subrange(0, wanted@.len() as int)[i as int] != wanted@[i as int]);
            return false;
        }
        i = i + 1;
    }
    assert(wanted@ =~= s@.subrange(0, wanted@.len() as int));
    true
}

/// The characters of a string slice, in order.
pub fn to_chars(s: &str) -> (v: Vec<char>)
    ensures
        v@ == s@,
{
    broadcast use vstd::string::axiom_spec_iter;

    let mut v: Vec<char> = Vec::new();
    for c in it: s.chars()
        invariant
            it.seq() == s@,
            v@ == it.history(),
    {
        v.push(c);
    }
    v
}

/// The string made of the given characters, in order.
pub fn to_string(chars: &[char]) -> (s: String)
    ensures
        s@ == chars@,
{
    let mut s = String::new();
    let mut i: usize = 0;
    while i < chars.len()
        invariant
            i <= chars@.len(),
            s@ == chars@.take(i as int),
        decreases chars@.len() - i,
    {
        s.push(chars[i]);
        i = i + 1;
        assert(chars@.take(i as int) =~= chars@.take(i - 1).push(chars@[i - 1]));
    }
    assert(chars@.take(i as int) =~= chars@);
    s
}

/// Whether `s` is a word: not empty, and free of white space.
pub open spec fn is_word(s: Seq<char>) -> bool {
    &&& s.len() > 0
    &&& forall|i: int| 0 <= i < s.len() ==> !is_space(#[trigger] s[i])
}

/// Whether trimming `s` would leave it as it is: it neither starts nor ends
/// with white space.
pub open spec fn is_trimmed(s: Seq<char>) -> bool {
    s.len() == 0 || (!is_space(s[0]) && !is_space(s.last()))
}

/// Whether `s` fits on one line: it holds no line feed.
pub open spec fn is_one_line(s: Seq<char>) -> bool {
    forall|i: int| 0 <= i < s.len() ==> #[trigger] s[i] != '\n'
}

/// The two characters that end a line.
pub open spec fn line_end() -> Seq<char> {
    seq!['\r', '\n']
}

/// A line that is written out with its line end is read back as it was,
/// before the lines of what follows.
pub proof fn lemma_lines_of_line(line: Seq<char>, rest: Seq<char>)
    requires
        is_one_line(line),
    ensures
        spec_lines(line + line_end() + rest) == seq![line] + spec_lines(rest),
{
    let s = line + line_end() + rest;
    let n = line.len() + 1;
    assert(s[n as int] == '\n');
    assert forall|i: int| 0 <= i < n implies s[i] != '\n' by {
        if i < line.len() {
            assert(s[i] == line[i]);
        } else {
            assert(s[i] == '\r');
        }
    }
    lemma_find_char_is(s, '\n', n);
    assert(s.take(n as int) =~= line.push('\r'));
    assert(line.push('\r').drop_last() =~= line);
    assert(s.skip(n as int + 1) =~= rest);
}

/// White space before a text adds no word to it.
pub proof fn lemma_words_after_space(c: char, rest: Seq<char>)
    requires
        is_space(c),
    ensures
        spec_words(seq![c] + rest) == spec_words(rest),
{
    let s = seq![c] + rest;
    assert(s.drop_first() =~= rest);
    assert(space_run(s) == 1 + space_run(rest));
    lemma_space_run(rest);
    assert(s.skip(space_run(s) as int) =~= rest.skip(space_run(rest) as int));
}

/// A word that is written out before white space is read back as it was,
/// before the words of what follows.
pub proof fn lemma_words_of_word(word: Seq<char>, c: char, rest: Seq<char>)
    requires
        is_word(word),
        is_space(c),
    ensures
        spec_words(word + seq![c] + rest) == seq![word] + spec_words(rest),
{
    let s = word + seq![c] + rest;
    assert(s[0] == word[0]);
    assert(s.skip(0) =~= s);
    let n = word.len();
    assert(s[n as int] == c);
    assert forall|i: int| 0 <= i < n implies !is_space(s[i]) by {
        assert(s[i] == word[i]);
    }
    lemma_word_run_is(s, n);
    assert(s.take(n as int) =~= word);
    assert(s.skip(n as int) =~= seq![c] + rest);
    lemma_words_after_space(c, rest);
}

/// A word by itself is its only word.
pub proof fn lemma_words_of_last(word: Seq<char>)
    requires
        is_word(word),
    ensures
        spec_words(word) == seq![word],
{
    assert(word.skip(0) =~= word);
    lemma_word_run_is(word, word.len());
    assert(word.take(word.len() as int) =~= word);
    let rest = word.skip(word.len() as int);
    assert(rest =~= Seq::<char>::empty());
    assert(rest.skip(space_run(rest) as int) =~= Seq::<char>::empty());
    assert(spec_words(rest) =~= Seq::<Seq<char>>::empty());
}

/// Trimming leaves a trimmed text as it is, with or without white space
/// before it.
pub proof fn lemma_trim_of_trimmed(s: Seq<char>)
    requires
        is_trimmed(s),
    ensures
        spec_trim(s) == s,
        forall|c: char| is_space(c) ==> #[trigger] spec_trim(seq![c] + s) == s,
{
    lemma_space_run_is(s, 0);
    assert(s.skip(0) =~= s);
    lemma_trailing_space_run_is(s, 0);
    assert(s.take(s.len() as int) =~= s);
    assert forall|c: char| is_space(c) implies #[trigger] spec_trim(seq![c] + s) == s by {
        let p = seq![c] + s;
        if s.len() > 0 {
            assert(p[1] == s[0]);
        }
        lemma_space_run_is(p, 1);
        assert(p.skip(1) =~= s);
    }
}

/// The decimal form of a number is a word, hence trimmed, and fits on one
/// line.
pub proof fn lemma_decimal_is_word(n: nat)
    ensures
        is_word(spec_decimal(n)),
        is_trimmed(spec_decimal(n)),
        is_one_line(spec_decimal(n)),
{
    lemma_decimal(n);
    let s = spec_decimal(n);
    assert forall|i: int| 0 <= i < s.len() implies !is_space(#[trigger] s[i]) && s[i] != '\n' by {
        assert(is_digit(s[i]));
    }
}

} // verus!
