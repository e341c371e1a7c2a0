//! Character-level text primitives shared by the parsers.
//!
//! Every text is modelled as a `Seq<char>`; the executable functions work on
//! `Vec<char>` buffers and on index ranges into them.
use vstd::prelude::*;

verus! {

/// `String::push` of the standard library appends one character to the string.
pub assume_specification[ std::string::String::push ](s: &mut std::string::String, ch: char)
    ensures
        final(s)@ == old(s)@.push(ch),
;

/// The characters with the Unicode `White_Space` property.
pub open spec fn is_space(c: char) -> bool {
    let u = c as u32;
    (0x09 <= u <= 0x0d) || u == 0x20 || u == 0x85 || u == 0xa0 || u == 0x1680 || (0x2000 <= u
        <= 0x200a) || u == 0x2028 || u == 0x2029 || u == 0x202f || u == 0x205f || u == 0x3000
}

/// The ASCII decimal digits.
pub open spec fn is_digit(c: char) -> bool {
    '0' <= c <= '9'
}

/// The value of a decimal digit.
pub open spec fn digit_value(c: char) -> int {
    c as u32 - '0' as u32
}

/// The character that writes the digit `d`.
pub open spec fn digit_char(d: int) -> char {
    if d == 0 {
        '0'
    } else if d == 1 {
        '1'
    } else if d == 2 {
        '2'
    } else if d == 3 {
        '3'
    } else if d == 4 {
        '4'
    } else if d == 5 {
        '5'
    } else if d == 6 {
        '6'
    } else if d == 7 {
        '7'
    } else if d == 8 {
        '8'
    } else {
        '9'
    }
}

/// `p` occurs in `s` at position `at`.
pub open spec fn has_prefix_at(s: Seq<char>, at: int, p: Seq<char>) -> bool {
    0 <= at && at + p.len() <= s.len() && s.subrange(at, at + p.len()) == p
}

/// `p` occurs somewhere in `s`.
pub open spec fn occurs(s: Seq<char>, p: Seq<char>) -> bool {
    exists|at: int| has_prefix_at(s, at, p)
}

/// The position of the first occurrence of `p` in `s` at or after `at`, or
/// `-1` where there is none.
pub open spec fn find_from(s: Seq<char>, p: Seq<char>, at: int) -> int
    decreases s.len() + 1 - at,
{
    if at < 0 || at + p.len() > s.len() {
        -1
    } else if has_prefix_at(s, at, p) {
        at
    } else {
        find_from(s, p, at + 1)
    }
}

/// The end of the run of white space that starts at `at`.
pub open spec fn spaces_end(s: Seq<char>, at: int) -> int
    decreases s.len() - at,
{
    if 0 <= at < s.len() && is_space(s[at]) {
        spaces_end(s, at + 1)
    } else {
        at
    }
}

/// The end of the run of decimal digits that starts at `at`.
pub open spec fn digits_end(s: Seq<char>, at: int) -> int
    decreases s.len() - at,
{
    if 0 <= at < s.len() && is_digit(s[at]) {
        digits_end(s, at + 1)
    } else {
        at
    }
}

/// The position of the first line feed at or after `at`, or the length of
/// `s` where there is none.
pub open spec fn line_end(s: Seq<char>, at: int) -> int
    decreases s.len() - at,
{
    if 0 <= at < s.len() && s[at] != '\n' {
        line_end(s, at + 1)
    } else {
        at
    }
}

/// Where the content of the line that starts at `at` stops: at its line
/// feed, or one earlier where a carriage return stands before the line feed.
pub open spec fn line_stop(s: Seq<char>, at: int) -> int {
    let e = line_end(s, at);
    if e < s.len() && at < e && s[e - 1] == '\r' {
        e - 1
    } else {
        e
    }
}

/// The lines of `s` from position `at` on. A line ends at a line feed or at
/// the end of the text; the line feed, and a carriage return directly before
/// it, are not part of the line. A text that ends in a line feed has no empty
/// last line.
pub open spec fn lines_from(s: Seq<char>, at: int) -> Seq<Seq<char>>
    decreases s.len() + 1 - at,
{
    if at < 0 || at >= s.len() {
        Seq::empty()
    } else {
        proof {
            lemma_line_end_bounds(s, at);
        }
        seq![s.subrange(at, line_stop(s, at))] + lines_from(s, line_end(s, at) + 1)
    }
}

/// The lines of a text.
pub open spec fn lines(s: Seq<char>) -> Seq<Seq<char>> {
    lines_from(s, 0)
}

/// The decimal writing of `n`, without leading zeros.
pub open spec fn decimal(n: nat) -> Seq<char>
    decreases n,
{
    if n < 10 {
        seq![digit_char(n as int)]
    } else {
        decimal(n / 10).push(digit_char((n % 10) as int))
    }
}

/// The number that the digits of `s` write, read from the left.
pub open spec fn decimal_value(s: Seq<char>) -> nat
    decreases s.len(),
{
    if s.len() == 0 {
        0
    } else {
        (decimal_value(s.drop_last()) * 10 + digit_value(s.last())) as nat
    }
}

/// The texts of a list of strings.
pub open spec fn texts(strings: Seq<String>) -> Seq<Seq<char>> {
    Seq::new(strings.len(), |i: int| strings[i]@)
}

/// The text of an optional string.
pub open spec fn option_text(s: Option<String>) -> Option<Seq<char>> {
    match s {
        Some(t) => Some(t@),
        None => None,
    }
}

/// The texts of a list of pairs of strings.
pub open spec fn pairs_view(pairs: Seq<(String, String)>) -> Seq<(Seq<char>, Seq<char>)> {
    Seq::new(pairs.len(), |i: int| (pairs[i].0@, pairs[i].1@))
}

/// Every range lies inside a text of length `len`.
pub open spec fn valid_ranges(ranges: Seq<(usize, usize)>, len: nat) -> bool {
    forall|i: int| 0 <= i < ranges.len() ==> (#[trigger] ranges[i]).0 <= ranges[i].1 <= len
}

/// The parts of `s` that the ranges hold.
pub open spec fn pieces(s: Seq<char>, ranges: Seq<(usize, usize)>) -> Seq<Seq<char>> {
    Seq::new(ranges.len(), |i: int| s.subrange(ranges[i].0 as int, ranges[i].1 as int))
}

/// Whether `p` occurs in `s`.
pub open spec fn contains(s: Seq<char>, p: Seq<char>) -> bool {
    find_from(s, p, 0) >= 0
}

/// The end of the run of characters that are no white space and that starts
/// at `at`.
pub open spec fn word_end(s: Seq<char>, at: int) -> int
    decreases s.len() - at,
{
    if 0 <= at < s.len() && !is_space(s[at]) {
        word_end(s, at + 1)
    } else {
        at
    }
}

/// The pieces of `s` from `at` on that runs of white space part. White space
/// at the start or at the end of the text has an empty piece before or after
/// it.
pub open spec fn tokens_from(s: Seq<char>, at: int) -> Seq<Seq<char>>
    decreases s.len() + 1 - at,
{
    if at < 0 || at > s.len() {
        Seq::empty()
    } else if word_end(s, at) >= s.len() {
        seq![s.subrange(at, s.len() as int)]
    } else {
        proof {
            lemma_word_end_bounds(s, at);
            lemma_spaces_end_bounds(s, word_end(s, at) + 1);
        }
        seq![s.subrange(at, word_end(s, at))] + tokens_from(s, spaces_end(s, word_end(s, at)))
    }
}

/// The pieces of `s` that runs of white space part.
pub open spec fn tokens(s: Seq<char>) -> Seq<Seq<char>> {
    tokens_from(s, 0)
}

/// The text `s` from `at` on, with `to` in the place of each occurrence of
/// `from`. The occurrences are taken from the left and do not overlap. An
/// empty `from` occurs nowhere.
pub open spec fn replaced_from(s: Seq<char>, from: Seq<char>, to: Seq<char>, at: int) -> Seq<char>
    decreases s.len() + 1 - at,
{
    if at < 0 || at > s.len() {
        Seq::empty()
    } else if from.len() == 0 || find_from(s, from, at) < 0 {
        s.subrange(at, s.len() as int)
    } else {
        proof {
            lemma_find_from(s, from, at);
        }
        s.subrange(at, find_from(s, from, at)) + to + replaced_from(
            s,
            from,
            to,
            find_from(s, from, at) + from.len(),
        )
    }
}

/// The text `s` with `to` in the place of each occurrence of `from`.
pub open spec fn replaced(s: Seq<char>, from: Seq<char>, to: Seq<char>) -> Seq<char> {
    replaced_from(s, from, to, 0)
}

/// A word ends inside the text, at its first white space.
pub proof fn lemma_word_end_bounds(s: Seq<char>, at: int)
    requires
        0 <= at <= s.len(),
    ensures
        at <= word_end(s, at) <= s.len(),
        forall|k: int| at <= k < word_end(s, at) ==> !is_space(s[k]),
        word_end(s, at) < s.len() ==> is_space(s[word_end(s, at)]),
    decreases s.len() - at,
{
    if at < s.len() && !is_space(s[at]) {
        lemma_word_end_bounds(s, at + 1);
    }
}

/// A line ends inside the text, at its first line feed.
pub proof fn lemma_line_end_bounds(s: Seq<char>, at: int)
    requires
        0 <= at <= s.len(),
    ensures
        at <= line_end(s, at) <= s.len(),
        forall|k: int| at <= k < line_end(s, at) ==> s[k] != '\n',
        line_end(s, at) < s.len() ==> s[line_end(s, at)] == '\n',
        at <= line_stop(s, at) <= line_end(s, at),
    decreases s.len() - at,
{
    if at < s.len() && s[at] != '\n' {
        lemma_line_end_bounds(s, at + 1);
    }
}

/// A run of white space ends inside the text, at the first character that
/// is none.
pub proof fn lemma_spaces_end_bounds(s: Seq<char>, at: int)
    requires
        0 <= at <= s.len(),
    ensures
        at <= spaces_end(s, at) <= s.len(),
        forall|k: int| at <= k < spaces_end(s, at) ==> is_space(s[k]),
        spaces_end(s, at) < s.len() ==> !is_space(s[spaces_end(s, at)]),
    decreases s.len() - at,
{
    if at < s.len() && is_space(s[at]) {
        lemma_spaces_end_bounds(s, at + 1);
    }
}

/// A run of digits ends inside the text, at the first character that is
/// none.
pub proof fn lemma_digits_end_bounds(s: Seq<char>, at: int)
    requires
        0 <= at <= s.len(),
    ensures
        at <= digits_end(s, at) <= s.len(),
        forall|k: int| at <= k < digits_end(s, at) ==> is_digit(s[k]),
        digits_end(s, at) < s.len() ==> !is_digit(s[digits_end(s, at)]),
    decreases s.len() - at,
{
    if at < s.len() && is_digit(s[at]) {
        lemma_digits_end_bounds(s, at + 1);
    }
}

/// What `find_from` returns is the first occurrence at or after `at`.
pub proof fn lemma_find_from(s: Seq<char>, p: Seq<char>, at: int)
    requires
        0 <= at,
    ensures
        find_from(s, p, at) == -1 || (at <= find_from(s, p, at) && has_prefix_at(
            s,
            find_from(s, p, at),
            p,
        )),
        forall|k: int|
            at <= k && (find_from(s, p, at) == -1 || k < find_from(s, p, at)) ==> !has_prefix_at(
                s,
                k,
                p,
            ),
    decreases s.len() + 1 - at,
{
    if at + p.len() <= s.len() && !has_prefix_at(s, at, p) {
        lemma_find_from(s, p, at + 1);
    }
}

/// The characters of a string slice.
pub fn to_chars(s: &str) -> (v: Vec<char>)
    ensures
        v@ == s@,
{
    broadcast use vstd::string::group_string_axioms;

    let mut v: Vec<char> = Vec::new();
    for c in it: s.chars()
        invariant
            v@ =~= it.history(),
            it.seq() == s@,
    {
        v.push(c);
    }
    v
}

/// The string that holds the characters of `v` from `from` up to `to`.
pub(crate) fn string_of_range(v: &Vec<char>, from: usize, to: usize) -> (s: String)
    requires
        from <= to <= v.len(),
    ensures
        s@ == v@.subrange(from as int, to as int),
{
    let mut s = String::new();
    let mut i: usize = from;
    while i < to
        invariant
            from <= i <= to <= v.len(),
            s@ == v@.subrange(from as int, i as int),
        decreases to - i,
    {
        s.push(v[i]);
        i += 1;
    }
    s
}

/// The string that holds the characters of `v`.
pub fn from_chars(v: &Vec<char>) -> (s: String)
    ensures
        s@ == v@,
{
    let s = string_of_range(v, 0, v.len());
    s
}

/// Appends the characters of `src` to `dst`.
pub fn push_all(dst: &mut Vec<char>, src: &Vec<char>)
    ensures
        final(dst)@ == old(dst)@ + src@,
{
    let mut i: usize = 0;
    while i < src.len()
        invariant
            i <= src.len(),
            dst@ == old(dst)@ + src@.subrange(0, i as int),
        decreases src.len() - i,
    {
        dst.push(src[i]);
        i += 1;
    }
}

/// Appends the characters of `src` to `dst`.
pub fn push_str(dst: &mut Vec<char>, src: &str)
    ensures
        final(dst)@ == old(dst)@ + src@,
{
    let chars = to_chars(src);
    push_all(dst, &chars);
}

/// Appends the characters of `src` from `from` up to `to` to `dst`.
pub(crate) fn push_range(dst: &mut Vec<char>, src: &Vec<char>, from: usize, to: usize)
    requires
        from <= to <= src.len(),
    ensures
        final(dst)@ == old(dst)@ + src@.subrange(from as int, to as int),
{
    let mut i: usize = from;
    while i < to
        invariant
            from <= i <= to <= src.len(),
            dst@ == old(dst)@ + src@.subrange(from as int, i as int),
        decreases to - i,
    {
        dst.push(src[i]);
        i += 1;
    }
}

/// Whether two texts hold the same characters.
pub fn same_chars(a: &Vec<char>, b: &Vec<char>) -> (same: bool)
    ensures
        same == (a@ == b@),
{
    if a.len() != b.len() {
        return false;
    }
    let mut i: usize = 0;
    while i < a.len()
        invariant
            i <= a.len(),
            a.len() == b.len(),
            forall|k: int| 0 <= k < i ==> a@[k] == b@[k],
        decreases a.len() - i,
    {
        if a[i] != b[i] {
            return false;
        }
        i += 1;
    }
    assert(a@ =~= b@);
    true
}

/// Whether two string slices hold the same text.
pub fn same_text(a: &str, b: &str) -> (same: bool)
    ensures
        same == (a@ == b@),
{
    let x = to_chars(a);
    let y = to_chars(b);
    same_chars(&x, &y)
}

/// Whether `c` is white space.
pub fn is_space_char(c: char) -> (b: bool)
    ensures
        b == is_space(c),
{
    let u: u32 = c as u32;
    (0x09 <= u && u <= 0x0d) || u == 0x20 || u == 0x85 || u == 0xa0 || u == 0x1680 || (0x2000 <= u
        && u <= 0x200a) || u == 0x2028 || u == 0x2029 || u == 0x202f || u == 0x205f || u == 0x3000
}

/// Whether `c` is a decimal digit.
pub fn is_digit_char(c: char) -> (b: bool)
    ensures
        b == is_digit(c),
{
    '0' <= c && c <= '9'
}

/// Whether `p` occurs in `s` at `at`.
pub fn prefix_at(s: &Vec<char>, at: usize, p: &Vec<char>) -> (found: bool)
    ensures
        found == has_prefix_at(s@, at as int, p@),
{
    if at > s.len() || p.len() > s.len() - at {
        return false;
    }
    let mut i: usize = 0;
    while i < p.len()
        invariant
            i <= p.len(),
            at + p.len() <= s.len(),
            forall|k: int| 0 <= k < i ==> s@[at + k] == p@[k],
        decreases p.len() - i,
    {
        if s[at + i] != p[i] {
            return false;
        }
        i += 1;
    }
    assert(s@.subrange(at as int, at + p.len()) =~= p@);
    true
}

/// The first occurrence of `p` in `s` at or after `from`.
pub fn find(s: &Vec<char>, p: &Vec<char>, from: usize) -> (found: Option<usize>)
    ensures
        match found {
            Some(at) => find_from(s@, p@, from as int) == at,
            None => find_from(s@, p@, from as int) == -1,
        },
{
    let mut i: usize = from;
    loop
        invariant
            from <= i,
            find_from(s@, p@, from as int) == find_from(s@, p@, i as int),
        decreases s.len() + 1 - i,
    {
        if i > s.len() || p.len() > s.len() - i {
            return None;
        }
        if prefix_at(s, i, p) {
            return Some(i);
        }
        if i == s.len() {
            assert(find_from(s@, p@, i + 1) == -1);
            return None;
        }
        i += 1;
    }
}

/// The end of the run of white space that starts at `from`.
pub(crate) fn skip_spaces(s: &Vec<char>, from: usize) -> (end: usize)
    requires
        from <= s.len(),
    ensures
        end == spaces_end(s@, from as int),
        from <= end <= s.len(),
{
    let mut i: usize = from;
    while i < s.len() && is_space_char(s[i])
        invariant
            from <= i <= s.len(),
            spaces_end(s@, from as int) == spaces_end(s@, i as int),
        decreases s.len() - i,
    {
        i += 1;
    }
    i
}

/// The end of the run of digits that starts at `from`.
pub(crate) fn skip_digits(s: &Vec<char>, from: usize) -> (end: usize)
    requires
        from <= s.len(),
    ensures
        end == digits_end(s@, from as int),
        from <= end <= s.len(),
{
    let mut i: usize = from;
    while i < s.len() && is_digit_char(s[i])
        invariant
            from <= i <= s.len(),
            digits_end(s@, from as int) == digits_end(s@, i as int),
        decreases s.len() - i,
    {
        i += 1;
    }
    i
}

/// The position of the first line feed at or after `from`.
pub(crate) fn find_line_end(s: &Vec<char>, from: usize) -> (end: usize)
    requires
        from <= s.len(),
    ensures
        end == line_end(s@, from as int),
        from <= end <= s.len(),
{
    let mut i: usize = from;
    while i < s.len() && s[i] != '\n'
        invariant
            from <= i <= s.len(),
            line_end(s@, from as int) == line_end(s@, i as int),
        decreases s.len() - i,
    {
        i += 1;
    }
    i
}

/// The lines of `s`, each as the range of positions that holds its content.
pub fn split_lines(s: &Vec<char>) -> (ranges: Vec<(usize, usize)>)
    ensures
        valid_ranges(ranges@, s@.len()),
        pieces(s@, ranges@) == lines(s@),
{
    let mut ranges: Vec<(usize, usize)> = Vec::new();
    let mut at: usize = 0;
    while at < s.len()
        invariant
            at <= s.len(),
            lines(s@) == pieces(s@, ranges@) + lines_from(s@, at as int),
            valid_ranges(ranges@, s@.len()),
        decreases s.len() - at,
    {
        let end = find_line_end(s, at);
        let stop = if end < s.len() && at < end && s[end - 1] == '\r' {
            end - 1
        } else {
            end
        };
        proof {
            lemma_line_end_bounds(s@, at as int);
            let grown = ranges@.push((at, stop));
            assert(lines(s@) =~= pieces(s@, grown) + lines_from(s@, end + 1));
        }
        ranges.push((at, stop));
        if end == s.len() {
            at = end;
        } else {
            at = end + 1;
        }
    }
    ranges
}

/// The characters of `v` from `from` up to `to`.
pub(crate) fn copy_range(v: &Vec<char>, from: usize, to: usize) -> (part: Vec<char>)
    requires
        from <= to <= v.len(),
    ensures
        part@ == v@.subrange(from as int, to as int),
{
    let mut part: Vec<char> = Vec::new();
    push_range(&mut part, v, from, to);
    part
}

/// Whether `p` occurs in `s`.
pub fn includes(s: &Vec<char>, p: &Vec<char>) -> (found: bool)
    ensures
        found == contains(s@, p@),
{
    find(s, p, 0).is_some()
}

/// The end of the run of characters that are no white space and that starts
/// at `from`.
pub(crate) fn skip_word(s: &Vec<char>, from: usize) -> (end: usize)
    requires
        from <= s.len(),
    ensures
        end == word_end(s@, from as int),
        from <= end <= s.len(),
{
    let mut i: usize = from;
    while i < s.len() && !is_space_char(s[i])
        invariant
            from <= i <= s.len(),
            word_end(s@, from as int) == word_end(s@, i as int),
        decreases s.len() - i,
    {
        i += 1;
    }
    i
}

/// The pieces of `s` that runs of white space part, each as the range of
/// positions that holds it.
pub fn split_tokens(s: &Vec<char>) -> (ranges: Vec<(usize, usize)>)
    ensures
        valid_ranges(ranges@, s@.len()),
        pieces(s@, ranges@) == tokens(s@),
{
    let mut ranges: Vec<(usize, usize)> = Vec::new();
    let mut at: usize = 0;
    loop
        invariant_except_break
            tokens(s@) == pieces(s@, ranges@) + tokens_from(s@, at as int),
        invariant
            at <= s.len(),
            valid_ranges(ranges@, s@.len()),
        ensures
            tokens(s@) == pieces(s@, ranges@),
        decreases s.len() - at,
    {
        let end = skip_word(s, at);
        proof {
            lemma_word_end_bounds(s@, at as int);
        }
        ranges.push((at, end));
        if end >= s.len() {
            break;
        }
        proof {
            lemma_spaces_end_bounds(s@, end + 1);
        }
        at = skip_spaces(s, end);
    }
    ranges
}

/// The text `s` with `to` in the place of each occurrence of `from`.
pub fn replace_all(s: &Vec<char>, from: &Vec<char>, to: &Vec<char>) -> (out: Vec<char>)
    ensures
        out@ == replaced(s@, from@, to@),
{
    let mut out: Vec<char> = Vec::new();
    let mut at: usize = 0;
    loop
        invariant_except_break
            replaced(s@, from@, to@) == out@ + replaced_from(s@, from@, to@, at as int),
        invariant
            at <= s.len(),
        ensures
            replaced(s@, from@, to@) == out@,
        decreases s.len() - at,
    {
        let next = if from.len() == 0 {
            None
        } else {
            find(s, from, at)
        };
        match next {
            Some(m) => {
                proof {
                    lemma_find_from(s@, from@, at as int);
                }
                push_range(&mut out, s, at, m);
                push_all(&mut out, to);
                at = m + from.len();
            },
            None => {
                push_range(&mut out, s, at, s.len());
                break ;
            },
        }
    }
    out
}

/// The decimal writing of `n`.
pub fn decimal_digits(n: u64) -> (digits: Vec<char>)
    ensures
        digits@ == decimal(n as nat),
    decreases n,
{
    let last = digit_of(n % 10);
    if n < 10 {
        let mut digits: Vec<char> = Vec::new();
        digits.push(last);
        digits
    } else {
        let mut digits = decimal_digits(n / 10);
        digits.push(last);
        digits
    }
}

/// The character that writes the digit `d`.
pub(crate) fn digit_of(d: u64) -> (c: char)
    requires
        d < 10,
    ensures
        c == digit_char(d as int),
{
    if d == 0 {
        '0'
    } else if d == 1 {
        '1'
    } else if d == 2 {
        '2'
    } else if d == 3 {
        '3'
    } else if d == 4 {
        '4'
    } else if d == 5 {
        '5'
    } else if d == 6 {
        '6'
    } else if d == 7 {
        '7'
    } else if d == 8 {
        '8'
    } else {
        '9'
    }
}

} // verus!
