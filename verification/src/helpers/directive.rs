//! The directive comments of a template.
//!
//! A directive is written `#!`, optional white space, then a keyword:
//!
//! ```text
//! #! Authority: host:port
//! #! Capture: name
//! #! AllowInsecureCertificate
//! #!EndCapture
//! ```
//!
//! The keywords are case-sensitive. A directive is looked for anywhere in the
//! text it is handed, and the first place where one can be read wins.
use crate::errors::{RustamanError, RustamanResult};
use crate::text::{
    copy_range, decimal_value, digit_value, digits_end, find_line_end, has_prefix_at, is_digit,
    is_digit_char, lemma_digits_end_bounds, lemma_spaces_end_bounds, line_end, lines,
    option_text, pieces,
    prefix_at, skip_digits, skip_spaces, spaces_end, split_lines, string_of_range, to_chars,
    valid_ranges,
};
use vstd::prelude::*;

verus! {

/// Where the keyword `word` of a directive that starts at `at` ends, or `-1`
/// where no such directive starts there.
pub open spec fn keyword_end(s: Seq<char>, at: int, word: Seq<char>) -> int {
    if has_prefix_at(s, at, "#!"@) && has_prefix_at(s, spaces_end(s, at + 2), word) {
        spaces_end(s, at + 2) + word.len()
    } else {
        -1
    }
}

/// The first position at or after `at` where a directive with the keyword
/// `word` starts, or `-1`.
pub open spec fn first_keyword(s: Seq<char>, word: Seq<char>, at: int) -> int
    decreases s.len() + 1 - at,
{
    if at < 0 || at > s.len() {
        -1
    } else if keyword_end(s, at, word) >= 0 {
        at
    } else {
        first_keyword(s, word, at + 1)
    }
}

/// Whether the text holds the directive that allows an insecure certificate.
pub open spec fn insecure_flag(s: Seq<char>) -> bool {
    first_keyword(s, "AllowInsecureCertificate"@, 0) >= 0
}

/// The last position in `lo..hi` that holds no line feed, or `-1`.
pub open spec fn last_inline(s: Seq<char>, lo: int, hi: int) -> int
    decreases hi - lo,
{
    if hi <= lo {
        -1
    } else if s[hi - 1] != '\n' {
        hi - 1
    } else {
        last_inline(s, lo, hi - 1)
    }
}

/// The range of the name that a `Capture:` directive starting at `at` gives.
///
/// The name starts after the white space that follows the keyword and runs
/// to the end of the line. Where only white space follows the keyword, the
/// name is the last of it that is no line feed.
pub open spec fn capture_at(s: Seq<char>, at: int) -> Option<(int, int)> {
    let k = keyword_end(s, at, "Capture:"@);
    let e = spaces_end(s, k);
    let p = last_inline(s, k, e);
    if k < 0 {
        None
    } else if e < s.len() {
        Some((e, line_end(s, e)))
    } else if p >= 0 {
        Some((p, line_end(s, p)))
    } else {
        None
    }
}

/// The name range of the first `Capture:` directive at or after `at`.
pub open spec fn first_capture(s: Seq<char>, at: int) -> Option<(int, int)>
    decreases s.len() + 1 - at,
{
    if at < 0 || at > s.len() {
        None
    } else if capture_at(s, at) is Some {
        capture_at(s, at)
    } else {
        first_capture(s, at + 1)
    }
}

/// The name that the text asks the response to be captured under.
pub open spec fn capture_name(s: Seq<char>) -> Option<Seq<char>> {
    match first_capture(s, 0) {
        Some((from, to)) => Some(s.subrange(from, to)),
        None => None,
    }
}

/// A colon at `c` that a digit follows: where a port can start.
pub open spec fn is_port_colon(s: Seq<char>, c: int) -> bool {
    0 <= c && c + 1 < s.len() && s[c] == ':' && is_digit(s[c + 1])
}

/// The last port colon in `lo..hi`, or `-1`.
pub open spec fn last_port_colon(s: Seq<char>, lo: int, hi: int) -> int
    decreases hi - lo,
{
    if hi <= lo {
        -1
    } else if is_port_colon(s, hi - 1) {
        hi - 1
    } else {
        last_port_colon(s, lo, hi - 1)
    }
}

/// Where the host of an `Authority:` directive starting at `at` begins, and
/// the colon that parts it from the port.
///
/// The host starts after the white space that follows the keyword, is at
/// least one character long and ends at the last colon of the line that a
/// digit follows. Where a port colon stands directly after that white space,
/// the host is the one white-space character before it.
pub open spec fn authority_at(s: Seq<char>, at: int) -> Option<(int, int)> {
    let k = keyword_end(s, at, "Authority:"@);
    let e = spaces_end(s, k);
    let c = last_port_colon(s, e + 1, line_end(s, e));
    if k < 0 || e >= s.len() {
        None
    } else if c >= 0 {
        Some((e, c))
    } else if k < e && s[e - 1] != '\n' && is_port_colon(s, e) {
        Some((e - 1, e))
    } else {
        None
    }
}

/// The host start and port colon of the first `Authority:` directive at or
/// after `at`.
pub open spec fn first_authority(s: Seq<char>, at: int) -> Option<(int, int)>
    decreases s.len() + 1 - at,
{
    if at < 0 || at > s.len() {
        None
    } else if authority_at(s, at) is Some {
        authority_at(s, at)
    } else {
        first_authority(s, at + 1)
    }
}

/// The first position in `lo..hi` that holds no `[`, or `hi`.
pub open spec fn trim_open(s: Seq<char>, lo: int, hi: int) -> int
    decreases hi - lo,
{
    if lo < hi && s[lo] == '[' {
        trim_open(s, lo + 1, hi)
    } else {
        lo
    }
}

/// The end of `lo..hi` once every `]` at its end is dropped.
pub open spec fn trim_close(s: Seq<char>, lo: int, hi: int) -> int
    decreases hi - lo,
{
    if lo < hi && s[hi - 1] == ']' {
        trim_close(s, lo, hi - 1)
    } else {
        hi
    }
}

/// The host and port that the text asks the connection to go to: those of
/// its first `Authority:` directive, the host without the square brackets
/// around it. A port above 65535 leaves the directive without effect.
pub open spec fn authority_of(s: Seq<char>) -> Option<(Seq<char>, u16)> {
    match first_authority(s, 0) {
        Some((h, c)) => {
            let from = trim_open(s, h, c);
            let to = trim_close(s, from, c);
            let port = decimal_value(s.subrange(c + 1, digits_end(s, c + 1)));
            if port <= 65535 {
                Some((s.subrange(from, to), port as u16))
            } else {
                None
            }
        },
        None => None,
    }
}

/// The end of a keyword is behind the start of its directive.
pub proof fn lemma_keyword_end(s: Seq<char>, at: int, word: Seq<char>)
    requires
        keyword_end(s, at, word) >= 0,
    ensures
        0 <= at,
        at + 2 + word.len() <= keyword_end(s, at, word) <= s.len(),
        s[at] == '#',
        s[at + 1] == '!',
{
    reveal_strlit("#!");
    lemma_spaces_end_bounds(s, at + 2);
    assert(s.subrange(at, at + 2)[0] == '#');
    assert(s.subrange(at, at + 2)[1] == '!');
}

/// What `first_keyword` returns is the first start of such a directive.
pub proof fn lemma_first_keyword(s: Seq<char>, word: Seq<char>, at: int)
    requires
        0 <= at,
    ensures
        first_keyword(s, word, at) == -1 || (at <= first_keyword(s, word, at) <= s.len()
            && keyword_end(s, first_keyword(s, word, at), word) >= 0),
        forall|k: int|
            at <= k && (first_keyword(s, word, at) == -1 || k < first_keyword(s, word, at))
                ==> keyword_end(s, k, word) == -1,
    decreases s.len() + 1 - at,
{
    if at <= s.len() && keyword_end(s, at, word) < 0 {
        lemma_first_keyword(s, word, at + 1);
    }
    assert forall|k: int| k > s.len() implies keyword_end(s, k, word) == -1 by {
        reveal_strlit("#!");
    }
}

/// Whether a directive marker stands at `at`.
fn marker_at(s: &Vec<char>, at: usize) -> (found: bool)
    ensures
        found == has_prefix_at(s@, at as int, "#!"@),
{
    proof {
        reveal_strlit("#!");
    }
    if at < s.len() && s.len() - at >= 2 {
        let found = s[at] == '#' && s[at + 1] == '!';
        proof {
            let part = s@.subrange(at as int, at + 2);
            if found {
                assert(part =~= "#!"@);
            } else {
                assert(part[0] == s@[at as int] && part[1] == s@[at + 1]);
            }
        }
        found
    } else {
        false
    }
}

/// Where the keyword `word` of a directive that starts at `at` ends.
fn keyword_after(s: &Vec<char>, at: usize, word: &Vec<char>) -> (end: Option<usize>)
    ensures
        match end {
            Some(e) => keyword_end(s@, at as int, word@) == e,
            None => keyword_end(s@, at as int, word@) == -1,
        },
{
    if !marker_at(s, at) {
        return None;
    }
    proof {
        reveal_strlit("#!");
        assert(s@.len() == s.len());
    }
    let w = skip_spaces(s, at + 2);
    if prefix_at(s, w, word) {
        Some(w + word.len())
    } else {
        None
    }
}

/// The first directive with the keyword `word` at or after `from`: where it
/// starts and where its keyword ends.
pub fn find_keyword(s: &Vec<char>, word: &Vec<char>, from: usize) -> (found: Option<
    (usize, usize),
>)
    ensures
        match found {
            Some((at, end)) => first_keyword(s@, word@, from as int) == at && keyword_end(
                s@,
                at as int,
                word@,
            ) == end && from <= at < end <= s.len(),
            None => first_keyword(s@, word@, from as int) == -1,
        },
{
    let mut at: usize = from;
    while at < s.len()
        invariant
            from <= at,
            first_keyword(s@, word@, from as int) == first_keyword(s@, word@, at as int),
        decreases s.len() - at,
    {
        match keyword_after(s, at, word) {
            Some(end) => {
                proof {
                    lemma_keyword_end(s@, at as int, word@);
                }
                return Some((at, end));
            },
            None => {},
        }
        at += 1;
    }
    proof {
        reveal_strlit("#!");
        assert(first_keyword(s@, word@, at as int) == -1) by {
            if at == s.len() {
                assert(first_keyword(s@, word@, at + 1) == -1);
            }
        }
    }
    None
}

/// Whether the line allows an insecure certificate.
pub fn extract_insecure_flag(line: &str) -> (allowed: bool)
    ensures
        allowed == insecure_flag(line@),
{
    let s = to_chars(line);
    insecure_in(&s)
}

/// Whether the text allows an insecure certificate.
pub fn insecure_in(s: &Vec<char>) -> (allowed: bool)
    ensures
        allowed == insecure_flag(s@),
{
    let word = to_chars("AllowInsecureCertificate");
    find_keyword(s, &word, 0).is_some()
}

/// The last position in `lo..hi` that holds no line feed.
fn find_last_inline(s: &Vec<char>, lo: usize, hi: usize) -> (found: Option<usize>)
    requires
        lo <= hi <= s.len(),
    ensures
        match found {
            Some(p) => last_inline(s@, lo as int, hi as int) == p && lo <= p < hi,
            None => last_inline(s@, lo as int, hi as int) == -1,
        },
{
    let mut i: usize = hi;
    while i > lo
        invariant
            lo <= i <= hi <= s.len(),
            last_inline(s@, lo as int, hi as int) == last_inline(s@, lo as int, i as int),
        decreases i - lo,
    {
        if s[i - 1] != '\n' {
            return Some(i - 1);
        }
        i -= 1;
    }
    None
}

/// The name range of a `Capture:` directive that starts at `at`.
fn capture_here(s: &Vec<char>, at: usize, word: &Vec<char>) -> (found: Option<(usize, usize)>)
    requires
        word@ == "Capture:"@,
    ensures
        match found {
            Some((from, to)) => capture_at(s@, at as int) == Some((from as int, to as int))
                && from <= to <= s.len(),
            None => capture_at(s@, at as int).is_none(),
        },
{
    match keyword_after(s, at, word) {
        None => None,
        Some(k) => {
            proof {
                lemma_keyword_end(s@, at as int, word@);
            }
            let e = skip_spaces(s, k);
            if e < s.len() {
                let to = find_line_end(s, e);
                Some((e, to))
            } else {
                match find_last_inline(s, k, e) {
                    Some(p) => {
                        let to = find_line_end(s, p);
                        Some((p, to))
                    },
                    None => None,
                }
            }
        },
    }
}

/// The name range of the first `Capture:` directive of the text.
fn find_capture(s: &Vec<char>) -> (found: Option<(usize, usize)>)
    ensures
        match found {
            Some((from, to)) => first_capture(s@, 0) == Some((from as int, to as int)) && from
                <= to <= s.len(),
            None => first_capture(s@, 0).is_none(),
        },
{
    let word = to_chars("Capture:");
    let mut at: usize = 0;
    while at < s.len()
        invariant
            word@ == "Capture:"@,
            first_capture(s@, 0) == first_capture(s@, at as int),
        decreases s.len() - at,
    {
        match capture_here(s, at, &word) {
            Some(range) => {
                return Some(range);
            },
            None => {},
        }
        at += 1;
    }
    proof {
        reveal_strlit("#!");
        if at == s.len() {
            assert(first_capture(s@, at + 1).is_none());
        }
    }
    None
}

/// The name that the text asks the response to be captured under.
pub fn capture_in(s: &Vec<char>) -> (name: Option<String>)
    ensures
        match name {
            Some(n) => capture_name(s@) == Some(n@),
            None => capture_name(s@).is_none(),
        },
{
    match find_capture(s) {
        Some((from, to)) => Some(string_of_range(s, from, to)),
        None => None,
    }
}

/// The name that the line asks the response to be captured under.
pub fn extract_capture_name(line: &str) -> (name: Option<String>)
    ensures
        match name {
            Some(n) => capture_name(line@) == Some(n@),
            None => capture_name(line@).is_none(),
        },
{
    let s = to_chars(line);
    capture_in(&s)
}

/// Whether a port can start behind position `c`.
fn port_colon_at(s: &Vec<char>, c: usize) -> (found: bool)
    ensures
        found == is_port_colon(s@, c as int),
{
    c < s.len() && s.len() - c > 1 && s[c] == ':' && is_digit_char(s[c + 1])
}

/// The last port colon in `lo..hi`.
fn find_last_port_colon(s: &Vec<char>, lo: usize, hi: usize) -> (found: Option<usize>)
    requires
        hi <= s.len(),
    ensures
        match found {
            Some(c) => last_port_colon(s@, lo as int, hi as int) == c && lo <= c < hi
                && is_port_colon(s@, c as int),
            None => last_port_colon(s@, lo as int, hi as int) == -1,
        },
{
    let mut i: usize = hi;
    while i > lo
        invariant
            i <= hi <= s.len(),
            last_port_colon(s@, lo as int, hi as int) == last_port_colon(s@, lo as int, i as int),
        decreases i,
    {
        if port_colon_at(s, i - 1) {
            return Some(i - 1);
        }
        i -= 1;
    }
    None
}

/// The host start and port colon of an `Authority:` directive that starts at
/// `at`.
fn authority_here(s: &Vec<char>, at: usize, word: &Vec<char>) -> (found: Option<(usize, usize)>)
    requires
        word@ == "Authority:"@,
    ensures
        match found {
            Some((h, c)) => authority_at(s@, at as int) == Some((h as int, c as int)) && h < c
                && is_port_colon(s@, c as int),
            None => authority_at(s@, at as int).is_none(),
        },
{
    match keyword_after(s, at, word) {
        None => None,
        Some(k) => {
            proof {
                lemma_keyword_end(s@, at as int, word@);
            }
            let e = skip_spaces(s, k);
            if e >= s.len() {
                return None;
            }
            let eol = find_line_end(s, e);
            match find_last_port_colon(s, e + 1, eol) {
                Some(c) => Some((e, c)),
                None => {
                    if k < e && s[e - 1] != '\n' && port_colon_at(s, e) {
                        Some((e - 1, e))
                    } else {
                        None
                    }
                },
            }
        },
    }
}

/// The host start and port colon of the first `Authority:` directive.
fn find_authority(s: &Vec<char>) -> (found: Option<(usize, usize)>)
    ensures
        match found {
            Some((h, c)) => first_authority(s@, 0) == Some((h as int, c as int)) && h < c
                && is_port_colon(s@, c as int),
            None => first_authority(s@, 0).is_none(),
        },
{
    let word = to_chars("Authority:");
    let mut at: usize = 0;
    while at < s.len()
        invariant
            word@ == "Authority:"@,
            first_authority(s@, 0) == first_authority(s@, at as int),
        decreases s.len() - at,
    {
        match authority_here(s, at, &word) {
            Some(range) => {
                return Some(range);
            },
            None => {},
        }
        at += 1;
    }
    proof {
        reveal_strlit("#!");
        if at == s.len() {
            assert(first_authority(s@, at + 1).is_none());
        }
    }
    None
}

/// A longer run of digits writes no smaller number.
pub proof fn lemma_decimal_value_grows(s: Seq<char>, n: int)
    requires
        0 <= n <= s.len(),
        forall|k: int| 0 <= k < s.len() ==> is_digit(s[k]),
    ensures
        decimal_value(s.subrange(0, n)) <= decimal_value(s),
    decreases s.len() - n,
{
    if n < s.len() {
        let longer = s.subrange(0, n + 1);
        assert(longer.drop_last() =~= s.subrange(0, n));
        assert(decimal_value(longer) >= decimal_value(s.subrange(0, n))) by (nonlinear_arith)
            requires
                decimal_value(longer) == decimal_value(s.subrange(0, n)) * 10 + digit_value(
                    longer.last(),
                ),
                digit_value(longer.last()) >= 0,
        ;
        lemma_decimal_value_grows(s, n + 1);
    } else {
        assert(s.subrange(0, n) =~= s);
    }
}

/// The value of a digit.
fn digit_to_number(c: char) -> (d: u32)
    requires
        is_digit(c),
    ensures
        d == digit_value(c),
        d <= 9,
{
    let u: u32 = c as u32;
    u - 48
}

/// The number that the digits in `from..to` write, where it is a port.
fn port_of(s: &Vec<char>, from: usize, to: usize) -> (port: Option<u16>)
    requires
        from <= to <= s.len(),
        forall|k: int| from <= k < to ==> is_digit(s@[k]),
    ensures
        match port {
            Some(p) => decimal_value(s@.subrange(from as int, to as int)) == p,
            None => decimal_value(s@.subrange(from as int, to as int)) > 65535,
        },
{
    let ghost digits = s@.subrange(from as int, to as int);
    let mut value: u32 = 0;
    let mut i: usize = from;
    while i < to
        invariant
            from <= i <= to <= s.len(),
            digits == s@.subrange(from as int, to as int),
            forall|k: int| from <= k < to ==> is_digit(s@[k]),
            value == decimal_value(digits.subrange(0, i - from)),
            value <= 65535,
        decreases to - i,
    {
        let d = digit_to_number(s[i]);
        let next: u32 = value * 10 + d;
        proof {
            let longer = digits.subrange(0, i + 1 - from);
            assert(longer.drop_last() =~= digits.subrange(0, i - from));
            if next > 65535 {
                lemma_decimal_value_grows(digits, i + 1 - from);
            }
        }
        if next > 65535 {
            return None;
        }
        value = next;
        i += 1;
    }
    proof {
        assert(digits.subrange(0, to - from) =~= digits);
    }
    Some(value as u16)
}

/// The first position in `lo..hi` that holds no `[`.
fn skip_open(s: &Vec<char>, lo: usize, hi: usize) -> (at: usize)
    requires
        lo <= hi <= s.len(),
    ensures
        at == trim_open(s@, lo as int, hi as int),
        lo <= at <= hi,
{
    let mut i: usize = lo;
    while i < hi && s[i] == '['
        invariant
            lo <= i <= hi <= s.len(),
            trim_open(s@, lo as int, hi as int) == trim_open(s@, i as int, hi as int),
        decreases hi - i,
    {
        i += 1;
    }
    i
}

/// The end of `lo..hi` without the `]` at its end.
fn skip_close(s: &Vec<char>, lo: usize, hi: usize) -> (at: usize)
    requires
        lo <= hi <= s.len(),
    ensures
        at == trim_close(s@, lo as int, hi as int),
        lo <= at <= hi,
{
    let mut i: usize = hi;
    while i > lo && s[i - 1] == ']'
        invariant
            lo <= i <= hi <= s.len(),
            trim_close(s@, lo as int, hi as int) == trim_close(s@, lo as int, i as int),
        decreases i - lo,
    {
        i -= 1;
    }
    i
}

/// The host and port that the text asks the connection to go to.
pub fn authority_in(s: &Vec<char>) -> (authority: Option<(String, u16)>)
    ensures
        match authority {
            Some((host, port)) => authority_of(s@) == Some((host@, port)),
            None => authority_of(s@).is_none(),
        },
{
    match find_authority(s) {
        None => None,
        Some((h, c)) => {
            let from = skip_open(s, h, c);
            let to = skip_close(s, from, c);
            assert(s@.len() == s.len());
            let end = skip_digits(s, c + 1);
            proof {
                lemma_digits_end_bounds(s@, c + 1);
            }
            match port_of(s, c + 1, end) {
                Some(port) => Some((string_of_range(s, from, to), port)),
                None => None,
            }
        },
    }
}

/// The host and port that the line asks the connection to go to.
pub fn extract_authority_from_directive(line: &str) -> (authority: Option<(String, u16)>)
    ensures
        match authority {
            Some((host, port)) => authority_of(line@) == Some((host@, port)),
            None => authority_of(line@).is_none(),
        },
{
    let s = to_chars(line);
    authority_in(&s)
}

/// What the directives of one template block ask for.
#[derive(Debug)]
pub struct Directives {
    /// The host and port to connect to in place of those of the URL.
    pub authority: Option<(String, u16)>,
    /// The name under which the response is kept.
    pub capture: Option<String>,
    /// Whether the certificate of the server goes unchecked.
    pub insecure: bool,
}

/// The directives of a block as texts.
pub struct DirectivesView {
    pub authority: Option<(Seq<char>, u16)>,
    pub capture: Option<Seq<char>>,
    pub insecure: bool,
}

/// The text of an optional host and its port.
pub open spec fn authority_view(a: Option<(String, u16)>) -> Option<(Seq<char>, u16)> {
    match a {
        Some((host, port)) => Some((host@, port)),
        None => None,
    }
}

impl View for Directives {
    type V = DirectivesView;

    open spec fn view(&self) -> DirectivesView {
        DirectivesView {
            authority: authority_view(self.authority),
            capture: option_text(self.capture),
            insecure: self.insecure,
        }
    }
}

/// A line that stands before the request: an empty one, or one that starts
/// with `#`.
pub open spec fn is_comment(line: Seq<char>) -> bool {
    line.len() == 0 || line[0] == '#'
}

/// The first line at or after `at` that is no comment, or the number of
/// lines.
pub open spec fn comments_end(lines: Seq<Seq<char>>, at: int) -> int
    decreases lines.len() - at,
{
    if 0 <= at < lines.len() && is_comment(lines[at]) {
        comments_end(lines, at + 1)
    } else {
        at
    }
}

/// No directive at all.
pub open spec fn no_directives() -> DirectivesView {
    DirectivesView { authority: None, capture: None, insecure: false }
}

/// The directives once `line` is read. A line counts as the first directive
/// that can be read from it, in the order authority, capture, insecure
/// certificate; any other line changes nothing.
pub open spec fn apply_line(d: DirectivesView, line: Seq<char>) -> DirectivesView {
    if authority_of(line) is Some {
        DirectivesView { authority: authority_of(line), ..d }
    } else if capture_name(line) is Some {
        DirectivesView { capture: capture_name(line), ..d }
    } else if insecure_flag(line) {
        DirectivesView { insecure: true, ..d }
    } else {
        d
    }
}

/// The directives of the first `n` lines; a later line overrides an earlier
/// one.
pub open spec fn directives_of(lines: Seq<Seq<char>>, n: int) -> DirectivesView
    decreases n,
{
    if n <= 0 {
        no_directives()
    } else {
        apply_line(directives_of(lines, n - 1), lines[n - 1])
    }
}

/// Reads the comment lines at the head of a text that is split into lines,
/// and says where the request starts.
pub(crate) fn read_directives(chars: &Vec<char>, ranges: &Vec<(usize, usize)>) -> (found: (
    Directives,
    usize,
))
    requires
        valid_ranges(ranges@, chars@.len()),
    ensures
        found.1 == comments_end(pieces(chars@, ranges@), 0),
        found.1 <= ranges@.len(),
        found.0@ == directives_of(pieces(chars@, ranges@), found.1 as int),
{
    let ghost all = pieces(chars@, ranges@);
    let mut found = Directives { authority: None, capture: None, insecure: false };
    let mut i: usize = 0;
    while i < ranges.len()
        invariant
            i <= ranges@.len(),
            valid_ranges(ranges@, chars@.len()),
            all == pieces(chars@, ranges@),
            comments_end(all, 0) == comments_end(all, i as int),
            found@ == directives_of(all, i as int),
        decreases ranges.len() - i,
    {
        let (from, to) = ranges[i];
        if from < to && chars[from] != '#' {
            return (found, i);
        }
        let line = copy_range(chars, from, to);
        match authority_in(&line) {
            Some(authority) => {
                found.authority = Some(authority);
            },
            None => {
                match capture_in(&line) {
                    Some(name) => {
                        found.capture = Some(name);
                    },
                    None => {
                        if insecure_in(&line) {
                            found.insecure = true;
                        }
                    },
                }
            },
        }
        i += 1;
    }
    (found, i)
}

/// Reads the directives at the head of one template block.
///
/// The lines are read for as long as they are empty or start with `#`. A
/// block that holds nothing else has no request, which is the one error.
pub fn parse_directives(block: &str) -> (parsed: RustamanResult<Directives>)
    ensures
        match parsed {
            Ok(found) => comments_end(lines(block@), 0) < lines(block@).len() && found@
                == directives_of(lines(block@), comments_end(lines(block@), 0)),
            Err(err) => comments_end(lines(block@), 0) >= lines(block@).len() && (err matches RustamanError::RequestParsingError(
                m,
            ) && m@ == "No request found"@),
        },
{
    let chars = to_chars(block);
    let ranges = split_lines(&chars);
    let (found, first) = read_directives(&chars, &ranges);
    if first >= ranges.len() {
        Err(RustamanError::RequestParsingError("No request found".to_owned()))
    } else {
        Ok(found)
    }
}

} // verus!
