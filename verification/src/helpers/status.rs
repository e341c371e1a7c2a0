//! The status of a response and the time it took, for the eye.
use crate::text::{
    decimal, decimal_digits, find, find_from, find_line_end, from_chars, lemma_find_from,
    lemma_line_end_bounds, line_stop, push_all, push_str, string_of_range, to_chars,
};
use vstd::prelude::*;

verus! {

/// The first line of a text.
pub open spec fn status_line(response: Seq<char>) -> Seq<char> {
    response.subrange(0, line_stop(response, 0))
}

/// What follows the first space of a line, or the line where it has none.
pub open spec fn behind_first_space(line: Seq<char>) -> Seq<char> {
    if find_from(line, " "@, 0) >= 0 {
        line.subrange(find_from(line, " "@, 0) + 1, line.len() as int)
    } else {
        line
    }
}

/// The status of a response: its first line without the version of the
/// protocol, which is the code and the reason.
pub open spec fn status_text(response: Seq<char>) -> Seq<char> {
    behind_first_space(status_line(response))
}

/// The colour for a status: green for a code that starts with 2 or 3, orange
/// for one that starts with 4, red for any other.
pub open spec fn status_colour(status: Seq<char>) -> Seq<char> {
    if status.len() > 0 && (status[0] == '2' || status[0] == '3') {
        "#088A29"@
    } else if status.len() > 0 && status[0] == '4' {
        "#FE642E"@
    } else {
        "#B40404"@
    }
}

/// The colour for a time in milliseconds: green below 700, else red.
pub open spec fn elapsed_colour(elapsed: u64) -> Seq<char> {
    if elapsed < 700 {
        "#088A29"@
    } else {
        "#B40404"@
    }
}

/// The markup that shows `text` on the colour `colour`.
pub open spec fn markup(colour: Seq<char>, text: Seq<char>) -> Seq<char> {
    "<span face=\"monospace\" background=\""@ + colour + "\" size=\"large\"> "@ + text
        + " </span>"@
}

/// The markup that shows `text` on the colour `colour`.
fn build_markup(colour: &str, text: &Vec<char>) -> (shown: String)
    ensures
        shown@ == markup(colour@, text@),
{
    let mut shown = to_chars("<span face=\"monospace\" background=\"");
    push_str(&mut shown, colour);
    push_str(&mut shown, "\" size=\"large\"> ");
    push_all(&mut shown, text);
    push_str(&mut shown, " </span>");
    from_chars(&shown)
}

/// The status of a response: its first line without the version of the
/// protocol.
pub fn status_of(response: &str) -> (status: String)
    ensures
        status@ == status_text(response@),
{
    let chars = to_chars(response);
    let end = find_line_end(&chars, 0);
    let stop = if end < chars.len() && 0 < end && chars[end - 1] == '\r' {
        end - 1
    } else {
        end
    };
    proof {
        lemma_line_end_bounds(chars@, 0);
    }
    let line = crate::text::copy_range(&chars, 0, stop);
    let space = to_chars(" ");
    match find(&line, &space, 0) {
        Some(at) => {
            proof {
                lemma_find_from(line@, space@, 0);
                reveal_strlit(" ");
                assert(line@.len() == line.len());
            }
            string_of_range(&line, at + 1, line.len())
        },
        None => from_chars(&line),
    }
}

/// The markup that shows a status on the colour of its class.
pub fn build_markup_for_status(status: &str) -> (shown: String)
    ensures
        shown@ == markup(status_colour(status@), status@),
{
    let text = to_chars(status);
    let colour = if text.len() > 0 && (text[0] == '2' || text[0] == '3') {
        "#088A29"
    } else if text.len() > 0 && text[0] == '4' {
        "#FE642E"
    } else {
        "#B40404"
    };
    build_markup(colour, &text)
}

/// The markup that shows a time in milliseconds on the colour of its
/// class.
pub fn build_markup_for_elapsed(elapsed: u64) -> (shown: String)
    ensures
        shown@ == markup(elapsed_colour(elapsed), decimal(elapsed as nat) + "ms"@),
{
    let colour = if elapsed < 700 {
        "#088A29"
    } else {
        "#B40404"
    };
    let mut text = decimal_digits(elapsed);
    push_str(&mut text, "ms");
    build_markup(colour, &text)
}

} // verus!
