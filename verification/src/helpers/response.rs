//! What comes back from the server, and what of it is kept in the context.
use crate::context::{inserted, json_document, parse_json, Data, Node};
use crate::helpers::http::{
    find_headers_end, header_pairs, headers_end, split_headers, strings_from,
};
use crate::text::{
    from_chars, has_prefix_at, lines, pairs_view, prefix_at, push_str, same_text, split_lines,
    texts, to_chars,
};
use vstd::prelude::*;

verus! {

/// A response, read from the text that the server sent.
#[derive(Debug)]
pub struct HttpResponse {
    /// The first line.
    pub status_line: String,
    /// The header lines that hold a colon, parted at their first colon.
    pub headers: Vec<(String, String)>,
    /// The lines behind the empty line that ends the headers, each with a
    /// line feed behind it.
    pub body: String,
}

/// A response as texts.
pub struct ResponseView {
    pub status_line: Seq<char>,
    pub headers: Seq<(Seq<char>, Seq<char>)>,
    pub body: Seq<char>,
}

impl View for HttpResponse {
    type V = ResponseView;

    open spec fn view(&self) -> ResponseView {
        ResponseView {
            status_line: self.status_line@,
            headers: pairs_view(self.headers@),
            body: self.body@,
        }
    }
}

/// The lines `from..to`, each with a line feed behind it.
pub open spec fn unix_lines(lines: Seq<Seq<char>>, from: int, to: int) -> Seq<char>
    decreases to - from,
{
    if to <= from {
        Seq::empty()
    } else {
        unix_lines(lines, from, to - 1) + lines[to - 1] + "\n"@
    }
}

/// The first line of a text, or nothing where it has no line.
pub open spec fn first_line(all: Seq<Seq<char>>) -> Seq<char> {
    if all.len() > 0 {
        all[0]
    } else {
        Seq::empty()
    }
}

/// The response that the text `raw` holds: its first line is the status
/// line, the lines up to the first empty one are the headers, the rest is
/// the body.
pub open spec fn response_of(raw: Seq<char>) -> ResponseView {
    let all = lines(raw);
    ResponseView {
        status_line: first_line(all),
        headers: header_pairs(all, 1, headers_end(all, 1)),
        body: unix_lines(all, headers_end(all, 1) + 1, all.len() as int),
    }
}

/// A header that says that the body is JSON: `Content-Type` with a value
/// that starts with one space and `application/json`.
pub open spec fn is_json_header(header: (Seq<char>, Seq<char>)) -> bool {
    header.0 == "Content-Type"@ && has_prefix_at(header.1, 0, " application/json"@)
}

/// Whether one of the first `n` headers says that the body is JSON.
pub open spec fn declares_json(headers: Seq<(Seq<char>, Seq<char>)>, n: int) -> bool
    decreases n,
{
    if n <= 0 {
        false
    } else {
        declares_json(headers, n - 1) || is_json_header(headers[n - 1])
    }
}

/// The context once a value that was read from a response is kept under
/// `name`; a response that gave no value leaves it as it is.
pub open spec fn merged(context: Node, name: Seq<char>, value: Option<Node>) -> Node {
    match value {
        Some(v) => inserted(context, name, v),
        None => context,
    }
}

/// The context once `response` is captured under `name`: the body is kept
/// where a header declares it as JSON and it is JSON.
pub open spec fn captured(context: Node, name: Seq<char>, response: ResponseView) -> Node {
    if declares_json(response.headers, response.headers.len() as int) {
        merged(context, name, json_document(response.body))
    } else {
        context
    }
}

/// The JSON text `text` as `serde_json` writes it for the eye, or `None`
/// where `text` is no JSON.
pub uninterp spec fn pretty_json(text: Seq<char>) -> Option<Seq<char>>;

/// `serde_json::from_str` for a `serde_json::Value`, then
/// `serde_json::to_string_pretty` on it; `None` where either refuses. The
/// outcome depends on the text alone.
#[verifier::external_body]
fn prettify_js(payload: &str) -> (pretty: Option<String>)
    ensures
        match pretty {
            Some(text) => pretty_json(payload@) == Some(text@),
            None => pretty_json(payload@).is_none(),
        },
{
    serde_json::from_str::<serde_json::Value>(payload).ok().and_then(
        |v| serde_json::to_string_pretty(&v).ok(),
    )
}

/// What is shown of a body for which a pretty form was asked: the pretty
/// form, or the body as it is where there is none.
pub open spec fn pretty_or(body: Seq<char>, pretty: Option<Seq<char>>) -> Seq<char> {
    match pretty {
        Some(text) => text,
        None => body,
    }
}

/// What is shown of the body of a response: a body that is declared as JSON
/// and is JSON in its pretty form, any other as it is.
pub open spec fn shown_body(response: ResponseView) -> Seq<char> {
    if declares_json(response.headers, response.headers.len() as int) {
        pretty_or(response.body, pretty_json(response.body))
    } else {
        response.body
    }
}

/// Appends the lines `from..to` to `out`, each with a line feed.
fn push_unix_lines(out: &mut Vec<char>, lines: &Vec<String>, from: usize, to: usize)
    requires
        to <= lines.len(),
    ensures
        final(out)@ == old(out)@ + unix_lines(texts(lines@), from as int, to as int),
{
    if from >= to {
        return ;
    }
    let mut i: usize = from;
    while i < to
        invariant
            from <= i <= to <= lines.len(),
            out@ == old(out)@ + unix_lines(texts(lines@), from as int, i as int),
        decreases to - i,
    {
        push_str(out, lines[i].as_str());
        push_str(out, "\n");
        i += 1;
    }
}

/// Reads the text that the server sent.
pub fn parse_response(raw: &str) -> (response: HttpResponse)
    ensures
        response@ == response_of(raw@),
{
    let chars = to_chars(raw);
    let ranges = split_lines(&chars);
    let all = strings_from(&chars, &ranges, 0);
    assert(texts(all@) =~= lines(raw@));
    if all.len() == 0 {
        let response = HttpResponse {
            status_line: String::new(),
            headers: Vec::new(),
            body: String::new(),
        };
        proof {
            let none = lines(raw@);
            assert(response@.headers =~= header_pairs(none, 1, 1));
        }
        return response;
    }
    let end = find_headers_end(&all, 1);
    let mut body: Vec<char> = Vec::new();
    if end < all.len() {
        push_unix_lines(&mut body, &all, end + 1, all.len());
    }
    let response = HttpResponse {
        status_line: all[0].clone(),
        headers: split_headers(&all, 1, end),
        body: from_chars(&body),
    };
    response
}

impl HttpResponse {
    /// Whether a header declares the body as JSON.
    pub fn is_json(&self) -> (json: bool)
        ensures
            json == declares_json(self@.headers, self@.headers.len() as int),
    {
        let wanted = to_chars(" application/json");
        let mut i: usize = 0;
        while i < self.headers.len()
            invariant
                i <= self.headers.len(),
                wanted@ == " application/json"@,
                !declares_json(self@.headers, i as int),
            decreases self.headers.len() - i,
        {
            let value = to_chars(self.headers[i].1.as_str());
            if same_text(self.headers[i].0.as_str(), "Content-Type") && prefix_at(
                &value,
                0,
                &wanted,
            ) {
                proof {
                    lemma_declares_json(self@.headers, i + 1, self@.headers.len() as int);
                }
                return true;
            }
            i += 1;
        }
        false
    }
}

/// What is shown of a body for which a pretty form was asked.
pub fn body_or_pretty(body: &str, pretty: Option<String>) -> (shown: String)
    ensures
        shown@ == pretty_or(
            body@,
            match pretty {
                Some(text) => Some(text@),
                None => None,
            },
        ),
{
    match pretty {
        Some(text) => text,
        None => body.to_owned(),
    }
}

impl HttpResponse {
    /// What is shown of the body: a body that is declared as JSON and is
    /// JSON in its pretty form, any other as it is.
    pub fn body_to_show(&self) -> (shown: String)
        ensures
            shown@ == shown_body(self@),
    {
        if self.is_json() {
            body_or_pretty(self.body.as_str(), prettify_js(self.body.as_str()))
        } else {
            self.body.clone()
        }
    }
}

/// Once a header declares JSON, any further header leaves it so.
pub proof fn lemma_declares_json(headers: Seq<(Seq<char>, Seq<char>)>, n: int, m: int)
    requires
        n <= m,
        declares_json(headers, n),
    ensures
        declares_json(headers, m),
    decreases m - n,
{
    if n < m {
        lemma_declares_json(headers, n, m - 1);
    }
}

/// Keeps under `name` the value that was read from a response, where one
/// was read. A context that is no mapping stays as it is.
pub fn merge_capture(context: &mut Data, name: &str, value: Option<Data>)
    ensures
        final(context)@ == merged(
            old(context)@,
            name@,
            match value {
                Some(v) => Some(v@),
                None => None,
            },
        ),
{
    match value {
        Some(v) => context.insert(name, v),
        None => {},
    }
}

/// Keeps the body of `response` under `name` where it is declared as JSON
/// and is JSON. Any other response leaves the context as it is, and so does
/// a context that is no mapping.
pub fn capture_response(context: &mut Data, name: &str, response: &HttpResponse)
    ensures
        final(context)@ == captured(old(context)@, name@, response@),
{
    if response.is_json() {
        merge_capture(context, name, parse_json(response.body.as_str()));
    }
}

} // verus!
