//! From the text of a rendered template to the request that goes on the wire.
use crate::context::yaml_document;
use crate::errors::{ErrorView, RustamanError, RustamanResult};
use crate::helpers::directive::{
    comments_end, directives_of, find_keyword, first_keyword, keyword_end, lemma_first_keyword,
    lemma_keyword_end, read_directives, Directives, DirectivesView,
};
use crate::helpers::obfuscate::{obfuscate_frame, obfuscated};
use crate::helpers::render::{render_context, render_of};
use crate::helpers::target::{parse_url, url_parts, UrlParts, UrlPartsView};
use crate::models::agent::USER_AGENT;
use crate::models::environment::{environment_secrets, Environment};
use crate::text::{
    contains, copy_range, decimal, decimal_digits, find, find_from, from_chars, has_prefix_at,
    includes, lines, option_text, pairs_view, pieces, push_all, push_str, same_text,
    split_lines, split_tokens, string_of_range, texts, to_chars, tokens, valid_ranges,
};
use vstd::prelude::*;
use vstd::utf8::encode_utf8;

verus! {

/// How the request travels.
#[derive(Debug)]
pub enum Scheme {
    /// Over plain TCP.
    HTTP,
    /// Over TLS.
    HTTPS,
    /// Another scheme, which cannot be used.
    Unsupported(String),
}

/// A scheme as a text.
pub enum SchemeView {
    HTTP,
    HTTPS,
    Unsupported(Seq<char>),
}

impl View for Scheme {
    type V = SchemeView;

    open spec fn view(&self) -> SchemeView {
        match self {
            Scheme::HTTP => SchemeView::HTTP,
            Scheme::HTTPS => SchemeView::HTTPS,
            Scheme::Unsupported(name) => SchemeView::Unsupported(name@),
        }
    }
}

/// The scheme that `name` stands for.
pub open spec fn scheme_of(name: Seq<char>) -> SchemeView {
    if name == "http"@ {
        SchemeView::HTTP
    } else if name == "https"@ {
        SchemeView::HTTPS
    } else {
        SchemeView::Unsupported(name)
    }
}

impl Clone for Scheme {
    fn clone(&self) -> (copy: Scheme)
        ensures
            copy@ == self@,
    {
        match self {
            Scheme::HTTP => Scheme::HTTP,
            Scheme::HTTPS => Scheme::HTTPS,
            Scheme::Unsupported(name) => Scheme::Unsupported(name.clone()),
        }
    }
}

impl PartialEq for Scheme {
    fn eq(&self, other: &Scheme) -> (same: bool) {
        match (self, other) {
            (Scheme::HTTP, Scheme::HTTP) => true,
            (Scheme::HTTPS, Scheme::HTTPS) => true,
            (Scheme::Unsupported(a), Scheme::Unsupported(b)) => same_text(a.as_str(), b.as_str()),
            _ => false,
        }
    }
}

impl vstd::std_specs::cmp::PartialEqSpecImpl for Scheme {
    open spec fn obeys_eq_spec() -> bool {
        true
    }

    open spec fn eq_spec(&self, other: &Scheme) -> bool {
        self@ == other@
    }
}

impl Scheme {
    /// The scheme that `value` names: `http`, `https`, or one that cannot be
    /// used and is kept by its name.
    pub fn of(value: &str) -> (scheme: Scheme)
        ensures
            scheme@ == scheme_of(value@),
    {
        if same_text(value, "http") {
            Scheme::HTTP
        } else if same_text(value, "https") {
            Scheme::HTTPS
        } else {
            Scheme::Unsupported(value.to_owned())
        }
    }
}

/// A request that is ready to be sent.
#[derive(Debug)]
pub struct HttpRequest {
    /// How the request travels.
    pub scheme: Scheme,
    /// The host to connect to.
    pub host: String,
    /// The port to connect to.
    pub port: u16,
    /// The text that goes on the wire.
    pub http_frame: String,
    /// Whether the certificate of the server is checked.
    pub verify_cert: bool,
    /// The name under which the response is kept.
    pub capture: Option<String>,
    /// The verb of the request line.
    pub method: String,
    /// The URL as the request line gives it.
    pub url: String,
    /// The header lines that hold a colon, parted at their first colon.
    pub headers: Vec<(String, String)>,
    /// The body, where there is one.
    pub body: Option<String>,
}

/// A request as texts.
pub struct RequestView {
    pub scheme: SchemeView,
    pub host: Seq<char>,
    pub port: u16,
    pub http_frame: Seq<char>,
    pub verify_cert: bool,
    pub capture: Option<Seq<char>>,
    pub method: Seq<char>,
    pub url: Seq<char>,
    pub headers: Seq<(Seq<char>, Seq<char>)>,
    pub body: Option<Seq<char>>,
}

impl View for HttpRequest {
    type V = RequestView;

    open spec fn view(&self) -> RequestView {
        RequestView {
            scheme: self.scheme@,
            host: self.host@,
            port: self.port,
            http_frame: self.http_frame@,
            verify_cert: self.verify_cert,
            capture: option_text(self.capture),
            method: self.method@,
            url: self.url@,
            headers: pairs_view(self.headers@),
            body: option_text(self.body),
        }
    }
}

/// Why a text is no request.
pub enum ParseFailure {
    /// Nothing but comments and empty lines.
    NoRequest,
    /// The request line has neither two nor three parts.
    FirstLine(Seq<char>),
    /// The target is no absolute URL.
    Url,
    /// Neither a directive nor the URL names a host.
    NoHost,
    /// Neither a directive nor the URL nor its scheme gives a port.
    NoPort,
    /// The scheme is neither `http` nor `https`.
    BadScheme(Seq<char>),
}

/// The message that tells of a failure, where it is the library's own.
pub open spec fn failure_message(failure: ParseFailure) -> Option<Seq<char>> {
    match failure {
        ParseFailure::NoRequest => Some("No request found"@),
        ParseFailure::FirstLine(line) => Some("Parse error on line: "@ + line),
        ParseFailure::Url => None,
        ParseFailure::NoHost => Some("Host not found in HTTP Request"@),
        ParseFailure::NoPort => Some("Unknown http port to query"@),
        ParseFailure::BadScheme(name) => Some(name),
    }
}

/// The error that tells of a failure.
pub open spec fn error_of(failure: ParseFailure) -> ErrorView {
    match failure_message(failure) {
        Some(message) => ErrorView::RequestParsingError(message),
        None => ErrorView::UrlParseError,
    }
}

/// The error `err` tells of `failure`.
pub open spec fn reports(err: RustamanError, failure: ParseFailure) -> bool {
    err@ == error_of(failure)
}

/// The result `parsed` is what `expected` asks for.
pub open spec fn delivers(
    parsed: RustamanResult<HttpRequest>,
    expected: Result<RequestView, ParseFailure>,
) -> bool {
    match expected {
        Ok(view) => parsed matches Ok(request) && request@ == view,
        Err(failure) => parsed matches Err(err) && reports(err, failure),
    }
}

/// What the request line asks the server for: the path of the URL, then its
/// query behind a `?` and its fragment behind a `#`, where it has them.
pub open spec fn request_target(u: UrlPartsView) -> Seq<char> {
    let with_query = match u.query {
        Some(q) => u.path + "?"@ + q,
        None => u.path,
    };
    match u.fragment {
        Some(f) => with_query + "#"@ + f,
        None => with_query,
    }
}

/// The first line of the frame.
pub open spec fn request_line(verb: Seq<char>, target: Seq<char>, version: Seq<char>) -> Seq<
    char,
> {
    verb + " "@ + target + " "@ + version + "\r\n"@
}

/// The lines `from..to`, each with the line ending of the wire behind it.
pub open spec fn joined_lines(lines: Seq<Seq<char>>, from: int, to: int) -> Seq<char>
    decreases to - from,
{
    if to <= from {
        Seq::empty()
    } else {
        joined_lines(lines, from, to - 1) + lines[to - 1] + "\r\n"@
    }
}

/// The first empty line at or after `at`, or the number of lines: where the
/// header lines end.
pub open spec fn headers_end(lines: Seq<Seq<char>>, at: int) -> int
    decreases lines.len() - at,
{
    if 0 <= at < lines.len() && lines[at].len() > 0 {
        headers_end(lines, at + 1)
    } else {
        at
    }
}

/// The body: every line behind the empty line that ends the headers.
pub open spec fn body_of(lines: Seq<Seq<char>>) -> Seq<char> {
    joined_lines(lines, headers_end(lines, 0) + 1, lines.len() as int)
}

/// The `Host` header, which names the domain of the URL.
pub open spec fn host_header(domain: Option<Seq<char>>) -> Seq<char> {
    match domain {
        Some(d) => "Host: "@ + d + "\r\n"@,
        None => Seq::empty(),
    }
}

/// The `Content-Length` header, which gives the number of bytes of a body
/// that is not empty.
pub open spec fn length_header(body: Seq<char>) -> Seq<char> {
    if body.len() > 0 {
        "Content-Length: "@ + decimal(encode_utf8(body).len()) + "\r\n"@
    } else {
        Seq::empty()
    }
}

/// The `User-Agent` header that is added where the head so far has none.
pub open spec fn agent_header(head: Seq<char>) -> Seq<char> {
    if contains(head, "\nUser-Agent:"@) {
        Seq::empty()
    } else {
        "User-Agent: "@ + USER_AGENT@ + "\r\n"@
    }
}

/// The head of the frame as far as the template and the URL give it: the
/// request line, the header lines of the template, then the `Host` and the
/// `Content-Length` header.
pub open spec fn given_head(
    verb: Seq<char>,
    target: Seq<char>,
    version: Seq<char>,
    lines: Seq<Seq<char>>,
    domain: Option<Seq<char>>,
) -> Seq<char> {
    request_line(verb, target, version) + joined_lines(lines, 0, headers_end(lines, 0))
        + host_header(domain) + length_header(body_of(lines))
}

/// The whole head of the frame, the empty line that ends it included.
pub open spec fn head_of(
    verb: Seq<char>,
    target: Seq<char>,
    version: Seq<char>,
    lines: Seq<Seq<char>>,
    domain: Option<Seq<char>>,
) -> Seq<char> {
    let given = given_head(verb, target, version, lines, domain);
    given + agent_header(given) + "Connection: close\r\n"@ + "\r\n"@
}

/// The frame: the head, then the body.
pub open spec fn frame_of(
    verb: Seq<char>,
    target: Seq<char>,
    version: Seq<char>,
    lines: Seq<Seq<char>>,
    domain: Option<Seq<char>>,
) -> Seq<char> {
    head_of(verb, target, version, lines, domain) + body_of(lines)
}

/// The header lines `from..to` that hold a colon, each parted at its first
/// colon.
pub open spec fn header_pairs(lines: Seq<Seq<char>>, from: int, to: int) -> Seq<
    (Seq<char>, Seq<char>),
>
    decreases to - from,
{
    if to <= from {
        Seq::empty()
    } else {
        let line = lines[to - 1];
        let colon = find_from(line, ":"@, 0);
        if colon >= 0 {
            header_pairs(lines, from, to - 1).push(
                (line.subrange(0, colon), line.subrange(colon + 1, line.len() as int)),
            )
        } else {
            header_pairs(lines, from, to - 1)
        }
    }
}

/// The body as a part of the request: `None` where it is empty.
pub open spec fn body_part(body: Seq<char>) -> Option<Seq<char>> {
    if body.len() > 0 {
        Some(body)
    } else {
        None
    }
}

/// The request that the parts of a template give, or why they give none.
///
/// `lines` are the lines behind the request line. The host and port of an
/// authority directive go before those of the URL; the `Host` header names
/// the domain of the URL in either case.
pub open spec fn built(
    d: DirectivesView,
    verb: Seq<char>,
    url_text: Seq<char>,
    u: UrlPartsView,
    version: Seq<char>,
    lines: Seq<Seq<char>>,
) -> Result<RequestView, ParseFailure> {
    if d.authority is None && u.host is None {
        Err(ParseFailure::NoHost)
    } else if d.authority is None && u.port is None {
        Err(ParseFailure::NoPort)
    } else if scheme_of(u.scheme) is Unsupported {
        Err(ParseFailure::BadScheme(u.scheme))
    } else {
        Ok(
            RequestView {
                scheme: scheme_of(u.scheme),
                host: match d.authority {
                    Some((host, _)) => host,
                    None => u.host->0,
                },
                port: match d.authority {
                    Some((_, port)) => port,
                    None => u.port->0,
                },
                http_frame: frame_of(verb, request_target(u), version, lines, u.domain),
                verify_cert: !d.insecure,
                capture: d.capture,
                method: verb,
                url: url_text,
                headers: header_pairs(lines, 0, headers_end(lines, 0)),
                body: body_part(body_of(lines)),
            },
        )
    }
}

/// The version of a request line of two parts.
pub open spec fn version_of(parts: Seq<Seq<char>>) -> Seq<char> {
    if parts.len() == 2 {
        "HTTP/1.1"@
    } else {
        parts[2]
    }
}

/// The request that a rendered template gives, or why it gives none.
///
/// The comment lines at the head are read for directives. The first other
/// line is the request line: a verb and a URL, or a verb, a URL and a
/// version, parted by white space. The lines behind it are the headers, up
/// to the first empty line, and then the body.
pub open spec fn parsed(text: Seq<char>) -> Result<RequestView, ParseFailure> {
    let all = lines(text);
    let first = comments_end(all, 0);
    let parts = tokens(all[first]);
    if first >= all.len() {
        Err(ParseFailure::NoRequest)
    } else if parts.len() != 2 && parts.len() != 3 {
        Err(ParseFailure::FirstLine(all[first]))
    } else {
        match url_parts(parts[1]) {
            None => Err(ParseFailure::Url),
            Some(u) => built(
                directives_of(all, first),
                parts[0],
                parts[1],
                u,
                version_of(parts),
                all.subrange(first + 1, all.len() as int),
            ),
        }
    }
}

/// Appends the lines `from..to` to `out`, each with its line ending.
fn push_lines(out: &mut Vec<char>, lines: &Vec<String>, from: usize, to: usize)
    requires
        to <= lines.len(),
    ensures
        final(out)@ == old(out)@ + joined_lines(texts(lines@), from as int, to as int),
{
    if from >= to {
        return ;
    }
    let mut i: usize = from;
    while i < to
        invariant
            from <= i <= to <= lines.len(),
            out@ == old(out)@ + joined_lines(texts(lines@), from as int, i as int),
        decreases to - i,
    {
        push_str(out, lines[i].as_str());
        push_str(out, "\r\n");
        i += 1;
    }
}

/// Where the header lines that start at `from` end.
pub(crate) fn find_headers_end(lines: &Vec<String>, from: usize) -> (end: usize)
    requires
        from <= lines.len(),
    ensures
        end == headers_end(texts(lines@), from as int),
        from <= end <= lines.len(),
{
    let mut i: usize = from;
    while i < lines.len() && !lines[i].as_str().is_empty()
        invariant
            from <= i <= lines.len(),
            headers_end(texts(lines@), from as int) == headers_end(texts(lines@), i as int),
        decreases lines.len() - i,
    {
        i += 1;
    }
    i
}

/// The header lines `from..to` that hold a colon, parted at it.
pub(crate) fn split_headers(lines: &Vec<String>, from: usize, to: usize) -> (pairs: Vec<(String, String)>)
    requires
        to <= lines.len(),
    ensures
        pairs_view(pairs@) == header_pairs(texts(lines@), from as int, to as int),
{
    let colon = to_chars(":");
    let mut pairs: Vec<(String, String)> = Vec::new();
    if from >= to {
        return pairs;
    }
    let mut i: usize = from;
    while i < to
        invariant
            from <= i <= to <= lines.len(),
            colon@ == ":"@,
            pairs_view(pairs@) == header_pairs(texts(lines@), from as int, i as int),
        decreases to - i,
    {
        let line = to_chars(lines[i].as_str());
        match find(&line, &colon, 0) {
            Some(at) => {
                proof {
                    crate::text::lemma_find_from(line@, colon@, 0);
                    reveal_strlit(":");
                    assert(line@.len() == line.len());
                }
                let key = string_of_range(&line, 0, at);
                let value = string_of_range(&line, at + 1, line.len());
                pairs.push((key, value));
            },
            None => {},
        }
        i += 1;
    }
    pairs
}

/// The text that the request line asks the server for.
fn target_of(url: &UrlParts) -> (target: Vec<char>)
    ensures
        target@ == request_target(url@),
{
    let mut target = to_chars(url.path.as_str());
    match &url.query {
        Some(q) => {
            push_str(&mut target, "?");
            push_str(&mut target, q.as_str());
        },
        None => {},
    }
    match &url.fragment {
        Some(f) => {
            push_str(&mut target, "#");
            push_str(&mut target, f.as_str());
        },
        None => {},
    }
    target
}

/// Builds the request from the parts of a rendered template: the
/// directives, the three parts of the request line with the URL both as it
/// was written and as it was read, and the lines behind the request line.
pub fn build_request(
    directives: Directives,
    verb: &str,
    url_text: &str,
    url: &UrlParts,
    version: &str,
    lines: &Vec<String>,
) -> (request: RustamanResult<HttpRequest>)
    ensures
        delivers(request, built(directives@, verb@, url_text@, url@, version@, texts(lines@))),
{
    let ghost all = texts(lines@);
    let Directives { authority, capture, insecure } = directives;
    let (host, port) = match authority {
        Some((host, port)) => (host, port),
        None => {
            let host = match &url.host {
                Some(host) => host.clone(),
                None => {
                    return Err(
                        RustamanError::RequestParsingError(
                            "Host not found in HTTP Request".to_owned(),
                        ),
                    );
                },
            };
            let port = match url.port {
                Some(port) => port,
                None => {
                    return Err(
                        RustamanError::RequestParsingError(
                            "Unknown http port to query".to_owned(),
                        ),
                    );
                },
            };
            (host, port)
        },
    };
    let scheme = Scheme::of(url.scheme.as_str());
    if let Scheme::Unsupported(name) = scheme {
        return Err(RustamanError::RequestParsingError(name));
    }
    let target = target_of(url);
    let end = find_headers_end(lines, 0);

    let mut head: Vec<char> = Vec::new();
    push_str(&mut head, verb);
    push_str(&mut head, " ");
    push_all(&mut head, &target);
    push_str(&mut head, " ");
    push_str(&mut head, version);
    push_str(&mut head, "\r\n");
    push_lines(&mut head, lines, 0, end);
    match &url.domain {
        Some(domain) => {
            push_str(&mut head, "Host: ");
            push_str(&mut head, domain.as_str());
            push_str(&mut head, "\r\n");
        },
        None => {},
    }

    let mut body_chars: Vec<char> = Vec::new();
    if end < lines.len() {
        push_lines(&mut body_chars, lines, end + 1, lines.len());
    }
    let body = from_chars(&body_chars);
    if body_chars.len() > 0 {
        let length = decimal_digits(body.as_str().as_bytes().len() as u64);
        push_str(&mut head, "Content-Length: ");
        push_all(&mut head, &length);
        push_str(&mut head, "\r\n");
    }
    assert(head@ =~= given_head(verb@, target@, version@, all, url@.domain));
    let agent = to_chars("\nUser-Agent:");
    if !includes(&head, &agent) {
        push_str(&mut head, "User-Agent: ");
        push_str(&mut head, USER_AGENT);
        push_str(&mut head, "\r\n");
    }
    push_str(&mut head, "Connection: close\r\n");
    push_str(&mut head, "\r\n");
    assert(head@ =~= head_of(verb@, target@, version@, all, url@.domain));
    push_all(&mut head, &body_chars);

    let request = HttpRequest {
        scheme,
        host,
        port,
        http_frame: from_chars(&head),
        verify_cert: !insecure,
        capture,
        method: verb.to_owned(),
        url: url_text.to_owned(),
        headers: split_headers(lines, 0, end),
        body: if body_chars.len() > 0 {
            Some(body)
        } else {
            None
        },
    };
    Ok(request)
}

/// The strings that the ranges `from..` hold.
pub(crate) fn strings_from(chars: &Vec<char>, ranges: &Vec<(usize, usize)>, from: usize) -> (strings: Vec<
    String,
>)
    requires
        valid_ranges(ranges@, chars@.len()),
        from <= ranges.len(),
    ensures
        texts(strings@) == pieces(chars@, ranges@).subrange(from as int, ranges.len() as int),
{
    let mut strings: Vec<String> = Vec::new();
    let mut i: usize = from;
    while i < ranges.len()
        invariant
            from <= i <= ranges.len(),
            valid_ranges(ranges@, chars@.len()),
            texts(strings@) =~= pieces(chars@, ranges@).subrange(from as int, i as int),
        decreases ranges.len() - i,
    {
        let (a, b) = ranges[i];
        let ghost before = strings@;
        let piece = string_of_range(chars, a, b);
        strings.push(piece);
        i += 1;
        proof {
            assert(texts(strings@) =~= texts(before).push(piece@));
        }
    }
    strings
}

/// Reads a rendered template as a request.
pub fn parse_request(request: &str) -> (outcome: RustamanResult<HttpRequest>)
    ensures
        delivers(outcome, parsed(request@)),
{
    let chars = to_chars(request);
    let ranges = split_lines(&chars);
    let (directives, first) = read_directives(&chars, &ranges);
    if first >= ranges.len() {
        return Err(RustamanError::RequestParsingError("No request found".to_owned()));
    }
    let (from, to) = ranges[first];
    let line = copy_range(&chars, from, to);
    let parts = split_tokens(&line);
    if parts.len() != 2 && parts.len() != 3 {
        let shown = from_chars(&line);
        let message = "Parse error on line: ".to_owned().concat(shown.as_str());
        return Err(RustamanError::RequestParsingError(message));
    }
    let verb = string_of_range(&line, parts[0].0, parts[0].1);
    let url_text = string_of_range(&line, parts[1].0, parts[1].1);
    let version = if parts.len() == 2 {
        "HTTP/1.1".to_owned()
    } else {
        string_of_range(&line, parts[2].0, parts[2].1)
    };
    let url = match parse_url(url_text.as_str()) {
        Ok(url) => url,
        Err(err) => {
            return Err(RustamanError::UrlParseError(err));
        },
    };
    let rest = strings_from(&chars, &ranges, first + 1);
    build_request(
        directives,
        verb.as_str(),
        url_text.as_str(),
        &url,
        version.as_str(),
        &rest,
    )
}

/// The blocks of `s` from `at` on: what stands between one `EndCapture`
/// directive and the next. The directive itself belongs to no block; what
/// follows its keyword on the same line starts the next block.
pub open spec fn blocks_from(s: Seq<char>, at: int) -> Seq<Seq<char>>
    decreases s.len() + 1 - at,
{
    if at < 0 || at > s.len() {
        Seq::empty()
    } else if first_keyword(s, "EndCapture"@, at) < 0 {
        seq![s.subrange(at, s.len() as int)]
    } else {
        proof {
            lemma_first_keyword(s, "EndCapture"@, at);
            lemma_keyword_end(s, first_keyword(s, "EndCapture"@, at), "EndCapture"@);
        }
        seq![s.subrange(at, first_keyword(s, "EndCapture"@, at))] + blocks_from(
            s,
            keyword_end(s, first_keyword(s, "EndCapture"@, at), "EndCapture"@),
        )
    }
}

/// The blocks of a template. A template without an `EndCapture` directive
/// is one block.
pub open spec fn blocks(s: Seq<char>) -> Seq<Seq<char>> {
    blocks_from(s, 0)
}

/// Splits a template of several requests into its blocks, in their order.
pub fn split_template(template: &str) -> (requests: Vec<String>)
    ensures
        texts(requests@) == blocks(template@),
{
    let chars = to_chars(template);
    let word = to_chars("EndCapture");
    let mut requests: Vec<String> = Vec::new();
    let mut at: usize = 0;
    loop
        invariant_except_break
            blocks(chars@) == texts(requests@) + blocks_from(chars@, at as int),
        invariant
            at <= chars.len(),
            word@ == "EndCapture"@,
            chars@ == template@,
        ensures
            blocks(chars@) == texts(requests@),
        decreases chars.len() - at,
    {
        match find_keyword(&chars, &word, at) {
            Some((start, end)) => {
                let block = string_of_range(&chars, at, start);
                requests.push(block);
                proof {
                }
                at = end;
            },
            None => {
                let block = string_of_range(&chars, at, chars.len());
                requests.push(block);
                proof {
                }
                break ;
            },
        }
    }
    requests
}

impl HttpRequest {
    /// The text that goes on the wire.
    pub fn http_frame(&self) -> (frame: &str)
        ensures
            frame@ == self@.http_frame,
    {
        self.http_frame.as_str()
    }

    /// The host and the port to connect to, with a colon between them.
    pub fn host_and_port(&self) -> (authority: String)
        ensures
            authority@ == self@.host + ":"@ + decimal(self@.port as nat),
    {
        let mut authority = to_chars(self.host.as_str());
        push_str(&mut authority, ":");
        let digits = decimal_digits(self.port as u64);
        push_all(&mut authority, &digits);
        from_chars(&authority)
    }

    /// Whether the certificate of the server is checked.
    pub fn verify_cert(&self) -> (verify: bool)
        ensures
            verify == self@.verify_cert,
    {
        self.verify_cert
    }

    /// The verb of the request line.
    pub fn method(&self) -> (method: &str)
        ensures
            method@ == self@.method,
    {
        self.method.as_str()
    }

    /// The URL as the request line gives it.
    pub fn url(&self) -> (url: &str)
        ensures
            url@ == self@.url,
    {
        self.url.as_str()
    }

    /// The header lines that hold a colon, parted at their first colon.
    pub fn headers(&self) -> (headers: &Vec<(String, String)>)
        ensures
            pairs_view(headers@) == self@.headers,
    {
        &self.headers
    }

    /// The body, where there is one.
    pub fn body(&self) -> (body: Option<String>)
        ensures
            option_text(body) == self@.body,
    {
        match &self.body {
            Some(b) => Some(b.clone()),
            None => None,
        }
    }
}

impl Clone for HttpRequest {
    fn clone(&self) -> (copy: HttpRequest)
        ensures
            copy@ == self@,
    {
        let mut headers: Vec<(String, String)> = Vec::new();
        let mut i: usize = 0;
        while i < self.headers.len()
            invariant
                i <= self.headers.len(),
                headers@.len() == i,
                forall|k: int|
                    0 <= k < i ==> headers@[k].0@ == self.headers@[k].0@ && headers@[k].1@
                        == self.headers@[k].1@,
            decreases self.headers.len() - i,
        {
            headers.push((self.headers[i].0.clone(), self.headers[i].1.clone()));
            i += 1;
        }
        assert(pairs_view(headers@) =~= pairs_view(self.headers@));
        HttpRequest {
            scheme: self.scheme.clone(),
            host: self.host.clone(),
            port: self.port,
            http_frame: self.http_frame.clone(),
            verify_cert: self.verify_cert,
            capture: match &self.capture {
                Some(name) => Some(name.clone()),
                None => None,
            },
            method: self.method.clone(),
            url: self.url.clone(),
            headers,
            body: match &self.body {
                Some(body) => Some(body.clone()),
                None => None,
            },
        }
    }
}

impl HttpRequest {
    /// The request for the eye: the same request with the secret values of
    /// `env` masked in its frame. The request itself stays as it is.
    pub fn obfuscate(&self, env: &Environment) -> (shown: HttpRequest)
        ensures
            shown@ == (RequestView {
                http_frame: obfuscated(
                    self@.http_frame,
                    environment_secrets(env@.payload),
                    environment_secrets(env@.payload).len() as int,
                ),
                ..self@
            }),
    {
        let secrets = env.obfuscated_string();
        let mut shown = self.clone();
        shown.http_frame = obfuscate_frame(self.http_frame.as_str(), &secrets);
        shown
    }
}

/// Renders a template against an environment and reads the outcome as a
/// request. The first step that fails gives the error: reading the
/// environment, rendering, reading the request.
pub fn load_template(template: &str, environ: &Environment) -> (outcome: RustamanResult<
    HttpRequest,
>)
    ensures
        match yaml_document(environ@.payload) {
            None => outcome matches Err(err) && err is EnvironmentParsingError,
            Some(context) => match render_of(template@, context) {
                Err(message) => outcome matches Err(RustamanError::RenderError(m)) && m@
                    == message,
                Ok(text) => delivers(outcome, parsed(text)),
            },
        },
{
    let context = match environ.parsed_payload() {
        Ok(context) => context,
        Err(err) => {
            return Err(err);
        },
    };
    match render_context(template, &context) {
        Ok(text) => parse_request(text.as_str()),
        Err(err) => Err(err),
    }
}

/// A request line of two parts gets the version `HTTP/1.1`, and one of
/// three parts keeps its own: the frame of every request starts with the
/// verb, the target and that version.
pub proof fn lemma_version_of_request_line(text: Seq<char>)
    requires
        parsed(text) is Ok,
    ensures
        ({
            let all = lines(text);
            let parts = tokens(all[comments_end(all, 0)]);
            let target = request_target(url_parts(parts[1])->0);
            let frame = parsed(text)->Ok_0.http_frame;
            &&& parts.len() == 2 || parts.len() == 3
            &&& parts.len() == 2 ==> has_prefix_at(
                frame,
                0,
                request_line(parts[0], target, "HTTP/1.1"@),
            )
            &&& parts.len() == 3 ==> has_prefix_at(
                frame,
                0,
                request_line(parts[0], target, parts[2]),
            )
        }),
{
    let all = lines(text);
    let parts = tokens(all[comments_end(all, 0)]);
    let target = request_target(url_parts(parts[1])->0);
    let frame = parsed(text)->Ok_0.http_frame;
    let first = request_line(parts[0], target, version_of(parts));
    assert(frame.subrange(0, first.len() as int) =~= first);
}

/// The body stands at the end of the frame, and the `Content-Length`
/// header, which follows the `Host` header, gives the number of its bytes.
pub proof fn lemma_content_length(
    d: DirectivesView,
    verb: Seq<char>,
    url_text: Seq<char>,
    u: UrlPartsView,
    version: Seq<char>,
    lines: Seq<Seq<char>>,
)
    requires
        built(d, verb, url_text, u, version, lines) is Ok,
        built(d, verb, url_text, u, version, lines)->Ok_0.body is Some,
    ensures
        ({
            let request = built(d, verb, url_text, u, version, lines)->Ok_0;
            let body = request.body->0;
            let frame = request.http_frame;
            let before = request_line(verb, request_target(u), version) + joined_lines(
                lines,
                0,
                headers_end(lines, 0),
            ) + host_header(u.domain);
            &&& body.len() > 0
            &&& has_prefix_at(frame, frame.len() - body.len(), body)
            &&& has_prefix_at(
                frame,
                before.len() as int,
                "Content-Length: "@ + decimal(encode_utf8(body).len()) + "\r\n"@,
            )
        }),
{
    let request = built(d, verb, url_text, u, version, lines)->Ok_0;
    let body = request.body->0;
    let frame = request.http_frame;
    let before = request_line(verb, request_target(u), version) + joined_lines(
        lines,
        0,
        headers_end(lines, 0),
    ) + host_header(u.domain);
    let header = "Content-Length: "@ + decimal(encode_utf8(body).len()) + "\r\n"@;
    assert(frame.subrange(frame.len() - body.len(), frame.len() as int) =~= body);
    assert(frame.subrange(before.len() as int, (before.len() + header.len()) as int) =~= header);
}

/// The head of every frame ends with `Connection: close` and an empty
/// line, and the body follows it.
pub proof fn lemma_empty_line_before_body(
    d: DirectivesView,
    verb: Seq<char>,
    url_text: Seq<char>,
    u: UrlPartsView,
    version: Seq<char>,
    lines: Seq<Seq<char>>,
)
    requires
        built(d, verb, url_text, u, version, lines) is Ok,
    ensures
        ({
            let frame = built(d, verb, url_text, u, version, lines)->Ok_0.http_frame;
            let body = body_of(lines);
            &&& has_prefix_at(frame, frame.len() - body.len(), body)
            &&& has_prefix_at(frame, frame.len() - body.len() - 4, "\r\n\r\n"@)
            &&& has_prefix_at(
                frame,
                frame.len() - body.len() - 21,
                "Connection: close\r\n\r\n"@,
            )
        }),
{
    reveal_strlit("\r\n");
    reveal_strlit("\r\n\r\n");
    reveal_strlit("Connection: close\r\n");
    reveal_strlit("Connection: close\r\n\r\n");
    let frame = built(d, verb, url_text, u, version, lines)->Ok_0.http_frame;
    let body = body_of(lines);
    let end = frame.len() - body.len();
    assert(frame.subrange(end, frame.len() as int) =~= body);
    assert(frame.subrange(end - 21, end) =~= "Connection: close\r\n\r\n"@);
    assert(frame.subrange(end - 4, end) =~= "\r\n\r\n"@);
}

/// A template without an `EndCapture` directive is one block, the template
/// itself.
pub proof fn lemma_single_block(template: Seq<char>)
    requires
        first_keyword(template, "EndCapture"@, 0) < 0,
    ensures
        blocks(template) == seq![template],
{
    assert(template.subrange(0, template.len() as int) =~= template);
}

} // verus!
