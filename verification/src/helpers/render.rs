//! Rendering of a template against a context.
//!
//! The templates are Handlebars templates. A key that the context lacks is
//! an error, and a template that calls a partial is refused. What `{{key}}`
//! writes is escaped as Handlebars escapes it; `{{{key}}}` writes the value
//! as it is. Two helpers are at hand: the decorator `set`, which adds
//! bindings to the context of the block it stands in, and `encode`, which
//! writes its first argument percent-encoded.
use crate::context::{inserted, parse_yaml, yaml_document, Data, Node};
use crate::errors::{RustamanError, RustamanResult};
use crate::text::{has_prefix_at, string_of_range, to_chars};
use handlebars::{Context, Decorator, Handlebars, Helper, Output, RenderContext, RenderError};
use serde_json::Value as JsonData;
use serde_yaml::Value as YamlData;
use vstd::prelude::*;
use vstd::utf8::{encode_utf8, is_ascii_chars, is_ascii_chars_encode_utf8};

verus! {

#[verifier::external_type_specification]
#[verifier::external_body]
pub struct ExDecorator<'reg, 'rc>(handlebars::Decorator<'reg, 'rc>);

#[verifier::external_type_specification]
#[verifier::external_body]
pub struct ExHelper<'reg, 'rc>(handlebars::Helper<'reg, 'rc>);

/// The bytes that the form encoding leaves as they are.
pub open spec fn is_unreserved(b: u8) -> bool {
    b == 0x2a || b == 0x2d || b == 0x2e || b == 0x5f || (0x30 <= b <= 0x39) || (0x41 <= b <= 0x5a)
        || (0x61 <= b <= 0x7a)
}

/// The hexadecimal digit of `n`, in upper case.
pub open spec fn hex_digit(n: int) -> char {
    if n < 10 {
        (0x30 + n) as char
    } else {
        (0x37 + n) as char
    }
}

/// The form encoding of one byte: the byte itself where it is unreserved,
/// `+` for a space, else `%` and the two hexadecimal digits of the byte.
pub open spec fn encoded_byte(b: u8) -> Seq<char> {
    if is_unreserved(b) {
        seq![b as char]
    } else if b == 0x20 {
        seq!['+']
    } else {
        seq!['%', hex_digit(b as int / 16), hex_digit(b as int % 16)]
    }
}

/// The `application/x-www-form-urlencoded` encoding of a sequence of bytes.
pub open spec fn form_encoded(bytes: Seq<u8>) -> Seq<char>
    decreases bytes.len(),
{
    if bytes.len() == 0 {
        Seq::empty()
    } else {
        form_encoded(bytes.drop_last()) + encoded_byte(bytes.last())
    }
}

/// The context `base` once the first `n` bindings are put into it, one
/// after the other.
pub open spec fn extended(base: Node, bindings: Seq<(Seq<char>, Node)>, n: int) -> Node
    decreases n,
{
    if n <= 0 {
        base
    } else {
        inserted(extended(base, bindings, n - 1), bindings[n - 1].0, bindings[n - 1].1)
    }
}

/// The bindings of a list as texts.
pub open spec fn bindings_view(bindings: Seq<(String, Data)>) -> Seq<(Seq<char>, Node)> {
    Seq::new(bindings.len(), |i: int| (bindings[i].0@, bindings[i].1@))
}

/// What can stand between the braces that open a tag and the sign that
/// tells what kind of tag it is: white space, `~` and `#`.
pub open spec fn is_tag_filler(c: char) -> bool {
    c == ' ' || c == '\t' || c == '\n' || c == '\r' || c == '~' || c == '#'
}

/// The end of the run of tag fillers that starts at `at`.
pub open spec fn filler_end(s: Seq<char>, at: int) -> int
    decreases s.len() - at,
{
    if 0 <= at < s.len() && is_tag_filler(s[at]) {
        filler_end(s, at + 1)
    } else {
        at
    }
}

/// A tag that calls a partial may start at `at`: two opening braces, tag
/// fillers, and `>`.
pub open spec fn partial_at(s: Seq<char>, at: int) -> bool {
    has_prefix_at(s, at, "{{"@) && filler_end(s, at + 2) < s.len() && s[filler_end(s, at + 2)]
        == '>'
}

/// The first position at or after `at` where a call of a partial may start,
/// or `-1`.
pub open spec fn first_partial(s: Seq<char>, at: int) -> int
    decreases s.len() + 1 - at,
{
    if at < 0 || at > s.len() {
        -1
    } else if partial_at(s, at) {
        at
    } else {
        first_partial(s, at + 1)
    }
}

/// Whether the template may call a partial. Partials are not supported: one
/// that includes itself would never be rendered to its end.
pub open spec fn calls_partial(template: Seq<char>) -> bool {
    first_partial(template, 0) >= 0
}

/// What Handlebars, with the two helpers of this module under the names
/// `set_name` and `encode_name`, renders from `template` against `context`:
/// the text, or the message of its error. In strict mode a key that the
/// context lacks is an error.
pub uninterp spec fn rendered(
    template: Seq<char>,
    context: Node,
    set_name: Seq<char>,
    encode_name: Seq<char>,
    strict: bool,
) -> Result<Seq<char>, Seq<char>>;

/// `url::form_urlencoded::Serializer::append_pair` on an empty string, then
/// `finish`: the encoded name, `=`, and the encoded value.
#[verifier::external_body]
fn form_pair(name: &str, value: &str) -> (pair: String)
    ensures
        pair@ == form_encoded(encode_utf8(name@)) + seq!['='] + form_encoded(encode_utf8(value@)),
{
    url::form_urlencoded::Serializer::new(String::new()).append_pair(name, value).finish()
}

/// Turns a value of this library into a `serde_yaml::Value`, variant by
/// variant; a number is read back with `str::parse`, and is null where
/// `serde_yaml` takes its text for no number.
#[verifier::external_body]
fn yaml_of_data(d: &Data) -> (y: serde_yaml::Value) {
    match d {
        Data::Null => YamlData::Null,
        Data::Bool(b) => YamlData::Bool(*b),
        Data::Number(n) => n.parse().map_or(YamlData::Null, YamlData::Number),
        Data::String(s) => YamlData::String(s.clone()),
        Data::Sequence(s) => YamlData::Sequence(s.iter().map(yaml_of_data).collect()),
        Data::Mapping(m) => YamlData::Mapping(
            m.iter().map(|(k, v)| (yaml_of_data(k), yaml_of_data(v))).collect(),
        ),
    }
}

/// `Decorator::hash`: the names and values that a decorator is called with,
/// in the order of the names.
#[verifier::external_body]
fn bindings_of(d: &Decorator) -> (bindings: Vec<(String, Data)>) {
    d.hash().iter().map(|(k, v)| (k.to_string(), crate::context::value_of_json(v.value()))).collect()
}

/// `Helper::param` for the first parameter, where there is one and it is a
/// string.
#[verifier::external_body]
fn first_param(h: &Helper) -> (param: Option<String>) {
    h.param(0).and_then(|v| v.value().as_str()).map(|s| s.to_string())
}

/// `Handlebars::render_template` on a registry that holds `set_decorator`
/// as a decorator under `set_name` and `encode` as a helper under
/// `encode_name`, with `Handlebars::set_strict_mode` as `strict` says. The
/// outcome depends on the arguments alone; an error is handed back as its
/// `to_string`. A template that calls a partial is left out: Handlebars
/// follows a partial that includes itself without end.
#[verifier::external_body]
fn render_with(
    template: &str,
    context: &Data,
    set_name: &str,
    encode_name: &str,
    strict: bool,
) -> (out: Result<String, String>)
    requires
        !calls_partial(template@),
    ensures
        match out {
            Ok(text) => rendered(template@, context@, set_name@, encode_name@, strict) == Ok::<
                Seq<char>,
                Seq<char>,
            >(text@),
            Err(message) => rendered(template@, context@, set_name@, encode_name@, strict)
                == Err::<Seq<char>, Seq<char>>(message@),
        },
{
    let mut hb = Handlebars::new();
    hb.set_strict_mode(strict);
    hb.register_decorator(set_name, Box::new(|d: &Decorator, _: &Handlebars, c: &Context, rc: &mut RenderContext| {
        let scope = set_decorator(&crate::context::value_of_json(c.data()), &bindings_of(d));
        rc.set_context(Context::wraps(yaml_of_data(&scope.map_err(RenderError::new)?))?);
        Ok(())
    }));
    hb.register_helper(encode_name, Box::new(|h: &Helper, _: &Handlebars, _: &Context, _: &mut RenderContext, out: &mut dyn Output| {
        Ok(out.write(&encode(first_param(h)))?)
    }));
    hb.render_template(template, &yaml_of_data(context)).map_err(|e| e.to_string())
}

/// The context for the block that a `set` decorator stands in: `base` with
/// the bindings put into it. A context that is no mapping cannot be
/// extended.
pub fn set_decorator(base: &Data, bindings: &Vec<(String, Data)>) -> (scope: Result<Data, String>)
    ensures
        match scope {
            Ok(data) => base@ is Dict && data@ == extended(
                base@,
                bindings_view(bindings@),
                bindings@.len() as int,
            ),
            Err(message) => !(base@ is Dict) && message@ == "Cannot extend non-object data"@,
        },
{
    if !base.is_mapping() {
        return Err("Cannot extend non-object data".to_owned());
    }
    let mut data = base.clone();
    let mut i: usize = 0;
    while i < bindings.len()
        invariant
            i <= bindings.len(),
            data@ == extended(base@, bindings_view(bindings@), i as int),
        decreases bindings.len() - i,
    {
        data.insert(bindings[i].0.as_str(), bindings[i].1.clone());
        i += 1;
    }
    Ok(data)
}

/// The bytes of the text that `encode` is called with: none where it is
/// called with no string.
pub open spec fn param_bytes(param: Option<String>) -> Seq<u8> {
    match param {
        Some(p) => encode_utf8(p@),
        None => Seq::empty(),
    }
}

/// The percent-encoding of `param` for a URL: its form encoding. The
/// encoder is driven with the key `x`, which is taken off again.
pub fn encode(param: Option<String>) -> (encoded: String)
    ensures
        encoded@ == form_encoded(param_bytes(param)),
{
    let pair = match &param {
        Some(p) => form_pair("x", p.as_str()),
        None => form_pair("x", ""),
    };
    proof {
        reveal_strlit("x");
        reveal_strlit("");
        let key = "x"@;
        is_ascii_chars_encode_utf8(key);
        let bytes = encode_utf8(key);
        assert(form_encoded(bytes.drop_last()) =~= Seq::<char>::empty());
        assert(encode_utf8(""@) =~= Seq::<u8>::empty()) by {
            is_ascii_chars_encode_utf8(""@);
        }
    }
    let chars = to_chars(pair.as_str());
    let encoded = string_of_range(&chars, 2, chars.len());
    encoded
}

/// What rendering hands back for each outcome of the renderer: the text,
/// or a render error with the message.
pub fn render_outcome(out: Result<String, String>) -> (result: RustamanResult<String>)
    ensures
        match out {
            Ok(text) => result matches Ok(t) && t@ == text@,
            Err(message) => result matches Err(RustamanError::RenderError(m)) && m@ == message@,
        },
{
    match out {
        Ok(text) => Ok(text),
        Err(message) => Err(RustamanError::RenderError(message)),
    }
}

/// The result `result` is the outcome `expected` of the renderer.
pub open spec fn renders(result: RustamanResult<String>, expected: Result<Seq<char>, Seq<char>>) -> bool {
    match expected {
        Ok(text) => result matches Ok(t) && t@ == text,
        Err(message) => result matches Err(RustamanError::RenderError(m)) && m@ == message,
    }
}

/// What a template renders to against a context: the text, or the message
/// of the error. A template that may call a partial is refused; any other
/// is rendered by Handlebars in strict mode, with the helpers under the
/// names `set` and `encode`.
pub open spec fn render_of(template: Seq<char>, context: Node) -> Result<Seq<char>, Seq<char>> {
    if calls_partial(template) {
        Err("Partials are not supported"@)
    } else {
        rendered(template, context, "set"@, "encode"@, true)
    }
}

/// Whether a call of a partial may start at `at`.
fn partial_starts_at(s: &Vec<char>, at: usize) -> (found: bool)
    ensures
        found == partial_at(s@, at as int),
{
    proof {
        reveal_strlit("{{");
    }
    if at >= s.len() || s.len() - at < 2 {
        return false;
    }
    if s[at] != '{' || s[at + 1] != '{' {
        assert(s@.subrange(at as int, at + 2)[0] == s@[at as int]);
        assert(s@.subrange(at as int, at + 2)[1] == s@[at + 1]);
        return false;
    }
    assert(s@.subrange(at as int, at + 2) =~= "{{"@);
    let mut i: usize = at + 2;
    while i < s.len() && (s[i] == ' ' || s[i] == '\t' || s[i] == '\n' || s[i] == '\r' || s[i] == '~'
        || s[i] == '#')
        invariant
            at + 2 <= i <= s.len(),
            filler_end(s@, at + 2) == filler_end(s@, i as int),
        decreases s.len() - i,
    {
        i += 1;
    }
    i < s.len() && s[i] == '>'
}

/// Whether the template may call a partial.
pub fn has_partial_call(template: &str) -> (found: bool)
    ensures
        found == calls_partial(template@),
{
    let s = to_chars(template);
    let mut at: usize = 0;
    while at < s.len()
        invariant
            at <= s.len(),
            s@ == template@,
            first_partial(s@, 0) == first_partial(s@, at as int),
        decreases s.len() - at,
    {
        if partial_starts_at(&s, at) {
            return true;
        }
        at += 1;
    }
    proof {
        reveal_strlit("{{");
        assert(first_partial(s@, at + 1) == -1);
    }
    false
}

/// Renders a template against a context.
pub fn render_context(template: &str, context: &Data) -> (result: RustamanResult<String>)
    ensures
        renders(result, render_of(template@, context@)),
{
    if has_partial_call(template) {
        Err(RustamanError::RenderError("Partials are not supported".to_owned()))
    } else {
        render_outcome(render_with(template, context, "set", "encode", true))
    }
}

/// Renders a template against an environment, which is a YAML text.
pub fn render_template(template: &str, environment: &str) -> (result: RustamanResult<String>)
    ensures
        match yaml_document(environment@) {
            Some(context) => renders(result, render_of(template@, context)),
            None => result matches Err(err) && err is EnvironmentParsingError,
        },
{
    match parse_yaml(environment) {
        Ok(context) => render_context(template, &context),
        Err(err) => Err(RustamanError::EnvironmentParsingError(err)),
    }
}

/// Rendering is a function of the template and the context: two
/// renderings of one template against one context give the same text, or
/// fail with the same message.
pub proof fn lemma_rendering_is_repeatable(
    template: Seq<char>,
    context: Node,
    first: RustamanResult<String>,
    second: RustamanResult<String>,
)
    requires
        renders(first, render_of(template, context)),
        renders(second, render_of(template, context)),
    ensures
        match (first, second) {
            (Ok(a), Ok(b)) => a@ == b@,
            (Err(a), Err(b)) => a@ == b@,
            _ => false,
        },
{
}

} // verus!
