//! The errors of the request pipeline.
use crate::text::has_prefix_at;
use vstd::prelude::*;

verus! {

#[verifier::external_type_specification]
#[verifier::external_body]
pub struct ExUrlParseError(url::ParseError);

#[verifier::external_type_specification]
#[verifier::external_body]
pub struct ExYamlError(serde_yaml::Error);

/// What can stop the run of a chain of requests.
#[derive(Debug)]
pub enum RustamanError {
    /// The template could not be rendered against the context.
    RenderError(String),
    /// The rendered text is no request.
    RequestParsingError(String),
    /// The environment is no well-formed YAML document.
    EnvironmentParsingError(serde_yaml::Error),
    /// The target of the request is no URL.
    UrlParseError(url::ParseError),
    /// Connecting, sending or receiving failed.
    IOError(String),
}

/// An error as texts; the error of another crate is left out.
pub enum ErrorView {
    RenderError(Seq<char>),
    RequestParsingError(Seq<char>),
    EnvironmentParsingError,
    UrlParseError,
    IOError(Seq<char>),
}

impl View for RustamanError {
    type V = ErrorView;

    open spec fn view(&self) -> ErrorView {
        match self {
            RustamanError::RenderError(m) => ErrorView::RenderError(m@),
            RustamanError::RequestParsingError(m) => ErrorView::RequestParsingError(m@),
            RustamanError::EnvironmentParsingError(_) => ErrorView::EnvironmentParsingError,
            RustamanError::UrlParseError(_) => ErrorView::UrlParseError,
            RustamanError::IOError(m) => ErrorView::IOError(m@),
        }
    }
}

/// The result of a step that can fail.
pub type RustamanResult<T> = Result<T, RustamanError>;

/// `to_string` on a `url::ParseError` gives its description; nothing is
/// claimed of the text.
#[verifier::external_body]
fn url_error_text(err: &url::ParseError) -> (text: String) {
    err.to_string()
}

/// `to_string` on a `serde_yaml::Error` gives its description; nothing is
/// claimed of the text.
#[verifier::external_body]
fn yaml_error_text(err: &serde_yaml::Error) -> (text: String) {
    err.to_string()
}

impl RustamanError {
    /// The text shown to the user for this error.
    pub fn message(&self) -> (text: String)
        ensures
            match self@ {
                ErrorView::RenderError(m) => text@ == m,
                ErrorView::RequestParsingError(m) => text@ == m,
                ErrorView::IOError(m) => text@ == m,
                ErrorView::EnvironmentParsingError => has_prefix_at(
                    text@,
                    0,
                    "Environment Yaml Parsing Error: "@,
                ),
                ErrorView::UrlParseError => has_prefix_at(text@, 0, "Url Parse Error: "@),
            },
    {
        match self {
            RustamanError::EnvironmentParsingError(err) => {
                let head = "Environment Yaml Parsing Error: ".to_owned();
                let tail = yaml_error_text(err);
                let text = head.concat(tail.as_str());
                assert(text@.subrange(0, head@.len() as int) =~= head@);
                text
            },
            RustamanError::UrlParseError(err) => {
                let head = "Url Parse Error: ".to_owned();
                let tail = url_error_text(err);
                let text = head.concat(tail.as_str());
                assert(text@.subrange(0, head@.len() as int) =~= head@);
                text
            },
            RustamanError::RequestParsingError(m) => m.clone(),
            RustamanError::IOError(m) => m.clone(),
            RustamanError::RenderError(m) => m.clone(),
        }
    }
}

} // verus!
