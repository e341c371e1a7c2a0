//! An environment: the YAML text that templates are rendered against.
use crate::context::{obfuscated_values, parse_yaml, secrets_of, yaml_document, Data};
use crate::errors::{RustamanError, RustamanResult};
use crate::models::status::Status;
use crate::text::texts;
use vstd::prelude::*;

verus! {

/// The payload of an environment that has not been edited.
pub const DEFAULT_ENVIRONMENT: &'static str = "%YAML 1.2\n---\n";

/// A named YAML document.
#[derive(Debug, Clone)]
pub struct Environment {
    id: usize,
    name: String,
    payload: String,
    status: Status,
}

/// An environment as texts.
pub struct EnvironmentView {
    pub id: usize,
    pub name: Seq<char>,
    pub payload: Seq<char>,
    pub status: Status,
}

impl View for Environment {
    type V = EnvironmentView;

    closed spec fn view(&self) -> EnvironmentView {
        EnvironmentView {
            id: self.id,
            name: self.name@,
            payload: self.payload@,
            status: self.status,
        }
    }
}

impl Default for Environment {
    fn default() -> (env: Environment)
        ensures
            env@ == (EnvironmentView {
                id: 0,
                name: Seq::empty(),
                payload: DEFAULT_ENVIRONMENT@,
                status: Status::Active,
            }),
    {
        Environment {
            id: 0,
            name: String::new(),
            payload: DEFAULT_ENVIRONMENT.to_owned(),
            status: Status::Active,
        }
    }
}

impl Environment {
    /// An active environment.
    pub fn new(id: usize, name: &str, payload: &str) -> (env: Environment)
        ensures
            env@ == (EnvironmentView {
                id,
                name: name@,
                payload: payload@,
                status: Status::Active,
            }),
    {
        Environment {
            id,
            name: name.to_owned(),
            payload: payload.to_owned(),
            status: Status::Active,
        }
    }

    /// An environment as it was kept in a file.
    pub fn from_parts(id: usize, name: &str, payload: &str, status: Status) -> (env: Environment)
        ensures
            env@ == (EnvironmentView { id, name: name@, payload: payload@, status }),
    {
        Environment { id, name: name.to_owned(), payload: payload.to_owned(), status }
    }

    /// Whether the environment is in use, being created or deleted.
    pub fn status(&self) -> (status: Status)
        ensures
            status == self@.status,
    {
        self.status
    }

    /// The number that the workspace knows the environment by.
    pub fn id(&self) -> (id: usize)
        ensures
            id == self@.id,
    {
        self.id
    }

    /// The name.
    pub fn name(&self) -> (name: &str)
        ensures
            name@ == self@.name,
    {
        self.name.as_str()
    }

    /// The YAML text.
    pub fn payload(&self) -> (payload: &str)
        ensures
            payload@ == self@.payload,
    {
        self.payload.as_str()
    }

    /// Replaces the YAML text.
    pub fn set_payload(&mut self, payload: &str)
        ensures
            final(self)@ == (EnvironmentView { payload: payload@, ..old(self)@ }),
    {
        self.payload = payload.to_owned()
    }

    /// Whether the environment is in use.
    pub fn active(&self) -> (active: bool)
        ensures
            active == (self@.status == Status::Active),
    {
        match self.status {
            Status::Active => true,
            _ => false,
        }
    }

    /// Marks the environment as deleted.
    pub fn soft_delete(&mut self)
        ensures
            final(self)@ == (EnvironmentView { status: Status::Deleted, ..old(self)@ }),
    {
        self.status = Status::Deleted;
    }

    /// The YAML text read as a document.
    pub fn parsed_payload(&self) -> (parsed: RustamanResult<Data>)
        ensures
            match parsed {
                Ok(root) => yaml_document(self@.payload) == Some(root@),
                Err(err) => yaml_document(self@.payload).is_none()
                    && err is EnvironmentParsingError,
            },
    {
        match parse_yaml(self.payload.as_str()) {
            Ok(root) => Ok(root),
            Err(err) => Err(RustamanError::EnvironmentParsingError(err)),
        }
    }

    /// The secret values of the environment: none where its text is no
    /// YAML document.
    pub fn obfuscated_string(&self) -> (secrets: Vec<String>)
        ensures
            texts(secrets@) == environment_secrets(self@.payload),
    {
        match parse_yaml(self.payload.as_str()) {
            Ok(root) => obfuscated_values(&root),
            Err(_) => {
                let secrets: Vec<String> = Vec::new();
                secrets
            },
        }
    }
}

/// The environments of a workspace.
pub type Environments = Vec<Environment>;

/// The secret values that the YAML text `payload` declares.
pub open spec fn environment_secrets(payload: Seq<char>) -> Seq<Seq<char>> {
    match yaml_document(payload) {
        Some(root) => secrets_of(root),
        None => Seq::empty(),
    }
}

} // verus!
