//! The requests and environments of one workspace.
use crate::models::environment::{
    Environment, EnvironmentView, Environments, DEFAULT_ENVIRONMENT,
};
use crate::models::status::Status;
use crate::models::template::Template;
use crate::text::{contains, decimal, decimal_digits, from_chars, includes, push_all, to_chars};
use vstd::prelude::*;

verus! {

/// The template of a request that has not been edited.
pub const DEFAULT_TEMPLATE: &'static str = "# TODO: DOCUMENT ME\n\nGET http://localhost/\n";

/// A named request template.
#[derive(Debug, Clone)]
pub struct Request {
    id: usize,
    name: String,
    template: Template,
    status: Status,
}

/// The requests of a workspace.
pub type Requests = Vec<Request>;

/// A request template as texts.
pub struct RequestEntry {
    pub id: usize,
    pub name: Seq<char>,
    pub template: Seq<char>,
    pub status: Status,
}

impl View for Request {
    type V = RequestEntry;

    closed spec fn view(&self) -> RequestEntry {
        RequestEntry {
            id: self.id,
            name: self.name@,
            template: self.template@,
            status: self.status,
        }
    }
}

/// The text in lower case, as the standard library writes it.
pub uninterp spec fn lowercase(text: Seq<char>) -> Seq<char>;

/// `str::to_lowercase` of the standard library. The outcome depends on the
/// text alone.
#[verifier::external_body]
fn to_lowercase(text: &str) -> (lower: String)
    ensures
        lower@ == lowercase(text@),
{
    text.to_lowercase()
}

/// Whether a name is found by a search: by an empty one, or by one that
/// occurs in the name where the case of the letters is left aside.
pub open spec fn found_by(name: Seq<char>, search: Seq<char>) -> bool {
    search.len() == 0 || contains(lowercase(name), lowercase(search))
}

/// Whether a name holds the text that is searched for; both are taken as
/// they are written, which `search` hands over in lower case.
pub fn name_holds(name: &str, search: &str) -> (found: bool)
    ensures
        found == contains(name@, search@),
{
    let n = to_chars(name);
    let s = to_chars(search);
    includes(&n, &s)
}

impl Request {
    /// Whether the request is found by a search for `search` in its name.
    pub fn search(&self, search: &str) -> (found: bool)
        ensures
            found == found_by(self@.name, search@),
    {
        if search.is_empty() {
            true
        } else {
            let name = to_lowercase(self.name.as_str());
            let wanted = to_lowercase(search);
            name_holds(name.as_str(), wanted.as_str())
        }
    }

    /// A request as it was kept in a file.
    pub fn from_parts(id: usize, name: &str, template: &str, status: Status) -> (request: Request)
        ensures
            request@ == (RequestEntry { id, name: name@, template: template@, status }),
    {
        Request { id, name: name.to_owned(), template: template.to_owned(), status }
    }

    /// Whether the request is in use, being created or deleted.
    pub fn status(&self) -> (status: Status)
        ensures
            status == self@.status,
    {
        self.status
    }

    /// The number that the workspace knows the request by.
    pub fn id(&self) -> (id: usize)
        ensures
            id == self@.id,
    {
        self.id
    }

    /// The name.
    pub fn name(&self) -> (name: &str)
        ensures
            name@ == self@.name,
    {
        self.name.as_str()
    }

    /// Renames the request.
    pub fn set_name(&mut self, name: &str)
        ensures
            final(self)@ == (RequestEntry { name: name@, ..old(self)@ }),
    {
        self.name = name.to_owned();
    }

    /// Whether the request is in use.
    pub fn active(&self) -> (active: bool)
        ensures
            active == (self@.status == Status::Active),
    {
        match self.status {
            Status::Active => true,
            _ => false,
        }
    }

    /// Marks the request as in use.
    pub fn activate(&mut self)
        ensures
            final(self)@ == (RequestEntry { status: Status::Active, ..old(self)@ }),
    {
        self.status = Status::Active;
    }

    /// Marks the request as deleted.
    pub fn soft_delete(&mut self)
        ensures
            final(self)@ == (RequestEntry { status: Status::Deleted, ..old(self)@ }),
    {
        self.status = Status::Deleted;
    }

    /// The template.
    pub fn template(&self) -> (template: &str)
        ensures
            template@ == self@.template,
    {
        self.template.as_str()
    }

    /// Replaces the template.
    pub fn set_template(&mut self, template: &str)
        ensures
            final(self)@ == (RequestEntry { template: template@, ..old(self)@ }),
    {
        self.template = template.to_owned();
    }
}

/// What a workspace holds.
#[derive(Debug, Clone)]
pub struct Payload {
    name: String,
    requests: Requests,
    environments: Environments,
}

/// A workspace and the file it is kept in.
#[derive(Debug, Clone)]
pub struct Workspace {
    filepath: String,
    payload: Payload,
}

/// A workspace as texts.
pub struct WorkspaceView {
    pub filepath: Seq<char>,
    pub name: Seq<char>,
    pub requests: Seq<RequestEntry>,
    pub environments: Seq<EnvironmentView>,
}

/// The requests of a list as texts.
pub open spec fn request_entries(requests: Seq<Request>) -> Seq<RequestEntry> {
    Seq::new(requests.len(), |i: int| requests[i]@)
}

/// The environments of a list as texts.
pub open spec fn environment_entries(environments: Seq<Environment>) -> Seq<EnvironmentView> {
    Seq::new(environments.len(), |i: int| environments[i]@)
}

impl View for Workspace {
    type V = WorkspaceView;

    closed spec fn view(&self) -> WorkspaceView {
        WorkspaceView {
            filepath: self.filepath@,
            name: self.payload.name@,
            requests: request_entries(self.payload.requests@),
            environments: environment_entries(self.payload.environments@),
        }
    }
}

/// The position of the first request at or after `at` with the number `id`,
/// or `-1`.
pub open spec fn request_position(requests: Seq<RequestEntry>, id: usize, at: int) -> int
    decreases requests.len() - at,
{
    if at < 0 || at >= requests.len() {
        -1
    } else if requests[at].id == id {
        at
    } else {
        request_position(requests, id, at + 1)
    }
}

/// The position of the first environment at or after `at` with the number
/// `id`, or `-1`.
pub open spec fn environment_position(environments: Seq<EnvironmentView>, id: usize, at: int) -> int
    decreases environments.len() - at,
{
    if at < 0 || at >= environments.len() {
        -1
    } else if environments[at].id == id {
        at
    } else {
        environment_position(environments, id, at + 1)
    }
}

/// The number that the next request gets: one more than that of the last
/// request, or 1.
pub open spec fn next_request_id(requests: Seq<RequestEntry>) -> int {
    if requests.len() == 0 {
        1
    } else {
        requests.last().id + 1
    }
}

/// The number that the next environment gets: one more than that of the
/// last environment, or 1.
pub open spec fn next_environment_id(environments: Seq<EnvironmentView>) -> int {
    if environments.len() == 0 {
        1
    } else {
        environments.last().id + 1
    }
}

/// The request that `create_request` adds.
pub open spec fn fresh_request(id: usize) -> RequestEntry {
    RequestEntry {
        id,
        name: "Req #"@ + decimal(id as nat),
        template: DEFAULT_TEMPLATE@,
        status: Status::BeingCreated,
    }
}

/// The requests once the first one with the number `id` is changed by
/// `change`.
pub open spec fn with_request(
    requests: Seq<RequestEntry>,
    id: usize,
    change: spec_fn(RequestEntry) -> RequestEntry,
) -> Seq<RequestEntry> {
    let at = request_position(requests, id, 0);
    if at < 0 {
        requests
    } else {
        requests.update(at, change(requests[at]))
    }
}

/// The environments once the first one with the number `id` is changed by
/// `change`.
pub open spec fn with_environment(
    environments: Seq<EnvironmentView>,
    id: usize,
    change: spec_fn(EnvironmentView) -> EnvironmentView,
) -> Seq<EnvironmentView> {
    let at = environment_position(environments, id, 0);
    if at < 0 {
        environments
    } else {
        environments.update(at, change(environments[at]))
    }
}

impl Workspace {
    /// A workspace named "Rustaman" with no request and one environment,
    /// "Dev".
    pub fn new(filepath: &str) -> (workspace: Workspace)
        ensures
            workspace@ == (WorkspaceView {
                filepath: filepath@,
                name: "Rustaman"@,
                requests: Seq::empty(),
                environments: seq![
                    EnvironmentView {
                        id: 1,
                        name: "Dev"@,
                        payload: DEFAULT_ENVIRONMENT@,
                        status: Status::Active,
                    },
                ],
            }),
    {
        let mut environments: Vec<Environment> = Vec::new();
        environments.push(Environment::new(1, "Dev", DEFAULT_ENVIRONMENT));
        let workspace = Workspace {
            filepath: filepath.to_owned(),
            payload: Payload { name: "Rustaman".to_owned(), requests: Vec::new(), environments },
        };
        assert(workspace@.requests =~= Seq::empty());
        assert(workspace@.environments =~= seq![
            EnvironmentView {
                id: 1,
                name: "Dev"@,
                payload: DEFAULT_ENVIRONMENT@,
                status: Status::Active,
            },
        ]);
        workspace
    }

    /// A workspace as it was kept in the file `filepath`.
    pub fn from_parts(
        filepath: &str,
        name: &str,
        requests: Vec<Request>,
        environments: Vec<Environment>,
    ) -> (workspace: Workspace)
        ensures
            workspace@ == (WorkspaceView {
                filepath: filepath@,
                name: name@,
                requests: request_entries(requests@),
                environments: environment_entries(environments@),
            }),
    {
        Workspace {
            filepath: filepath.to_owned(),
            payload: Payload { name: name.to_owned(), requests, environments },
        }
    }

    /// Whether a request can be added: the number of the last request is
    /// not the largest there is.
    pub fn can_create_request(&self) -> (can: bool)
        ensures
            can == (next_request_id(self@.requests) <= usize::MAX),
    {
        let count = self.payload.requests.len();
        if count == 0 {
            true
        } else {
            self.payload.requests[count - 1].id() < usize::MAX
        }
    }

    /// Whether an environment can be added: the number of the last
    /// environment is not the largest there is.
    pub fn can_create_environment(&self) -> (can: bool)
        ensures
            can == (next_environment_id(self@.environments) <= usize::MAX),
    {
        let count = self.payload.environments.len();
        if count == 0 {
            true
        } else {
            self.payload.environments[count - 1].id() < usize::MAX
        }
    }

    /// The file that the workspace is kept in.
    pub fn filepath(&self) -> (filepath: &str)
        ensures
            filepath@ == self@.filepath,
    {
        self.filepath.as_str()
    }

    /// The name.
    pub fn name(&self) -> (name: &str)
        ensures
            name@ == self@.name,
    {
        self.payload.name.as_str()
    }

    /// The requests, deleted ones included.
    pub fn requests(&self) -> (requests: &[Request])
        ensures
            request_entries(requests@) == self@.requests,
    {
        self.payload.requests.as_slice()
    }

    /// The first request with the number `id`.
    pub fn request(&self, id: usize) -> (found: Option<&Request>)
        ensures
            match found {
                Some(request) => {
                    let at = request_position(self@.requests, id, 0);
                    0 <= at < self@.requests.len() && request@ == self@.requests[at]
                },
                None => request_position(self@.requests, id, 0) == -1,
            },
    {
        let mut i: usize = 0;
        while i < self.payload.requests.len()
            invariant
                i <= self.payload.requests.len(),
                request_position(self@.requests, id, 0) == request_position(
                    self@.requests,
                    id,
                    i as int,
                ),
            decreases self.payload.requests.len() - i,
        {
            if self.payload.requests[i].id() == id {
                return Some(&self.payload.requests[i]);
            }
            i += 1;
        }
        None
    }

    /// Adds a request that is being created, named after its number, and
    /// returns it.
    pub fn create_request(&mut self) -> (request: &Request)
        requires
            next_request_id(old(self)@.requests) <= usize::MAX,
        ensures
            final(self)@ == (WorkspaceView {
                requests: old(self)@.requests.push(request@),
                ..old(self)@
            }),
            request@ == fresh_request(next_request_id(old(self)@.requests) as usize),
    {
        let count = self.payload.requests.len();
        let id: usize = if count == 0 {
            1
        } else {
            self.payload.requests[count - 1].id() + 1
        };
        let mut name = to_chars("Req #");
        let digits = decimal_digits(id as u64);
        push_all(&mut name, &digits);
        let request = Request {
            id,
            name: from_chars(&name),
            status: Status::BeingCreated,
            template: DEFAULT_TEMPLATE.to_owned(),
        };
        self.payload.requests.push(request);
        assert(self@.requests =~= old(self)@.requests.push(request@));
        &self.payload.requests[count]
    }

    /// Names the first request with the number `id` and marks it as in use.
    pub fn set_request_name(&mut self, id: usize, name: &str)
        ensures
            final(self)@ == (WorkspaceView {
                requests: with_request(
                    old(self)@.requests,
                    id,
                    |r: RequestEntry| RequestEntry { name: name@, status: Status::Active, ..r },
                ),
                ..old(self)@
            }),
    {
        let mut i: usize = 0;
        while i < self.payload.requests.len()
            invariant
                i <= self.payload.requests.len(),
                *self == *old(self),
                request_position(self@.requests, id, 0) == request_position(
                    self@.requests,
                    id,
                    i as int,
                ),
            decreases self.payload.requests.len() - i,
        {
            if self.payload.requests[i].id() == id {
                self.payload.requests[i].activate();
                self.payload.requests[i].set_name(name);
                assert(self@.requests =~= with_request(
                    old(self)@.requests,
                    id,
                    |r: RequestEntry| RequestEntry { name: name@, status: Status::Active, ..r },
                ));
                return ;
            }
            i += 1;
        }
    }

    /// Marks the first request with the number `id` as deleted.
    pub fn delete_request(&mut self, id: usize)
        ensures
            final(self)@ == (WorkspaceView {
                requests: with_request(
                    old(self)@.requests,
                    id,
                    |r: RequestEntry| RequestEntry { status: Status::Deleted, ..r },
                ),
                ..old(self)@
            }),
    {
        let mut i: usize = 0;
        while i < self.payload.requests.len()
            invariant
                i <= self.payload.requests.len(),
                *self == *old(self),
                request_position(self@.requests, id, 0) == request_position(
                    self@.requests,
                    id,
                    i as int,
                ),
            decreases self.payload.requests.len() - i,
        {
            if self.payload.requests[i].id() == id {
                self.payload.requests[i].soft_delete();
                assert(self@.requests =~= with_request(
                    old(self)@.requests,
                    id,
                    |r: RequestEntry| RequestEntry { status: Status::Deleted, ..r },
                ));
                return ;
            }
            i += 1;
        }
    }

    /// Gives the first request with the number `id` a new template and marks
    /// it as in use.
    pub fn set_request_template(&mut self, id: usize, template: &str)
        ensures
            final(self)@ == (WorkspaceView {
                requests: with_request(
                    old(self)@.requests,
                    id,
                    |r: RequestEntry|
                        RequestEntry { template: template@, status: Status::Active, ..r },
                ),
                ..old(self)@
            }),
    {
        let mut i: usize = 0;
        while i < self.payload.requests.len()
            invariant
                i <= self.payload.requests.len(),
                *self == *old(self),
                request_position(self@.requests, id, 0) == request_position(
                    self@.requests,
                    id,
                    i as int,
                ),
            decreases self.payload.requests.len() - i,
        {
            if self.payload.requests[i].id() == id {
                self.payload.requests[i].activate();
                self.payload.requests[i].set_template(template);
                assert(self@.requests =~= with_request(
                    old(self)@.requests,
                    id,
                    |r: RequestEntry|
                        RequestEntry { template: template@, status: Status::Active, ..r },
                ));
                return ;
            }
            i += 1;
        }
    }

    /// The environments, deleted ones included.
    pub fn environments(&self) -> (environments: &[Environment])
        ensures
            environment_entries(environments@) == self@.environments,
    {
        self.payload.environments.as_slice()
    }

    /// The first environment with the number `id`.
    pub fn environment(&self, id: usize) -> (found: Option<&Environment>)
        ensures
            match found {
                Some(environment) => {
                    let at = environment_position(self@.environments, id, 0);
                    0 <= at < self@.environments.len() && environment@ == self@.environments[at]
                },
                None => environment_position(self@.environments, id, 0) == -1,
            },
    {
        let mut i: usize = 0;
        while i < self.payload.environments.len()
            invariant
                i <= self.payload.environments.len(),
                environment_position(self@.environments, id, 0) == environment_position(
                    self@.environments,
                    id,
                    i as int,
                ),
            decreases self.payload.environments.len() - i,
        {
            if self.payload.environments[i].id() == id {
                return Some(&self.payload.environments[i]);
            }
            i += 1;
        }
        None
    }

    /// Adds an active environment with the default payload and returns it.
    pub fn create_environment(&mut self, name: &str) -> (environment: &Environment)
        requires
            next_environment_id(old(self)@.environments) <= usize::MAX,
        ensures
            final(self)@ == (WorkspaceView {
                environments: old(self)@.environments.push(environment@),
                ..old(self)@
            }),
            environment@ == (EnvironmentView {
                id: next_environment_id(old(self)@.environments) as usize,
                name: name@,
                payload: DEFAULT_ENVIRONMENT@,
                status: Status::Active,
            }),
    {
        let count = self.payload.environments.len();
        let id: usize = if count == 0 {
            1
        } else {
            self.payload.environments[count - 1].id() + 1
        };
        let environment = Environment::new(id, name, DEFAULT_ENVIRONMENT);
        self.payload.environments.push(environment);
        assert(self@.environments =~= old(self)@.environments.push(environment@));
        &self.payload.environments[count]
    }

    /// Gives the first environment with the number `id` a new payload.
    pub fn set_environ_payload(&mut self, id: usize, payload: &str)
        ensures
            final(self)@ == (WorkspaceView {
                environments: with_environment(
                    old(self)@.environments,
                    id,
                    |e: EnvironmentView| EnvironmentView { payload: payload@, ..e },
                ),
                ..old(self)@
            }),
    {
        let mut i: usize = 0;
        while i < self.payload.environments.len()
            invariant
                i <= self.payload.environments.len(),
                *self == *old(self),
                environment_position(self@.environments, id, 0) == environment_position(
                    self@.environments,
                    id,
                    i as int,
                ),
            decreases self.payload.environments.len() - i,
        {
            if self.payload.environments[i].id() == id {
                self.payload.environments[i].set_payload(payload);
                assert(self@.environments =~= with_environment(
                    old(self)@.environments,
                    id,
                    |e: EnvironmentView| EnvironmentView { payload: payload@, ..e },
                ));
                return ;
            }
            i += 1;
        }
    }

    /// Marks the first environment with the number `id` as deleted.
    pub fn delete_environment(&mut self, id: usize)
        ensures
            final(self)@ == (WorkspaceView {
                environments: with_environment(
                    old(self)@.environments,
                    id,
                    |e: EnvironmentView| EnvironmentView { status: Status::Deleted, ..e },
                ),
                ..old(self)@
            }),
    {
        let mut i: usize = 0;
        while i < self.payload.environments.len()
            invariant
                i <= self.payload.environments.len(),
                *self == *old(self),
                environment_position(self@.environments, id, 0) == environment_position(
                    self@.environments,
                    id,
                    i as int,
                ),
            decreases self.payload.environments.len() - i,
        {
            if self.payload.environments[i].id() == id {
                self.payload.environments[i].soft_delete();
                assert(self@.environments =~= with_environment(
                    old(self)@.environments,
                    id,
                    |e: EnvironmentView| EnvironmentView { status: Status::Deleted, ..e },
                ));
                return ;
            }
            i += 1;
        }
    }
}

} // verus!
