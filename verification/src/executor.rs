//! The run of a chain of requests, one block of the template after the
//! other.
//!
//! The executor decides; its caller does the work on the network. The caller
//! hands `step` an event, and `step` answers with what to do next:
//!
//! ```text
//! Idle -> Rendering -> Connecting -> Sending -> Receiving -> Capturing
//!              ^                                                 |
//!              +------------- the next block --------------------+
//! ```
//!
//! The chain ends in `Done` behind the last block, or in `Failed` at the
//! first error. What earlier blocks captured stays in the context.
use crate::context::{
    json_document, lemma_lookup_inserted, lookup, parse_yaml, yaml_document, Data, Node,
};
use crate::errors::{ErrorView, RustamanError, RustamanResult};
use crate::helpers::directive::{comments_end, parse_directives};
use crate::helpers::http::{
    blocks, error_of, parse_request, parsed, split_template, HttpRequest, ParseFailure,
    RequestView, Scheme,
};
use crate::text::{lines, option_text, texts};
use crate::helpers::render::{render_context, render_of};
use crate::helpers::response::{
    capture_response, captured, declares_json, parse_response, response_of,
};
use vstd::prelude::*;

verus! {

/// Where the executor stands.
#[derive(Debug, Clone, Copy, PartialEq, Eq, Structural)]
pub enum Phase {
    /// Nothing has been done yet.
    Idle,
    /// The current block is about to be rendered and read.
    Rendering,
    /// The caller opens the connection.
    Connecting,
    /// The caller writes the frame.
    Sending,
    /// The caller reads until the server closes the connection.
    Receiving,
    /// The response is about to be captured.
    Capturing,
    /// Every block has been run.
    Done,
    /// A block has failed; the blocks behind it are not run.
    Failed,
}

/// What the caller reports.
#[derive(Debug)]
pub enum Event {
    /// Nothing: the executor had asked for no work.
    Tick,
    /// The connection is open.
    Connected,
    /// The frame is written.
    Sent,
    /// The server has closed the connection; what it sent before.
    Received(String),
    /// The work failed; the message of the network or the system.
    Failed(String),
}

/// An event as texts.
pub enum EventView {
    Tick,
    Connected,
    Sent,
    Received(Seq<char>),
    Failed(Seq<char>),
}

impl View for Event {
    type V = EventView;

    open spec fn view(&self) -> EventView {
        match self {
            Event::Tick => EventView::Tick,
            Event::Connected => EventView::Connected,
            Event::Sent => EventView::Sent,
            Event::Received(text) => EventView::Received(text@),
            Event::Failed(message) => EventView::Failed(message@),
        }
    }
}

/// What the caller is to do before the next step.
#[derive(Debug)]
pub enum Action {
    /// Nothing; report `Tick`.
    Continue,
    /// Open a connection to the host and port, over TLS where `secure`
    /// holds, and check the certificate only where `verify_cert` holds.
    Connect { host: String, port: u16, secure: bool, verify_cert: bool },
    /// Write the frame.
    Send { frame: String },
    /// Read until the server closes the connection.
    Receive,
    /// Nothing more: the chain is done or has failed.
    Stop,
}

/// An action as texts.
pub enum ActionView {
    Continue,
    Connect { host: Seq<char>, port: u16, secure: bool, verify_cert: bool },
    Send { frame: Seq<char> },
    Receive,
    Stop,
}

impl View for Action {
    type V = ActionView;

    open spec fn view(&self) -> ActionView {
        match self {
            Action::Continue => ActionView::Continue,
            Action::Connect { host, port, secure, verify_cert } => ActionView::Connect {
                host: host@,
                port: *port,
                secure: *secure,
                verify_cert: *verify_cert,
            },
            Action::Send { frame } => ActionView::Send { frame: frame@ },
            Action::Receive => ActionView::Receive,
            Action::Stop => ActionView::Stop,
        }
    }
}

/// The state of a chain of requests.
#[derive(Debug)]
pub struct Executor {
    blocks: Vec<String>,
    index: usize,
    context: Data,
    phase: Phase,
    request: Option<HttpRequest>,
    response: Option<String>,
    error: Option<RustamanError>,
}

/// The state of a chain as texts.
pub struct ExecutorView {
    /// The blocks of the template.
    pub blocks: Seq<Seq<char>>,
    /// The number of blocks that have been run.
    pub index: int,
    /// The context, with what the blocks so far have captured.
    pub context: Node,
    pub phase: Phase,
    /// The request of the current block, from `Connecting` to `Capturing`.
    pub request: Option<RequestView>,
    /// The last response.
    pub response: Option<Seq<char>>,
    /// Why the chain has failed.
    pub error: Option<ErrorView>,
}

/// The view of an optional request.
pub open spec fn request_view(request: Option<HttpRequest>) -> Option<RequestView> {
    match request {
        Some(r) => Some(r@),
        None => None,
    }
}

/// The view of an optional error.
pub open spec fn error_view(error: Option<RustamanError>) -> Option<ErrorView> {
    match error {
        Some(e) => Some(e@),
        None => None,
    }
}

impl View for Executor {
    type V = ExecutorView;

    closed spec fn view(&self) -> ExecutorView {
        ExecutorView {
            blocks: texts(self.blocks@),
            index: self.index as int,
            context: self.context@,
            phase: self.phase,
            request: request_view(self.request),
            response: option_text(self.response),
            error: error_view(self.error),
        }
    }
}

/// What holds of every state that the executor reaches.
pub open spec fn well_formed(v: ExecutorView) -> bool {
    &&& 0 <= v.index <= v.blocks.len()
    &&& v.phase == Phase::Idle ==> v.index == 0
    &&& (v.phase == Phase::Rendering || v.phase == Phase::Connecting || v.phase == Phase::Sending
        || v.phase == Phase::Receiving || v.phase == Phase::Capturing) ==> v.index
        < v.blocks.len()
    &&& (v.phase == Phase::Connecting || v.phase == Phase::Sending || v.phase == Phase::Receiving
        || v.phase == Phase::Capturing) ==> v.request is Some
    &&& v.phase == Phase::Capturing ==> v.response is Some
    &&& v.phase == Phase::Failed <==> v.error is Some
}

/// The state before the first step.
pub open spec fn initial(blocks: Seq<Seq<char>>, context: Node) -> ExecutorView {
    ExecutorView {
        blocks,
        index: 0,
        context,
        phase: Phase::Idle,
        request: None,
        response: None,
        error: None,
    }
}

/// The chain fails: the error is kept, the context and the last response
/// stay as they are.
pub open spec fn failed(v: ExecutorView, err: ErrorView) -> (ExecutorView, ActionView) {
    (ExecutorView { phase: Phase::Failed, request: None, error: Some(err), ..v }, ActionView::Stop)
}

/// Where the connection for a request goes.
pub open spec fn connect_to(request: RequestView) -> ActionView {
    ActionView::Connect {
        host: request.host,
        port: request.port,
        secure: request.scheme is HTTPS,
        verify_cert: request.verify_cert,
    }
}

/// Whether a block holds a line that is no comment: a request line.
pub open spec fn has_request_line(block: Seq<char>) -> bool {
    comments_end(lines(block), 0) < lines(block).len()
}

/// The step from `Rendering`: a block without a request line fails; else
/// the block is rendered against the context as it is now, and the outcome
/// is read as a request.
pub open spec fn rendering(v: ExecutorView) -> (ExecutorView, ActionView) {
    if !has_request_line(v.blocks[v.index]) {
        failed(v, error_of(ParseFailure::NoRequest))
    } else {
        match render_of(v.blocks[v.index], v.context) {
            Err(message) => failed(v, ErrorView::RenderError(message)),
            Ok(text) => match parsed(text) {
                Err(failure) => failed(v, error_of(failure)),
                Ok(request) => (
                    ExecutorView { phase: Phase::Connecting, request: Some(request), ..v },
                    connect_to(request),
                ),
            },
        }
    }
}

/// The context behind a block: with its response captured where the block
/// asked for it.
pub open spec fn context_after(v: ExecutorView) -> Node {
    match v.request->0.capture {
        Some(name) => captured(v.context, name, response_of(v.response->0)),
        None => v.context,
    }
}

/// The step from `Capturing`: the response is captured, and the chain goes
/// on to the next block or is done.
pub open spec fn capturing(v: ExecutorView) -> (ExecutorView, ActionView) {
    if v.index + 1 < v.blocks.len() {
        (
            ExecutorView {
                phase: Phase::Rendering,
                index: v.index + 1,
                context: context_after(v),
                request: None,
                ..v
            },
            ActionView::Continue,
        )
    } else {
        (
            ExecutorView {
                phase: Phase::Done,
                index: v.index + 1,
                context: context_after(v),
                request: None,
                ..v
            },
            ActionView::Stop,
        )
    }
}

/// The state and the action that follow from a state and an event. An
/// event that the state does not wait for fails the chain.
pub open spec fn next(v: ExecutorView, event: EventView) -> (ExecutorView, ActionView) {
    match (v.phase, event) {
        (Phase::Done, _) => (v, ActionView::Stop),
        (Phase::Failed, _) => (v, ActionView::Stop),
        (Phase::Idle, EventView::Tick) => if v.blocks.len() == 0 {
            (ExecutorView { phase: Phase::Done, ..v }, ActionView::Stop)
        } else {
            (ExecutorView { phase: Phase::Rendering, ..v }, ActionView::Continue)
        },
        (Phase::Rendering, EventView::Tick) => rendering(v),
        (Phase::Connecting, EventView::Connected) => (
            ExecutorView { phase: Phase::Sending, ..v },
            ActionView::Send { frame: v.request->0.http_frame },
        ),
        (Phase::Sending, EventView::Sent) => (
            ExecutorView { phase: Phase::Receiving, ..v },
            ActionView::Receive,
        ),
        (Phase::Receiving, EventView::Received(text)) => (
            ExecutorView { phase: Phase::Capturing, response: Some(text), ..v },
            ActionView::Continue,
        ),
        (Phase::Capturing, EventView::Tick) => capturing(v),
        (Phase::Connecting, EventView::Failed(message)) => failed(v, ErrorView::IOError(message)),
        (Phase::Sending, EventView::Failed(message)) => failed(v, ErrorView::IOError(message)),
        (Phase::Receiving, EventView::Failed(message)) => failed(v, ErrorView::IOError(message)),
        _ => failed(v, ErrorView::IOError("Unexpected event"@)),
    }
}

impl Executor {
    /// A chain over the given blocks and context, before its first step.
    pub fn with_context(blocks: Vec<String>, context: Data) -> (executor: Executor)
        ensures
            executor@ == initial(texts(blocks@), context@),
            well_formed(executor@),
    {
        Executor {
            blocks,
            index: 0,
            context,
            phase: Phase::Idle,
            request: None,
            response: None,
            error: None,
        }
    }

    /// A chain over the blocks of `template`, with the YAML text
    /// `environment` as its context.
    pub fn new(template: &str, environment: &str) -> (executor: RustamanResult<Executor>)
        ensures
            match yaml_document(environment@) {
                Some(context) => executor matches Ok(e) && e@ == initial(
                    blocks(template@),
                    context,
                ) && well_formed(e@),
                None => executor matches Err(err) && err is EnvironmentParsingError,
            },
    {
        match parse_yaml(environment) {
            Ok(context) => Ok(Executor::with_context(split_template(template), context)),
            Err(err) => Err(RustamanError::EnvironmentParsingError(err)),
        }
    }

    /// Where the executor stands.
    pub fn phase(&self) -> (phase: Phase)
        ensures
            phase == self@.phase,
    {
        self.phase
    }

    /// The number of blocks that have been run.
    pub fn index(&self) -> (index: usize)
        ensures
            index == self@.index,
    {
        self.index
    }

    /// The context, with what the blocks so far have captured.
    pub fn context(&self) -> (context: &Data)
        ensures
            context@ == self@.context,
    {
        &self.context
    }

    /// The request of the current block.
    pub fn request(&self) -> (request: Option<&HttpRequest>)
        ensures
            match request {
                Some(r) => self@.request == Some(r@),
                None => self@.request.is_none(),
            },
    {
        self.request.as_ref()
    }

    /// The last response.
    pub fn last_response(&self) -> (response: Option<&str>)
        ensures
            match response {
                Some(r) => self@.response == Some(r@),
                None => self@.response.is_none(),
            },
    {
        match &self.response {
            Some(text) => Some(text.as_str()),
            None => None,
        }
    }

    /// Why the chain has failed.
    pub fn error(&self) -> (error: Option<&RustamanError>)
        ensures
            match error {
                Some(e) => self@.error == Some(e@),
                None => self@.error.is_none(),
            },
    {
        self.error.as_ref()
    }

    /// Ends the use of the executor and hands out why the chain has failed.
    pub fn into_error(self) -> (error: Option<RustamanError>)
        ensures
            error_view(error) == self@.error,
    {
        self.error
    }

    /// Whether the chain is done or has failed.
    pub fn finished(&self) -> (finished: bool)
        ensures
            finished == (self@.phase == Phase::Done || self@.phase == Phase::Failed),
    {
        match self.phase {
            Phase::Done => true,
            Phase::Failed => true,
            _ => false,
        }
    }

    /// Ends the chain with an error.
    fn fail(&mut self, err: RustamanError) -> (action: Action)
        requires
            well_formed(old(self)@),
        ensures
            (final(self)@, action@) == failed(old(self)@, err@),
            well_formed(final(self)@),
    {
        self.phase = Phase::Failed;
        self.request = None;
        self.error = Some(err);
        Action::Stop
    }

    /// Renders and reads the current block.
    fn render_block(&mut self) -> (action: Action)
        requires
            well_formed(old(self)@),
            old(self)@.phase == Phase::Rendering,
        ensures
            (final(self)@, action@) == rendering(old(self)@),
            well_formed(final(self)@),
    {
        match parse_directives(self.blocks[self.index].as_str()) {
            Ok(_) => {},
            Err(err) => {
                return self.fail(err);
            },
        }
        let rendered = render_context(self.blocks[self.index].as_str(), &self.context);
        let text = match rendered {
            Ok(text) => text,
            Err(err) => {
                return self.fail(err);
            },
        };
        match parse_request(text.as_str()) {
            Ok(request) => {
                let action = Action::Connect {
                    host: request.host.clone(),
                    port: request.port,
                    secure: match request.scheme {
                        Scheme::HTTPS => true,
                        _ => false,
                    },
                    verify_cert: request.verify_cert,
                };
                self.phase = Phase::Connecting;
                self.request = Some(request);
                action
            },
            Err(err) => self.fail(err),
        }
    }

    /// Captures the response of the current block and goes on.
    fn capture_block(&mut self) -> (action: Action)
        requires
            well_formed(old(self)@),
            old(self)@.phase == Phase::Capturing,
        ensures
            (final(self)@, action@) == capturing(old(self)@),
            well_formed(final(self)@),
    {
        assert(self.index < self.blocks.len());
        match &self.request {
            Some(request) => {
                match &request.capture {
                    Some(name) => {
                        match &self.response {
                            Some(text) => {
                                let response = parse_response(text.as_str());
                                capture_response(&mut self.context, name.as_str(), &response);
                            },
                            None => {},
                        }
                    },
                    None => {},
                }
            },
            None => {},
        }
        self.request = None;
        self.index = self.index + 1;
        if self.index < self.blocks.len() {
            self.phase = Phase::Rendering;
            Action::Continue
        } else {
            self.phase = Phase::Done;
            Action::Stop
        }
    }

    /// Takes the event that the caller reports and says what to do next.
    pub fn step(&mut self, event: Event) -> (action: Action)
        requires
            well_formed(old(self)@),
        ensures
            (final(self)@, action@) == next(old(self)@, event@),
            well_formed(final(self)@),
    {
        match self.phase {
            Phase::Done => Action::Stop,
            Phase::Failed => Action::Stop,
            Phase::Idle => match event {
                Event::Tick => {
                    if self.blocks.len() == 0 {
                        self.phase = Phase::Done;
                        Action::Stop
                    } else {
                        self.phase = Phase::Rendering;
                        Action::Continue
                    }
                },
                _ => self.fail(RustamanError::IOError("Unexpected event".to_owned())),
            },
            Phase::Rendering => match event {
                Event::Tick => self.render_block(),
                _ => self.fail(RustamanError::IOError("Unexpected event".to_owned())),
            },
            Phase::Connecting => match event {
                Event::Connected => {
                    let frame = match &self.request {
                        Some(request) => request.http_frame.clone(),
                        None => String::new(),
                    };
                    self.phase = Phase::Sending;
                    Action::Send { frame }
                },
                Event::Failed(message) => self.fail(RustamanError::IOError(message)),
                _ => self.fail(RustamanError::IOError("Unexpected event".to_owned())),
            },
            Phase::Sending => match event {
                Event::Sent => {
                    self.phase = Phase::Receiving;
                    Action::Receive
                },
                Event::Failed(message) => self.fail(RustamanError::IOError(message)),
                _ => self.fail(RustamanError::IOError("Unexpected event".to_owned())),
            },
            Phase::Receiving => match event {
                Event::Received(text) => {
                    self.phase = Phase::Capturing;
                    self.response = Some(text);
                    Action::Continue
                },
                Event::Failed(message) => self.fail(RustamanError::IOError(message)),
                _ => self.fail(RustamanError::IOError("Unexpected event".to_owned())),
            },
            Phase::Capturing => match event {
                Event::Tick => self.capture_block(),
                _ => self.fail(RustamanError::IOError("Unexpected event".to_owned())),
            },
        }
    }
}

/// A block is rendered against what the block before it captured: the
/// step from `Capturing` leaves the context with the response captured,
/// and the step from `Rendering` that follows renders the next block
/// against that context.
pub proof fn lemma_capture_before_render(v: ExecutorView)
    requires
        well_formed(v),
        v.phase == Phase::Capturing,
        v.index + 1 < v.blocks.len(),
    ensures
        ({
            let after = next(v, EventView::Tick).0;
            &&& after.phase == Phase::Rendering
            &&& after.index == v.index + 1
            &&& after.context == context_after(v)
            &&& next(after, EventView::Tick) == rendering(after)
            &&& after.blocks[after.index] == v.blocks[v.index + 1]
        }),
{
}

/// What a block captures is in the context of the blocks behind it: where
/// a block asks for a capture under `name`, the context is a mapping and
/// the response is declared as JSON and is JSON, the context behind the
/// block holds that JSON value under `name`.
pub proof fn lemma_captured_value_is_in_context(v: ExecutorView, name: Seq<char>, value: Node)
    requires
        well_formed(v),
        v.phase == Phase::Capturing,
        v.request->0.capture == Some(name),
        v.context is Dict,
        declares_json(
            response_of(v.response->0).headers,
            response_of(v.response->0).headers.len() as int,
        ),
        json_document(response_of(v.response->0).body) == Some(value),
    ensures
        lookup(next(v, EventView::Tick).0.context, name) == Some(value),
{
    lemma_lookup_inserted(v.context, name, value, name);
}

/// A chain that has failed or is done stays as it is, whatever is
/// reported to it.
pub proof fn lemma_end_is_final(v: ExecutorView, event: EventView)
    requires
        v.phase == Phase::Done || v.phase == Phase::Failed,
    ensures
        next(v, event) == (v, ActionView::Stop),
{
}

/// A failure keeps what the chain had reached: the context and the last
/// response of a chain that fails are those of the step before.
pub proof fn lemma_failure_keeps_context(v: ExecutorView, event: EventView)
    requires
        well_formed(v),
        next(v, event).0.phase == Phase::Failed,
    ensures
        next(v, event).0.context == v.context,
        next(v, event).0.response == v.response,
        next(v, event).0.index == v.index,
{
}

/// The blocks of a chain stay the same, and the number of blocks that have
/// been run never goes back: a step leaves it, or adds one.
pub proof fn lemma_chain_moves_forward(v: ExecutorView, event: EventView)
    requires
        well_formed(v),
    ensures
        next(v, event).0.blocks == v.blocks,
        next(v, event).0.index == v.index || next(v, event).0.index == v.index + 1,
{
}

/// A context that is a mapping stays a mapping, whatever is captured.
pub proof fn lemma_context_stays_mapping(v: ExecutorView, event: EventView)
    requires
        well_formed(v),
        v.context is Dict,
    ensures
        next(v, event).0.context is Dict,
{
}

/// A context that is no mapping stays as it is: what is captured is
/// dropped.
pub proof fn lemma_capture_needs_mapping(v: ExecutorView, event: EventView)
    requires
        well_formed(v),
        !(v.context is Dict),
    ensures
        next(v, event).0.context == v.context,
{
}

} // verus!
