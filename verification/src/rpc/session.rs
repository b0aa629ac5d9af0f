//! The state of one connection, and the routing of its calls.

use crate::err::Error;
use crate::err::ErrorKind;
use crate::err::INTERNAL_ERROR;
use crate::err::INVALID_PARAMS;
use crate::err::METHOD_NOT_FOUND;
use crate::opt::auth::credentials_of;
use crate::opt::auth::Credentials;
use crate::opt::auth::CredentialsView;
use crate::opt::patch::patch_of;
use crate::opt::patch::Patch;
use crate::opt::patch::PatchView;
use crate::opt::resource::patches_view;
use crate::opt::resource::Clause;
use crate::opt::resource::ClauseView;
use crate::opt::yuse::Use;
use crate::rpc::method::Method;
use crate::statement::aimed;
use crate::statement::answer_of;
use crate::statement::conclude;
use crate::statement::conclude_query;
use crate::statement::create_of;
use crate::statement::query_answer;
use crate::statement::slot_view;
use crate::statement::slots_view;
use crate::statement::target;
use crate::statement::target_of;
use crate::statement::update_of;
use crate::statement::Statement;
use crate::statement::StatementView;
use crate::value::clone_fields;
use crate::value::fields_view;
use crate::value::items_view;
use crate::value::keys_ascend;
use crate::value::lemma_array_view;
use crate::value::lemma_object_view;
use crate::value::lemma_put;
use crate::value::lemma_put_twice;
use crate::value::lemma_without;
use crate::value::lookup;
use crate::value::object_overlay;
use crate::value::object_put;
use crate::value::object_remove;
use crate::value::overlaid;
use crate::value::put;
use crate::value::without;
use crate::value::Fields;
use crate::value::Structured;
use crate::value::StructuredView;
use vstd::prelude::*;
use vstd::string::StringExecFns;

verus! {

/// How far a session is authenticated.
#[derive(Clone, Copy, Debug, PartialEq, Eq, Structural)]
pub enum Level {
    Anonymous,
    Scope,
    Database,
    Namespace,
    Root,
    Token,
}

/// The state of one connection: the namespace and the database selected,
/// the authentication level, and the variables bound by the caller, each
/// name once and in ascending order.
#[derive(Debug, PartialEq, Eq)]
pub struct Session {
    pub ns: Option<String>,
    pub db: Option<String>,
    pub level: Level,
    pub vars: Vec<(String, Structured)>,
}

/// Mathematical form of a [`Session`].
pub struct SessionView {
    pub ns: Option<Seq<char>>,
    pub db: Option<Seq<char>>,
    pub level: Level,
    pub vars: Fields,
}

/// Mathematical form of an optional string.
pub open spec fn text_view(s: Option<String>) -> Option<Seq<char>> {
    match s {
        Some(s) => Some(s@),
        None => None,
    }
}

impl View for Session {
    type V = SessionView;

    open spec fn view(&self) -> SessionView {
        SessionView {
            ns: text_view(self.ns),
            db: text_view(self.db),
            level: self.level,
            vars: fields_view(self.vars@),
        }
    }
}

impl SessionView {
    /// A session that has selected nothing, is not authenticated and has
    /// no variables.
    pub open spec fn fresh() -> SessionView {
        SessionView { ns: None, db: None, level: Level::Anonymous, vars: Seq::empty() }
    }

    /// The names of the variables ascend.
    pub open spec fn wf(self) -> bool {
        keys_ascend(self.vars)
    }
}

/// What the engine is asked to do for one call.
#[derive(Debug, PartialEq, Eq)]
pub enum Call {
    /// Run a statement aimed at a resource.
    Run(Statement),
    /// Run the statements of a query.
    Query(Statement),
    /// Sign in with credentials.
    Signin(Credentials),
    /// Sign up with credentials of a scope.
    Signup(Credentials),
    /// Authenticate with a token.
    Authenticate(String),
    /// Watch a resource.
    Live(Structured),
    /// Tell the engine's version.
    Version,
    /// Tell whether the engine is alive.
    Health,
}

/// Mathematical form of a [`Call`].
pub enum CallView {
    Run(StatementView),
    Query(StatementView),
    Signin(CredentialsView),
    Signup(CredentialsView),
    Authenticate(Seq<char>),
    Live(StructuredView),
    Version,
    Health,
}

impl View for Call {
    type V = CallView;

    open spec fn view(&self) -> CallView {
        match self {
            Call::Run(s) => CallView::Run(s@),
            Call::Query(s) => CallView::Query(s@),
            Call::Signin(c) => CallView::Signin(c@),
            Call::Signup(c) => CallView::Signup(c@),
            Call::Authenticate(t) => CallView::Authenticate(t@),
            Call::Live(w) => CallView::Live(w@),
            Call::Version => CallView::Version,
            Call::Health => CallView::Health,
        }
    }
}

/// What becomes of a call once it is routed: an answer, or a request to
/// the engine.
#[derive(Debug, PartialEq, Eq)]
pub enum Step {
    Done(Structured),
    Ask(Call),
}

/// Mathematical form of a [`Step`].
pub enum StepView {
    Done(StructuredView),
    Ask(CallView),
}

impl View for Step {
    type V = StepView;

    open spec fn view(&self) -> StepView {
        match self {
            Step::Done(v) => StepView::Done(v@),
            Step::Ask(c) => StepView::Ask(c@),
        }
    }
}

/// What the engine gave back.
#[derive(Debug, PartialEq, Eq)]
pub enum Outcome {
    /// One slot per statement that ran, in order.
    Slots(Vec<Result<Structured, String>>),
    /// The token of the session, if the engine issued one.
    Token(Option<String>),
    /// The identifier of a subscription.
    Handle([u8; 16]),
    /// The engine's version.
    Version(String),
    /// The engine is alive.
    Alive,
    /// The engine failed, with its message.
    Failed(String),
}

/// Mathematical form of an [`Outcome`].
pub enum OutcomeView {
    Slots(Seq<Result<StructuredView, Seq<char>>>),
    Token(Option<Seq<char>>),
    Handle(Seq<u8>),
    Version(Seq<char>),
    Alive,
    Failed(Seq<char>),
}

impl View for Outcome {
    type V = OutcomeView;

    open spec fn view(&self) -> OutcomeView {
        match self {
            Outcome::Slots(slots) => OutcomeView::Slots(slots_view(slots@)),
            Outcome::Token(t) => OutcomeView::Token(text_view(*t)),
            Outcome::Handle(id) => OutcomeView::Handle(id@),
            Outcome::Version(v) => OutcomeView::Version(v@),
            Outcome::Alive => OutcomeView::Alive,
            Outcome::Failed(m) => OutcomeView::Failed(m@),
        }
    }
}

/// What an error tells its receiver.
pub struct Fault {
    pub kind: ErrorKind,
    pub code: int,
    pub text: Seq<char>,
}

/// What `e` tells its receiver.
pub open spec fn fault_of(e: Error) -> Fault {
    Fault { kind: e.kind(), code: e.code(), text: e.text() }
}

/// The fault of a protocol error.
pub open spec fn protocol_fault(code: int) -> Fault {
    Fault { kind: ErrorKind::Protocol, code, text: crate::err::protocol_text(code) }
}

/// The fault of an error outside the protocol.
pub open spec fn plain_fault(kind: ErrorKind, text: Seq<char>) -> Fault {
    Fault { kind, code: INTERNAL_ERROR as int, text }
}

/// The parameter at a position; absent where the list is too short.
pub open spec fn param(params: Seq<StructuredView>, at: int) -> StructuredView {
    if 0 <= at < params.len() {
        params[at]
    } else {
        StructuredView::Absent
    }
}

/// A parameter that may be text or missing: the text, nothing for a
/// missing or null parameter, and no reading at all for anything else.
pub open spec fn optional_text(v: StructuredView) -> Option<Option<Seq<char>>> {
    match v {
        StructuredView::Strand(s) => Some(Some(s)),
        StructuredView::Absent => Some(None),
        StructuredView::Null => Some(None),
        _ => None,
    }
}

/// Whether a parameter is missing.
pub open spec fn missing(v: StructuredView) -> bool {
    v is Absent || v is Null
}

/// A parameter as optional data.
pub open spec fn optional_data(v: StructuredView) -> Option<StructuredView> {
    if missing(v) {
        None
    } else {
        Some(v)
    }
}

/// The changes that a list of values describes, if each describes one.
pub open spec fn patches_of(items: Seq<StructuredView>) -> Option<Seq<PatchView>> {
    if forall|i: int| 0 <= i < items.len() ==> patch_of(#[trigger] items[i]) is Some {
        Some(Seq::new(items.len(), |i: int| patch_of(items[i])->0))
    } else {
        None
    }
}

/// A statement with the variables of the session bound beneath its own.
pub open spec fn bound(s: SessionView, statement: StatementView) -> StatementView {
    StatementView {
        text: statement.text,
        vars: overlaid(s.vars, statement.vars),
        single: statement.single,
    }
}

/// The message for credentials that may not sign up.
pub open spec fn signup_refusal(c: CredentialsView) -> Seq<char> {
    match c {
        CredentialsView::Database { .. } => "Database users cannot signup, only scope users can"@,
        CredentialsView::Namespace { .. } => "Namespace users cannot signup, only scope users can"@,
        _ => "Root users cannot signup, only scope users can"@,
    }
}

/// The message for a call that selects neither namespace nor database.
pub open spec fn use_refusal() -> Seq<char> {
    "Specify a namespace or a database to use"@
}

/// The message for a call that names no resource.
pub open spec fn resource_refusal() -> Seq<char> {
    "Specify the resource that the call is about"@
}

/// A request to the engine to run a statement aimed at the first
/// parameter, which must be there.
pub open spec fn run_on(
    s: SessionView,
    params: Seq<StructuredView>,
    statement: StatementView,
) -> Result<(SessionView, StepView), Fault> {
    if missing(param(params, 0)) {
        Err(plain_fault(ErrorKind::Resource, resource_refusal()))
    } else {
        Ok((s, StepView::Ask(CallView::Run(bound(s, statement)))))
    }
}

/// Where a call leads from a session: the session afterwards and what
/// becomes of the call, or the fault that ends the call with the session
/// as it was.
pub open spec fn routed(s: SessionView, method: Method, params: Seq<StructuredView>) -> Result<
    (SessionView, StepView),
    Fault,
> {
    let first = param(params, 0);
    let second = param(params, 1);
    let done = StepView::Done(StructuredView::Null);
    let invalid = Err(protocol_fault(INVALID_PARAMS as int));
    match method {
        Method::Unknown => Err(protocol_fault(METHOD_NOT_FOUND as int)),
        Method::Use => match (optional_text(first), optional_text(second)) {
            (Some(ns), Some(db)) => if ns is None && db is None {
                Err(plain_fault(ErrorKind::Configuration, use_refusal()))
            } else {
                Ok(
                    (
                        SessionView {
                            ns: if ns is Some {
                                ns
                            } else {
                                s.ns
                            },
                            db: if db is Some {
                                db
                            } else {
                                s.db
                            },
                            level: s.level,
                            vars: s.vars,
                        },
                        done,
                    ),
                )
            },
            _ => invalid,
        },
        Method::Let => match first {
            StructuredView::Strand(name) => Ok(
                (
                    SessionView {
                        ns: s.ns,
                        db: s.db,
                        level: s.level,
                        vars: put(s.vars, name, second),
                    },
                    done,
                ),
            ),
            _ => invalid,
        },
        Method::Unset => match first {
            StructuredView::Strand(name) => Ok(
                (
                    SessionView {
                        ns: s.ns,
                        db: s.db,
                        level: s.level,
                        vars: without(s.vars, name),
                    },
                    done,
                ),
            ),
            _ => invalid,
        },
        Method::Signup => match credentials_of(first) {
            Some(c) => if c is Scope {
                Ok((s, StepView::Ask(CallView::Signup(c))))
            } else {
                Err(plain_fault(ErrorKind::Capability, signup_refusal(c)))
            },
            None => invalid,
        },
        Method::Signin => match credentials_of(first) {
            Some(c) => Ok((s, StepView::Ask(CallView::Signin(c)))),
            None => invalid,
        },
        Method::Authenticate => match first {
            StructuredView::Strand(token) => Ok((s, StepView::Ask(CallView::Authenticate(token)))),
            _ => invalid,
        },
        Method::Query => match first {
            StructuredView::Strand(text) => match second {
                StructuredView::Object(given) => Ok(
                    (
                        s,
                        StepView::Ask(
                            CallView::Query(
                                StatementView {
                                    text,
                                    vars: overlaid(s.vars, given),
                                    single: false,
                                },
                            ),
                        ),
                    ),
                ),
                StructuredView::Absent => Ok(
                    (
                        s,
                        StepView::Ask(
                            CallView::Query(StatementView { text, vars: s.vars, single: false }),
                        ),
                    ),
                ),
                StructuredView::Null => Ok(
                    (
                        s,
                        StepView::Ask(
                            CallView::Query(StatementView { text, vars: s.vars, single: false }),
                        ),
                    ),
                ),
                _ => invalid,
            },
            _ => invalid,
        },
        Method::Select => run_on(s, params, aimed("SELECT * FROM $what"@, first)),
        Method::Create => run_on(s, params, create_of(first, optional_data(second))),
        Method::Update => run_on(
            s,
            params,
            update_of(
                first,
                match optional_data(second) {
                    Some(data) => Some(ClauseView::Content(data)),
                    None => None,
                },
            ),
        ),
        Method::Merge => run_on(
            s,
            params,
            update_of(
                first,
                match optional_data(second) {
                    Some(data) => Some(ClauseView::Merge(data)),
                    None => None,
                },
            ),
        ),
        Method::Patch => match second {
            StructuredView::Array(items) => match patches_of(items) {
                Some(patches) => run_on(
                    s,
                    params,
                    update_of(first, Some(ClauseView::Patch(patches))),
                ),
                None => invalid,
            },
            _ => invalid,
        },
        Method::Delete => run_on(s, params, aimed("DELETE $what"@, first)),
        Method::Live => if missing(first) {
            Err(plain_fault(ErrorKind::Resource, resource_refusal()))
        } else {
            Ok((s, StepView::Ask(CallView::Live(target_of(first)))))
        },
        Method::Version => Ok((s, StepView::Ask(CallView::Version))),
        Method::Health => Ok((s, StepView::Ask(CallView::Health))),
    }
}

/// The level that signing in with credentials leads to.
pub open spec fn level_of(c: CredentialsView) -> Level {
    match c {
        CredentialsView::Scope { .. } => Level::Scope,
        CredentialsView::Database { .. } => Level::Database,
        CredentialsView::Namespace { .. } => Level::Namespace,
        CredentialsView::Root { .. } => Level::Root,
    }
}

/// A token as a value: the token, or absent where none was issued.
pub open spec fn token_value(token: Option<Seq<char>>) -> StructuredView {
    match token {
        Some(t) => StructuredView::Strand(t),
        None => StructuredView::Absent,
    }
}

/// An answer or the fault of the engine's failure.
pub open spec fn engine_result(r: Result<StructuredView, Seq<char>>) -> Result<
    StructuredView,
    Fault,
> {
    match r {
        Ok(v) => Ok(v),
        Err(m) => Err(plain_fault(ErrorKind::Engine, m)),
    }
}

/// The session with another level.
pub open spec fn raised(s: SessionView, level: Level) -> SessionView {
    SessionView { ns: s.ns, db: s.db, level, vars: s.vars }
}

/// What comes of a request to the engine once the engine has answered: the
/// session afterwards and the answer to the call. Only a successful sign
/// in, sign up or authentication changes the session. An answer of a kind
/// that the request did not ask for is an internal error.
pub open spec fn settled(s: SessionView, call: CallView, outcome: OutcomeView) -> (
    SessionView,
    Result<StructuredView, Fault>,
) {
    let confused = (s, Err(protocol_fault(INTERNAL_ERROR as int)));
    match outcome {
        OutcomeView::Failed(m) => (s, Err(plain_fault(ErrorKind::Engine, m))),
        OutcomeView::Slots(slots) => match call {
            CallView::Run(statement) => if slots.len() > 0 {
                (s, engine_result(answer_of(statement.single, slots[0])))
            } else {
                confused
            },
            CallView::Query(_) => (s, engine_result(query_answer(slots))),
            _ => confused,
        },
        OutcomeView::Token(token) => match call {
            CallView::Signin(c) => (raised(s, level_of(c)), Ok(token_value(token))),
            CallView::Signup(_) => (raised(s, Level::Scope), Ok(token_value(token))),
            CallView::Authenticate(_) => (raised(s, Level::Token), Ok(StructuredView::Null)),
            _ => confused,
        },
        OutcomeView::Handle(id) => match call {
            CallView::Live(_) => (s, Ok(StructuredView::Uuid(id))),
            _ => confused,
        },
        OutcomeView::Version(text) => match call {
            CallView::Version => (s, Ok(StructuredView::Strand(text))),
            _ => confused,
        },
        OutcomeView::Alive => match call {
            CallView::Health => (s, Ok(StructuredView::Null)),
            _ => confused,
        },
    }
}

/// Takes the parameter at a position.
fn param_at(params: &Vec<Structured>, at: usize) -> (r: Structured)
    ensures
        r@ == param(items_view(params@), at as int),
{
    if at < params.len() {
        params[at].clone()
    } else {
        Structured::Absent
    }
}

/// Reads a parameter that may be text or missing.
fn read_optional_text(v: &Structured) -> (r: Option<Option<String>>)
    ensures
        r is Some <==> optional_text(v@) is Some,
        r matches Some(t) ==> Some(text_view(t)) == optional_text(v@),
{
    match v {
        Structured::Strand(s) => Some(Some(s.clone())),
        Structured::Absent => Some(None),
        Structured::Null => Some(None),
        _ => None,
    }
}

/// Whether a parameter is missing.
pub fn is_missing(v: &Structured) -> (r: bool)
    ensures
        r == missing(v@),
{
    match v {
        Structured::Absent => true,
        Structured::Null => true,
        _ => false,
    }
}

/// Reads the changes that a list of values describes.
pub fn read_patches(items: &Vec<Structured>) -> (r: Option<Vec<Patch>>)
    ensures
        r is Some <==> patches_of(items_view(items@)) is Some,
        r matches Some(p) ==> Some(patches_view(p@)) == patches_of(items_view(items@)),
{
    let ghost list = items_view(items@);
    let mut out: Vec<Patch> = Vec::new();
    let mut i: usize = 0;
    while i < items.len()
        invariant
            i <= items.len(),
            list == items_view(items@),
            out@.len() == i,
            forall|j: int| 0 <= j < i ==> patch_of(#[trigger] list[j]) == Some(out@[j]@),
        decreases items.len() - i,
    {
        match Patch::from_value(&items[i]) {
            Some(p) => {
                assert(list[i as int] == items@[i as int]@);
                out.push(p);
            },
            None => {
                assert(list[i as int] == items@[i as int]@);
                return None;
            },
        }
        i = i + 1;
    }
    assert(patches_view(out@) =~= Seq::new(list.len(), |i: int| patch_of(list[i])->0));
    Some(out)
}

/// Builds the error for credentials that may not sign up.
fn refuse_signup(c: &Credentials) -> (e: Error)
    ensures
        fault_of(e) == plain_fault(ErrorKind::Capability, signup_refusal(c@)),
{
    match c {
        Credentials::Database { .. } => Error::Capability(
            String::from_str("Database users cannot signup, only scope users can"),
        ),
        Credentials::Namespace { .. } => Error::Capability(
            String::from_str("Namespace users cannot signup, only scope users can"),
        ),
        _ => Error::Capability(String::from_str("Root users cannot signup, only scope users can")),
    }
}

/// Builds the error for a call that names no resource.
pub fn refuse_resource() -> (e: Error)
    ensures
        fault_of(e) == plain_fault(ErrorKind::Resource, resource_refusal()),
{
    Error::Resource(String::from_str("Specify the resource that the call is about"))
}

/// Builds the error for parameters that do not fit the method.
pub fn refuse_params() -> (e: Error)
    ensures
        fault_of(e) == protocol_fault(INVALID_PARAMS as int),
{
    Error::protocol(INVALID_PARAMS)
}

impl Session {
    /// A session that has selected nothing, is not authenticated and has
    /// no variables.
    pub fn new() -> (s: Session)
        ensures
            s@ == SessionView::fresh(),
            s@.wf(),
    {
        let s = Session { ns: None, db: None, level: Level::Anonymous, vars: Vec::new() };
        assert(fields_view(s.vars@) =~= Seq::empty());
        s
    }

    /// Selects a namespace, a database, or both; what is not named stays
    /// selected. Naming neither is refused and changes nothing.
    pub fn yuse(&mut self, target: Use) -> (r: Result<(), Error>)
        ensures
            r is Err <==> target.namespace is None && target.database is None,
            r matches Err(e) ==> fault_of(e) == plain_fault(
                ErrorKind::Configuration,
                use_refusal(),
            ) && final(self)@ == old(self)@,
            r is Ok ==> final(self)@ == (SessionView {
                ns: if target.namespace is Some {
                    text_view(target.namespace)
                } else {
                    old(self)@.ns
                },
                db: if target.database is Some {
                    text_view(target.database)
                } else {
                    old(self)@.db
                },
                level: old(self)@.level,
                vars: old(self)@.vars,
            }),
    {
        if target.namespace.is_none() && target.database.is_none() {
            return Err(
                Error::Configuration(String::from_str("Specify a namespace or a database to use")),
            );
        }
        match target.namespace {
            Some(ns) => {
                self.ns = Some(ns);
            },
            None => {},
        }
        match target.database {
            Some(db) => {
                self.db = Some(db);
            },
            None => {},
        }
        Ok(())
    }

    /// Binds a variable; a variable bound before gets the new value.
    pub fn set(&mut self, name: String, value: Structured)
        ensures
            final(self)@ == (SessionView {
                ns: old(self)@.ns,
                db: old(self)@.db,
                level: old(self)@.level,
                vars: put(old(self)@.vars, name@, value@),
            }),
    {
        object_put(&mut self.vars, name, value);
    }

    /// Unbinds a variable; nothing happens if it was not bound.
    pub fn unset(&mut self, name: &str)
        ensures
            final(self)@ == (SessionView {
                ns: old(self)@.ns,
                db: old(self)@.db,
                level: old(self)@.level,
                vars: without(old(self)@.vars, name@),
            }),
    {
        object_remove(&mut self.vars, name);
    }

    /// Binds the variables of the session beneath those of a statement.
    pub fn bind(&self, statement: Statement) -> (r: Statement)
        ensures
            r@ == bound(self@, statement@),
    {
        let mut vars = clone_fields(&self.vars);
        object_overlay(&mut vars, &statement.vars);
        Statement { text: statement.text, vars, single: statement.single }
    }

    /// Asks the engine to run a statement aimed at `first`.
    fn run_on(&self, first: &Structured, statement: Statement) -> (r: Result<Step, Error>)
        ensures
            missing(first@) ==> (r matches Err(e) && fault_of(e) == plain_fault(
                ErrorKind::Resource,
                resource_refusal(),
            )),
            !missing(first@) ==> (r matches Ok(step) && step@ == StepView::Ask(
                CallView::Run(bound(self@, statement@)),
            )),
    {
        if is_missing(first) {
            Err(refuse_resource())
        } else {
            Ok(Step::Ask(Call::Run(self.bind(statement))))
        }
    }

    /// Routes a call: changes the session where the call is about the
    /// session itself, and otherwise says what the engine is to do. A call
    /// that is refused leaves the session as it was.
    pub fn route(&mut self, method: Method, params: &Vec<Structured>) -> (r: Result<Step, Error>)
        ensures
            match routed(old(self)@, method, items_view(params@)) {
                Ok((after, step)) => r matches Ok(given) && given@ == step && final(self)@
                    == after,
                Err(fault) => r matches Err(e) && fault_of(e) == fault && final(self)@ == old(self)@,
            },
    {
        let first = param_at(params, 0);
        let second = param_at(params, 1);
        match method {
            Method::Unknown => Err(Error::protocol(METHOD_NOT_FOUND)),
            Method::Use => match (read_optional_text(&first), read_optional_text(&second)) {
                (Some(namespace), Some(database)) => {
                    match self.yuse(Use { namespace, database }) {
                        Ok(()) => Ok(Step::Done(Structured::Null)),
                        Err(e) => Err(e),
                    }
                },
                _ => Err(refuse_params()),
            },
            Method::Let => match first {
                Structured::Strand(name) => {
                    self.set(name, second);
                    Ok(Step::Done(Structured::Null))
                },
                _ => Err(refuse_params()),
            },
            Method::Unset => match first {
                Structured::Strand(name) => {
                    self.unset(name.as_str());
                    Ok(Step::Done(Structured::Null))
                },
                _ => Err(refuse_params()),
            },
            Method::Signup => match Credentials::from_value(&first) {
                Some(c) => if c.is_scope() {
                    Ok(Step::Ask(Call::Signup(c)))
                } else {
                    Err(refuse_signup(&c))
                },
                None => Err(refuse_params()),
            },
            Method::Signin => match Credentials::from_value(&first) {
                Some(c) => Ok(Step::Ask(Call::Signin(c))),
                None => Err(refuse_params()),
            },
            Method::Authenticate => match first {
                Structured::Strand(token) => Ok(Step::Ask(Call::Authenticate(token))),
                _ => Err(refuse_params()),
            },
            Method::Query => match first {
                Structured::Strand(text) => match second {
                    Structured::Object(given) => {
                        proof {
                            lemma_object_view(given);
                        }
                        let mut vars = clone_fields(&self.vars);
                        object_overlay(&mut vars, &given);
                        Ok(Step::Ask(Call::Query(Statement::query(text, vars))))
                    },
                    Structured::Absent => Ok(
                        Step::Ask(Call::Query(Statement::query(text, clone_fields(&self.vars)))),
                    ),
                    Structured::Null => Ok(
                        Step::Ask(Call::Query(Statement::query(text, clone_fields(&self.vars)))),
                    ),
                    _ => Err(refuse_params()),
                },
                _ => Err(refuse_params()),
            },
            Method::Select => self.run_on(&first, Statement::select(&first)),
            Method::Create => {
                let data = if is_missing(&second) {
                    None
                } else {
                    Some(second)
                };
                self.run_on(&first, Statement::create(&first, data))
            },
            Method::Update => {
                let clause = if is_missing(&second) {
                    None
                } else {
                    Some(Clause::Content(second))
                };
                self.run_on(&first, Statement::update(&first, clause))
            },
            Method::Merge => {
                let clause = if is_missing(&second) {
                    None
                } else {
                    Some(Clause::Merge(second))
                };
                self.run_on(&first, Statement::update(&first, clause))
            },
            Method::Patch => match second {
                Structured::Array(items) => {
                    proof {
                        lemma_array_view(items);
                    }
                    match read_patches(&items) {
                        Some(patches) => self.run_on(
                            &first,
                            Statement::update(&first, Some(Clause::Patch(patches))),
                        ),
                        None => Err(refuse_params()),
                    }
                },
                _ => Err(refuse_params()),
            },
            Method::Delete => self.run_on(&first, Statement::delete(&first)),
            Method::Live => if is_missing(&first) {
                Err(refuse_resource())
            } else {
                Ok(Step::Ask(Call::Live(target(&first))))
            },
            Method::Version => Ok(Step::Ask(Call::Version)),
            Method::Health => Ok(Step::Ask(Call::Health)),
        }
    }

    /// Takes the engine's answer to a request and makes the answer to the
    /// call of it. A failure of the engine is passed on with its message
    /// and leaves the session as it was.
    pub fn settle(&mut self, call: &Call, outcome: Outcome) -> (r: Result<Structured, Error>)
        ensures
            final(self)@ == settled(old(self)@, call@, outcome@).0,
            match settled(old(self)@, call@, outcome@).1 {
                Ok(v) => r matches Ok(given) && given@ == v,
                Err(fault) => r matches Err(e) && fault_of(e) == fault,
            },
    {
        match outcome {
            Outcome::Failed(m) => Err(Error::DBError(m)),
            Outcome::Slots(mut slots) => match call {
                Call::Run(statement) => {
                    if slots.len() > 0 {
                        let ghost views = slots_view(slots@);
                        assert(views[0] == slot_view(slots@[0]));
                        let slot = slots.swap_remove(0);
                        conclude(statement.single, slot)
                    } else {
                        Err(Error::protocol(INTERNAL_ERROR))
                    }
                },
                Call::Query(_) => conclude_query(slots),
                _ => Err(Error::protocol(INTERNAL_ERROR)),
            },
            Outcome::Token(token) => {
                let value = match token {
                    Some(t) => Structured::Strand(t),
                    None => Structured::Absent,
                };
                match call {
                    Call::Signin(c) => {
                        self.level = match c {
                            Credentials::Scope { .. } => Level::Scope,
                            Credentials::Database { .. } => Level::Database,
                            Credentials::Namespace { .. } => Level::Namespace,
                            Credentials::Root { .. } => Level::Root,
                        };
                        Ok(value)
                    },
                    Call::Signup(_) => {
                        self.level = Level::Scope;
                        Ok(value)
                    },
                    Call::Authenticate(_) => {
                        self.level = Level::Token;
                        Ok(Structured::Null)
                    },
                    _ => Err(Error::protocol(INTERNAL_ERROR)),
                }
            },
            Outcome::Handle(id) => match call {
                Call::Live(_) => Ok(Structured::Uuid(id)),
                _ => Err(Error::protocol(INTERNAL_ERROR)),
            },
            Outcome::Version(text) => match call {
                Call::Version => Ok(Structured::Strand(text)),
                _ => Err(Error::protocol(INTERNAL_ERROR)),
            },
            Outcome::Alive => match call {
                Call::Health => Ok(Structured::Null),
                _ => Err(Error::protocol(INTERNAL_ERROR)),
            },
        }
    }
}

/// Calls that are about the session keep it well formed, to set a
/// variable twice is to set it once, and to unset a variable that is not
/// bound changes nothing.
pub proof fn lemma_session_laws(s: SessionView, name: Seq<char>, value: StructuredView)
    requires
        s.wf(),
    ensures
        keys_ascend(put(s.vars, name, value)),
        keys_ascend(without(s.vars, name)),
        put(put(s.vars, name, value), name, value) == put(s.vars, name, value),
        lookup(put(s.vars, name, value), name) == Some(value),
        lookup(without(s.vars, name), name) is None,
        lookup(s.vars, name) is None ==> without(s.vars, name) == s.vars,
{
    lemma_put(s.vars, name, value);
    lemma_put_twice(s.vars, name, value);
    lemma_without(s.vars, name);
}

/// No routed call leaves a session malformed, and a refused call leaves
/// it untouched.
pub proof fn lemma_route_keeps_session(s: SessionView, method: Method, params: Seq<StructuredView>)
    requires
        s.wf(),
    ensures
        routed(s, method, params) matches Ok((after, _)) ==> (after.wf() && after.level
            == s.level),
{
    lemma_put(s.vars, param(params, 0)->Strand_0, param(params, 1));
    lemma_without(s.vars, param(params, 0)->Strand_0);
}

/// To sign up with credentials of any shape but that of a scope is
/// refused as a matter of capability, whatever the session.
pub proof fn lemma_signup_refused(s: SessionView, params: Seq<StructuredView>)
    requires
        credentials_of(param(params, 0)) is Some,
        !(credentials_of(param(params, 0))->0 is Scope),
    ensures
        routed(s, Method::Signup, params) == Err::<(SessionView, StepView), Fault>(
            plain_fault(
                ErrorKind::Capability,
                signup_refusal(credentials_of(param(params, 0))->0),
            ),
        ),
{
}

/// The bindings of every statement that a call leads to ascend by name,
/// each name once, whatever the parameters.
pub proof fn lemma_bindings_ascend(s: SessionView, method: Method, params: Seq<StructuredView>)
    requires
        s.wf(),
    ensures
        routed(s, method, params) matches Ok((_, StepView::Ask(CallView::Run(statement))))
            ==> keys_ascend(statement.vars),
        routed(s, method, params) matches Ok((_, StepView::Ask(CallView::Query(statement))))
            ==> keys_ascend(statement.vars),
{
    match routed(s, method, params) {
        Ok((_, StepView::Ask(CallView::Run(statement)))) => {
            // every such statement is some statement bound to the session
            let first = param(params, 0);
            let second = param(params, 1);
            let own = match method {
                Method::Select => aimed("SELECT * FROM $what"@, first),
                Method::Create => create_of(first, optional_data(second)),
                Method::Update => update_of(
                    first,
                    match optional_data(second) {
                        Some(data) => Some(ClauseView::Content(data)),
                        None => None,
                    },
                ),
                Method::Merge => update_of(
                    first,
                    match optional_data(second) {
                        Some(data) => Some(ClauseView::Merge(data)),
                        None => None,
                    },
                ),
                Method::Patch => update_of(
                    first,
                    Some(ClauseView::Patch(patches_of(second->Array_0)->0)),
                ),
                _ => aimed("DELETE $what"@, first),
            };
            assert(statement == bound(s, own));
            crate::value::lemma_overlaid(s.vars, own.vars);
        },
        Ok((_, StepView::Ask(CallView::Query(statement)))) => {
            let second = param(params, 1);
            if second is Object {
                crate::value::lemma_overlaid(s.vars, second->Object_0);
            }
        },
        _ => {},
    }
}

} // verus!
