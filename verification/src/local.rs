//! An engine embedded in the host, addressed with host values.

use crate::convert::fields_of;
use crate::convert::from_structured;
use crate::convert::host_of;
use crate::convert::structured_of;
use crate::convert::text_of;
use crate::convert::to_structured;
use crate::convert::Convert;
use crate::convert::HostValue;
use crate::convert::HostView;
use crate::err::Error;
use crate::err::ErrorKind;
use crate::err::INVALID_PARAMS;
use crate::opt::resource::Clause;
use crate::opt::resource::ClauseView;
use crate::opt::yuse::Use;
use crate::rpc::session::fault_of;
use crate::rpc::session::is_missing;
use crate::rpc::session::missing;
use crate::rpc::session::patches_of;
use crate::rpc::session::plain_fault;
use crate::rpc::session::protocol_fault;
use crate::rpc::session::raised;
use crate::rpc::session::read_patches;
use crate::rpc::session::refuse_params;
use crate::rpc::session::refuse_resource;
use crate::rpc::session::resource_refusal;
use crate::rpc::session::text_view;
use crate::rpc::session::use_refusal;
use crate::rpc::session::Fault;
use crate::rpc::session::Level;
use crate::rpc::session::Session;
use crate::rpc::session::SessionView;
use crate::statement::aimed;
use crate::statement::answer_of;
use crate::statement::conclude;
use crate::statement::create_of;
use crate::statement::slot_view;
use crate::statement::update_of;
use crate::statement::Statement;
use crate::statement::StatementView;
use crate::value::lemma_array_view;
use crate::value::Structured;
use crate::value::StructuredView;
use vstd::prelude::*;

verus! {

/// How far the store of an embedded engine has come.
#[derive(Debug, PartialEq, Eq)]
pub enum Stage {
    /// Nobody has asked for the store yet.
    Closed,
    /// One caller has been told to open the store and has not reported.
    Opening,
    /// The store is open.
    Open,
    /// Opening the store failed, with the engine's message. Nothing opens
    /// the store again.
    Failed(String),
}

/// Mathematical form of a [`Stage`].
pub enum StageView {
    Closed,
    Opening,
    Open,
    Failed(Seq<char>),
}

impl View for Stage {
    type V = StageView;

    open spec fn view(&self) -> StageView {
        match self {
            Stage::Closed => StageView::Closed,
            Stage::Opening => StageView::Opening,
            Stage::Open => StageView::Open,
            Stage::Failed(m) => StageView::Failed(m@),
        }
    }
}

/// An embedded engine as the host sees it: where its store is, how far
/// the store has come, and the session of the host.
#[derive(Debug, PartialEq, Eq)]
pub struct Local {
    pub url: String,
    pub stage: Stage,
    pub session: Session,
}

/// What a call is told that asks for the store: to open it, that it is
/// open, or why there is no store to be had.
pub open spec fn asked(store: StageView) -> Result<bool, Fault> {
    match store {
        StageView::Closed => Ok(true),
        StageView::Opening => Err(
            plain_fault(
                ErrorKind::MustInstantiate,
                "You need to instantiate this instance using the init(url) method"@,
            ),
        ),
        StageView::Open => Ok(false),
        StageView::Failed(m) => Err(plain_fault(ErrorKind::Engine, m)),
    }
}

/// The store after a call has asked for it: only a closed store changes,
/// to one that is being opened.
pub open spec fn after_asking(store: StageView) -> StageView {
    match store {
        StageView::Closed => StageView::Opening,
        other => other,
    }
}

/// The store after the outcome of opening it is reported: open, or failed
/// with the engine's message. A report that nobody was told to make
/// changes nothing.
pub open spec fn after_report(store: StageView, outcome: Result<(), Seq<char>>) -> StageView {
    match store {
        StageView::Opening => match outcome {
            Ok(()) => StageView::Open,
            Err(m) => StageView::Failed(m),
        },
        other => other,
    }
}

/// The outcome of opening in mathematical form.
pub open spec fn report_view(outcome: Result<(), String>) -> Result<(), Seq<char>> {
    match outcome {
        Ok(()) => Ok(()),
        Err(m) => Err(m@),
    }
}

/// The statement for a resource, or the fault of a call that names none.
pub open spec fn on_resource(what: StructuredView, statement: StatementView) -> Result<
    StatementView,
    Fault,
> {
    if missing(what) {
        Err(plain_fault(ErrorKind::Resource, resource_refusal()))
    } else {
        Ok(statement)
    }
}

/// The statement that applies the changes that `data` lists to what
/// `what` names: the bare update for an empty list. Data that is no list
/// of changes does not fit.
pub open spec fn patch_of_data(what: StructuredView, data: StructuredView) -> Result<
    StatementView,
    Fault,
> {
    match data {
        StructuredView::Array(items) => match patches_of(items) {
            Some(patches) => on_resource(what, update_of(what, Some(ClauseView::Patch(patches)))),
            None => Err(protocol_fault(INVALID_PARAMS as int)),
        },
        _ => Err(protocol_fault(INVALID_PARAMS as int)),
    }
}

/// What the host is shown of an engine's answer.
pub open spec fn shown(r: Result<StructuredView, Seq<char>>) -> Result<HostView, Seq<char>> {
    match r {
        Ok(v) => Ok(host_of(v)),
        Err(m) => Err(m),
    }
}

/// `r` is the statement or the error that `expected` asks for.
pub open spec fn fits(r: Result<Statement, Error>, expected: Result<StatementView, Fault>) -> bool {
    match expected {
        Ok(statement) => r matches Ok(given) && given@ == statement,
        Err(fault) => r matches Err(e) && fault_of(e) == fault,
    }
}

/// Gives the statement for a resource, or refuses where none is named.
fn for_resource(what: &Structured, statement: Statement) -> (r: Result<Statement, Error>)
    ensures
        fits(r, on_resource(what@, statement@)),
{
    if is_missing(what) {
        Err(refuse_resource())
    } else {
        Ok(statement)
    }
}

impl Local {
    /// An engine at the given address, its store not yet asked for.
    pub fn new(url: String) -> (r: Local)
        ensures
            r.url == url,
            r.stage@ == StageView::Closed,
            r.session@ == SessionView::fresh(),
    {
        Local { url, stage: Stage::Closed, session: Session::new() }
    }

    /// Asks for the store. Of any number of calls only the first is told
    /// to open it, with `true`; it reports the outcome with
    /// [`Local::opened`]. Once the store is open every call is told so,
    /// with `false`. Once opening has failed every call is refused with
    /// the engine's message, and nothing opens the store again. The
    /// session is never changed here.
    pub fn init(&mut self) -> (r: Result<bool, Error>)
        ensures
            match asked(old(self).stage@) {
                Ok(open) => r == Ok::<bool, Error>(open),
                Err(fault) => r matches Err(e) && fault_of(e) == fault,
            },
            final(self).stage@ == after_asking(old(self).stage@),
            final(self).url == old(self).url,
            final(self).session@ == old(self).session@,
    {
        let told = match &self.stage {
            Stage::Closed => Ok(true),
            Stage::Opening => Err(Error::MustInstantiate),
            Stage::Open => Ok(false),
            Stage::Failed(m) => Err(Error::DBError(m.clone())),
        };
        match told {
            Ok(true) => {
                self.stage = Stage::Opening;
            },
            _ => {},
        }
        told
    }

    /// Takes the outcome of opening the store from the call that was told
    /// to open it. Success gives the session the rights of the store's
    /// owner. Failure leaves the session as it was and is kept, so that
    /// every later call is refused with the same message.
    pub fn opened(&mut self, outcome: Result<(), String>) -> (r: Result<(), Error>)
        ensures
            final(self).stage@ == after_report(old(self).stage@, report_view(outcome)),
            final(self).url == old(self).url,
            final(self).session@ == if old(self).stage@ is Opening && outcome is Ok {
                raised(old(self).session@, Level::Root)
            } else {
                old(self).session@
            },
            match final(self).stage@ {
                StageView::Open => r is Ok,
                StageView::Failed(m) => r matches Err(e) && fault_of(e) == plain_fault(
                    ErrorKind::Engine,
                    m,
                ),
                _ => r matches Err(e) && e.kind() == ErrorKind::MustInstantiate,
            },
    {
        let waiting = match &self.stage {
            Stage::Opening => true,
            _ => false,
        };
        if waiting {
            match outcome {
                Ok(()) => {
                    self.stage = Stage::Open;
                    self.session.level = Level::Root;
                },
                Err(m) => {
                    self.stage = Stage::Failed(m);
                },
            }
        }
        match &self.stage {
            Stage::Open => Ok(()),
            Stage::Failed(m) => Err(Error::DBError(m.clone())),
            _ => Err(Error::MustInstantiate),
        }
    }

    /// The statement of a query whose text and bindings the host gives: a
    /// text that is no text is empty, bindings that are neither a map nor
    /// an object are none.
    pub fn sql(&self, text: HostValue, vars: HostValue) -> (r: Statement)
        ensures
            r@ == (StatementView { text: text_of(text@), vars: fields_of(vars@), single: false }),
    {
        let text = <HostValue as Convert<String>>::convert(text);
        let vars = <HostValue as Convert<Vec<(String, Structured)>>>::convert(vars);
        Statement::query(text, vars)
    }

    /// Selects a namespace, a database, or both. Naming neither is
    /// refused and changes nothing.
    pub fn yuse(&mut self, ns: Option<String>, db: Option<String>) -> (r: Result<HostValue, Error>)
        ensures
            r is Err <==> ns is None && db is None,
            r matches Ok(v) ==> v@ == HostView::Null,
            r matches Err(e) ==> fault_of(e) == plain_fault(
                ErrorKind::Configuration,
                use_refusal(),
            ) && final(self).session@ == old(self).session@,
            r is Ok ==> final(self).session@ == (SessionView {
                ns: if ns is Some {
                    text_view(ns)
                } else {
                    old(self).session@.ns
                },
                db: if db is Some {
                    text_view(db)
                } else {
                    old(self).session@.db
                },
                level: old(self).session@.level,
                vars: old(self).session@.vars,
            }),
            final(self).url == old(self).url,
            final(self).stage == old(self).stage,
    {
        match self.session.yuse(Use { namespace: ns, database: db }) {
            Ok(()) => Ok(HostValue::Null),
            Err(e) => Err(e),
        }
    }

    /// The statement that selects what `what` names. A host value that
    /// names nothing is refused.
    pub fn select(&self, what: HostValue) -> (r: Result<Statement, Error>)
        ensures
            fits(
                r,
                on_resource(
                    structured_of(what@),
                    aimed("SELECT * FROM $what"@, structured_of(what@)),
                ),
            ),
    {
        let what = to_structured(&what);
        for_resource(&what, Statement::select(&what))
    }

    /// The statement that creates what `what` names with the given
    /// content. A host value that names nothing is refused.
    pub fn create(&self, what: HostValue, data: HostValue) -> (r: Result<Statement, Error>)
        ensures
            fits(
                r,
                on_resource(
                    structured_of(what@),
                    create_of(structured_of(what@), Some(structured_of(data@))),
                ),
            ),
    {
        let what = to_structured(&what);
        for_resource(&what, Statement::create(&what, Some(to_structured(&data))))
    }

    /// The statement that puts the given content in place of that of what
    /// `what` names. A host value that names nothing is refused.
    pub fn update(&self, what: HostValue, data: HostValue) -> (r: Result<Statement, Error>)
        ensures
            fits(
                r,
                on_resource(
                    structured_of(what@),
                    update_of(
                        structured_of(what@),
                        Some(ClauseView::Content(structured_of(data@))),
                    ),
                ),
            ),
    {
        let what = to_structured(&what);
        for_resource(
            &what,
            Statement::update(&what, Some(Clause::Content(to_structured(&data)))),
        )
    }

    /// The statement that lays the given content over that of what `what`
    /// names. A host value that names nothing is refused.
    pub fn merge(&self, what: HostValue, data: HostValue) -> (r: Result<Statement, Error>)
        ensures
            fits(
                r,
                on_resource(
                    structured_of(what@),
                    update_of(structured_of(what@), Some(ClauseView::Merge(structured_of(data@)))),
                ),
            ),
    {
        let what = to_structured(&what);
        for_resource(&what, Statement::update(&what, Some(Clause::Merge(to_structured(&data)))))
    }

    /// The statement that applies the changes that `data` lists to what
    /// `what` names, in the order of the list. With an empty list it is
    /// the bare update. Data that is no list of changes is refused, and so
    /// is a host value that names nothing.
    pub fn patch(&self, what: HostValue, data: HostValue) -> (r: Result<Statement, Error>)
        ensures
            fits(r, patch_of_data(structured_of(what@), structured_of(data@))),
    {
        let what = to_structured(&what);
        match to_structured(&data) {
            Structured::Array(items) => {
                proof {
                    lemma_array_view(items);
                }
                match read_patches(&items) {
                    Some(patches) => for_resource(
                        &what,
                        Statement::update(&what, Some(Clause::Patch(patches))),
                    ),
                    None => Err(refuse_params()),
                }
            },
            _ => Err(refuse_params()),
        }
    }

    /// The statement that deletes what `what` names. A host value that
    /// names nothing is refused.
    pub fn delete(&self, what: HostValue) -> (r: Result<Statement, Error>)
        ensures
            fits(
                r,
                on_resource(structured_of(what@), aimed("DELETE $what"@, structured_of(what@))),
            ),
    {
        let what = to_structured(&what);
        for_resource(&what, Statement::delete(&what))
    }

    /// Shows the host the engine's answer to a statement.
    pub fn answer(statement: &Statement, response: Result<Structured, String>) -> (r: Result<
        HostValue,
        Error,
    >)
        ensures
            r matches Ok(v) ==> Ok::<HostView, Seq<char>>(v@) == shown(
                answer_of(statement.single, slot_view(response)),
            ),
            r matches Err(e) ==> e.kind() == ErrorKind::Engine && Err::<HostView, Seq<char>>(
                e.text(),
            ) == shown(answer_of(statement.single, slot_view(response))),
    {
        match conclude(statement.single, response) {
            Ok(v) => Ok(from_structured(&v)),
            Err(e) => Err(e),
        }
    }
}

/// Once opening the store has failed, to ask for it is refused with the
/// engine's message and changes nothing, however often it is asked; a
/// stray report changes nothing either.
pub proof fn lemma_poisoned(m: Seq<char>, outcome: Result<(), Seq<char>>)
    ensures
        asked(StageView::Failed(m)) == Err::<bool, Fault>(plain_fault(ErrorKind::Engine, m)),
        after_asking(StageView::Failed(m)) == StageView::Failed(m),
        after_report(StageView::Failed(m), outcome) == StageView::Failed(m),
        after_report(after_asking(StageView::Closed), Err(m)) == StageView::Failed(m),
{
}

/// A list without changes gives the bare update, the same statement as an
/// update without a clause.
pub proof fn lemma_empty_list(what: StructuredView)
    ensures
        patch_of_data(what, StructuredView::Array(Seq::empty())) == on_resource(
            what,
            update_of(what, None),
        ),
{
    let none: Seq<StructuredView> = Seq::empty();
    assert(patches_of(none)->0 =~= Seq::empty());
}

} // verus!
