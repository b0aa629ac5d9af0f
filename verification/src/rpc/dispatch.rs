//! One connection as the host drives it: bytes in, bytes out, and in
//! between whatever the engine has to do.

use crate::convert::host_of;
use crate::convert::HostValue;
use crate::err::Error;
use crate::rpc::cbor::bytes_of;
use crate::rpc::codec::wire_of;
use crate::rpc::envelope::decode_request;
use crate::rpc::envelope::encode_response;
use crate::rpc::envelope::messages_of;
use crate::rpc::envelope::reply_of;
use crate::rpc::envelope::request_of_bytes;
use crate::rpc::envelope::show_events;
use crate::rpc::envelope::Notification;
use crate::rpc::envelope::Request;
use crate::rpc::envelope::RequestView;
use crate::rpc::method::method_of;
use crate::rpc::method::Method;
use crate::rpc::session::fault_of;
use crate::rpc::session::protocol_fault;
use crate::rpc::session::routed;
use crate::rpc::session::settled;
use crate::rpc::session::Call;
use crate::rpc::session::CallView;
use crate::rpc::session::Fault;
use crate::rpc::session::Outcome;
use crate::rpc::session::Session;
use crate::rpc::session::SessionView;
use crate::rpc::session::Step;
use crate::rpc::session::StepView;
use crate::value::StructuredView;
use vstd::prelude::*;
use vstd::string::StringExecFns;

verus! {

/// How far a call has come: its response is ready, or the engine has to
/// act first.
#[derive(Debug, PartialEq, Eq)]
pub enum Progress {
    Finished(Vec<u8>),
    Pending(Call),
}

/// Mathematical form of [`Progress`].
pub enum ProgressView {
    Finished(Seq<u8>),
    Pending(CallView),
}

impl View for Progress {
    type V = ProgressView;

    open spec fn view(&self) -> ProgressView {
        match self {
            Progress::Finished(bytes) => ProgressView::Finished(bytes@),
            Progress::Pending(call) => ProgressView::Pending(call@),
        }
    }
}

/// The encoded response that carries a result.
pub open spec fn response_bytes(v: StructuredView) -> Seq<u8> {
    bytes_of(wire_of(reply_of(Ok(v))))
}

/// How far a routed call has come.
pub open spec fn progress_of(step: StepView) -> ProgressView {
    match step {
        StepView::Done(v) => ProgressView::Finished(response_bytes(v)),
        StepView::Ask(call) => ProgressView::Pending(call),
    }
}

/// Where a request leads from a session.
pub open spec fn dispatched(s: SessionView, request: RequestView) -> Result<
    (SessionView, ProgressView),
    Fault,
> {
    match routed(s, method_of(request.method), request.params) {
        Ok((after, step)) => Ok((after, progress_of(step))),
        Err(fault) => Err(fault),
    }
}

/// Where the bytes of a request lead from a session. Bytes that hold no
/// request end the call with a protocol error.
pub open spec fn executed(s: SessionView, data: Seq<u8>) -> Result<
    (SessionView, ProgressView),
    Fault,
> {
    match request_of_bytes(data) {
        Ok(request) => dispatched(s, request),
        Err(code) => Err(protocol_fault(code)),
    }
}

/// The connection of one host to one engine.
#[derive(Debug, PartialEq, Eq)]
pub struct WasmRpc {
    pub session: Session,
}

impl WasmRpc {
    /// A connection with a fresh session.
    pub fn new() -> (rpc: WasmRpc)
        ensures
            rpc.session@ == SessionView::fresh(),
            rpc.session@.wf(),
    {
        WasmRpc { session: Session::new() }
    }

    /// The address of the store of the given name in the host's indexed
    /// database.
    pub fn indxdb(name: &str) -> (endpoint: String)
        ensures
            endpoint@ == "indxdb://"@ + name@,
    {
        let mut endpoint = String::from_str("indxdb://");
        endpoint.append(name);
        endpoint
    }

    /// The address of a store in memory.
    pub fn memory() -> (endpoint: String)
        ensures
            endpoint@ == "memory"@,
    {
        String::from_str("memory")
    }

    /// Routes a decoded request. A refused request leaves the session as
    /// it was.
    pub fn dispatch(&mut self, request: Request) -> (r: Result<Progress, Error>)
        ensures
            match dispatched(old(self).session@, request@) {
                Ok((after, progress)) => r matches Ok(given) && given@ == progress && final(self).session@ == after,
                Err(fault) => r matches Err(e) && fault_of(e) == fault && final(self).session@
                    == old(self).session@,
            },
    {
        let method = Method::parse(request.method.as_str());
        match self.session.route(method, &request.params) {
            Ok(Step::Done(v)) => Ok(Progress::Finished(encode_response(&Ok(v)))),
            Ok(Step::Ask(call)) => Ok(Progress::Pending(call)),
            Err(e) => Err(e),
        }
    }

    /// Takes the bytes of a request and routes it.
    pub fn execute(&mut self, data: &[u8]) -> (r: Result<Progress, Error>)
        ensures
            match executed(old(self).session@, data@) {
                Ok((after, progress)) => r matches Ok(given) && given@ == progress && final(self).session@ == after,
                Err(fault) => r matches Err(e) && fault_of(e) == fault && final(self).session@
                    == old(self).session@,
            },
    {
        match decode_request(data) {
            Ok(request) => self.dispatch(request),
            Err(e) => Err(e),
        }
    }

    /// Shows a batch of events to the host, each as a message of its own
    /// and in the order in which the events came.
    pub fn notifications(events: &Vec<Notification>) -> (out: Vec<HostValue>)
        ensures
            out@.len() == events@.len(),
            forall|i: int|
                0 <= i < events@.len() ==> (#[trigger] out@[i])@ == host_of(
                    messages_of(events@)[i],
                ),
    {
        show_events(events)
    }

    /// Takes the engine's answer to a pending call and encodes the
    /// response.
    pub fn resume(&mut self, call: &Call, outcome: Outcome) -> (r: Result<Vec<u8>, Error>)
        ensures
            final(self).session@ == settled(old(self).session@, call@, outcome@).0,
            match settled(old(self).session@, call@, outcome@).1 {
                Ok(v) => r matches Ok(bytes) && bytes@ == response_bytes(v),
                Err(fault) => r matches Err(e) && fault_of(e) == fault,
            },
    {
        match self.session.settle(call, outcome) {
            Ok(v) => Ok(encode_response(&Ok(v))),
            Err(e) => Err(e),
        }
    }
}

} // verus!
