//! The envelopes of the protocol: requests, responses and notifications.

use crate::convert::from_structured;
use crate::convert::host_of;
use crate::convert::HostValue;
use crate::err::Error;
use crate::err::ErrorKind;
use crate::err::INVALID_REQUEST;
use crate::err::PARSE_ERROR;
use crate::rpc::cbor::bytes_of;
use crate::rpc::cbor::decode_tree;
use crate::rpc::cbor::encode_tree;
use crate::rpc::cbor::tree_of;
use crate::rpc::cbor::Cbor;
use crate::rpc::cbor::CborView;
use crate::rpc::codec::from_cbor;
use crate::rpc::codec::to_cbor;
use crate::rpc::codec::value_of;
use crate::rpc::codec::wire_of;
use crate::value::fields_view;
use crate::value::items_view;
use crate::value::lemma_array_view;
use crate::value::lemma_object_view;
use crate::value::lookup;
use crate::value::object_get;
use crate::value::Number;
use crate::value::Structured;
use crate::value::StructuredView;
use vstd::prelude::*;
use vstd::string::StringExecFns;

verus! {

/// A call as it arrives: the method, its parameters in order, and the
/// caller's mark for the call if it gave one.
#[derive(Debug, PartialEq, Eq)]
pub struct Request {
    pub id: Option<Structured>,
    pub method: String,
    pub params: Vec<Structured>,
}

/// Mathematical form of a [`Request`].
pub struct RequestView {
    pub id: Option<StructuredView>,
    pub method: Seq<char>,
    pub params: Seq<StructuredView>,
}

impl View for Request {
    type V = RequestView;

    open spec fn view(&self) -> RequestView {
        RequestView {
            id: match self.id {
                Some(v) => Some(v@),
                None => None,
            },
            method: self.method@,
            params: items_view(self.params@),
        }
    }
}

/// The request that a structured value stands for: an object whose
/// `method` is text and whose `params` is an array. Anything else is no
/// request; in particular an object without `method` is none.
pub open spec fn request_of(v: StructuredView) -> Option<RequestView> {
    match v {
        StructuredView::Object(fields) => match (
            lookup(fields, "method"@),
            lookup(fields, "params"@),
        ) {
            (Some(StructuredView::Strand(method)), Some(StructuredView::Array(params))) => Some(
                RequestView { id: lookup(fields, "id"@), method, params },
            ),
            _ => None,
        },
        _ => None,
    }
}

/// The request that a wire tree stands for, or the code of the fault.
pub open spec fn request_of_tree(tree: CborView) -> Result<RequestView, int> {
    match value_of(tree) {
        Some(v) => match request_of(v) {
            Some(q) => Ok(q),
            None => Err(INVALID_REQUEST as int),
        },
        None => Err(INVALID_REQUEST as int),
    }
}

/// The request that a buffer holds, or the code of the fault: a parse
/// error where the bytes are no well-formed item, an invalid request where
/// the item is no request.
pub open spec fn request_of_bytes(bytes: Seq<u8>) -> Result<RequestView, int> {
    match tree_of(bytes) {
        Some(tree) => request_of_tree(tree),
        None => Err(PARSE_ERROR as int),
    }
}

impl Request {
    /// Reads a request from a structured value.
    pub fn from_value(v: &Structured) -> (r: Option<Request>)
        ensures
            r is Some <==> request_of(v@) is Some,
            r matches Some(q) ==> Some(q@) == request_of(v@),
            v@ matches StructuredView::Object(fields) && lookup(fields, "method"@) is None
                ==> r is None,
    {
        match v {
            Structured::Object(entries) => {
                proof {
                    lemma_object_view(*entries);
                }
                let method = match object_get(entries, "method") {
                    Some(Structured::Strand(m)) => m.clone(),
                    _ => {
                        return None;
                    },
                };
                let params = match object_get(entries, "params") {
                    Some(Structured::Array(items)) => {
                        proof {
                            lemma_array_view(*items);
                        }
                        clone_items(items)
                    },
                    _ => {
                        return None;
                    },
                };
                let id = match object_get(entries, "id") {
                    Some(mark) => Some(mark.clone()),
                    None => None,
                };
                Some(Request { id, method, params })
            },
            _ => None,
        }
    }

    /// Reads a request from a wire tree. A tree that stands for no value,
    /// or for a value that is no request, is an invalid request.
    pub fn from_tree(tree: &Cbor) -> (r: Result<Request, Error>)
        ensures
            r matches Ok(q) ==> request_of_tree(tree@) == Ok::<RequestView, int>(q@),
            r matches Err(e) ==> e.kind() == ErrorKind::Protocol && request_of_tree(tree@)
                == Err::<RequestView, int>(e.code()) && e.text() == crate::err::protocol_text(
                e.code(),
            ),
    {
        match from_cbor(tree) {
            Some(v) => match Request::from_value(&v) {
                Some(q) => Ok(q),
                None => Err(Error::protocol(INVALID_REQUEST)),
            },
            None => Err(Error::protocol(INVALID_REQUEST)),
        }
    }
}

/// Copies a list of values.
fn clone_items(items: &Vec<Structured>) -> (out: Vec<Structured>)
    ensures
        items_view(out@) == items_view(items@),
{
    let mut out: Vec<Structured> = Vec::new();
    let mut i: usize = 0;
    while i < items.len()
        invariant
            i <= items.len(),
            out@.len() == i,
            forall|j: int| 0 <= j < i ==> out@[j]@ == items@[j]@,
        decreases items.len() - i,
    {
        out.push(items[i].clone());
        i = i + 1;
    }
    assert(items_view(out@) =~= items_view(items@));
    out
}

/// Decodes a request from a buffer. Malformed bytes and a malformed
/// envelope both fail the call with a protocol error; nothing is filled in
/// for what is missing.
pub fn decode_request(bytes: &[u8]) -> (r: Result<Request, Error>)
    ensures
        r matches Ok(q) ==> request_of_bytes(bytes@) == Ok::<RequestView, int>(q@),
        r matches Err(e) ==> e.kind() == ErrorKind::Protocol && request_of_bytes(bytes@)
            == Err::<RequestView, int>(e.code()) && e.text() == crate::err::protocol_text(
            e.code(),
        ),
{
    match decode_tree(bytes) {
        Some(tree) => Request::from_tree(&tree),
        None => Err(Error::protocol(PARSE_ERROR)),
    }
}

/// The value sent back for an outcome: the result under `result`, or the
/// code and the message of the error under `error`.
pub open spec fn reply_of(outcome: Result<StructuredView, (int, Seq<char>)>) -> StructuredView {
    match outcome {
        Ok(v) => StructuredView::Object(seq![("result"@, v)]),
        Err((code, message)) => StructuredView::Object(
            seq![
                (
                    "error"@,
                    StructuredView::Object(
                        seq![
                            ("code"@, StructuredView::Number(Number::Int(code as i64))),
                            ("message"@, StructuredView::Strand(message)),
                        ],
                    ),
                ),
            ],
        ),
    }
}

/// What of an outcome goes on the wire.
pub open spec fn outcome_view(outcome: Result<Structured, Error>) -> Result<
    StructuredView,
    (int, Seq<char>),
> {
    match outcome {
        Ok(v) => Ok(v@),
        Err(e) => Err((e.code(), e.text())),
    }
}

/// Makes an object of one entry.
fn single_entry(key: &str, value: Structured) -> (r: Structured)
    ensures
        r@ == StructuredView::Object(seq![(key@, value@)]),
{
    let mut entries: Vec<(String, Structured)> = Vec::new();
    entries.push((String::from_str(key), value));
    proof {
        lemma_object_view(entries);
        assert(fields_view(entries@) =~= seq![(key@, value@)]);
    }
    Structured::Object(entries)
}

/// The value sent back for an outcome.
pub fn reply(outcome: &Result<Structured, Error>) -> (r: Structured)
    ensures
        r@ == reply_of(outcome_view(*outcome)),
{
    match outcome {
        Ok(v) => single_entry("result", v.clone()),
        Err(e) => {
            let mut entries: Vec<(String, Structured)> = Vec::new();
            let code = Structured::Number(Number::Int(e.get_code()));
            let message = Structured::Strand(e.message());
            entries.push((String::from_str("code"), code));
            entries.push((String::from_str("message"), message));
            proof {
                lemma_object_view(entries);
                assert(fields_view(entries@) =~= seq![("code"@, code@), ("message"@, message@)]);
            }
            single_entry("error", Structured::Object(entries))
        },
    }
}

/// The wire tree of the response to an outcome.
pub fn response_tree(outcome: &Result<Structured, Error>) -> (tree: Cbor)
    ensures
        tree@ == wire_of(reply_of(outcome_view(*outcome))),
{
    to_cbor(&reply(outcome))
}

/// Encodes the response to an outcome. Equal outcomes give equal bytes.
pub fn encode_response(outcome: &Result<Structured, Error>) -> (bytes: Vec<u8>)
    ensures
        bytes@ == bytes_of(wire_of(reply_of(outcome_view(*outcome)))),
{
    encode_tree(&response_tree(outcome))
}

/// What happened to a record that a live query watches.
#[derive(Clone, Copy, Debug, PartialEq, Eq, Structural)]
pub enum Action {
    Create,
    Update,
    Delete,
    Unknown,
}

impl Action {
    /// The label of the action.
    pub open spec fn label(self) -> Seq<char> {
        match self {
            Action::Create => "CREATE"@,
            Action::Update => "UPDATE"@,
            Action::Delete => "DELETE"@,
            Action::Unknown => "UNKNOWN"@,
        }
    }

    /// The label of the action as text.
    pub fn as_str(&self) -> (r: &'static str)
        ensures
            r@ == self.label(),
    {
        match self {
            Action::Create => "CREATE",
            Action::Update => "UPDATE",
            Action::Delete => "DELETE",
            Action::Unknown => "UNKNOWN",
        }
    }
}

/// One event of a live query: the subscription it belongs to, what
/// happened, and the record concerned.
#[derive(Debug, PartialEq, Eq)]
pub struct Notification {
    pub id: [u8; 16],
    pub action: Action,
    pub result: Structured,
}

/// The message that tells of an event.
pub open spec fn message_of(id: Seq<u8>, action: Action, result: StructuredView) -> StructuredView {
    StructuredView::Object(
        seq![
            ("action"@, StructuredView::Strand(action.label())),
            ("id"@, StructuredView::Uuid(id)),
            ("result"@, result),
        ],
    )
}

impl Notification {
    /// The message that tells of this event. The identifier and the record
    /// pass through unchanged.
    pub fn message(&self) -> (r: Structured)
        ensures
            r@ == message_of(self.id@, self.action, self.result@),
    {
        let mut entries: Vec<(String, Structured)> = Vec::new();
        let action = Structured::Strand(String::from_str(self.action.as_str()));
        let id = Structured::Uuid(self.id);
        let result = self.result.clone();
        entries.push((String::from_str("action"), action));
        entries.push((String::from_str("id"), id));
        entries.push((String::from_str("result"), result));
        proof {
            lemma_object_view(entries);
            assert(fields_view(entries@) =~= seq![
                ("action"@, action@),
                ("id"@, id@),
                ("result"@, result@),
            ]);
        }
        Structured::Object(entries)
    }

    /// The wire tree of the message.
    pub fn tree(&self) -> (tree: Cbor)
        ensures
            tree@ == wire_of(message_of(self.id@, self.action, self.result@)),
    {
        to_cbor(&self.message())
    }

    /// The message encoded for the wire.
    pub fn encode(&self) -> (bytes: Vec<u8>)
        ensures
            bytes@ == bytes_of(wire_of(message_of(self.id@, self.action, self.result@))),
    {
        encode_tree(&self.tree())
    }

    /// The message as a value of the host.
    pub fn to_host(&self) -> (r: HostValue)
        ensures
            r@ == host_of(message_of(self.id@, self.action, self.result@)),
    {
        from_structured(&self.message())
    }
}

/// A buffer whose item is an object without `method` is an invalid
/// request: nothing is assumed in place of the missing method.
pub proof fn lemma_method_required(bytes: Seq<u8>, fields: crate::value::Fields)
    requires
        tree_of(bytes) is Some,
        value_of(tree_of(bytes)->0) == Some(StructuredView::Object(fields)),
        lookup(fields, "method"@) is None,
    ensures
        request_of_bytes(bytes) == Err::<RequestView, int>(INVALID_REQUEST as int),
{
}

/// The messages of a batch of events, each event by itself and in the
/// order of the batch.
pub open spec fn messages_of(events: Seq<Notification>) -> Seq<StructuredView> {
    Seq::new(events.len(), |i: int| message_of(events[i].id@, events[i].action, events[i].result@))
}

/// Encodes the events of a batch, one message per event, in the order in
/// which the events came.
pub fn encode_events(events: &Vec<Notification>) -> (out: Vec<Vec<u8>>)
    ensures
        out@.len() == events@.len(),
        forall|i: int|
            0 <= i < events@.len() ==> (#[trigger] out@[i])@ == bytes_of(
                wire_of(messages_of(events@)[i]),
            ),
{
    let mut out: Vec<Vec<u8>> = Vec::new();
    let mut i: usize = 0;
    while i < events.len()
        invariant
            i <= events.len(),
            out@.len() == i,
            forall|j: int|
                0 <= j < i ==> (#[trigger] out@[j])@ == bytes_of(
                    wire_of(messages_of(events@)[j]),
                ),
        decreases events.len() - i,
    {
        out.push(events[i].encode());
        i = i + 1;
    }
    out
}

/// Shows the events of a batch to the host, one message per event, in the
/// order in which the events came.
pub fn show_events(events: &Vec<Notification>) -> (out: Vec<HostValue>)
    ensures
        out@.len() == events@.len(),
        forall|i: int|
            0 <= i < events@.len() ==> (#[trigger] out@[i])@ == host_of(messages_of(events@)[i]),
{
    let mut out: Vec<HostValue> = Vec::new();
    let mut i: usize = 0;
    while i < events.len()
        invariant
            i <= events.len(),
            out@.len() == i,
            forall|j: int|
                0 <= j < i ==> (#[trigger] out@[j])@ == host_of(messages_of(events@)[j]),
        decreases events.len() - i,
    {
        out.push(events[i].to_host());
        i = i + 1;
    }
    out
}

} // verus!
