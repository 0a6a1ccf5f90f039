//! Commands, their correlation identity, and the results handed back.
use vstd::prelude::*;
use crate::envelope::ResponseEnvelope;

verus! {

/// Why a command ended in a failure.
#[derive(Clone, Copy, Debug, PartialEq, Eq, Structural)]
pub enum FailureKind {
    /// The cluster base and the request's path and query make no valid URI.
    UriConstruction,
    /// The outbound call failed: network, TLS, protocol or timeout.
    RequestExecution,
    /// The response body could not be read.
    BodyRead,
    /// The response body is longer than the configured maximum.
    BodyTooLarge,
    /// The response could not be encoded.
    Serialization,
    /// The result could not be handed to the result channel.
    ResultDelivery,
}

impl FailureKind {
    /// The byte that opens the payload of a failure of this kind.
    pub open spec fn spec_tag(self) -> u8 {
        match self {
            FailureKind::UriConstruction => 1,
            FailureKind::RequestExecution => 2,
            FailureKind::BodyRead => 3,
            FailureKind::BodyTooLarge => 4,
            FailureKind::Serialization => 5,
            FailureKind::ResultDelivery => 6,
        }
    }

    pub fn tag(&self) -> (r: u8)
        ensures
            r == self.spec_tag(),
    {
        match self {
            FailureKind::UriConstruction => 1,
            FailureKind::RequestExecution => 2,
            FailureKind::BodyRead => 3,
            FailureKind::BodyTooLarge => 4,
            FailureKind::Serialization => 5,
            FailureKind::ResultDelivery => 6,
        }
    }
}

/// Whether a result reports success or failure.
#[derive(Clone, Copy, Debug, PartialEq, Eq, Structural)]
pub enum AsyncKind {
    Success,
    Failure,
}

/// The pair that binds a command to its result.
#[derive(Clone, Debug)]
pub struct Identity {
    pub controller_name: String,
    pub async_request_id: u64,
}

/// An HTTP request as a controller submitted it.
#[derive(Clone, Debug)]
pub struct HttpRequest {
    pub method: String,
    /// The path and query of the request's URI, when it has one.
    pub path_and_query: Option<String>,
    pub headers: Vec<(Vec<u8>, Vec<u8>)>,
    pub body: Vec<u8>,
}

/// One outbound call requested by a controller.
#[derive(Clone, Debug)]
pub struct Command {
    pub controller_name: String,
    pub async_request_id: u64,
    pub request: HttpRequest,
}

impl Command {
    /// Splits the command into its identity and its request.
    pub fn split(self) -> (r: (Identity, HttpRequest))
        ensures
            r.0.controller_name == self.controller_name,
            r.0.async_request_id == self.async_request_id,
            r.1 == self.request,
    {
        (Identity { controller_name: self.controller_name, async_request_id: self.async_request_id }, self.request)
    }
}

/// The outcome delivered back for one command.
#[derive(Clone, Debug)]
pub struct AsyncResult {
    pub controller_name: String,
    pub async_request_id: u64,
    pub kind: AsyncKind,
    pub payload: Option<Vec<u8>>,
}

impl AsyncResult {
    /// The result carries the identity `id`.
    pub open spec fn answers(&self, id: Identity) -> bool {
        self.controller_name@ == id.controller_name@ && self.async_request_id == id.async_request_id
    }

    /// The result is a failure of kind `k` with diagnostic `detail`.
    pub open spec fn is_failure(&self, k: FailureKind, detail: Seq<u8>) -> bool {
        &&& self.kind == AsyncKind::Failure
        &&& self.payload matches Some(p) && p@ == failure_bytes(k, detail)
    }

    /// The result is a success whose payload is `bytes`.
    pub open spec fn is_success(&self, bytes: Seq<u8>) -> bool {
        &&& self.kind == AsyncKind::Success
        &&& self.payload matches Some(p) && p@ == bytes
    }
}

/// The payload of a failure: the kind's tag, then the diagnostic text.
pub open spec fn failure_bytes(k: FailureKind, detail: Seq<u8>) -> Seq<u8> {
    seq![k.spec_tag()] + detail
}

/// The failure result of kind `kind` for the command `id`.
pub fn failure(id: Identity, kind: FailureKind, detail: Vec<u8>) -> (r: AsyncResult)
    ensures
        r.answers(id),
        r.is_failure(kind, detail@),
{
    let mut payload: Vec<u8> = Vec::new();
    payload.push(kind.tag());
    let mut rest = detail;
    payload.append(&mut rest);
    AsyncResult {
        controller_name: id.controller_name,
        async_request_id: id.async_request_id,
        kind: AsyncKind::Failure,
        payload: Some(payload),
    }
}

/// The result for `id` once the response has been encoded, or not
/// (`None`): a success carrying the bytes, else a serialization failure.
pub fn settle_encoded(id: Identity, encoded: Option<Vec<u8>>) -> (r: AsyncResult)
    ensures
        r.answers(id),
        encoded matches Some(b) ==> r.is_success(b@),
        encoded is None ==> r.is_failure(FailureKind::Serialization, seq![]),
{
    match encoded {
        Some(bytes) => AsyncResult {
            controller_name: id.controller_name,
            async_request_id: id.async_request_id,
            kind: AsyncKind::Success,
            payload: Some(bytes),
        },
        None => failure(id, FailureKind::Serialization, Vec::new()),
    }
}

/// The success result for `id` carrying the encoded `envelope`.
pub fn respond(id: Identity, envelope: &ResponseEnvelope) -> (r: AsyncResult)
    ensures
        r.answers(id),
        r.is_success(envelope.spec_bytes()),
{
    let encoded = envelope.encode();
    settle_encoded(id, encoded)
}

} // verus!
