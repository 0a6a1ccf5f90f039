//! The decisions of one unit of execution: from a received command to the
//! call to make, and from the call's outcome to the one result delivered.
use vstd::prelude::*;
use crate::envelope::ResponseEnvelope;
use crate::outcome::{failure, respond, AsyncResult, Command, FailureKind, Identity};
use crate::uri::{rewrite_uri, uri_accepts, Destination};

verus! {

/// The call to make for a command, its destination rewritten.
#[derive(Debug)]
pub struct Outbound {
    pub identity: Identity,
    pub method: String,
    pub destination: Destination,
    pub headers: Vec<(Vec<u8>, Vec<u8>)>,
    pub body: Vec<u8>,
}

/// What a received command leads to: a call, or at once its result.
#[derive(Debug)]
pub enum Prepared {
    Send(Outbound),
    Done(AsyncResult),
}

/// How the call ended: a whole response, or a failure with its diagnostic.
#[derive(Debug)]
pub enum Completion {
    Responded(ResponseEnvelope),
    Failed(FailureKind, Vec<u8>),
}

/// The destination that `cmd` gets on the cluster at `base`, if any.
pub open spec fn rewritable(cmd: Command, base: Seq<char>) -> bool {
    cmd.request.path_and_query matches Some(pq) && uri_accepts(base + pq@)
}

/// Points the command's request at the cluster at `base`. Where no valid URI
/// comes of it, the command is resolved at once with a `UriConstruction`
/// failure.
pub fn prepare(cmd: Command, base: &String) -> (r: Prepared)
    ensures
        rewritable(cmd, base@) ==> (r matches Prepared::Send(o) && {
            &&& o.identity.controller_name == cmd.controller_name
            &&& o.identity.async_request_id == cmd.async_request_id
            &&& o.method == cmd.request.method
            &&& o.destination.text@ == base@ + cmd.request.path_and_query->Some_0@
            &&& o.headers == cmd.request.headers
            &&& o.body == cmd.request.body
        }),
        !rewritable(cmd, base@) ==> (r matches Prepared::Done(res) && {
            &&& res.controller_name@ == cmd.controller_name@
            &&& res.async_request_id == cmd.async_request_id
            &&& res.is_failure(FailureKind::UriConstruction, seq![])
        }),
{
    let (identity, request) = cmd.split();
    match rewrite_uri(base, &request.path_and_query) {
        Ok(destination) => Prepared::Send(
            Outbound {
                identity,
                method: request.method,
                destination,
                headers: request.headers,
                body: request.body,
            },
        ),
        Err(kind) => Prepared::Done(failure(identity, kind, Vec::new())),
    }
}

/// The one result of the command `id` once its call has ended.
pub fn complete(id: Identity, c: Completion) -> (r: AsyncResult)
    ensures
        r.answers(id),
        c matches Completion::Responded(e) ==> r.is_success(e.spec_bytes()),
        c matches Completion::Failed(k, d) ==> r.is_failure(k, d@),
{
    match c {
        Completion::Responded(envelope) => respond(id, &envelope),
        Completion::Failed(kind, detail) => failure(id, kind, detail),
    }
}

} // verus!
