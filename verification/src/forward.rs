//! The handler that forwards a ping: what it sends on, and what it answers
//! whatever became of that.

use tonic::metadata::MetadataMap;
use tonic::Request;
use vstd::prelude::*;
use vstd::string::*;
use crate::field::Field;
use crate::metadata::metadata_fields;
use crate::request::{
    empty_request, put_carried, request_carried, request_context, request_metadata,
};

verus! {

/// What the handler does once the forwarded call has come back.
#[derive(Clone, Debug, PartialEq, Eq)]
pub struct ForwardReply {
    /// Whether the caller is answered with success.
    pub succeeded: bool,
    /// The line for the log, where there is something to report.
    pub log: Option<String>,
}

/// The line that reports a failed forward.
pub open spec fn failure_line(error: Seq<char>) -> Seq<char> {
    "error: "@ + error
}

/// The call that the handler sends on: without metadata of its own, and
/// with a copy of all the inbound metadata on its side channel, for the
/// client's hook to merge.
pub fn forward_request(inbound: &MetadataMap) -> (request: Request<()>)
    ensures
        request_metadata(request) == Seq::<Field>::empty(),
        request_carried(request) == Some(metadata_fields(*inbound)),
        request_context(request) is None,
{
    let mut request = empty_request();
    put_carried(&mut request, inbound.clone());
    request
}

/// The answer to the caller of a forward: success, whether the forwarded
/// call succeeded or not. A failure is reported to the log and nowhere else.
pub fn conclude_forward(outcome: Result<(), String>) -> (reply: ForwardReply)
    ensures
        reply.succeeded,
        match outcome {
            Ok(_) => reply.log is None,
            Err(error) => reply.log matches Some(line) && line@ == failure_line(error@),
        },
{
    match outcome {
        Ok(_) => ForwardReply { succeeded: true, log: None },
        Err(error) => {
            let line = String::from_str("error: ").concat(error.as_str());
            ForwardReply { succeeded: true, log: Some(line) }
        },
    }
}

} // verus!
