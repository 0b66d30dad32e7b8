//! The two hooks that thread a capsule through a call: the server's, which
//! captures, and the client's, which applies.

use tonic::metadata::MetadataMap;
use tonic::{Request, Status};
use vstd::prelude::*;
use crate::field::Field;
use crate::metadata::{can_merge, merge_metadata, metadata_fields};
use crate::multimap::{fits, grouped, key_count, merged};
use crate::request::{
    context_of, metadata_mut_of, metadata_of, put_context, request_carried, request_context,
    request_metadata,
};

verus! {

/// The context capsule: the metadata of an inbound call as it was when the
/// call came in, for the calls that the handler makes on its behalf.
#[derive(Clone)]
pub struct Context {
    metadata: MetadataMap,
}

impl Context {
    /// The entries that the capsule holds.
    pub closed spec fn fields(self) -> Seq<Field> {
        metadata_fields(self.metadata)
    }

    /// A capsule with a copy of every entry of `metadata`, eligible or not.
    pub fn capture(metadata: &MetadataMap) -> (context: Context)
        ensures
            context.fields() == metadata_fields(*metadata),
    {
        Context { metadata: metadata.clone() }
    }

    /// What the capsule holds.
    pub fn metadata(&self) -> (metadata: &MetadataMap)
        ensures
            metadata_fields(*metadata) == self.fields(),
    {
        &self.metadata
    }
}

/// `after` is `before` with a capsule of all its metadata on the side
/// channel.
pub open spec fn captured(before: Request<()>, after: Request<()>) -> bool {
    &&& request_context(after) == Some(request_metadata(before))
    &&& request_metadata(after) == request_metadata(before)
    &&& request_carried(after) == request_carried(before)
}

/// Whether `request` holds a capsule, and its metadata has room for all
/// that a merge of the capsule writes.
pub open spec fn context_fits(request: Request<()>) -> bool {
    &&& request_context(request) is Some
    &&& fits(key_count(request_metadata(request)), request_context(request).unwrap(), true)
}

/// Tests `context_fits`.
pub fn can_apply(req: &Request<()>) -> (fits: bool)
    ensures
        fits == context_fits(*req),
{
    match context_of(req) {
        Some(context) => can_merge(metadata_of(req), context.metadata()),
        None => false,
    }
}

/// `after` is `before` with the capsule's `x-` entries merged into its
/// metadata.
pub open spec fn applied(before: Request<()>, after: Request<()>) -> bool {
    &&& request_context(before) is Some
    &&& grouped(request_metadata(after)) == merged(
        grouped(request_metadata(before)),
        grouped(request_context(before).unwrap()),
    )
    &&& request_context(after) == request_context(before)
    &&& request_carried(after) == request_carried(before)
}

/// The server's hook. Puts a capsule with a copy of all the call's metadata
/// on its side channel and lets the call through, always.
pub fn save_context(req: Request<()>) -> (out: Result<Request<()>, Status>)
    ensures
        out matches Ok(saved) && captured(req, saved),
{
    let mut req = req;
    let context = Context::capture(metadata_of(&req));
    put_context(&mut req, context);
    Ok(req)
}

/// The client's hook for calls that carry a capsule. Merges the capsule's
/// `x-` entries into the call's metadata and lets the call through, always.
/// A call without a capsule must not come this way.
pub fn apply_context(req: Request<()>) -> (out: Result<Request<()>, Status>)
    requires
        context_fits(req),
    ensures
        out matches Ok(sent) && applied(req, sent),
{
    let mut req = req;
    let context = Context::capture(context_of(&req).unwrap().metadata());
    merge_metadata(metadata_mut_of(&mut req), context.metadata());
    Ok(req)
}

} // verus!
