//! What a call holds beside its message: its metadata, and what was put on
//! its side channel.

use tonic::metadata::MetadataMap;
use tonic::{Request, Status};
use vstd::prelude::*;
use crate::field::Field;
use crate::interceptors::Context;
use crate::metadata::metadata_fields;

verus! {

/// tonic's `Request`, opaque to the verifier.
#[verifier::external_type_specification]
#[verifier::external_body]
#[verifier::reject_recursive_types(T)]
pub struct ExRequest<T>(Request<T>);

/// tonic's `Status`, opaque to the verifier.
#[verifier::external_type_specification]
#[verifier::external_body]
pub struct ExStatus(Status);

/// The entries of a call's metadata, in its map's order.
pub uninterp spec fn request_metadata(request: Request<()>) -> Seq<Field>;

/// The entries of the capsule on a call's side channel, if one was put
/// there.
pub uninterp spec fn request_context(request: Request<()>) -> Option<Seq<Field>>;

/// The entries of the metadata map on a call's side channel, if one was put
/// there.
pub uninterp spec fn request_carried(request: Request<()>) -> Option<Seq<Field>>;

/// `Request::new` with the empty message: no metadata, and nothing on the
/// side channel.
#[verifier::external_body]
pub(crate) fn empty_request() -> (request: Request<()>)
    ensures
        request_metadata(request) == Seq::<Field>::empty(),
        request_context(request) is None,
        request_carried(request) is None,
{
    Request::new(())
}

/// `Request::metadata`.
#[verifier::external_body]
pub(crate) fn metadata_of(request: &Request<()>) -> (metadata: &MetadataMap)
    ensures
        metadata_fields(*metadata) == request_metadata(*request),
{
    request.metadata()
}

/// `Request::metadata_mut`: what is done to the map is done to the call's
/// metadata, and the side channel stays as it is.
#[verifier::external_body]
pub(crate) fn metadata_mut_of(request: &mut Request<()>) -> (metadata: &mut MetadataMap)
    ensures
        metadata_fields(*metadata) == request_metadata(*old(request)),
        request_metadata(*final(request)) == metadata_fields(*final(metadata)),
        request_context(*final(request)) == request_context(*old(request)),
        request_carried(*final(request)) == request_carried(*old(request)),
{
    request.metadata_mut()
}

/// `Extensions::get` for the capsule, on `Request::extensions`.
#[verifier::external_body]
pub(crate) fn context_of(request: &Request<()>) -> (context: Option<&Context>)
    ensures
        match context {
            Some(found) => request_context(*request) == Some(found.fields()),
            None => request_context(*request) is None,
        },
{
    request.extensions().get::<Context>()
}

/// `Extensions::insert` for the capsule, on `Request::extensions_mut`: the
/// capsule takes the place of an earlier one, and nothing else changes.
#[verifier::external_body]
pub(crate) fn put_context(request: &mut Request<()>, context: Context)
    ensures
        request_context(*final(request)) == Some(context.fields()),
        request_metadata(*final(request)) == request_metadata(*old(request)),
        request_carried(*final(request)) == request_carried(*old(request)),
{
    request.extensions_mut().insert(context);
}

/// `Extensions::get` for a metadata map, on `Request::extensions`.
#[verifier::external_body]
pub(crate) fn carried_of(request: &Request<()>) -> (carried: Option<&MetadataMap>)
    ensures
        match carried {
            Some(found) => request_carried(*request) == Some(metadata_fields(*found)),
            None => request_carried(*request) is None,
        },
{
    request.extensions().get::<MetadataMap>()
}

/// `Extensions::insert` for a metadata map, on `Request::extensions_mut`:
/// the map takes the place of an earlier one, and nothing else changes.
#[verifier::external_body]
pub(crate) fn put_carried(request: &mut Request<()>, carried: MetadataMap)
    ensures
        request_carried(*final(request)) == Some(metadata_fields(carried)),
        request_metadata(*final(request)) == request_metadata(*old(request)),
        request_context(*final(request)) == request_context(*old(request)),
{
    request.extensions_mut().insert(carried);
}

} // verus!
