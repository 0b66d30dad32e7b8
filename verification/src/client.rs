//! The client's side: the hook that runs on every outbound call, and the
//! marker that direct calls attach by hand.

use tonic::metadata::MetadataMap;
use tonic::{Request, Status};
use vstd::prelude::*;
use vstd::string::*;
use crate::field::{is_ascii_key, is_header_value, Value};
use crate::metadata::{
    can_merge, merge_metadata, metadata_fields, metadata_insert, metadata_values,
};
use crate::multimap::{fits, grouped, key_count, lemma_overlay_nothing, merged, KEY_LIMIT};
use crate::request::{
    carried_of, metadata_mut_of, metadata_of, request_carried, request_context, request_metadata,
};

verus! {

/// Whether the metadata of `request` has room for all that a merge of the
/// map on its side channel writes. A call that carries no map needs no room.
pub open spec fn carried_fits(request: Request<()>) -> bool {
    match request_carried(request) {
        Some(carried) => fits(key_count(request_metadata(request)), carried, true),
        None => true,
    }
}

/// `after` is `before` with the `x-` entries of the map on its side channel
/// merged into its metadata; without such a map, with its metadata as it
/// was.
pub open spec fn intercepted(before: Request<()>, after: Request<()>) -> bool {
    &&& grouped(request_metadata(after)) == match request_carried(before) {
        Some(carried) => merged(grouped(request_metadata(before)), grouped(carried)),
        None => grouped(request_metadata(before)),
    }
    &&& request_carried(after) == request_carried(before)
    &&& request_context(after) == request_context(before)
}

/// Tests `carried_fits`.
pub fn can_intercept(req: &Request<()>) -> (fits: bool)
    ensures
        fits == carried_fits(*req),
{
    match carried_of(req) {
        Some(carried) => can_merge(metadata_of(req), carried),
        None => true,
    }
}

/// The hook that runs on each outbound call. Takes the metadata map from
/// the call's side channel, or an empty one where there is none, merges its
/// `x-` entries into the call's metadata, and lets the call through, always.
pub fn intercept(req: Request<()>) -> (out: Result<Request<()>, Status>)
    requires
        carried_fits(req),
    ensures
        out matches Ok(sent) && intercepted(req, sent),
{
    let mut req = req;
    let metadata = match carried_of(&req) {
        Some(carried) => carried.clone(),
        None => MetadataMap::new(),
    };
    proof {
        if request_carried(req) is None {
            lemma_overlay_nothing(grouped(request_metadata(req)), true);
        }
    }
    merge_metadata(metadata_mut_of(&mut req), &metadata);
    Ok(req)
}

/// The bytes of a text, one for each of its characters.
pub open spec fn text_bytes(text: Seq<char>) -> Seq<u8> {
    Seq::new(text.len(), |i: int| text[i] as u8)
}

/// The marker that a direct call attaches: `x-demo-key` with the one value
/// `x-demo-value`, not marked as sensitive.
pub open spec fn demo_value() -> Value {
    Value { bytes: text_bytes("x-demo-value"@), sensitive: false }
}

/// Attaches the marker to `metadata`, in place of what `x-demo-key` held.
pub fn add_demo_header(metadata: &mut MetadataMap)
    requires
        key_count(metadata_fields(*old(metadata))) < KEY_LIMIT,
    ensures
        metadata_values(*final(metadata)) == metadata_values(*old(metadata)).insert(
            "x-demo-key"@,
            seq![demo_value()],
        ),
{
    let key = "x-demo-key";
    let value = "x-demo-value";
    let bytes = value.as_bytes();
    proof {
        reveal_strlit("x-demo-key");
        reveal_strlit("x-demo-value");
        is_ascii_spec_bytes(value);
    }
    metadata_insert(metadata, key, bytes, false);
}

} // verus!
