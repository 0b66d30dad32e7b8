//! What holds of every merge, every mirroring and every capture.

use tonic::Request;
use vstd::prelude::*;
use crate::client::intercepted;
use crate::field::{has_prefix, travels, Field, Value};
use crate::interceptors::captured;
use crate::multimap::{grouped, merged, mirrored, overlay};
use crate::request::{request_carried, request_context, request_metadata};

verus! {

/// A merge is pure. Under a text key of `from` that starts with `x-`,
/// `into` ends with the value of `from`: the last one, where `from` holds
/// several. Every other key is left as it was: there if it was there, with
/// the values it had.
pub proof fn merge_is_pure(
    into: Map<Seq<char>, Seq<Value>>,
    from: Map<Seq<char>, Seq<Value>>,
    key: Seq<char>,
)
    ensures
        travels(key, true) && from.contains_key(key) ==> merged(into, from).contains_key(key)
            && merged(into, from)[key] == seq![from[key].last()],
        !(travels(key, true) && from.contains_key(key)) ==> merged(into, from).contains_key(key)
            == into.contains_key(key),
        !(travels(key, true) && from.contains_key(key)) && into.contains_key(key) ==> merged(
            into,
            from,
        )[key] == into[key],
{
}

/// Nothing leaks. Whether entries are merged or headers mirrored, a key
/// that does not start with `x-` is in the destination afterwards only if it
/// was there before, and with the values it had.
pub proof fn nothing_leaks(
    into: Map<Seq<char>, Seq<Value>>,
    from: Map<Seq<char>, Seq<Value>>,
    text_only: bool,
    key: Seq<char>,
)
    requires
        !has_prefix(key),
    ensures
        overlay(into, from, text_only).contains_key(key) == into.contains_key(key),
        into.contains_key(key) ==> overlay(into, from, text_only)[key] == into[key],
{
}

/// Mirroring overwrites and does not pile up: mirroring a request onto its
/// response a second time changes nothing.
pub proof fn mirroring_is_idempotent(
    response: Map<Seq<char>, Seq<Value>>,
    request: Map<Seq<char>, Seq<Value>>,
)
    ensures
        mirrored(mirrored(response, request), request) == mirrored(response, request),
{
}

/// Merging is idempotent as mirroring is.
pub proof fn merging_is_idempotent(
    into: Map<Seq<char>, Seq<Value>>,
    from: Map<Seq<char>, Seq<Value>>,
)
    ensures
        merged(merged(into, from), from) == merged(into, from),
{
}

/// Capsules are isolated. Each of two calls that went through the server's
/// hook holds a capsule of its own metadata, so where their metadata differ
/// neither holds the other's capsule.
pub proof fn capsules_are_isolated(
    first: Request<()>,
    first_saved: Request<()>,
    second: Request<()>,
    second_saved: Request<()>,
)
    requires
        captured(first, first_saved),
        captured(second, second_saved),
        request_metadata(first) != request_metadata(second),
    ensures
        request_context(first_saved) == Some(request_metadata(first)),
        request_context(second_saved) == Some(request_metadata(second)),
        request_context(first_saved) != request_context(second_saved),
{
}

/// What a forwarded call carries. A call that was built to be sent on, with
/// the inbound metadata on its side channel and none of its own, leaves the
/// client's hook with the text entries of the inbound call whose keys start
/// with `x-`, each key with the last of its values, and with nothing else.
pub proof fn forward_carries_what_travels(
    inbound: Seq<Field>,
    request: Request<()>,
    sent: Request<()>,
    key: Seq<char>,
)
    requires
        request_metadata(request) == Seq::<Field>::empty(),
        request_carried(request) == Some(inbound),
        intercepted(request, sent),
    ensures
        grouped(request_metadata(sent)).contains_key(key) <==> travels(key, true) && grouped(
            inbound,
        ).contains_key(key),
        grouped(request_metadata(sent)).contains_key(key) ==> grouped(request_metadata(sent))[key]
            == seq![grouped(inbound)[key].last()],
{
}

} // verus!
