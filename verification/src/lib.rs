//! Context propagation for a small RPC forwarding service.
//!
//! A call's metadata entries whose key starts with `x-` survive a hop, and
//! no other entry does. Three mechanisms see to that, each a stage with a
//! contract of its own:
//!
//! - the server's hook, [`save_context`], captures the inbound metadata in
//!   a capsule; the client's hook, [`apply_context`], merges the capsule
//!   into an outbound call;
//! - the forwarding handler builds the call that it sends on with
//!   [`forward_request`], the client's hook [`intercept`] merges what that
//!   call carries into its metadata, and [`conclude_forward`] answers the
//!   caller whatever became of the forwarded call;
//! - the middleware mirrors the request's headers onto the response with
//!   [`mirror_headers`].
//!
//! All of them copy by one rule, [`merge_metadata`]'s: a key that travels
//! ends with one value, the last that the source holds under it, and every
//! other key keeps what it had. The module `laws` states what follows from
//! that for every map.
//!
//! The maps are tonic's and http's own. What the contracts say of them is
//! said over `metadata_fields`, `header_fields` and the names of `request`,
//! and rests on the few declarations there that the verifier takes on trust.

pub mod address;
pub mod client;
pub mod field;
pub mod forward;
pub mod headers;
pub mod interceptors;
pub mod laws;
pub mod metadata;
pub mod multimap;
pub mod request;

pub use address::{listen_address, port_to_url};
pub use client::{add_demo_header, can_intercept, intercept};
pub use field::{is_eligible, Entry};
pub use forward::{conclude_forward, forward_request, ForwardReply};
pub use headers::{can_mirror, mirror_headers};
pub use interceptors::{apply_context, can_apply, save_context, Context};
pub use metadata::{ascii_entries, can_merge, merge_metadata};
pub use multimap::{count_eligible, KEY_LIMIT};
