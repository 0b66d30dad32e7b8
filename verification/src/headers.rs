//! Header maps, and the mirroring of a request's `x-` headers onto its
//! response.

use hyper::header::{HeaderName, HeaderValue};
use hyper::HeaderMap;
use vstd::prelude::*;
use crate::field::{
    fields_of, is_eligible, is_header_name, is_header_value, Entry, Field, Value,
};
use crate::multimap::{
    copied, count_eligible, fits, grouped, key_count, lemma_copied_push, lemma_copied_take,
    lemma_insert_adds_a_key, lemma_overlay_push, mirrored, KEY_LIMIT,
};

verus! {

/// http's `HeaderMap`, opaque to the verifier.
#[verifier::external_type_specification]
#[verifier::external_body]
#[verifier::reject_recursive_types(T)]
pub struct ExHeaderMap<T>(HeaderMap<T>);

/// http's `HeaderValue`, opaque to the verifier.
#[verifier::external_type_specification]
#[verifier::external_body]
pub struct ExHeaderValue(HeaderValue);

/// The entries of a header map, in the order in which `HeaderMap::iter`
/// yields them.
pub uninterp spec fn header_fields(map: HeaderMap<HeaderValue>) -> Seq<Field>;

/// Each key of a header map with its values.
pub open spec fn header_values(map: HeaderMap<HeaderValue>) -> Map<Seq<char>, Seq<Value>> {
    grouped(header_fields(map))
}

/// `HeaderMap::keys_len` counts the keys of a map, each once however many
/// values it holds.
#[verifier::external_body]
fn header_keys(map: &HeaderMap<HeaderValue>) -> (count: usize)
    ensures
        count == key_count(header_fields(*map)),
{
    map.keys_len()
}

/// `HeaderMap::iter`, each item as plain values: the name's text
/// (`HeaderName::as_str`), the value's bytes (`HeaderValue::as_bytes`) and
/// its mark (`HeaderValue::is_sensitive`).
#[verifier::external_body]
fn header_entries(map: &HeaderMap<HeaderValue>) -> (entries: Vec<Entry>)
    ensures
        fields_of(entries@) == header_fields(*map),
        forall|i: int|
            0 <= i < entries.len() ==> is_header_name((#[trigger] entries[i]).key@)
                && is_header_value(entries[i].value@),
{
    let mut entries = Vec::new();
    for (name, value) in map.iter() {
        entries.push(Entry {
            key: name.as_str().to_string(),
            value: value.as_bytes().to_vec(),
            sensitive: value.is_sensitive(),
        });
    }
    entries
}

/// `HeaderMap::insert`: the key then holds this one value, whatever it held
/// before, and every other key holds what it held. A map with fewer than
/// `KEY_LIMIT` keys has the room. The name and the value are made from
/// plain values by
/// `HeaderName::from_bytes`, `HeaderValue::from_bytes` and
/// `HeaderValue::set_sensitive`, which take every header name and every
/// sequence of value bytes.
#[verifier::external_body]
fn header_insert(map: &mut HeaderMap<HeaderValue>, key: &str, value: &[u8], sensitive: bool)
    requires
        is_header_name(key@),
        is_header_value(value@),
        key_count(header_fields(*old(map))) < KEY_LIMIT,
    ensures
        header_values(*final(map)) == header_values(*old(map)).insert(
            key@,
            seq![Value { bytes: value@, sensitive }],
        ),
{
    let name = HeaderName::from_bytes(key.as_bytes()).unwrap();
    let mut stored = HeaderValue::from_bytes(value).unwrap();
    stored.set_sensitive(sensitive);
    map.insert(name, stored);
}

/// Whether `response` has room for all the headers of `request` that
/// mirroring writes.
pub open spec fn mirror_fits(
    response: HeaderMap<HeaderValue>,
    request: HeaderMap<HeaderValue>,
) -> bool {
    fits(key_count(header_fields(response)), header_fields(request), false)
}

/// Tests `mirror_fits`.
pub fn can_mirror(response: &HeaderMap<HeaderValue>, request: &HeaderMap<HeaderValue>) -> (fits:
    bool)
    ensures
        fits == mirror_fits(*response, *request),
{
    let entries = header_entries(request);
    let writes = count_eligible(&entries);
    let held = header_keys(response);
    writes == 0 || (held <= KEY_LIMIT && writes <= KEY_LIMIT - held)
}

/// Writes every header of `request` whose key starts with `x-` over the
/// headers of `response`. Such a key then holds one value, the last that
/// `request` holds under it; every other header of `response` stays, and no
/// other key appears.
pub fn mirror_headers(response: &mut HeaderMap<HeaderValue>, request: &HeaderMap<HeaderValue>)
    requires
        mirror_fits(*old(response), *request),
    ensures
        header_values(*final(response)) == mirrored(
            header_values(*old(response)),
            header_values(*request),
        ),
{
    let entries = header_entries(request);
    let ghost before = header_values(*response);
    let ghost room = key_count(header_fields(*response));
    let ghost sent = header_fields(*request);
    let mut i: usize = 0;
    while i < entries.len()
        invariant
            0 <= i <= entries.len(),
            fields_of(entries@) == sent,
            fits(room, sent, false),
            forall|j: int|
                0 <= j < entries.len() ==> is_header_name((#[trigger] entries[j]).key@)
                    && is_header_value(entries[j].value@),
            header_values(*response) == mirrored(before, grouped(sent.take(i as int))),
            key_count(header_fields(*response)) <= room + copied(sent.take(i as int), false),
        decreases entries.len() - i,
    {
        let entry = &entries[i];
        proof {
            assert(sent.take(i + 1) =~= sent.take(i as int).push(entry@));
            lemma_overlay_push(before, sent.take(i as int), entry@, false);
            lemma_copied_push(sent.take(i as int), entry@, false);
            lemma_copied_take(sent, i + 1, false);
        }
        if is_eligible(entry.key.as_str()) {
            let ghost held = header_fields(*response);
            header_insert(response, entry.key.as_str(), entry.value.as_slice(), entry.sensitive);
            proof {
                lemma_insert_adds_a_key(
                    held,
                    header_fields(*response),
                    entry.key@,
                    seq![entry@.value],
                );
            }
        }
        i += 1;
    }
    proof {
        assert(sent.take(entries.len() as int) =~= sent);
    }
}

} // verus!
