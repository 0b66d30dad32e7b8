//! Metadata maps: what they hold, and the merge that carries the `x-`
//! entries of one map into another.

use tonic::metadata::{Ascii, KeyAndValueRef, MetadataKey, MetadataMap, MetadataValue};
use vstd::prelude::*;
use crate::field::{
    fields_of, is_ascii_key, is_binary_key, is_eligible, is_header_value, Entry, Field, Value,
};
use crate::multimap::{
    copied, count_eligible, fits, grouped, key_count, lemma_copied_push, lemma_copied_take,
    lemma_insert_adds_a_key, lemma_overlay_push, lemma_values_of_push, merged, values_of,
    KEY_LIMIT,
};

verus! {

/// tonic's `MetadataMap`, opaque to the verifier.
#[verifier::external_type_specification]
#[verifier::external_body]
pub struct ExMetadataMap(MetadataMap);

/// The entries of a metadata map, in the order in which `MetadataMap::iter`
/// yields them.
pub uninterp spec fn metadata_fields(map: MetadataMap) -> Seq<Field>;

/// Each key of a metadata map with its values.
pub open spec fn metadata_values(map: MetadataMap) -> Map<Seq<char>, Seq<Value>> {
    grouped(metadata_fields(map))
}

/// `MetadataMap::new` makes a map without entries.
pub assume_specification[ MetadataMap::new ]() -> (map: MetadataMap)
    ensures
        metadata_fields(map) == Seq::<Field>::empty(),
;

/// `MetadataMap::keys_len` counts the keys of a map, each once however
/// many values it holds.
pub assume_specification[ MetadataMap::keys_len ](map: &MetadataMap) -> (count: usize)
    ensures
        count == key_count(metadata_fields(*map)),
;

/// The clone of a `MetadataMap` holds the same entries in the same order.
pub assume_specification[ <MetadataMap as Clone>::clone ](map: &MetadataMap) -> (copy:
    MetadataMap)
    ensures
        metadata_fields(copy) == metadata_fields(*map),
;

/// An entry as a metadata map hands it out: under a text key or under a
/// binary one.
enum MetadataEntry {
    Ascii(Entry),
    Binary(Entry),
}

impl MetadataEntry {
    spec fn field(self) -> Field {
        match self {
            MetadataEntry::Ascii(entry) => entry@,
            MetadataEntry::Binary(entry) => entry@,
        }
    }

    /// What holds of every entry that a map hands out: a text entry has a
    /// text key and a value made of value bytes, and a binary entry has a
    /// key that ends in `-bin`.
    spec fn is_stored(self) -> bool {
        match self {
            MetadataEntry::Ascii(entry) => is_ascii_key(entry.key@) && is_header_value(
                entry.value@,
            ),
            MetadataEntry::Binary(entry) => is_binary_key(entry.key@),
        }
    }
}

/// `MetadataMap::iter`, each item as plain values: the key's text
/// (`MetadataKey::as_str`), the value's bytes as the map stores them
/// (`MetadataValue::as_encoded_bytes`) and its mark
/// (`MetadataValue::is_sensitive`). The iterator yields a key as binary
/// exactly if it ends in `-bin`; a text key is a header name, and a text
/// value is made of value bytes.
#[verifier::external_body]
fn metadata_entries(map: &MetadataMap) -> (entries: Vec<MetadataEntry>)
    ensures
        entries@.map_values(|entry: MetadataEntry| entry.field()) == metadata_fields(*map),
        forall|i: int| 0 <= i < entries.len() ==> (#[trigger] entries[i]).is_stored(),
{
    let plain = |item| match item {
        KeyAndValueRef::Ascii(key, value) => MetadataEntry::Ascii(Entry {
            key: key.as_str().to_string(),
            value: value.as_encoded_bytes().to_vec(),
            sensitive: value.is_sensitive(),
        }),
        KeyAndValueRef::Binary(key, value) => MetadataEntry::Binary(Entry {
            key: key.as_str().to_string(),
            value: value.as_encoded_bytes().to_vec(),
            sensitive: value.is_sensitive(),
        }),
    };
    map.iter().map(plain).collect()
}

/// `MetadataMap::insert` with a text key: the key then holds this one value,
/// whatever it held before, and every other key holds what it held. A map
/// with fewer than `KEY_LIMIT` keys has the room. The key and the value are
/// made from plain values by `MetadataKey::from_bytes`,
/// `MetadataValue::try_from` and `MetadataValue::set_sensitive`, which take
/// every text key and every sequence of value bytes.
#[verifier::external_body]
pub(crate) fn metadata_insert(map: &mut MetadataMap, key: &str, value: &[u8], sensitive: bool)
    requires
        is_ascii_key(key@),
        is_header_value(value@),
        key_count(metadata_fields(*old(map))) < KEY_LIMIT,
    ensures
        metadata_values(*final(map)) == metadata_values(*old(map)).insert(
            key@,
            seq![Value { bytes: value@, sensitive }],
        ),
{
    let name = MetadataKey::<Ascii>::from_bytes(key.as_bytes()).unwrap();
    let mut stored = MetadataValue::<Ascii>::try_from(value).unwrap();
    stored.set_sensitive(sensitive);
    map.insert(name, stored);
}

/// The entries under text keys, in their order.
pub open spec fn text_fields(fields: Seq<Field>) -> Seq<Field>
    decreases fields.len(),
{
    if fields.len() == 0 {
        Seq::empty()
    } else if is_binary_key(fields.last().key) {
        text_fields(fields.drop_last())
    } else {
        text_fields(fields.drop_last()).push(fields.last())
    }
}

proof fn lemma_text_fields_push(fields: Seq<Field>, field: Field)
    ensures
        text_fields(fields.push(field)) == if is_binary_key(field.key) {
            text_fields(fields)
        } else {
            text_fields(fields).push(field)
        },
{
    assert(fields.push(field).drop_last() =~= fields);
}

/// Under a text key the text entries hold what all the entries hold.
proof fn lemma_text_fields_values(fields: Seq<Field>, key: Seq<char>)
    requires
        !is_binary_key(key),
    ensures
        values_of(text_fields(fields), key) == values_of(fields, key),
    decreases fields.len(),
{
    if fields.len() > 0 {
        lemma_text_fields_values(fields.drop_last(), key);
        if !is_binary_key(fields.last().key) {
            lemma_values_of_push(text_fields(fields.drop_last()), fields.last(), key);
        }
    }
}

/// A merge sees the text entries only.
proof fn lemma_merged_text_fields(into: Map<Seq<char>, Seq<Value>>, fields: Seq<Field>)
    ensures
        merged(into, grouped(text_fields(fields))) == merged(into, grouped(fields)),
{
    assert forall|key: Seq<char>| !is_binary_key(key) implies #[trigger] values_of(
        text_fields(fields),
        key,
    ) == values_of(fields, key) by {
        lemma_text_fields_values(fields, key);
    }
}

/// The entries of `metadata` under text keys, in the map's order. The
/// entries under binary keys are passed over.
pub fn ascii_entries(metadata: &MetadataMap) -> (entries: Vec<Entry>)
    ensures
        fields_of(entries@) == text_fields(metadata_fields(*metadata)),
        forall|i: int|
            0 <= i < entries.len() ==> is_ascii_key((#[trigger] entries[i]).key@)
                && is_header_value(entries[i].value@),
{
    let all = metadata_entries(metadata);
    let ghost fields = metadata_fields(*metadata);
    let mut entries: Vec<Entry> = Vec::new();
    for item in it: all
        invariant
            it.seq().map_values(|entry: MetadataEntry| entry.field()) == fields,
            forall|i: int| 0 <= i < it.seq().len() ==> (#[trigger] it.seq()[i]).is_stored(),
            fields_of(entries@) == text_fields(fields.take(it.index() as int)),
            forall|i: int|
                0 <= i < entries.len() ==> is_ascii_key((#[trigger] entries[i]).key@)
                    && is_header_value(entries[i].value@),
    {
        proof {
            let n = it.index() as int;
            assert(fields.take(n + 1) =~= fields.take(n).push(fields[n]));
            lemma_text_fields_push(fields.take(n), fields[n]);
        }
        match item {
            MetadataEntry::Ascii(entry) => {
                entries.push(entry);
            },
            MetadataEntry::Binary(_) => {},
        }
    }
    proof {
        assert(fields.take(fields.len() as int) =~= fields);
    }
    entries
}

/// Of the text entries a merge writes those that start with `x-`, and these
/// are all that it writes.
proof fn lemma_copied_text_fields(fields: Seq<Field>)
    ensures
        copied(text_fields(fields), true) == copied(fields, true),
        copied(text_fields(fields), false) == copied(fields, true),
    decreases fields.len(),
{
    if fields.len() > 0 {
        lemma_copied_text_fields(fields.drop_last());
        if !is_binary_key(fields.last().key) {
            lemma_copied_push(text_fields(fields.drop_last()), fields.last(), true);
            lemma_copied_push(text_fields(fields.drop_last()), fields.last(), false);
        }
    }
}

/// Whether `into` has room for all that a merge of `from` writes.
pub open spec fn merge_fits(into: MetadataMap, from: MetadataMap) -> bool {
    fits(key_count(metadata_fields(into)), metadata_fields(from), true)
}

/// Tests `merge_fits`.
pub fn can_merge(into: &MetadataMap, from: &MetadataMap) -> (fits: bool)
    ensures
        fits == merge_fits(*into, *from),
{
    let entries = ascii_entries(from);
    proof {
        lemma_copied_text_fields(metadata_fields(*from));
    }
    let writes = count_eligible(&entries);
    let held = into.keys_len();
    writes == 0 || (held <= KEY_LIMIT && writes <= KEY_LIMIT - held)
}

/// Copies into `metadata_into` every text entry of `metadata_from` whose key
/// starts with `x-`. Such a key then holds one value, the last that
/// `metadata_from` holds under it; every other key of `metadata_into` keeps
/// its values, and no other key appears.
pub fn merge_metadata(metadata_into: &mut MetadataMap, metadata_from: &MetadataMap)
    requires
        merge_fits(*old(metadata_into), *metadata_from),
    ensures
        metadata_values(*final(metadata_into)) == merged(
            metadata_values(*old(metadata_into)),
            metadata_values(*metadata_from),
        ),
{
    let entries = ascii_entries(metadata_from);
    let ghost before = metadata_values(*metadata_into);
    let ghost room = key_count(metadata_fields(*metadata_into));
    let ghost text = text_fields(metadata_fields(*metadata_from));
    proof {
        lemma_copied_text_fields(metadata_fields(*metadata_from));
    }
    let mut i: usize = 0;
    while i < entries.len()
        invariant
            0 <= i <= entries.len(),
            fields_of(entries@) == text,
            fits(room, text, true),
            forall|j: int|
                0 <= j < entries.len() ==> is_ascii_key((#[trigger] entries[j]).key@)
                    && is_header_value(entries[j].value@),
            metadata_values(*metadata_into) == merged(before, grouped(text.take(i as int))),
            key_count(metadata_fields(*metadata_into)) <= room + copied(text.take(i as int), true),
        decreases entries.len() - i,
    {
        let entry = &entries[i];
        proof {
            assert(text.take(i + 1) =~= text.take(i as int).push(entry@));
            lemma_overlay_push(before, text.take(i as int), entry@, true);
            lemma_copied_push(text.take(i as int), entry@, true);
            lemma_copied_take(text, i + 1, true);
        }
        if is_eligible(entry.key.as_str()) {
            let ghost held = metadata_fields(*metadata_into);
            metadata_insert(
                metadata_into,
                entry.key.as_str(),
                entry.value.as_slice(),
                entry.sensitive,
            );
            proof {
                lemma_insert_adds_a_key(
                    held,
                    metadata_fields(*metadata_into),
                    entry.key@,
                    seq![entry@.value],
                );
            }
        }
        i += 1;
    }
    proof {
        assert(text.take(entries.len() as int) =~= text);
        lemma_merged_text_fields(before, metadata_fields(*metadata_from));
    }
}

} // verus!
