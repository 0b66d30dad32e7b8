//! The multimap that a sequence of entries stands for, and what a merge
//! makes of two of them.
//!
//! A map hands out its entries in an order of its own choosing, but the
//! values of one key always come out in the order in which they went in. So
//! the contracts speak of a map from each key to its values, and leave the
//! order of the keys alone.

use vstd::prelude::*;
use crate::field::{fields_of, is_eligible, travels, Entry, Field, Value};

verus! {

/// The values that `entries` holds under `key`, in their order.
pub open spec fn values_of(entries: Seq<Field>, key: Seq<char>) -> Seq<Value>
    decreases entries.len(),
{
    if entries.len() == 0 {
        Seq::empty()
    } else if entries.last().key == key {
        values_of(entries.drop_last(), key).push(entries.last().value)
    } else {
        values_of(entries.drop_last(), key)
    }
}

/// Each key of `entries` with its values.
pub open spec fn grouped(entries: Seq<Field>) -> Map<Seq<char>, Seq<Value>> {
    Map::new(
        |key: Seq<char>| values_of(entries, key).len() > 0,
        |key: Seq<char>| values_of(entries, key),
    )
}

/// `into` after every key of `from` that travels has been written over it:
/// such a key ends with one value, the last that `from` holds under it.
/// Every other key keeps what `into` had.
pub open spec fn overlay(
    into: Map<Seq<char>, Seq<Value>>,
    from: Map<Seq<char>, Seq<Value>>,
    text_only: bool,
) -> Map<Seq<char>, Seq<Value>> {
    Map::new(
        |key: Seq<char>|
            into.contains_key(key) || (travels(key, text_only) && from.contains_key(key)),
        |key: Seq<char>|
            if travels(key, text_only) && from.contains_key(key) {
                seq![from[key].last()]
            } else {
                into[key]
            },
    )
}

/// What a metadata merge leaves in `into`: the text values of `from` under
/// keys that start with `x-`, written over `into`.
pub open spec fn merged(
    into: Map<Seq<char>, Seq<Value>>,
    from: Map<Seq<char>, Seq<Value>>,
) -> Map<Seq<char>, Seq<Value>> {
    overlay(into, from, true)
}

/// What mirroring leaves in the response's headers: the request's headers
/// under keys that start with `x-`, written over them.
pub open spec fn mirrored(
    response: Map<Seq<char>, Seq<Value>>,
    request: Map<Seq<char>, Seq<Value>>,
) -> Map<Seq<char>, Seq<Value>> {
    overlay(response, request, false)
}

/// How many entries of `from` a merge writes: those whose key travels.
pub open spec fn copied(from: Seq<Field>, text_only: bool) -> nat
    decreases from.len(),
{
    if from.len() == 0 {
        0
    } else if travels(from.last().key, text_only) {
        copied(from.drop_last(), text_only) + 1
    } else {
        copied(from.drop_last(), text_only)
    }
}

/// How many keys `entries` has.
pub open spec fn key_count(entries: Seq<Field>) -> nat {
    grouped(entries).dom().len()
}

/// The most keys that a map may end with where entries are written into
/// it. A header map never grows past 32768 slots, and one that has met many
/// colliding keys asks for twice its slots as soon as a fifth of them are
/// taken: with fewer keys than this it never asks for more than it may
/// have, and so takes one more.
pub const KEY_LIMIT: usize = 6554;

/// Whether a map of `held` keys has room for all that a merge of `from`
/// writes, were each entry written under a key of its own. A merge that
/// writes nothing needs no room.
pub open spec fn fits(held: nat, from: Seq<Field>, text_only: bool) -> bool {
    copied(from, text_only) == 0 || held + copied(from, text_only) <= KEY_LIMIT
}

pub proof fn lemma_copied_push(from: Seq<Field>, field: Field, text_only: bool)
    ensures
        copied(from.push(field), text_only) == if travels(field.key, text_only) {
            copied(from, text_only) + 1
        } else {
            copied(from, text_only)
        },
{
    assert(from.push(field).drop_last() =~= from);
}

/// A merge writes no more entries than it has seen, and no more than it
/// will have written at the end.
pub proof fn lemma_copied_take(from: Seq<Field>, seen: int, text_only: bool)
    requires
        0 <= seen <= from.len(),
    ensures
        copied(from.take(seen), text_only) <= seen,
        copied(from.take(seen), text_only) <= copied(from, text_only),
    decreases from.len(),
{
    if seen == from.len() {
        assert(from.take(seen) =~= from);
        if seen > 0 {
            lemma_copied_take(from.drop_last(), seen - 1, text_only);
            assert(from.drop_last().take(seen - 1) =~= from.drop_last());
        }
    } else {
        lemma_copied_take(from.drop_last(), seen, text_only);
        assert(from.drop_last().take(seen) =~= from.take(seen));
    }
}

/// How many of `entries` have a key that starts with `x-`.
pub fn count_eligible(entries: &Vec<Entry>) -> (count: usize)
    ensures
        count == copied(fields_of(entries@), false),
        count <= entries.len(),
{
    let ghost fields = fields_of(entries@);
    let mut count: usize = 0;
    let mut i: usize = 0;
    while i < entries.len()
        invariant
            0 <= i <= entries.len(),
            fields == fields_of(entries@),
            count == copied(fields.take(i as int), false),
            count <= i,
        decreases entries.len() - i,
    {
        proof {
            assert(fields.take(i + 1) =~= fields.take(i as int).push(fields[i as int]));
            lemma_copied_push(fields.take(i as int), fields[i as int], false);
        }
        if is_eligible(entries[i].key.as_str()) {
            count += 1;
        }
        i += 1;
    }
    proof {
        assert(fields.take(entries.len() as int) =~= fields);
    }
    count
}

pub proof fn lemma_values_of_push(entries: Seq<Field>, field: Field, key: Seq<char>)
    ensures
        values_of(entries.push(field), key) == if field.key == key {
            values_of(entries, key).push(field.value)
        } else {
            values_of(entries, key)
        },
{
    assert(entries.push(field).drop_last() =~= entries);
}

/// One more entry, whatever came before it under its key, makes its value
/// the last one there.
pub proof fn lemma_grouped_push(entries: Seq<Field>, field: Field)
    ensures
        grouped(entries.push(field)) == grouped(entries).insert(
            field.key,
            values_of(entries, field.key).push(field.value),
        ),
{
    assert forall|key: Seq<char>|
        values_of(entries.push(field), key) == #[trigger] values_of(entries, key)
            || key == field.key by {
        lemma_values_of_push(entries, field, key);
    }
    lemma_values_of_push(entries, field, field.key);
    assert(grouped(entries.push(field)) =~= grouped(entries).insert(
        field.key,
        values_of(entries, field.key).push(field.value),
    ));
}

/// The keys of a sequence of entries are finitely many, and no more than
/// the entries.
pub proof fn lemma_keys_finite(entries: Seq<Field>)
    ensures
        grouped(entries).dom().finite(),
        key_count(entries) <= entries.len(),
    decreases entries.len(),
{
    if entries.len() == 0 {
        assert(grouped(entries).dom() =~= Set::empty());
    } else {
        lemma_keys_finite(entries.drop_last());
        lemma_grouped_push(entries.drop_last(), entries.last());
        assert(entries.drop_last().push(entries.last()) =~= entries);
    }
}

/// One insertion adds one key at most.
pub proof fn lemma_insert_adds_a_key(
    before: Seq<Field>,
    after: Seq<Field>,
    key: Seq<char>,
    values: Seq<Value>,
)
    requires
        grouped(after) == grouped(before).insert(key, values),
    ensures
        key_count(after) <= key_count(before) + 1,
{
    lemma_keys_finite(before);
}

/// Writing one more entry of `from` over `into` is one insertion where its
/// key travels, and nothing where it does not.
pub proof fn lemma_overlay_push(
    into: Map<Seq<char>, Seq<Value>>,
    entries: Seq<Field>,
    field: Field,
    text_only: bool,
)
    ensures
        overlay(into, grouped(entries.push(field)), text_only) == if travels(
            field.key,
            text_only,
        ) {
            overlay(into, grouped(entries), text_only).insert(field.key, seq![field.value])
        } else {
            overlay(into, grouped(entries), text_only)
        },
{
    lemma_grouped_push(entries, field);
    if travels(field.key, text_only) {
        assert(overlay(into, grouped(entries.push(field)), text_only) =~= overlay(
            into,
            grouped(entries),
            text_only,
        ).insert(field.key, seq![field.value]));
    }
}

/// Nothing written over `into` leaves `into`.
pub proof fn lemma_overlay_nothing(into: Map<Seq<char>, Seq<Value>>, text_only: bool)
    ensures
        overlay(into, grouped(Seq::<Field>::empty()), text_only) == into,
{
}

} // verus!
