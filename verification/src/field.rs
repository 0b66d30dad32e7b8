//! Metadata entries as plain values, and the rule that says which of them
//! travel.

use vstd::prelude::*;
use vstd::string::*;

verus! {

/// What is stored under a key: the bytes, and whether they are marked as
/// sensitive.
pub struct Value {
    pub bytes: Seq<u8>,
    pub sensitive: bool,
}

/// One entry of a map, as the contracts see it.
pub struct Field {
    pub key: Seq<char>,
    pub value: Value,
}

/// One entry of a map, as the code holds it.
#[derive(Clone, Debug, PartialEq, Eq)]
pub struct Entry {
    pub key: String,
    pub value: Vec<u8>,
    pub sensitive: bool,
}

impl View for Entry {
    type V = Field;

    open spec fn view(&self) -> Field {
        Field { key: self.key@, value: Value { bytes: self.value@, sensitive: self.sensitive } }
    }
}

/// The views of `entries`, one for one.
pub open spec fn fields_of(entries: Seq<Entry>) -> Seq<Field> {
    entries.map_values(|entry: Entry| entry@)
}

/// The longest key that a map takes, in characters.
pub const NAME_LIMIT: usize = 65535;

/// The characters of a key: lower-case letters, digits and a few signs.
pub open spec fn is_name_char(c: char) -> bool {
    ('a' <= c && c <= 'z') || ('0' <= c && c <= '9') || c == '!' || c == '"' || c == '#' || c
        == '$' || c == '%' || c == '&' || c == '\'' || c == '*' || c == '+' || c == '-' || c == '.'
        || c == '^' || c == '_' || c == '`' || c == '|' || c == '~'
}

/// A key as a header map stores it: not empty, not too long, made of name
/// characters.
pub open spec fn is_header_name(key: Seq<char>) -> bool {
    &&& 1 <= key.len() <= NAME_LIMIT
    &&& forall|i: int| 0 <= i < key.len() ==> is_name_char(#[trigger] key[i])
}

/// A key that ends in `-bin` names binary values.
pub open spec fn is_binary_key(key: Seq<char>) -> bool {
    key.len() >= 4 && key.subrange(key.len() - 4, key.len() as int) == seq!['-', 'b', 'i', 'n']
}

/// A key under which a metadata map takes a text value.
pub open spec fn is_ascii_key(key: Seq<char>) -> bool {
    is_header_name(key) && !is_binary_key(key)
}

/// The bytes of a value: no control character but the tab.
pub open spec fn is_value_byte(b: u8) -> bool {
    (b >= 32 && b != 127) || b == 9
}

/// A value as a header map stores it: made of value bytes.
pub open spec fn is_header_value(bytes: Seq<u8>) -> bool {
    forall|i: int| 0 <= i < bytes.len() ==> is_value_byte(#[trigger] bytes[i])
}

/// The whitelist: a key travels only if it starts with `x-`, in lower case.
/// `X-` does not count.
pub open spec fn has_prefix(key: Seq<char>) -> bool {
    key.len() >= 2 && key[0] == 'x' && key[1] == '-'
}

/// The keys that are copied from one map to another. A metadata map copies
/// text values only, and so passes over the binary keys; a header map knows
/// no such difference.
pub open spec fn travels(key: Seq<char>, text_only: bool) -> bool {
    has_prefix(key) && (text_only ==> !is_binary_key(key))
}

/// Tests the whitelist on a key.
pub fn is_eligible(key: &str) -> (eligible: bool)
    ensures
        eligible == has_prefix(key@),
{
    if key.unicode_len() < 2 {
        false
    } else {
        key.get_char(0) == 'x' && key.get_char(1) == '-'
    }
}

} // verus!
