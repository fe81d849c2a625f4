use vstd::prelude::*;

verus! {

/// A JSON number as the JSON reader classifies it.
///
/// A non-negative integer is `PosInt`, a negative integer `NegInt`, and any
/// other number `Float`, which holds the IEEE-754 bit pattern of the `f64`.
#[derive(Clone, Copy, PartialEq, Eq, Debug)]
pub enum JsonNumber {
    PosInt(u64),
    NegInt(i64),
    Float(u64),
}

/// A JSON value. An object keeps its entries in order; a parsed object
/// never holds a key twice.
#[derive(Debug)]
pub enum JsonValue {
    Null,
    Bool(bool),
    Number(JsonNumber),
    String(String),
    Array(Vec<JsonValue>),
    Object(Vec<(String, JsonValue)>),
}

/// The value stored under `key` among `entries`: the first entry with that key.
pub open spec fn entry_lookup(entries: Seq<(String, JsonValue)>, key: Seq<char>) -> Option<JsonValue>
    decreases entries.len(),
{
    if entries.len() == 0 {
        None
    } else if entries[0].0@ == key {
        Some(entries[0].1)
    } else {
        entry_lookup(entries.drop_first(), key)
    }
}

/// `value.get(key)`: the member `key` of an object, `None` for anything else.
pub open spec fn json_get(value: JsonValue, key: Seq<char>) -> Option<JsonValue> {
    match value {
        JsonValue::Object(entries) => entry_lookup(entries@, key),
        _ => None,
    }
}

/// `value.as_u64()`: the number when it is a non-negative integer.
pub open spec fn json_as_u64(value: JsonValue) -> Option<u64> {
    match value {
        JsonValue::Number(JsonNumber::PosInt(n)) => Some(n),
        _ => None,
    }
}

/// `value.as_f64()` succeeds exactly on numbers; the number itself is kept.
pub open spec fn json_as_number(value: JsonValue) -> Option<JsonNumber> {
    match value {
        JsonValue::Number(n) => Some(n),
        _ => None,
    }
}

/// `value.as_str()`: the text of a string.
pub open spec fn json_as_str(value: JsonValue) -> Option<Seq<char>> {
    match value {
        JsonValue::String(s) => Some(s@),
        _ => None,
    }
}

/// `value.as_array()`: the elements of an array.
pub open spec fn json_as_array(value: JsonValue) -> Option<Seq<JsonValue>> {
    match value {
        JsonValue::Array(items) => Some(items@),
        _ => None,
    }
}

proof fn lemma_entry_lookup_step(entries: Seq<(String, JsonValue)>, key: Seq<char>, i: int)
    requires
        0 <= i < entries.len(),
        forall|j: int| 0 <= j < i ==> (#[trigger] entries[j]).0@ != key,
    ensures
        entry_lookup(entries, key) == entry_lookup(entries.subrange(i, entries.len() as int), key),
    decreases i,
{
    if i > 0 {
        assert(entries.drop_first().subrange(i - 1, entries.len() - 1) =~= entries.subrange(
            i,
            entries.len() as int,
        ));
        assert forall|j: int| 0 <= j < i - 1 implies (#[trigger] entries.drop_first()[j]).0@ != key by {
            assert(entries.drop_first()[j] == entries[j + 1]);
        }
        lemma_entry_lookup_step(entries.drop_first(), key, i - 1);
    } else {
        assert(entries.subrange(0, entries.len() as int) =~= entries);
    }
}

/// The member `key` of an object; `None` for a missing key or a value that
/// is not an object.
pub fn get<'a>(value: &'a JsonValue, key: &str) -> (res: Option<&'a JsonValue>)
    ensures
        match res {
            Some(r) => json_get(*value, key@) == Some(*r),
            None => json_get(*value, key@) is None,
        },
{
    match value {
        JsonValue::Object(entries) => {
            let wanted = String::from_str(key);
            let mut i: usize = 0;
            while i < entries.len()
                invariant
                    i <= entries.len(),
                    wanted@ == key@,
                    json_get(*value, key@) == entry_lookup(entries@, key@),
                    forall|j: int| 0 <= j < i ==> (#[trigger] entries@[j]).0@ != key@,
                decreases entries.len() - i,
            {
                proof {
                    lemma_entry_lookup_step(entries@, key@, i as int);
                }
                if entries[i].0 == wanted {
                    assert(entries@.subrange(i as int, entries@.len() as int)[0] == entries@[i as int]);
                    return Some(&entries[i].1);
                }
                i = i + 1;
            }
            proof {
                lemma_entry_lookup_none(entries@, key@);
            }
            None
        },
        _ => None,
    }
}

proof fn lemma_entry_lookup_none(entries: Seq<(String, JsonValue)>, key: Seq<char>)
    requires
        forall|j: int| 0 <= j < entries.len() ==> (#[trigger] entries[j]).0@ != key,
    ensures
        entry_lookup(entries, key) is None,
    decreases entries.len(),
{
    if entries.len() > 0 {
        assert forall|j: int| 0 <= j < entries.len() - 1 implies (#[trigger] entries.drop_first()[j]).0@ != key by {
            assert(entries.drop_first()[j] == entries[j + 1]);
        }
        lemma_entry_lookup_none(entries.drop_first(), key);
    }
}

} // verus!
