use vstd::prelude::*;

use crate::text::str_eq;

verus! {

/// A TOML value, as plain values.
#[derive(Debug)]
pub enum TomlValue {
    Str(String),
    Int(i64),
    Bool(bool),
    Array(Vec<TomlValue>),
    /// Keys and values in document order.
    Table(Vec<(String, TomlValue)>),
    /// A float or a date and time.
    Other,
}

/// From position `i` on, the value under `key` in a table's entries.
pub open spec fn entry_from(entries: Seq<(String, TomlValue)>, key: Seq<char>, i: int) -> Option<
    TomlValue,
>
    decreases entries.len() - i,
{
    if i < 0 || i >= entries.len() {
        None
    } else if entries[i].0@ == key {
        Some(entries[i].1)
    } else {
        entry_from(entries, key, i + 1)
    }
}

/// The value under `key` when `v` is a table holding it.
pub open spec fn field(v: TomlValue, key: Seq<char>) -> Option<TomlValue> {
    match v {
        TomlValue::Table(entries) => entry_from(entries@, key, 0),
        _ => None,
    }
}

/// The value under `key` when `v` is a table holding it.
pub fn get_field<'a>(v: &'a TomlValue, key: &str) -> (r: Option<&'a TomlValue>)
    ensures
        match r {
            Some(x) => field(*v, key@) == Some(*x),
            None => field(*v, key@) is None,
        },
{
    match v {
        TomlValue::Table(entries) => {
            let n = entries.len();
            let mut i: usize = 0;
            while i < n
                invariant
                    n == entries@.len(),
                    i <= n,
                    field(*v, key@) == entry_from(entries@, key@, 0),
                    entry_from(entries@, key@, i as int) == entry_from(entries@, key@, 0),
                decreases n - i,
            {
                if str_eq(entries[i].0.as_str(), key) {
                    return Some(&entries[i].1);
                }
                i = i + 1;
            }
            None
        },
        _ => None,
    }
}

} // verus!
