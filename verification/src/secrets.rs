//! The DeepL key as it is kept in the system keyring.
use vstd::prelude::*;
use crate::text::{chars_of, skip_ws, skip_ws_back, string_of_range, trim};

verus! {

/// What is kept for a key typed in: the key without surrounding whitespace, or nothing
/// (the stored key is deleted) when that is empty.
pub open spec fn key_to_keep(key: Seq<char>) -> Option<Seq<char>> {
    if trim(key).len() == 0 {
        None
    } else {
        Some(trim(key))
    }
}

/// The key to store for `key`, trimmed; `None` when it is blank, meaning that the stored
/// key is to be deleted.
pub fn key_to_store(key: &str) -> (r: Option<String>)
    ensures
        match key_to_keep(key@) {
            Some(k) => r matches Some(s) && s@ == k,
            None => r is None,
        },
{
    let v = chars_of(key);
    let n = v.len();
    assert(v@.subrange(0, n as int) =~= key@);
    let a = skip_ws(&v, 0, n);
    let b = skip_ws_back(&v, a, n);
    let t = string_of_range(&v, a, b);
    assert(t@ == trim(key@));
    if a == b {
        None
    } else {
        Some(t)
    }
}

} // verus!
