//! Trusted boundary to the `indexmap` crate.
//!
//! The matcher returns its captured fields in an `IndexMap` so callers see
//! them in insertion order. The map is opaque; `imap_entries` names what it
//! holds, as a sequence of key/value pairs in insertion order, and each
//! method the library calls gets a wrapper specified over that name.

use vstd::prelude::*;
use crate::props::{lookup, upsert};

verus! {

#[verifier::external_type_specification]
#[verifier::external_body]
#[verifier::reject_recursive_types(K)]
#[verifier::reject_recursive_types(V)]
#[verifier::reject_recursive_types(S)]
pub struct ExIndexMap<K, V, S>(indexmap::IndexMap<K, V, S>);

/// The key/value pairs an `IndexMap` holds, in insertion order; keys are
/// pairwise distinct.
pub uninterp spec fn imap_entries(m: indexmap::IndexMap<String, String>) -> Seq<
    (Seq<char>, Seq<char>),
>;

/// Relies on IndexMap::new: the new map is empty.
#[verifier::external_body]
pub fn im_new() -> (r: indexmap::IndexMap<String, String>)
    ensures
        imap_entries(r) == Seq::<(Seq<char>, Seq<char>)>::empty(),
{
    indexmap::IndexMap::new()
}

/// Relies on IndexMap::insert: an existing key keeps its position and gets
/// the new value; a new key is appended last.
#[verifier::external_body]
pub fn im_insert(m: &mut indexmap::IndexMap<String, String>, key: String, value: String)
    ensures
        imap_entries(*final(m)) == upsert(imap_entries(*old(m)), key@, value@),
{
    m.insert(key, value);
}

/// Relies on IndexMap::get: the value whose key equals the lookup key.
#[verifier::external_body]
pub fn im_get<'a>(m: &'a indexmap::IndexMap<String, String>, key: &str) -> (r: Option<&'a String>)
    ensures
        match r {
            Some(v) => lookup(imap_entries(*m), key@) == Some(v@),
            None => lookup(imap_entries(*m), key@) is None,
        },
{
    m.get(key)
}

/// Relies on IndexMap::len: the number of entries.
#[verifier::external_body]
pub fn im_len(m: &indexmap::IndexMap<String, String>) -> (r: usize)
    ensures
        r == imap_entries(*m).len(),
{
    m.len()
}

} // verus!
