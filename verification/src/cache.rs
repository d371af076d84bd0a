//! The content-addressed response cache: bodies stored under the
//! derived key of the input content that produced them.

use vstd::prelude::*;
use std::collections::HashMap;
use crate::digits::{dec_digits, u64_dec_chars};
use crate::hash::{hash_content, key_of};
use crate::text::chars_string;

verus! {

/// The file name a key's entry is persisted under in a durable mirror
/// of the cache.
pub open spec fn cache_file_name_spec(key: u64) -> Seq<char> {
    "cache_"@ + dec_digits(key as int) + ".txt"@
}

/// Builds the durable file name of `key`'s entry.
pub fn cache_file_name(key: u64) -> (r: String)
    ensures
        r@ == cache_file_name_spec(key),
{
    let mut s = String::new();
    s.append("cache_");
    let digits = u64_dec_chars(key);
    let digits_str = chars_string(&digits);
    s.append(digits_str.as_str());
    s.append(".txt");
    proof {
        assert(s@ =~= cache_file_name_spec(key));
    }
    s
}

broadcast use vstd::std_specs::hash::group_hash_axioms;

/// The cache contents after storing `body` for `content`.
pub open spec fn spec_store(m: Map<u64, Seq<char>>, content: Seq<char>, body: Seq<char>) -> Map<
    u64,
    Seq<char>,
> {
    m.insert(key_of(content), body)
}

/// What loading `content` from cache contents `m` yields.
pub open spec fn spec_load(m: Map<u64, Seq<char>>, content: Seq<char>) -> Option<Seq<char>> {
    if m.contains_key(key_of(content)) {
        Some(m[key_of(content)])
    } else {
        None
    }
}

/// Law: cache idempotence. After a body is stored for some content,
/// loading that content yields exactly that body, whatever the cache
/// held before; only a later store for the same content replaces it.
pub proof fn lemma_store_then_load(m: Map<u64, Seq<char>>, content: Seq<char>, body: Seq<char>)
    ensures
        spec_load(spec_store(m, content, body), content) == Some(body),
{
}

/// A cache of reply bodies keyed by the derived key of the input
/// content. Lookup and store go through the same key derivation, so a
/// store for some content is always found by a later load of the same
/// content.
pub struct ResponseCache {
    entries: HashMap<u64, String>,
}

impl View for ResponseCache {
    type V = Map<u64, Seq<char>>;

    closed spec fn view(&self) -> Map<u64, Seq<char>> {
        self.entries@.map_values(|s: String| s@)
    }
}

impl ResponseCache {
    /// An empty cache.
    pub fn new() -> (c: ResponseCache)
        ensures
            c@ == Map::<u64, Seq<char>>::empty(),
    {
        let c = ResponseCache { entries: HashMap::new() };
        proof {
            assert(c@ =~= Map::<u64, Seq<char>>::empty());
        }
        c
    }

    /// The stable storage address of `content`: its derived key.
    pub fn locate(&self, content: &str) -> (k: u64)
        ensures
            k == key_of(content@),
    {
        hash_content(content)
    }

    /// The body previously stored for `content`, if one is present.
    pub fn load(&self, content: &str) -> (r: Option<String>)
        ensures
            match r {
                Some(b) => spec_load(self@, content@) == Some(b@),
                None => spec_load(self@, content@) is None,
            },
    {
        let k = hash_content(content);
        match self.entries.get(&k) {
            Some(s) => Some(s.clone()),
            None => None,
        }
    }

    /// Stores `body` for `content`, replacing any earlier body stored
    /// for the same content.
    pub fn store(&mut self, content: &str, body: String)
        ensures
            final(self)@ == spec_store(old(self)@, content@, body@),
    {
        let k = hash_content(content);
        let _ = self.entries.insert(k, body);
        proof {
            assert(self@ =~= spec_store(old(self)@, content@, body@));
        }
    }
}

} // verus!
