//! Key derivation: a stable 64-bit identifier computed from input text.

use vstd::prelude::*;
use vstd::std_specs::hash::DefaultHasherAdditionalSpecFns;
use std::collections::hash_map::DefaultHasher;
use std::hash::Hasher;

verus! {

/// The cache key of a piece of content: the value a fresh
/// `DefaultHasher` yields after a single write of the content's UTF-8
/// bytes. A function of the content alone, so equal content always
/// derives equal keys.
pub open spec fn key_of(content: Seq<char>) -> u64 {
    DefaultHasher::spec_finish(seq![vstd::utf8::encode_utf8(content)])
}

/// Derives the stable 64-bit cache key of `content`.
pub fn hash_content(content: &str) -> (r: u64)
    ensures
        r == key_of(content@),
{
    let mut hasher = DefaultHasher::new();
    hasher.write(content.as_bytes());
    proof {
        assert(hasher@ =~= seq![vstd::utf8::encode_utf8(content@)]);
    }
    hasher.finish()
}

/// Law: key derivation is deterministic. Two contents with equal
/// character sequences derive the same cache key.
pub proof fn lemma_derive_deterministic(c1: Seq<char>, c2: Seq<char>)
    requires
        c1 == c2,
    ensures
        key_of(c1) == key_of(c2),
{
}

} // verus!
