//! Hashes of texts.

use std::collections::hash_map::DefaultHasher;
use std::hash::{Hash, Hasher};
use vstd::prelude::*;
use vstd::std_specs::hash::*;
use vstd::string::*;

verus! {

/// What a text feeds into a hasher.
pub uninterp spec fn fed(text: Seq<char>) -> Seq<Seq<u8>>;

/// Feeds `text` into a hasher with `str`'s implementation of `Hash::hash`. What it feeds is a
/// function of the text, as equal texts have equal hashes. Nothing more is claimed of it.
#[verifier::external_body]
pub(crate) fn feed(text: &str, hasher: &mut DefaultHasher)
    ensures
        final(hasher)@ == old(hasher)@ + fed(text@),
{
    text.hash(hasher);
}

/// The hash of a text: what a fresh `DefaultHasher` makes of it.
pub open spec fn hash_of(text: Seq<char>) -> u64 {
    DefaultHasher::spec_finish(fed(text))
}

/// The hash that the standard library gives `text` with a fresh `DefaultHasher`.
pub fn text_hash(text: &str) -> (r: u64)
    ensures
        r == hash_of(text@),
{
    let mut hasher = DefaultHasher::new();
    feed(text, &mut hasher);
    assert(hasher@ =~= fed(text@));
    hasher.finish()
}

} // verus!
