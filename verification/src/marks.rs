//! Sets of token keys, kept in the hash set of `rustc_hash`.

use vstd::prelude::*;
use rustc_hash::{FxBuildHasher, FxHashSet};
use crate::tree::TokenKey;

verus! {

/// The hasher that `rustc_hash` gives its sets. Nothing is known of a value
/// of it.
#[verifier::external_type_specification]
#[verifier::external_body]
pub struct ExFxBuildHasher(FxBuildHasher);

/// `FxHashSet::default`: a set that holds no key.
#[verifier::external_body]
pub(crate) fn empty_set() -> (set: FxHashSet<TokenKey>)
    ensures
        set@ == Set::<TokenKey>::empty(),
{
    FxHashSet::default()
}

/// `HashSet::insert` on a set of `rustc_hash`: afterwards the set holds `key`
/// and what it held before.
#[verifier::external_body]
pub(crate) fn insert_key(set: &mut FxHashSet<TokenKey>, key: TokenKey)
    ensures
        final(set)@ == old(set)@.insert(key),
{
    set.insert(key);
}

/// `HashSet::remove` on a set of `rustc_hash`: tells whether the set held
/// `key`; afterwards the set holds what it held before, without `key`.
#[verifier::external_body]
pub(crate) fn remove_key(set: &mut FxHashSet<TokenKey>, key: TokenKey) -> (held: bool)
    ensures
        held == old(set)@.contains(key),
        final(set)@ == old(set)@.remove(key),
{
    set.remove(&key)
}

/// `HashSet::contains` on a set of `rustc_hash`: tells whether the set holds
/// `key`.
#[verifier::external_body]
pub(crate) fn holds_key(set: &FxHashSet<TokenKey>, key: TokenKey) -> (held: bool)
    ensures
        held == set@.contains(key),
{
    set.contains(&key)
}

} // verus!
