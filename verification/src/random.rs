//! Random choices, made with the `rand` crate's thread generator.  Seeding
//! that generator panics when the operating system gives no randomness; the
//! contracts below leave that case unsaid.
use vstd::prelude::*;
use rand::seq::IndexedRandom;
use rand::seq::SliceRandom;
use crate::role::Role;

verus! {

/// Shuffles the roles in place with `SliceRandom::shuffle` on the thread
/// generator: the result holds the same roles, in an order left to chance.
#[verifier::external_body]
pub(crate) fn shuffle_roles(roles: &mut Vec<Role>)
    ensures
        final(roles)@.len() == old(roles)@.len(),
        final(roles)@.to_multiset() == old(roles)@.to_multiset(),
{
    roles.shuffle(&mut rand::rng());
}

/// Picks one role with `IndexedRandom::choose` on the thread generator:
/// `None` exactly for an empty list, otherwise one of its roles.
#[verifier::external_body]
pub(crate) fn choose_role(roles: &Vec<Role>) -> (r: Option<Role>)
    ensures
        r is None <==> roles@.len() == 0,
        r matches Some(x) ==> roles@.contains(x),
{
    roles.choose(&mut rand::rng()).copied()
}

/// Picks `amount` roles at distinct positions with
/// `IndexedRandom::choose_multiple` on the thread generator (which clamps
/// `amount` to the list length); which positions, and their order, is left
/// to chance.
#[verifier::external_body]
pub(crate) fn choose_roles(roles: &Vec<Role>, amount: usize) -> (r: Vec<Role>)
    ensures
        r@.len() == if amount <= roles@.len() { amount as nat } else { roles@.len() },
        r@.to_multiset().subset_of(roles@.to_multiset()),
{
    roles.choose_multiple(&mut rand::rng(), amount).copied().collect()
}

} // verus!
