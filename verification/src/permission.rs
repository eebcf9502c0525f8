//! Who may write a user's records.
//!
//! The owner always may. Anyone else must present a grant: an account that
//! is not empty and that lies where a grant from the owner to them would
//! lie, for all namespaces or for the one at hand. The caller says which
//! account to look at; where it must lie is computed here.

use crate::address::{
    authority_record_key, find_authority_record_address, is_derived, Address, ALL_SCOPES,
};
use vstd::prelude::*;

verus! {

/// The account that a caller presents as their grant: where it lies, and
/// whether anything is stored there. What is stored is never read.
#[derive(Clone, Copy, Debug)]
pub struct GrantRef {
    pub key: Address,
    pub data_is_empty: bool,
}

/// Which grant a presented account turned out to be.
#[derive(Clone, Copy, Debug, PartialEq, Eq, Structural)]
pub enum GrantScope {
    /// The grant for every namespace of the owner.
    All,
    /// The grant for the namespace at hand.
    Namespace,
}

/// The grant that `authority_record` is for writes by `authority_key` to the
/// records of `user_key` under `namespace`, if it is one. The grant for all
/// namespaces is looked for first.
pub open spec fn grant_scope(
    namespace: Seq<char>,
    program_id: Address,
    authority_record: GrantRef,
    user_key: Address,
    authority_key: Address,
) -> Option<GrantScope> {
    if authority_record.data_is_empty {
        None
    } else if authority_record_key(user_key, authority_key, ALL_SCOPES@, program_id) == Some(
        authority_record.key@,
    ) {
        Some(GrantScope::All)
    } else if authority_record_key(user_key, authority_key, namespace, program_id) == Some(
        authority_record.key@,
    ) {
        Some(GrantScope::Namespace)
    } else {
        None
    }
}

/// Whether `authority_key` may write the records of `user_key` under
/// `namespace` on the strength of `authority_record`.
pub open spec fn permitted(
    namespace: Seq<char>,
    program_id: Address,
    authority_record: GrantRef,
    user_key: Address,
    authority_key: Address,
) -> bool {
    user_key == authority_key || grant_scope(
        namespace,
        program_id,
        authority_record,
        user_key,
        authority_key,
    ) is Some
}

/// Finds out which grant the presented account is, if any.
pub fn presented_grant_scope(
    namespace: &str,
    program_id: &Address,
    authority_record: &GrantRef,
    user_key: &Address,
    authority_key: &Address,
) -> (scope: Option<GrantScope>)
    ensures
        scope == grant_scope(namespace@, *program_id, *authority_record, *user_key, *authority_key),
{
    // An account that holds nothing grants nothing, wherever it lies.
    if authority_record.data_is_empty {
        return None;
    }
    let all_scopes = find_authority_record_address(user_key, authority_key, ALL_SCOPES, program_id);
    if is_derived(&all_scopes, &authority_record.key) {
        return Some(GrantScope::All);
    }
    let namespaced = find_authority_record_address(user_key, authority_key, namespace, program_id);
    if is_derived(&namespaced, &authority_record.key) {
        return Some(GrantScope::Namespace);
    }
    None
}

/// Checks if the given authority can edit the records of the given user
/// under `namespace`.
pub fn check_record_permission(
    namespace: String,
    program_id: &Address,
    authority_record: &GrantRef,
    user_key: &Address,
    authority_key: &Address,
) -> (allowed: bool)
    ensures
        allowed == permitted(namespace@, *program_id, *authority_record, *user_key, *authority_key),
{
    if *user_key == *authority_key {
        return true;
    }
    presented_grant_scope(
        namespace.as_str(),
        program_id,
        authority_record,
        user_key,
        authority_key,
    ).is_some()
}

} // verus!
