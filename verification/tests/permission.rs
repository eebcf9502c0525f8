use one_profile::address::{find_authority_record_address, find_data_record_address, Address};
use one_profile::permission::{
    check_record_permission, presented_grant_scope, GrantRef, GrantScope,
};

fn key(n: u8) -> Address {
    Address { bytes: [n; 32] }
}

const OWNER: u8 = 1;
const DELEGATE: u8 = 2;
const STRANGER: u8 = 3;
const PROGRAM: u8 = 7;

fn grant_address(owner: u8, delegate: u8, scope: &str) -> Address {
    find_authority_record_address(&key(owner), &key(delegate), scope, &key(PROGRAM)).unwrap().0
}

fn stored(at: Address) -> GrantRef {
    GrantRef { key: at, data_is_empty: false }
}

fn empty(at: Address) -> GrantRef {
    GrantRef { key: at, data_is_empty: true }
}

fn check(namespace: &str, presented: &GrantRef, owner: u8, principal: u8) -> bool {
    check_record_permission(
        namespace.to_string(),
        &key(PROGRAM),
        presented,
        &key(owner),
        &key(principal),
    )
}

#[test]
fn the_owner_is_permitted_whatever_they_present() {
    let anywhere = key(99);
    for namespace in ["blog", "", "all", "a-namespace-that-is-longer-than-32-bytes"] {
        assert!(check(namespace, &empty(anywhere), OWNER, OWNER));
        assert!(check(namespace, &stored(anywhere), OWNER, OWNER));
        assert!(check(namespace, &empty(grant_address(OWNER, DELEGATE, "all")), OWNER, OWNER));
    }
}

#[test]
fn nobody_else_is_permitted_without_a_grant() {
    let wildcard = grant_address(OWNER, DELEGATE, "all");
    let namespaced = grant_address(OWNER, DELEGATE, "blog");
    // Nothing is stored at either address.
    assert!(!check("blog", &empty(wildcard), OWNER, DELEGATE));
    assert!(!check("blog", &empty(namespaced), OWNER, DELEGATE));
    // Something is stored, but elsewhere.
    assert!(!check("blog", &stored(key(99)), OWNER, DELEGATE));
    assert!(!check("blog", &stored(key(OWNER)), OWNER, DELEGATE));
    assert!(!check("blog", &stored(key(DELEGATE)), OWNER, DELEGATE));
    let data = find_data_record_address(&key(OWNER), "blog", &key(PROGRAM)).unwrap().0;
    assert!(!check("blog", &stored(data), OWNER, DELEGATE));
}

#[test]
fn an_empty_account_at_the_right_address_is_no_grant() {
    let wildcard = grant_address(OWNER, DELEGATE, "all");
    assert!(check("blog", &stored(wildcard), OWNER, DELEGATE));
    assert!(!check("blog", &empty(wildcard), OWNER, DELEGATE));
    assert_eq!(
        presented_grant_scope("blog", &key(PROGRAM), &empty(wildcard), &key(OWNER), &key(DELEGATE)),
        None
    );
}

#[test]
fn a_grant_for_all_permits_every_namespace() {
    let wildcard = stored(grant_address(OWNER, DELEGATE, "all"));
    for namespace in ["blog", "mail", "", "all", "a-namespace-that-is-longer-than-32-bytes"] {
        assert!(check(namespace, &wildcard, OWNER, DELEGATE));
        assert_eq!(
            presented_grant_scope(
                namespace,
                &key(PROGRAM),
                &wildcard,
                &key(OWNER),
                &key(DELEGATE)
            ),
            Some(GrantScope::All)
        );
    }
}

#[test]
fn a_grant_for_one_namespace_permits_that_namespace_only() {
    let namespaced = stored(grant_address(OWNER, DELEGATE, "blog"));
    assert!(check("blog", &namespaced, OWNER, DELEGATE));
    assert_eq!(
        presented_grant_scope("blog", &key(PROGRAM), &namespaced, &key(OWNER), &key(DELEGATE)),
        Some(GrantScope::Namespace)
    );
    for other in ["mail", "", "all", "blo", "blog2", "Blog"] {
        assert!(!check(other, &namespaced, OWNER, DELEGATE));
        assert_eq!(
            presented_grant_scope(other, &key(PROGRAM), &namespaced, &key(OWNER), &key(DELEGATE)),
            None
        );
    }
}

#[test]
fn a_grant_serves_only_the_one_it_was_given_to() {
    let wildcard = stored(grant_address(OWNER, DELEGATE, "all"));
    assert!(!check("blog", &wildcard, OWNER, STRANGER));
    let namespaced = stored(grant_address(OWNER, DELEGATE, "blog"));
    assert!(!check("blog", &namespaced, OWNER, STRANGER));
}

#[test]
fn a_grant_serves_only_for_the_records_of_the_one_who_gave_it() {
    let wildcard = stored(grant_address(OWNER, DELEGATE, "all"));
    assert!(!check("blog", &wildcard, STRANGER, DELEGATE));
    // A grant that the delegate gave to the owner is not one the other way round.
    let reverse = stored(grant_address(DELEGATE, OWNER, "all"));
    assert!(!check("blog", &reverse, OWNER, DELEGATE));
}

#[test]
fn a_grant_under_another_program_is_no_grant() {
    let elsewhere =
        find_authority_record_address(&key(OWNER), &key(DELEGATE), "all", &key(8)).unwrap().0;
    assert!(!check("blog", &stored(elsewhere), OWNER, DELEGATE));
    assert!(check_record_permission(
        "blog".to_string(),
        &key(8),
        &stored(elsewhere),
        &key(OWNER),
        &key(DELEGATE)
    ));
}

#[test]
fn under_the_namespace_all_the_grant_for_all_is_found_first() {
    let wildcard = stored(grant_address(OWNER, DELEGATE, "all"));
    assert_eq!(
        presented_grant_scope("all", &key(PROGRAM), &wildcard, &key(OWNER), &key(DELEGATE)),
        Some(GrantScope::All)
    );
}

#[test]
fn a_namespace_without_an_address_is_covered_by_the_grant_for_all_alone() {
    let long = "a-namespace-that-is-longer-than-32-bytes";
    assert!(find_authority_record_address(&key(OWNER), &key(DELEGATE), long, &key(PROGRAM))
        .is_none());
    let wildcard = stored(grant_address(OWNER, DELEGATE, "all"));
    assert!(check(long, &wildcard, OWNER, DELEGATE));
    let namespaced = stored(grant_address(OWNER, DELEGATE, "blog"));
    assert!(!check(long, &namespaced, OWNER, DELEGATE));
}
