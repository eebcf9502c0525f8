//! What holds of the permission check and of the operations, whatever the
//! ledger and the request.

use crate::address::{authority_record_key, data_record_key, Address, ALL_SCOPES};
use crate::instructions::{
    spec_create_authority_record, spec_create_data_record, spec_delete_authority_record,
    spec_delete_data_record, spec_update_data_record, took_effect, write_authorized, written,
    CreateAuthorityRecord, CreateDataRecord, DeleteAuthorityRecord, DeleteDataRecord, Receipt,
    UpdateDataRecord,
};
use crate::ledger::{record_ok, LedgerView, RecordView};
use crate::permission::{permitted, GrantRef};
use crate::records::{byte_len, ErrorCode, MAX_METADATA_URI_LEN};
use vstd::prelude::*;

verus! {

/// A user may always write their own records, whatever they present as a
/// grant and whatever the namespace.
pub proof fn law_owner_is_permitted(
    namespace: Seq<char>,
    program_id: Address,
    authority_record: GrantRef,
    user: Address,
)
    ensures
        permitted(namespace, program_id, authority_record, user, user),
{
}

/// Whether nothing is stored where a grant from `user` to `authority` would
/// lie, neither for all namespaces nor for `namespace`.
pub open spec fn no_grant_stored(
    ledger: LedgerView,
    namespace: Seq<char>,
    user: Address,
    authority: Address,
) -> bool {
    &&& authority_record_key(user, authority, ALL_SCOPES@, ledger.program_id) matches Some(key)
        ==> !ledger.holds(key)
    &&& authority_record_key(user, authority, namespace, ledger.program_id) matches Some(key)
        ==> !ledger.holds(key)
}

/// Where nothing is stored at either address at which a grant could lie,
/// nobody but the user is permitted, whichever account they present.
pub proof fn law_no_grant_no_permission(
    ledger: LedgerView,
    namespace: Seq<char>,
    user: Address,
    authority: Address,
    presented: Address,
)
    requires
        user != authority,
        no_grant_stored(ledger, namespace, user, authority),
    ensures
        !permitted(namespace, ledger.program_id, ledger.presented(presented), user, authority),
{
}

/// Who holds a grant for all namespaces and presents it is permitted under
/// every namespace.
pub proof fn law_grant_for_all_permits_every_namespace(
    ledger: LedgerView,
    namespace: Seq<char>,
    user: Address,
    authority: Address,
    presented: Address,
)
    requires
        authority_record_key(user, authority, ALL_SCOPES@, ledger.program_id) == Some(presented@),
        ledger.holds_grant(presented@),
    ensures
        permitted(namespace, ledger.program_id, ledger.presented(presented), user, authority),
{
}

/// Who holds a grant for one namespace, and none for all namespaces nor for
/// `other`, is permitted under that namespace when they present it, and is
/// not permitted under `other`.
pub proof fn law_grant_for_one_namespace_permits_that_alone(
    ledger: LedgerView,
    namespace: Seq<char>,
    other: Seq<char>,
    user: Address,
    authority: Address,
    presented: Address,
)
    requires
        user != authority,
        authority_record_key(user, authority, namespace, ledger.program_id) == Some(presented@),
        ledger.holds_grant(presented@),
        no_grant_stored(ledger, other, user, authority),
    ensures
        permitted(namespace, ledger.program_id, ledger.presented(presented), user, authority),
        !permitted(other, ledger.program_id, ledger.presented(presented), user, authority),
{
}

/// Whether `create` is a request that succeeds on `ledger`: the URI fits,
/// the writer is permitted, and the address of the record can be derived
/// and is free.
pub open spec fn can_create(
    ledger: LedgerView,
    create: CreateDataRecord,
    metadata_uri: Seq<char>,
    namespace: Seq<char>,
) -> bool {
    &&& write_authorized(
        metadata_uri,
        namespace,
        ledger.program_id,
        ledger.presented(create.authority_record),
        create.user,
        create.authority,
    ) is Ok
    &&& data_record_key(create.user, namespace, ledger.program_id) matches Some(key)
        && !ledger.holds(key)
}

/// A request that passes its checks and finds its address free creates
/// the record there, written by the one who asked and dated by the clock.
pub proof fn law_create_succeeds(
    ledger: LedgerView,
    create: CreateDataRecord,
    metadata_uri: Seq<char>,
    namespace: Seq<char>,
)
    requires
        can_create(ledger, create, metadata_uri, namespace),
    ensures
        spec_create_data_record(ledger, create, metadata_uri, namespace) matches Ok(created)
            && data_record_key(create.user, namespace, ledger.program_id) matches Some(key)
            && created == ledger.with(key, written(create.authority, ledger.clock, metadata_uri)),
{
}

/// Create, delete, create: a record that was created and then deleted by
/// someone permitted to do so leaves the ledger as it was before, and the
/// same request creates it once more.
pub proof fn law_create_delete_create(
    ledger: LedgerView,
    create: CreateDataRecord,
    metadata_uri: Seq<char>,
    namespace: Seq<char>,
    delete: DeleteDataRecord,
)
    requires
        can_create(ledger, create, metadata_uri, namespace),
        delete.user == create.user,
        spec_create_data_record(ledger, create, metadata_uri, namespace) matches Ok(created)
            ==> permitted(
            namespace,
            created.program_id,
            created.presented(delete.authority_record),
            delete.user,
            delete.authority,
        ),
    ensures
        spec_create_data_record(ledger, create, metadata_uri, namespace) matches Ok(created)
            && spec_delete_data_record(created, delete, namespace) matches Ok(deleted) && deleted
            == ledger && spec_create_data_record(deleted, create, metadata_uri, namespace) is Ok,
{
    let key = data_record_key(create.user, namespace, ledger.program_id)->Some_0;
    let created = ledger.with(key, written(create.authority, ledger.clock, metadata_uri));
    assert(created.without(key).records =~= ledger.records);
    assert(created.without(key) == ledger);
}

/// Create twice: once a record was created, every further request to create
/// the record of the same user and namespace that passes its checks fails
/// with `AlreadyExists`.
pub proof fn law_create_twice_already_exists(
    ledger: LedgerView,
    first: CreateDataRecord,
    first_uri: Seq<char>,
    second: CreateDataRecord,
    second_uri: Seq<char>,
    namespace: Seq<char>,
)
    requires
        spec_create_data_record(ledger, first, first_uri, namespace) is Ok,
        second.user == first.user,
        spec_create_data_record(ledger, first, first_uri, namespace) matches Ok(created)
            ==> write_authorized(
            second_uri,
            namespace,
            created.program_id,
            created.presented(second.authority_record),
            second.user,
            second.authority,
        ) is Ok,
    ensures
        spec_create_data_record(ledger, first, first_uri, namespace) matches Ok(created)
            && spec_create_data_record(created, second, second_uri, namespace) == Err::<
            LedgerView,
            ErrorCode,
        >(ErrorCode::AlreadyExists),
{
}

/// The same request, made again at once, is such a further request: storing
/// a record takes no permission away.
pub proof fn law_create_repeated_already_exists(
    ledger: LedgerView,
    create: CreateDataRecord,
    metadata_uri: Seq<char>,
    namespace: Seq<char>,
)
    requires
        spec_create_data_record(ledger, create, metadata_uri, namespace) is Ok,
    ensures
        spec_create_data_record(ledger, create, metadata_uri, namespace) matches Ok(created)
            && spec_create_data_record(created, create, metadata_uri, namespace) == Err::<
            LedgerView,
            ErrorCode,
        >(ErrorCode::AlreadyExists),
{
}

/// Deleting the record of a user and namespace that have none fails with
/// `NotFound`, for every caller that is permitted to delete it.
pub proof fn law_delete_of_nothing_is_not_found(
    ledger: LedgerView,
    ctx: DeleteDataRecord,
    namespace: Seq<char>,
)
    requires
        permitted(
            namespace,
            ledger.program_id,
            ledger.presented(ctx.authority_record),
            ctx.user,
            ctx.authority,
        ),
        data_record_key(ctx.user, namespace, ledger.program_id) matches Some(key)
            ==> !ledger.holds_data(key),
    ensures
        spec_delete_data_record(ledger, ctx, namespace) == Err::<LedgerView, ErrorCode>(
            ErrorCode::NotFound,
        ),
{
}

/// An operation that returns an error has changed nothing, and one that
/// returns none has left the ledger that its outcome names.
pub proof fn law_failure_leaves_ledger_untouched(
    pre: LedgerView,
    post: LedgerView,
    result: Result<Receipt, ErrorCode>,
    outcome: Result<LedgerView, ErrorCode>,
)
    requires
        took_effect(pre, post, result, outcome),
    ensures
        result is Err ==> post == pre && outcome is Err,
        result is Ok ==> outcome == Ok::<LedgerView, ErrorCode>(post),
{
}

/// A URI that is longer than the bound is refused before anything else is
/// looked at, whoever asks; one within the bound is never refused for its
/// length.
pub proof fn law_uri_bound(
    metadata_uri: Seq<char>,
    namespace: Seq<char>,
    program_id: Address,
    authority_record: GrantRef,
    user: Address,
    authority: Address,
)
    ensures
        byte_len(metadata_uri) > MAX_METADATA_URI_LEN <==> write_authorized(
            metadata_uri,
            namespace,
            program_id,
            authority_record,
            user,
            authority,
        ) == Err::<(), ErrorCode>(ErrorCode::MetadataUriOverflow),
{
}

/// Every operation keeps a well-formed ledger well formed.
pub proof fn law_operations_keep_well_formed(
    ledger: LedgerView,
    create: CreateDataRecord,
    update: UpdateDataRecord,
    delete: DeleteDataRecord,
    grant: CreateAuthorityRecord,
    revoke: DeleteAuthorityRecord,
    metadata_uri: Seq<char>,
    name: Seq<char>,
)
    requires
        ledger.well_formed(),
    ensures
        spec_create_data_record(ledger, create, metadata_uri, name) matches Ok(next)
            ==> next.well_formed(),
        spec_update_data_record(ledger, update, metadata_uri, name) matches Ok(next)
            ==> next.well_formed(),
        spec_delete_data_record(ledger, delete, name) matches Ok(next) ==> next.well_formed(),
        spec_create_authority_record(ledger, grant, name) matches Ok(next) ==> next.well_formed(),
        spec_delete_authority_record(ledger, revoke, name) matches Ok(next) ==> next.well_formed(),
{
    if let Ok(next) = spec_create_data_record(ledger, create, metadata_uri, name) {
        assert forall|key: Seq<u8>| #[trigger] next.holds(key) implies record_ok(
            next.records[key],
            next.clock,
        ) by {
            if key != data_record_key(create.user, name, ledger.program_id)->Some_0 {
                assert(ledger.holds(key));
            }
        }
    }
    if let Ok(next) = spec_update_data_record(ledger, update, metadata_uri, name) {
        assert forall|key: Seq<u8>| #[trigger] next.holds(key) implies record_ok(
            next.records[key],
            next.clock,
        ) by {
            if key != data_record_key(update.user, name, ledger.program_id)->Some_0 {
                assert(ledger.holds(key));
            }
        }
    }
    if let Ok(next) = spec_delete_data_record(ledger, delete, name) {
        assert forall|key: Seq<u8>| #[trigger] next.holds(key) implies record_ok(
            next.records[key],
            next.clock,
        ) by {
            assert(ledger.holds(key));
        }
    }
    if let Ok(next) = spec_create_authority_record(ledger, grant, name) {
        assert forall|key: Seq<u8>| #[trigger] next.holds(key) implies record_ok(
            next.records[key],
            next.clock,
        ) by {
            let granted = authority_record_key(
                grant.user,
                grant.authority,
                name,
                ledger.program_id,
            )->Some_0;
            if key != granted {
                assert(ledger.holds(key));
            }
        }
    }
    if let Ok(next) = spec_delete_authority_record(ledger, revoke, name) {
        assert forall|key: Seq<u8>| #[trigger] next.holds(key) implies record_ok(
            next.records[key],
            next.clock,
        ) by {
            assert(ledger.holds(key));
        }
    }
}

/// The date of a data record never moves back: an update of a record in a
/// well-formed ledger leaves it with a date that is no earlier than the one
/// it had, with the one who asked as its writer, and with the new URI.
pub proof fn law_update_keeps_time_order(
    ledger: LedgerView,
    update: UpdateDataRecord,
    metadata_uri: Seq<char>,
    namespace: Seq<char>,
)
    requires
        ledger.well_formed(),
        spec_update_data_record(ledger, update, metadata_uri, namespace) is Ok,
    ensures
        spec_update_data_record(ledger, update, metadata_uri, namespace) matches Ok(next)
            && data_record_key(update.user, namespace, ledger.program_id) matches Some(key)
            && ledger.records[key] matches RecordView::Data(before)
            && next.records[key] matches RecordView::Data(after) && before.last_updated
            <= after.last_updated && after.authority == update.authority && after.metadata_uri
            == metadata_uri,
{
    let key = data_record_key(update.user, namespace, ledger.program_id)->Some_0;
    assert(ledger.holds(key));
}

/// Granting and taking back: a grant that its user took back leaves the
/// ledger as it was before the grant.
pub proof fn law_grant_then_revoke(
    ledger: LedgerView,
    grant: CreateAuthorityRecord,
    revoke: DeleteAuthorityRecord,
    scope: Seq<char>,
)
    requires
        spec_create_authority_record(ledger, grant, scope) is Ok,
        revoke.user == grant.user,
        revoke.authority == grant.authority,
        revoke.signer == revoke.user,
    ensures
        spec_create_authority_record(ledger, grant, scope) matches Ok(granted)
            && spec_delete_authority_record(granted, revoke, scope) == Ok::<LedgerView, ErrorCode>(
            ledger,
        ),
{
    let key = authority_record_key(grant.user, grant.authority, scope, ledger.program_id)->Some_0;
    let granted = spec_create_authority_record(ledger, grant, scope)->Ok_0;
    assert(granted.without(key).records =~= ledger.records);
    assert(granted.without(key) == ledger);
}

/// A grant that was taken back serves no longer: whoever presents the
/// address it lay at is refused under every namespace, unless they are the
/// user.
pub proof fn law_revoked_grant_is_refused(
    ledger: LedgerView,
    revoke: DeleteAuthorityRecord,
    scope: Seq<char>,
    namespace: Seq<char>,
    presented: Address,
)
    requires
        revoke.user != revoke.authority,
        spec_delete_authority_record(ledger, revoke, scope) is Ok,
        authority_record_key(revoke.user, revoke.authority, scope, ledger.program_id) == Some(
            presented@,
        ),
    ensures
        spec_delete_authority_record(ledger, revoke, scope) matches Ok(revoked) && !permitted(
            namespace,
            revoked.program_id,
            revoked.presented(presented),
            revoke.user,
            revoke.authority,
        ),
{
}

} // verus!
