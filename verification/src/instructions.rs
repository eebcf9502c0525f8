//! The five operations on a ledger.
//!
//! Each operation checks its request in a fixed order and changes the ledger
//! only when every check has passed: a request that fails leaves the ledger
//! as it was.

use crate::address::{
    authority_record_key, data_record_key, find_authority_record_address,
    find_data_record_address, Address,
};
use crate::ledger::{Ledger, LedgerView, Record, RecordView};
use crate::permission::{check_record_permission, permitted, GrantRef};
use crate::records::{
    byte_len, ErrorCode, UserAuthorityRecord, UserDataRecord, UserDataRecordView,
    MAX_METADATA_URI_LEN,
};
use vstd::prelude::*;

verus! {

/// A request to create the data record of `user` under a namespace.
#[derive(Clone, Copy, Debug)]
pub struct CreateDataRecord {
    /// The user for whom the record is created.
    pub user: Address,
    /// The principal that signed the request and pays for the record. It is
    /// the user where the user acts for themselves.
    pub authority: Address,
    /// The account that `authority` presents as their grant. It may be any
    /// address where `authority` is the user.
    pub authority_record: Address,
}

/// A request to overwrite the data record of `user` under a namespace.
#[derive(Clone, Copy, Debug)]
pub struct UpdateDataRecord {
    /// The user whose record is written.
    pub user: Address,
    /// The principal that signed the request.
    pub authority: Address,
    /// The account that `authority` presents as their grant.
    pub authority_record: Address,
}

/// A request to remove the data record of `user` under a namespace.
#[derive(Clone, Copy, Debug)]
pub struct DeleteDataRecord {
    /// The user whose record is removed.
    pub user: Address,
    /// The principal that signed the request and receives what the record
    /// held in storage.
    pub authority: Address,
    /// The account that `authority` presents as their grant.
    pub authority_record: Address,
}

/// A request to grant `authority` the right to write records of `user`.
#[derive(Clone, Copy, Debug)]
pub struct CreateAuthorityRecord {
    /// The user who gives the grant and pays for it.
    pub user: Address,
    /// The principal that the grant is given to.
    pub authority: Address,
    /// The principal that signed the request.
    pub signer: Address,
}

/// A request to take back what `user` granted to `authority`.
#[derive(Clone, Copy, Debug)]
pub struct DeleteAuthorityRecord {
    /// The user who gave the grant and receives what it held in storage.
    pub user: Address,
    /// The principal that the grant was given to.
    pub authority: Address,
    /// The principal that signed the request.
    pub signer: Address,
}

/// What an operation did to storage, and on whose account.
#[derive(Clone, Copy, Debug, PartialEq, Eq)]
pub enum Receipt {
    /// A record was allocated at `address`; `funder` paid for it.
    Allocated { address: Address, funder: Address },
    /// The record at `address` was overwritten where it lay.
    Written { address: Address },
    /// The record at `address` was removed; what it held in storage went
    /// to `refund_to`.
    Closed { address: Address, refund_to: Address },
}

/// The checks that a write of `metadata_uri` must pass before any record is
/// touched: the URI fits, and the writer is permitted.
pub open spec fn write_authorized(
    metadata_uri: Seq<char>,
    namespace: Seq<char>,
    program_id: Address,
    authority_record: GrantRef,
    user_key: Address,
    authority_key: Address,
) -> Result<(), ErrorCode> {
    if byte_len(metadata_uri) > MAX_METADATA_URI_LEN {
        Err(ErrorCode::MetadataUriOverflow)
    } else if !permitted(namespace, program_id, authority_record, user_key, authority_key) {
        Err(ErrorCode::Unauthorized)
    } else {
        Ok(())
    }
}

/// The record that a write by `authority` at the time `now` leaves behind.
pub open spec fn written(authority: Address, now: i64, metadata_uri: Seq<char>) -> RecordView {
    RecordView::Data(UserDataRecordView { authority, last_updated: now, metadata_uri })
}

/// The ledger after `create_data_record`, or the error it fails with.
pub open spec fn spec_create_data_record(
    pre: LedgerView,
    ctx: CreateDataRecord,
    metadata_uri: Seq<char>,
    namespace: Seq<char>,
) -> Result<LedgerView, ErrorCode> {
    match write_authorized(
        metadata_uri,
        namespace,
        pre.program_id,
        pre.presented(ctx.authority_record),
        ctx.user,
        ctx.authority,
    ) {
        Err(code) => Err(code),
        Ok(_) => match data_record_key(ctx.user, namespace, pre.program_id) {
            None => Err(ErrorCode::InvalidSeeds),
            Some(key) => if pre.holds(key) {
                Err(ErrorCode::AlreadyExists)
            } else {
                Ok(pre.with(key, written(ctx.authority, pre.clock, metadata_uri)))
            },
        },
    }
}

/// The ledger after `update_data_record`, or the error it fails with.
pub open spec fn spec_update_data_record(
    pre: LedgerView,
    ctx: UpdateDataRecord,
    metadata_uri: Seq<char>,
    namespace: Seq<char>,
) -> Result<LedgerView, ErrorCode> {
    match write_authorized(
        metadata_uri,
        namespace,
        pre.program_id,
        pre.presented(ctx.authority_record),
        ctx.user,
        ctx.authority,
    ) {
        Err(code) => Err(code),
        Ok(_) => match data_record_key(ctx.user, namespace, pre.program_id) {
            Some(key) if pre.holds_data(key) => Ok(
                pre.with(key, written(ctx.authority, pre.clock, metadata_uri)),
            ),
            _ => Err(ErrorCode::NotFound),
        },
    }
}

/// The ledger after `delete_data_record`, or the error it fails with.
pub open spec fn spec_delete_data_record(
    pre: LedgerView,
    ctx: DeleteDataRecord,
    namespace: Seq<char>,
) -> Result<LedgerView, ErrorCode> {
    if !permitted(
        namespace,
        pre.program_id,
        pre.presented(ctx.authority_record),
        ctx.user,
        ctx.authority,
    ) {
        Err(ErrorCode::Unauthorized)
    } else {
        match data_record_key(ctx.user, namespace, pre.program_id) {
            Some(key) if pre.holds_data(key) => Ok(pre.without(key)),
            _ => Err(ErrorCode::NotFound),
        }
    }
}

/// The ledger after `create_authority_record`, or the error it fails with.
pub open spec fn spec_create_authority_record(
    pre: LedgerView,
    ctx: CreateAuthorityRecord,
    scope: Seq<char>,
) -> Result<LedgerView, ErrorCode> {
    if ctx.signer != ctx.user {
        Err(ErrorCode::Unauthorized)
    } else {
        match authority_record_key(ctx.user, ctx.authority, scope, pre.program_id) {
            None => Err(ErrorCode::InvalidSeeds),
            Some(key) => if pre.holds(key) {
                Err(ErrorCode::AlreadyExists)
            } else {
                Ok(
                    pre.with(
                        key,
                        RecordView::Authority(UserAuthorityRecord { last_authorized: pre.clock }),
                    ),
                )
            },
        }
    }
}

/// The ledger after `delete_authority_record`, or the error it fails with.
pub open spec fn spec_delete_authority_record(
    pre: LedgerView,
    ctx: DeleteAuthorityRecord,
    scope: Seq<char>,
) -> Result<LedgerView, ErrorCode> {
    if ctx.signer != ctx.user {
        Err(ErrorCode::Unauthorized)
    } else {
        match authority_record_key(ctx.user, ctx.authority, scope, pre.program_id) {
            Some(key) if pre.holds_grant(key) => Ok(pre.without(key)),
            _ => Err(ErrorCode::NotFound),
        }
    }
}

/// Whether an operation that led from `pre` to `post` and returned `result`
/// did what `outcome` says: on success the ledger is the new one, on failure
/// the error is the one named and the ledger is unchanged.
pub open spec fn took_effect(
    pre: LedgerView,
    post: LedgerView,
    result: Result<Receipt, ErrorCode>,
    outcome: Result<LedgerView, ErrorCode>,
) -> bool {
    match outcome {
        Ok(next) => result is Ok && post == next,
        Err(code) => result == Err::<Receipt, ErrorCode>(code) && post == pre,
    }
}

/// Checks that `metadata_uri` fits into a data record and that
/// `authority_key` may write the records of `user_key` under `namespace`.
/// The length is checked first.
pub fn authorize_write(
    metadata_uri: &str,
    namespace: String,
    program_id: &Address,
    authority_record: &GrantRef,
    user_key: &Address,
    authority_key: &Address,
) -> (result: Result<(), ErrorCode>)
    ensures
        result == write_authorized(
            metadata_uri@,
            namespace@,
            *program_id,
            *authority_record,
            *user_key,
            *authority_key,
        ),
{
    if metadata_uri.as_bytes().len() > MAX_METADATA_URI_LEN {
        return Err(ErrorCode::MetadataUriOverflow);
    }
    if !check_record_permission(namespace, program_id, authority_record, user_key, authority_key) {
        return Err(ErrorCode::Unauthorized);
    }
    Ok(())
}

/// Creates an initial data record for a user. The record is dated by the
/// ledger's clock and names `ctx.authority` as its writer, who pays for it.
pub fn create_data_record(
    ledger: &mut Ledger,
    ctx: CreateDataRecord,
    metadata_uri: String,
    namespace: String,
) -> (result: Result<Receipt, ErrorCode>)
    ensures
        took_effect(
            old(ledger)@,
            final(ledger)@,
            result,
            spec_create_data_record(old(ledger)@, ctx, metadata_uri@, namespace@),
        ),
        result matches Ok(receipt) ==> receipt matches Receipt::Allocated { address, funder }
            && data_record_key(ctx.user, namespace@, old(ledger)@.program_id) == Some(address@)
            && funder == ctx.authority,
        final(ledger)@.well_formed(),
{
    let program_id = ledger.program_id();
    let authority_record = ledger.presented(&ctx.authority_record);
    match authorize_write(
        metadata_uri.as_str(),
        namespace.clone(),
        &program_id,
        &authority_record,
        &ctx.user,
        &ctx.authority,
    ) {
        Err(code) => Err(code),
        Ok(_) => match find_data_record_address(&ctx.user, namespace.as_str(), &program_id) {
            None => Err(ErrorCode::InvalidSeeds),
            Some((address, _)) => {
                let record = UserDataRecord {
                    authority: ctx.authority,
                    last_updated: ledger.now(),
                    metadata_uri,
                };
                match ledger.allocate(address, Record::Data(record)) {
                    Err(code) => Err(code),
                    Ok(_) => Ok(Receipt::Allocated { address, funder: ctx.authority }),
                }
            },
        },
    }
}

/// Updates an existing data record for a user. The record is dated anew and
/// names `ctx.authority` as its writer.
pub fn update_data_record(
    ledger: &mut Ledger,
    ctx: UpdateDataRecord,
    metadata_uri: String,
    namespace: String,
) -> (result: Result<Receipt, ErrorCode>)
    ensures
        took_effect(
            old(ledger)@,
            final(ledger)@,
            result,
            spec_update_data_record(old(ledger)@, ctx, metadata_uri@, namespace@),
        ),
        result matches Ok(receipt) ==> receipt matches Receipt::Written { address }
            && data_record_key(ctx.user, namespace@, old(ledger)@.program_id) == Some(address@),
        final(ledger)@.well_formed(),
{
    let program_id = ledger.program_id();
    let authority_record = ledger.presented(&ctx.authority_record);
    match authorize_write(
        metadata_uri.as_str(),
        namespace.clone(),
        &program_id,
        &authority_record,
        &ctx.user,
        &ctx.authority,
    ) {
        Err(code) => Err(code),
        Ok(_) => match find_data_record_address(&ctx.user, namespace.as_str(), &program_id) {
            None => Err(ErrorCode::NotFound),
            Some((address, _)) => {
                let record = UserDataRecord {
                    authority: ctx.authority,
                    last_updated: ledger.now(),
                    metadata_uri,
                };
                match ledger.overwrite_data(&address, record) {
                    Err(code) => Err(code),
                    Ok(_) => Ok(Receipt::Written { address }),
                }
            },
        },
    }
}

/// Removes a data record for a user. What the record held in storage goes
/// to `ctx.authority`, who need not be the one that paid for it.
pub fn delete_data_record(
    ledger: &mut Ledger,
    ctx: DeleteDataRecord,
    namespace: String,
) -> (result: Result<Receipt, ErrorCode>)
    ensures
        took_effect(
            old(ledger)@,
            final(ledger)@,
            result,
            spec_delete_data_record(old(ledger)@, ctx, namespace@),
        ),
        result matches Ok(receipt) ==> receipt matches Receipt::Closed { address, refund_to }
            && data_record_key(ctx.user, namespace@, old(ledger)@.program_id) == Some(address@)
            && refund_to == ctx.authority,
        final(ledger)@.well_formed(),
{
    let program_id = ledger.program_id();
    let authority_record = ledger.presented(&ctx.authority_record);
    if !check_record_permission(
        namespace.clone(),
        &program_id,
        &authority_record,
        &ctx.user,
        &ctx.authority,
    ) {
        return Err(ErrorCode::Unauthorized);
    }
    match find_data_record_address(&ctx.user, namespace.as_str(), &program_id) {
        None => Err(ErrorCode::NotFound),
        Some((address, _)) => match ledger.close_data(&address) {
            Err(code) => Err(code),
            Ok(_) => Ok(Receipt::Closed { address, refund_to: ctx.authority }),
        },
    }
}

/// Creates an authority record for the user: the grant of `ctx.user` to
/// `ctx.authority` for `scope`, dated by the ledger's clock. Only the user
/// may give it, and the user pays for it.
pub fn create_authority_record(
    ledger: &mut Ledger,
    ctx: CreateAuthorityRecord,
    scope: String,
) -> (result: Result<Receipt, ErrorCode>)
    ensures
        took_effect(
            old(ledger)@,
            final(ledger)@,
            result,
            spec_create_authority_record(old(ledger)@, ctx, scope@),
        ),
        result matches Ok(receipt) ==> receipt matches Receipt::Allocated { address, funder }
            && authority_record_key(ctx.user, ctx.authority, scope@, old(ledger)@.program_id)
            == Some(address@) && funder == ctx.user,
        final(ledger)@.well_formed(),
{
    let program_id = ledger.program_id();
    if ctx.signer != ctx.user {
        return Err(ErrorCode::Unauthorized);
    }
    match find_authority_record_address(&ctx.user, &ctx.authority, scope.as_str(), &program_id) {
        None => Err(ErrorCode::InvalidSeeds),
        Some((address, _)) => {
            let grant = UserAuthorityRecord { last_authorized: ledger.now() };
            match ledger.allocate(address, Record::Authority(grant)) {
                Err(code) => Err(code),
                Ok(_) => Ok(Receipt::Allocated { address, funder: ctx.user }),
            }
        },
    }
}

/// Removes an authority record for the user. Only the user may remove it,
/// and what it held in storage goes back to the user.
pub fn delete_authority_record(
    ledger: &mut Ledger,
    ctx: DeleteAuthorityRecord,
    scope: String,
) -> (result: Result<Receipt, ErrorCode>)
    ensures
        took_effect(
            old(ledger)@,
            final(ledger)@,
            result,
            spec_delete_authority_record(old(ledger)@, ctx, scope@),
        ),
        result matches Ok(receipt) ==> receipt matches Receipt::Closed { address, refund_to }
            && authority_record_key(ctx.user, ctx.authority, scope@, old(ledger)@.program_id)
            == Some(address@) && refund_to == ctx.user,
        final(ledger)@.well_formed(),
{
    let program_id = ledger.program_id();
    if ctx.signer != ctx.user {
        return Err(ErrorCode::Unauthorized);
    }
    match find_authority_record_address(&ctx.user, &ctx.authority, scope.as_str(), &program_id) {
        None => Err(ErrorCode::NotFound),
        Some((address, _)) => match ledger.close_authority(&address) {
            Err(code) => Err(code),
            Ok(_) => Ok(Receipt::Closed { address, refund_to: ctx.user }),
        },
    }
}

} // verus!
