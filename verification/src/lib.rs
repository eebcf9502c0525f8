//! Delegated write authority over per-user records.
//!
//! A user owns the records filed under their key, one per namespace. They
//! may grant another principal the right to write them, for one namespace
//! or for all, by creating a grant at an address derived from the two keys
//! and the scope; they take the right back by deleting the grant. Every
//! write is checked against such an address before it touches the ledger.
//!
//! - [`address`]: addresses and their derivation from seeds.
//! - [`records`]: the two kinds of record, and the errors.
//! - [`permission`]: the check that decides who may write.
//! - [`ledger`]: the store of records that the operations act on.
//! - [`instructions`]: the five operations.
//! - [`laws`]: what is proved of them all.

pub mod address;
pub mod instructions;
pub mod laws;
pub mod ledger;
pub mod permission;
pub mod records;

pub use address::Address;
pub use instructions::{
    create_authority_record, create_data_record, delete_authority_record, delete_data_record,
    update_data_record, CreateAuthorityRecord, CreateDataRecord, DeleteAuthorityRecord,
    DeleteDataRecord, Receipt, UpdateDataRecord,
};
pub use ledger::Ledger;
pub use permission::{check_record_permission, GrantRef, GrantScope};
pub use records::{ErrorCode, UserAuthorityRecord, UserDataRecord};
