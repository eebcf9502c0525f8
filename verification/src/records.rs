//! The two kinds of record and the errors of the operations on them.

use crate::address::Address;
use vstd::prelude::*;

verus! {

/// The longest metadata URI a data record holds, in bytes.
pub const MAX_METADATA_URI_LEN: usize = 100;

/// The length in bytes of a string's UTF-8 encoding.
pub open spec fn byte_len(s: Seq<char>) -> nat {
    vstd::utf8::encode_utf8(s).len()
}

/// Data stored per user and namespace.
#[derive(Debug)]
pub struct UserDataRecord {
    /// The principal that wrote the record last.
    pub authority: Address,
    /// The time of the last write.
    pub last_updated: i64,
    /// Where the payload lies, most often an IPFS CID.
    pub metadata_uri: String,
}

/// A data record with its URI as a sequence of characters.
pub struct UserDataRecordView {
    pub authority: Address,
    pub last_updated: i64,
    pub metadata_uri: Seq<char>,
}

impl View for UserDataRecord {
    type V = UserDataRecordView;

    open spec fn view(&self) -> UserDataRecordView {
        UserDataRecordView {
            authority: self.authority,
            last_updated: self.last_updated,
            metadata_uri: self.metadata_uri@,
        }
    }
}

/// A grant of write authority. That it exists at its address is the grant;
/// it holds only the time it was made.
#[derive(Clone, Copy, Debug, PartialEq, Eq, Structural)]
pub struct UserAuthorityRecord {
    pub last_authorized: i64,
}

/// Why an operation failed.
#[derive(Clone, Copy, Debug, PartialEq, Eq, Structural)]
pub enum ErrorCode {
    /// The caller is unauthorized.
    Unauthorized,
    /// The given metadata URI is too long to fit into storage.
    MetadataUriOverflow,
    /// A record already exists at the derived address.
    AlreadyExists,
    /// No record of the expected kind exists at the derived address.
    NotFound,
    /// No address can be derived from the seeds of the operation.
    InvalidSeeds,
}

impl ErrorCode {
    /// The sentence that [`ErrorCode::message`] gives for this error.
    pub open spec fn spec_message(self) -> Seq<char> {
        match self {
            ErrorCode::Unauthorized => "The caller is unauthorized."@,
            ErrorCode::MetadataUriOverflow => {
                "The given metadata URI is too long to fit into storage."@
            },
            ErrorCode::AlreadyExists => "A record already exists at the derived address."@,
            ErrorCode::NotFound => "No record exists at the derived address."@,
            ErrorCode::InvalidSeeds => "No address can be derived from the given seeds."@,
        }
    }

    /// What to tell the caller.
    pub fn message(&self) -> (text: &'static str)
        ensures
            text@ == self.spec_message(),
    {
        match self {
            ErrorCode::Unauthorized => "The caller is unauthorized.",
            ErrorCode::MetadataUriOverflow => {
                "The given metadata URI is too long to fit into storage."
            },
            ErrorCode::AlreadyExists => "A record already exists at the derived address.",
            ErrorCode::NotFound => "No record exists at the derived address.",
            ErrorCode::InvalidSeeds => "No address can be derived from the given seeds.",
        }
    }
}

} // verus!
