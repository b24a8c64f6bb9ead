//! The one error that the store hands to its callers.

use miden_objects::utils::{DeserializationError, HexParseError};
use miden_objects::AccountIdError;
use vstd::prelude::*;
use vstd::string::*;

verus! {

/// Why a store operation failed.
#[derive(Debug)]
pub enum StoreError {
    /// An account identifier's text is malformed.
    AccountIdError(AccountIdError),
    /// A digest's text is malformed.
    HexParseError(HexParseError),
    /// A byte encoding is malformed.
    DataDeserializationError(DeserializationError),
    /// The nullifier bytes announce more digests than they hold.
    TruncatedNullifiers,
    /// A row records a script root and holds no script.
    MissingTransactionScript,
    /// The storage engine reported a failure; the text says which.
    DatabaseError(String),
}

impl StoreError {
    /// The error for a failure that the storage engine reported: `context`,
    /// followed by the engine's own words.
    pub fn database(context: &str, cause: &str) -> (e: StoreError)
        ensures
            e matches StoreError::DatabaseError(message) && message@ == context@ + cause@,
    {
        let mut message = String::from_str(context);
        message.append(cause);
        StoreError::DatabaseError(message)
    }

    /// The error for a scan that the storage engine could not run.
    pub fn scan_failed(cause: &str) -> (e: StoreError)
        ensures
            e matches StoreError::DatabaseError(message) && message@
                == "failed to get transactions: "@ + cause@,
    {
        StoreError::database("failed to get transactions: ", cause)
    }

    /// The error for rows that the storage engine returned in a shape other
    /// than a row's.
    pub fn rows_malformed(cause: &str) -> (e: StoreError)
        ensures
            e matches StoreError::DatabaseError(message) && message@ == "failed to deserialize "@
                + cause@,
    {
        StoreError::database("failed to deserialize ", cause)
    }

    /// The error for an account snapshot that the account store refused.
    pub fn account_update_failed(cause: &str) -> (e: StoreError)
        ensures
            e matches StoreError::DatabaseError(message) && message@
                == "failed to update account: "@ + cause@,
    {
        StoreError::database("failed to update account: ", cause)
    }
}

} // verus!
