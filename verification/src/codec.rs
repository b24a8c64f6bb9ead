//! The ledger's own types and their text and byte encodings.
//!
//! Everything here is trusted: the types are opaque to the verifier, and each
//! function's contract is believed, not proved. Output notes and scripts are
//! not decoded here: their decoder reads a program's encoding without
//! checking the counts and offsets in it, and panics on some malformed ones,
//! so callers decode them and hand over what the decoder returned.

use miden_objects::account::AccountId;
use miden_objects::transaction::{OutputNotes, TransactionId, TransactionScript};
use miden_objects::utils::{DeserializationError, HexParseError};
use miden_objects::{AccountIdError, Digest, Felt};
use miden_tx::utils::Deserializable;
use vstd::prelude::*;

use crate::length_prefix::count_fits;

verus! {

/// The number of bytes that an encoded digest takes.
pub const DIGEST_LEN: usize = 32;

/// An element of the ledger's field. No signature here names it: a digest
/// hands out its elements through `Deref`, and the verifier takes the digest
/// only with their type declared.
#[verifier::external_type_specification]
#[verifier::external_body]
pub struct ExFelt(Felt);

/// A digest: four field elements.
#[verifier::external_type_specification]
#[verifier::external_body]
pub struct ExDigest(Digest);

/// The identifier of an account.
#[verifier::external_type_specification]
#[verifier::external_body]
pub struct ExAccountId(AccountId);

/// The identifier of a transaction.
#[verifier::external_type_specification]
#[verifier::external_body]
pub struct ExTransactionId(TransactionId);

/// The notes that a transaction produced.
#[verifier::external_type_specification]
#[verifier::external_body]
pub struct ExOutputNotes(OutputNotes);

/// The script that a transaction ran.
#[verifier::external_type_specification]
#[verifier::external_body]
pub struct ExTransactionScript(TransactionScript);

/// Why a text is no account identifier.
#[verifier::external_type_specification]
#[verifier::external_body]
pub struct ExAccountIdError(AccountIdError);

/// Why a text is no digest.
#[verifier::external_type_specification]
#[verifier::external_body]
pub struct ExHexParseError(HexParseError);

/// Why bytes are no encoding of a value.
#[verifier::external_type_specification]
#[verifier::external_body]
pub struct ExDeserializationError(DeserializationError);

/// Whether `c` is a hexadecimal digit in lower case.
pub open spec fn is_hex_digit(c: char) -> bool {
    ('0' <= c && c <= '9') || ('a' <= c && c <= 'f')
}

/// Whether `text` has the shape of a digest in hexadecimal: `0x`, then 64
/// hexadecimal digits in lower case.
pub open spec fn is_digest_hex(text: Seq<char>) -> bool {
    &&& text.len() == 66
    &&& text[0] == '0'
    &&& text[1] == 'x'
    &&& forall|i: int| 2 <= i < 66 ==> is_hex_digit(#[trigger] text[i])
}

/// What `AccountId::from_hex` makes of a text.
pub uninterp spec fn account_id_from_hex(text: Seq<char>) -> Result<AccountId, AccountIdError>;

/// What `Digest::try_from` makes of a text.
pub uninterp spec fn digest_from_hex(text: Seq<char>) -> Result<Digest, HexParseError>;

/// What `TransactionId::from` makes of a digest.
pub uninterp spec fn transaction_id_of(digest: Digest) -> TransactionId;

/// The text that `TransactionId::to_string` gives for an identifier.
pub uninterp spec fn transaction_id_text(id: TransactionId) -> Seq<char>;

/// What `Vec::<Digest>::read_from_bytes` makes of a byte sequence.
pub uninterp spec fn nullifiers_from_bytes(bytes: Seq<u8>) -> Result<
    Seq<Digest>,
    DeserializationError,
>;

/// Calls `AccountId::from_hex`, which reads a `0x` and thirty hexadecimal
/// digits and checks the identifier's layout. The contract claims only that
/// the outcome is a function of the text.
#[verifier::external_body]
pub(crate) fn parse_account_id(text: &str) -> (r: Result<AccountId, AccountIdError>)
    ensures
        r == account_id_from_hex(text@),
{
    AccountId::from_hex(text)
}

/// Calls `Digest::try_from` on a text, which reads a `0x` and sixty-four
/// hexadecimal digits and checks that each of the four elements lies in the
/// field. The contract claims only that the outcome is a function of the text.
#[verifier::external_body]
pub(crate) fn parse_digest(text: &str) -> (r: Result<Digest, HexParseError>)
    ensures
        r == digest_from_hex(text@),
{
    Digest::try_from(text)
}

/// Calls `TransactionId::from`, which wraps the digest. The contract claims
/// only that the identifier is a function of the digest.
#[verifier::external_body]
pub(crate) fn transaction_id_from_digest(digest: Digest) -> (r: TransactionId)
    ensures
        r == transaction_id_of(digest),
{
    TransactionId::from(digest)
}

/// Calls `TransactionId::to_string`, which writes `0x` and then each of the
/// digest's 32 bytes as two lower-case hexadecimal digits. The contract
/// claims that the text is a function of the identifier and has that shape.
#[verifier::external_body]
pub(crate) fn transaction_id_to_text(id: &TransactionId) -> (r: String)
    ensures
        r@ == transaction_id_text(*id),
        is_digest_hex(r@),
{
    id.to_string()
}

/// Calls `Vec::<Digest>::read_from_bytes`, which reads a count and then that
/// many digests of 32 bytes each, and ignores what follows them. It reserves
/// room for the announced count before it reads an item, so the contract
/// leaves out the inputs whose count exceeds what their bytes can hold. It
/// claims only that the outcome is a function of the bytes.
#[verifier::external_body]
pub(crate) fn decode_nullifiers(bytes: &[u8]) -> (r: Result<Vec<Digest>, DeserializationError>)
    requires
        count_fits(bytes@, DIGEST_LEN as nat),
    ensures
        match r {
            Ok(nullifiers) => nullifiers_from_bytes(bytes@) == Ok::<
                Seq<Digest>,
                DeserializationError,
            >(nullifiers@),
            Err(e) => nullifiers_from_bytes(bytes@) == Err::<Seq<Digest>, DeserializationError>(e),
        },
{
    Vec::<Digest>::read_from_bytes(bytes)
}

} // verus!
