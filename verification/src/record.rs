//! Transaction records, and how one is rebuilt from a persisted row.

use miden_objects::account::AccountId;
use miden_objects::transaction::{OutputNotes, TransactionId, TransactionScript};
use miden_objects::utils::DeserializationError;
use miden_objects::Digest;
use vstd::prelude::*;

use crate::codec::{
    account_id_from_hex, decode_nullifiers, digest_from_hex, nullifiers_from_bytes,
    parse_account_id, parse_digest, transaction_id_from_digest, transaction_id_of, DIGEST_LEN,
};
use crate::decimal::{decimal_u32, parse_u32};
use crate::error::StoreError;
use crate::length_prefix::{announced_items_fit, count_fits};

verus! {

/// Where a transaction stands in its life.
#[derive(Debug, Clone, Copy, PartialEq, Eq, Structural)]
pub enum TransactionStatus {
    /// Neither committed nor discarded.
    Pending,
    /// Committed in the block of this height.
    Committed(u32),
    /// Discarded, whether or not it was committed before.
    Discarded,
}

impl TransactionStatus {
    /// The status that a commit height and a discarded flag stand for. The
    /// flag wins over the height.
    pub open spec fn of(commit_height: Option<u32>, discarded: bool) -> TransactionStatus {
        if discarded {
            TransactionStatus::Discarded
        } else {
            match commit_height {
                Some(height) => TransactionStatus::Committed(height),
                None => TransactionStatus::Pending,
            }
        }
    }

    /// Derives the status from a row's commit height and discarded flag.
    pub fn derive(commit_height: Option<u32>, discarded: bool) -> (status: TransactionStatus)
        ensures
            status == TransactionStatus::of(commit_height, discarded),
            discarded ==> status == TransactionStatus::Discarded,
            !discarded && commit_height is None ==> status == TransactionStatus::Pending,
            !discarded && commit_height is Some ==> status == TransactionStatus::Committed(
                commit_height->0,
            ),
    {
        match (commit_height, discarded) {
            (_, true) => TransactionStatus::Discarded,
            (Some(height), false) => TransactionStatus::Committed(height),
            (None, false) => TransactionStatus::Pending,
        }
    }
}

/// A transaction as the storage engine keeps it, with its output notes and
/// its script as their decoder returned them.
#[derive(Debug, PartialEq, Eq)]
pub struct TransactionRow {
    /// The transaction's identifier, a digest in hexadecimal.
    pub id: String,
    /// The account the transaction ran against, in hexadecimal.
    pub account_id: String,
    /// The account's state before the transaction, a digest in hexadecimal.
    pub init_account_state: String,
    /// The account's state after the transaction, a digest in hexadecimal.
    pub final_account_state: String,
    /// The encoded nullifiers of the notes that the transaction consumed.
    pub input_notes: Vec<u8>,
    /// What decoding the notes that the transaction produced gave.
    pub output_notes: Result<OutputNotes, DeserializationError>,
    /// The root of the transaction's script, where it ran one. A root counts
    /// as recorded whatever its text is, the empty text too.
    pub script_root: Option<String>,
    /// What decoding the script gave, where the row holds one.
    pub tx_script: Option<Result<TransactionScript, DeserializationError>>,
    /// The height of the block the transaction was built against, in decimal.
    pub block_num: String,
    /// The height of the block the transaction was committed in, in decimal.
    pub commit_height: Option<String>,
    /// Whether the transaction was discarded.
    pub discarded: bool,
}

/// A transaction with its parts in the ledger's own types.
#[derive(Debug, PartialEq, Eq)]
pub struct TransactionRecord {
    /// The transaction's identifier.
    pub id: TransactionId,
    /// The account the transaction ran against.
    pub account_id: AccountId,
    /// The account's state before the transaction.
    pub init_account_state: Digest,
    /// The account's state after the transaction.
    pub final_account_state: Digest,
    /// The nullifiers of the notes that the transaction consumed.
    pub input_note_nullifiers: Vec<Digest>,
    /// The notes that the transaction produced.
    pub output_notes: OutputNotes,
    /// The script that the transaction ran, where it ran one.
    pub transaction_script: Option<TransactionScript>,
    /// The height of the block the transaction was built against.
    pub block_num: u32,
    /// Where the transaction stands in its life.
    pub transaction_status: TransactionStatus,
}

/// What a record holds, with the nullifiers as a sequence.
pub struct TransactionRecordView {
    pub id: TransactionId,
    pub account_id: AccountId,
    pub init_account_state: Digest,
    pub final_account_state: Digest,
    pub input_note_nullifiers: Seq<Digest>,
    pub output_notes: OutputNotes,
    pub transaction_script: Option<TransactionScript>,
    pub block_num: u32,
    pub transaction_status: TransactionStatus,
}

impl View for TransactionRecord {
    type V = TransactionRecordView;

    open spec fn view(&self) -> TransactionRecordView {
        TransactionRecordView {
            id: self.id,
            account_id: self.account_id,
            init_account_state: self.init_account_state,
            final_account_state: self.final_account_state,
            input_note_nullifiers: self.input_note_nullifiers@,
            output_notes: self.output_notes,
            transaction_script: self.transaction_script,
            block_num: self.block_num,
            transaction_status: self.transaction_status,
        }
    }
}

impl TransactionRecord {
    /// Puts a record together from its decoded parts, deriving the status
    /// from the commit height and the discarded flag.
    pub fn from_parts(
        id: Digest,
        account_id: AccountId,
        init_account_state: Digest,
        final_account_state: Digest,
        input_note_nullifiers: Vec<Digest>,
        output_notes: OutputNotes,
        transaction_script: Option<TransactionScript>,
        block_num: u32,
        commit_height: Option<u32>,
        discarded: bool,
    ) -> (record: TransactionRecord)
        ensures
            record@ == (TransactionRecordView {
                id: transaction_id_of(id),
                account_id,
                init_account_state,
                final_account_state,
                input_note_nullifiers: input_note_nullifiers@,
                output_notes,
                transaction_script,
                block_num,
                transaction_status: TransactionStatus::of(commit_height, discarded),
            }),
    {
        TransactionRecord {
            id: transaction_id_from_digest(id),
            account_id,
            init_account_state,
            final_account_state,
            input_note_nullifiers,
            output_notes,
            transaction_script,
            block_num,
            transaction_status: TransactionStatus::derive(commit_height, discarded),
        }
    }
}

/// The script of a row, given whether the row records a script root and what
/// decoding its script gave, if it holds one. Without a root there is no
/// script, whatever the row holds; with a root the script must be there and
/// well formed.
pub open spec fn script_of(
    root_recorded: bool,
    decoded: Option<Result<TransactionScript, DeserializationError>>,
) -> Result<Option<TransactionScript>, StoreError> {
    if !root_recorded {
        Ok(None)
    } else {
        match decoded {
            None => Err(StoreError::MissingTransactionScript),
            Some(Err(e)) => Err(StoreError::DataDeserializationError(e)),
            Some(Ok(script)) => Ok(Some(script)),
        }
    }
}

/// Decides on a row's script from whether the row records a script root and
/// from what decoding its script bytes gave.
pub fn select_script(
    root_recorded: bool,
    decoded: Option<Result<TransactionScript, DeserializationError>>,
) -> (r: Result<Option<TransactionScript>, StoreError>)
    ensures
        r == script_of(root_recorded, decoded),
        root_recorded && decoded is None ==> r is Err,
        r matches Ok(script) ==> (script is Some <==> root_recorded),
{
    if !root_recorded {
        return Ok(None);
    }
    match decoded {
        None => Err(StoreError::MissingTransactionScript),
        Some(Err(e)) => Err(StoreError::DataDeserializationError(e)),
        Some(Ok(script)) => Ok(Some(script)),
    }
}

impl TransactionRow {
    /// Whether the row's block heights are decimal text of 32-bit numbers.
    pub open spec fn heights_are_decimal(&self) -> bool {
        &&& decimal_u32(self.block_num@) is Some
        &&& self.commit_height matches Some(text) ==> decimal_u32(text@) is Some
    }

    /// The commit height that the row records.
    pub open spec fn commit_height_value(&self) -> Option<u32> {
        match self.commit_height {
            Some(text) => decimal_u32(text@),
            None => None,
        }
    }

    /// The nullifiers that the row's bytes encode.
    pub open spec fn nullifiers(&self) -> Result<Seq<Digest>, StoreError> {
        if !count_fits(self.input_notes@, DIGEST_LEN as nat) {
            Err(StoreError::TruncatedNullifiers)
        } else {
            match nullifiers_from_bytes(self.input_notes@) {
                Ok(nullifiers) => Ok(nullifiers),
                Err(e) => Err(StoreError::DataDeserializationError(e)),
            }
        }
    }

    /// The script that the row holds.
    pub open spec fn script(&self) -> Result<Option<TransactionScript>, StoreError> {
        script_of(self.script_root is Some, self.tx_script)
    }

    /// Why the row cannot be rebuilt, if it cannot: the first of its parts,
    /// in the order account, identifier, initial state, final state,
    /// nullifiers, output notes, script, that is malformed or missing.
    pub open spec fn failure(&self) -> Option<StoreError> {
        if account_id_from_hex(self.account_id@) is Err {
            Some(StoreError::AccountIdError(account_id_from_hex(self.account_id@)->Err_0))
        } else if digest_from_hex(self.id@) is Err {
            Some(StoreError::HexParseError(digest_from_hex(self.id@)->Err_0))
        } else if digest_from_hex(self.init_account_state@) is Err {
            Some(StoreError::HexParseError(digest_from_hex(self.init_account_state@)->Err_0))
        } else if digest_from_hex(self.final_account_state@) is Err {
            Some(StoreError::HexParseError(digest_from_hex(self.final_account_state@)->Err_0))
        } else if self.nullifiers() is Err {
            Some(self.nullifiers()->Err_0)
        } else if self.output_notes is Err {
            Some(StoreError::DataDeserializationError(self.output_notes->Err_0))
        } else if self.script() is Err {
            Some(self.script()->Err_0)
        } else {
            None
        }
    }

    /// The record that the row stands for, where nothing in it is malformed
    /// or missing.
    pub open spec fn record(&self) -> TransactionRecordView {
        TransactionRecordView {
            id: transaction_id_of(digest_from_hex(self.id@)->Ok_0),
            account_id: account_id_from_hex(self.account_id@)->Ok_0,
            init_account_state: digest_from_hex(self.init_account_state@)->Ok_0,
            final_account_state: digest_from_hex(self.final_account_state@)->Ok_0,
            input_note_nullifiers: self.nullifiers()->Ok_0,
            output_notes: self.output_notes->Ok_0,
            transaction_script: self.script()->Ok_0,
            block_num: decimal_u32(self.block_num@)->0,
            transaction_status: TransactionStatus::of(self.commit_height_value(), self.discarded),
        }
    }

    /// What rebuilding the row gives: its record, or the first failure.
    pub open spec fn reconstruction(&self) -> Result<TransactionRecordView, StoreError> {
        match self.failure() {
            Some(e) => Err(e),
            None => Ok(self.record()),
        }
    }

    /// Tells whether the row's block heights are decimal text of 32-bit
    /// numbers, which rebuilding the row asks for.
    pub fn has_decimal_heights(&self) -> (r: bool)
        ensures
            r == self.heights_are_decimal(),
    {
        if parse_u32(self.block_num.as_str()).is_none() {
            return false;
        }
        match &self.commit_height {
            Some(text) => parse_u32(text.as_str()).is_some(),
            None => true,
        }
    }

    /// Reads the row's nullifiers.
    fn read_nullifiers(&self) -> (r: Result<Vec<Digest>, StoreError>)
        ensures
            match r {
                Ok(nullifiers) => self.nullifiers() == Ok::<Seq<Digest>, StoreError>(nullifiers@),
                Err(e) => self.nullifiers() == Err::<Seq<Digest>, StoreError>(e),
            },
    {
        let bytes = self.input_notes.as_slice();
        if !announced_items_fit(bytes, DIGEST_LEN) {
            return Err(StoreError::TruncatedNullifiers);
        }
        match decode_nullifiers(bytes) {
            Ok(nullifiers) => Ok(nullifiers),
            Err(e) => Err(StoreError::DataDeserializationError(e)),
        }
    }
}

/// Rebuilds the record of one row. The parts are read in the order account,
/// identifier, initial state, final state, nullifiers, output notes, script,
/// and the first that is malformed or missing decides the error. The row's
/// block heights are taken to be decimal text, which `has_decimal_heights`
/// tells of a row.
pub fn reconstruct(row: TransactionRow) -> (r: Result<TransactionRecord, StoreError>)
    requires
        row.heights_are_decimal(),
    ensures
        match r {
            Ok(record) => row.reconstruction() == Ok::<TransactionRecordView, StoreError>(
                record@,
            ),
            Err(e) => row.reconstruction() == Err::<TransactionRecordView, StoreError>(e),
        },
        row.script_root is Some && row.tx_script is None ==> r is Err,
        r matches Ok(record) ==> (record.transaction_script is Some <==> row.script_root is Some),
{
    let account_id = match parse_account_id(row.account_id.as_str()) {
        Ok(account_id) => account_id,
        Err(e) => return Err(StoreError::AccountIdError(e)),
    };
    let block_num = parse_u32(row.block_num.as_str()).unwrap();
    let commit_height = match &row.commit_height {
        Some(text) => parse_u32(text.as_str()),
        None => None,
    };
    let id = match parse_digest(row.id.as_str()) {
        Ok(id) => id,
        Err(e) => return Err(StoreError::HexParseError(e)),
    };
    let init_account_state = match parse_digest(row.init_account_state.as_str()) {
        Ok(state) => state,
        Err(e) => return Err(StoreError::HexParseError(e)),
    };
    let final_account_state = match parse_digest(row.final_account_state.as_str()) {
        Ok(state) => state,
        Err(e) => return Err(StoreError::HexParseError(e)),
    };
    let input_note_nullifiers = match row.read_nullifiers() {
        Ok(nullifiers) => nullifiers,
        Err(e) => return Err(e),
    };
    let output_notes = match row.output_notes {
        Ok(notes) => notes,
        Err(e) => return Err(StoreError::DataDeserializationError(e)),
    };
    let transaction_script = match select_script(row.script_root.is_some(), row.tx_script) {
        Ok(script) => script,
        Err(e) => return Err(e),
    };
    Ok(
        TransactionRecord::from_parts(
            id,
            account_id,
            init_account_state,
            final_account_state,
            input_note_nullifiers,
            output_notes,
            transaction_script,
            block_num,
            commit_height,
            row.discarded,
        ),
    )
}

/// A row that records a script root and holds no script cannot be rebuilt:
/// rebuilding never leaves the script out. A rebuilt record has a script
/// exactly where its row records a script root.
pub proof fn lemma_script_follows_root(row: TransactionRow)
    ensures
        row.script_root is Some && row.tx_script is None ==> row.reconstruction() is Err,
        row.reconstruction() matches Ok(record) ==> (record.transaction_script is Some
            <==> row.script_root is Some),
{
}

/// The status of a rebuilt record follows from its row's commit height and
/// discarded flag: discarded where the flag is set, whatever the height;
/// else committed at the height where there is one, and pending where there
/// is none.
pub proof fn lemma_status_follows_row(row: TransactionRow)
    requires
        row.heights_are_decimal(),
        row.reconstruction() is Ok,
    ensures
        ({
            let status = row.reconstruction()->Ok_0.transaction_status;
            &&& row.discarded ==> status == TransactionStatus::Discarded
            &&& !row.discarded && row.commit_height is None ==> status
                == TransactionStatus::Pending
            &&& !row.discarded && row.commit_height is Some ==> status
                == TransactionStatus::Committed(decimal_u32(row.commit_height->0@)->0)
        }),
{
}

/// What rebuilding a run of rows gives: the records in the rows' order, or
/// the failure of the first row that cannot be rebuilt.
pub open spec fn reconstruction_of_all(rows: Seq<TransactionRow>) -> Result<
    Seq<TransactionRecordView>,
    StoreError,
>
    decreases rows.len(),
{
    if rows.len() == 0 {
        Ok(Seq::empty())
    } else {
        match reconstruction_of_all(rows.drop_last()) {
            Err(e) => Err(e),
            Ok(records) => match rows.last().reconstruction() {
                Err(e) => Err(e),
                Ok(record) => Ok(records.push(record)),
            },
        }
    }
}

/// The views of a run of records.
pub open spec fn views(records: Seq<TransactionRecord>) -> Seq<TransactionRecordView> {
    records.map_values(|record: TransactionRecord| record@)
}

/// Where every row of a run can be rebuilt, the records stand in the rows'
/// order, one for each row.
pub proof fn lemma_all_rebuilt(rows: Seq<TransactionRow>)
    requires
        forall|i: int| 0 <= i < rows.len() ==> (#[trigger] rows[i]).reconstruction() is Ok,
    ensures
        reconstruction_of_all(rows) is Ok,
        reconstruction_of_all(rows)->Ok_0.len() == rows.len(),
        forall|i: int|
            0 <= i < rows.len() ==> (#[trigger] rows[i]).reconstruction() == Ok::<
                TransactionRecordView,
                StoreError,
            >(reconstruction_of_all(rows)->Ok_0[i]),
    decreases rows.len(),
{
    if rows.len() > 0 {
        let head = rows.drop_last();
        assert forall|i: int| 0 <= i < head.len() implies (#[trigger] head[i]).reconstruction()
            is Ok by {
            assert(head[i] == rows[i]);
        }
        lemma_all_rebuilt(head);
        assert(rows.last() == rows[rows.len() - 1]);
        assert forall|i: int| 0 <= i < rows.len() implies (#[trigger] rows[i]).reconstruction()
            == Ok::<TransactionRecordView, StoreError>(reconstruction_of_all(rows)->Ok_0[i]) by {
            if i < head.len() {
                assert(head[i] == rows[i]);
            }
        }
    }
}

/// Where the row at `k` is the first of a run that cannot be rebuilt, its
/// failure is the failure of the run, whatever rows follow it.
pub proof fn lemma_first_failure(rows: Seq<TransactionRow>, k: int)
    requires
        0 <= k < rows.len(),
        rows[k].reconstruction() is Err,
        forall|i: int| 0 <= i < k ==> (#[trigger] rows[i]).reconstruction() is Ok,
    ensures
        reconstruction_of_all(rows) == Err::<Seq<TransactionRecordView>, StoreError>(
            rows[k].reconstruction()->Err_0,
        ),
    decreases rows.len(),
{
    let head = rows.drop_last();
    if k == rows.len() - 1 {
        assert forall|i: int| 0 <= i < head.len() implies (#[trigger] head[i]).reconstruction()
            is Ok by {
            assert(head[i] == rows[i]);
        }
        lemma_all_rebuilt(head);
    } else {
        assert(head[k] == rows[k]);
        assert forall|i: int| 0 <= i < k implies (#[trigger] head[i]).reconstruction() is Ok by {
            assert(head[i] == rows[i]);
        }
        lemma_first_failure(head, k);
    }
}

/// Whether the block heights of every row are decimal text of 32-bit numbers.
pub open spec fn all_heights_are_decimal(rows: Seq<TransactionRow>) -> bool {
    forall|i: int| 0 <= i < rows.len() ==> (#[trigger] rows[i]).heights_are_decimal()
}

/// Tells whether the block heights of every row are decimal text of 32-bit
/// numbers, which rebuilding the rows asks for.
pub fn have_decimal_heights(rows: &Vec<TransactionRow>) -> (r: bool)
    ensures
        r == all_heights_are_decimal(rows@),
{
    let mut i: usize = 0;
    while i < rows.len()
        invariant
            i <= rows@.len(),
            forall|j: int| 0 <= j < i ==> (#[trigger] rows@[j]).heights_are_decimal(),
        decreases rows@.len() - i,
    {
        if !rows[i].has_decimal_heights() {
            return false;
        }
        i = i + 1;
    }
    true
}

/// Rebuilds the records of the rows of one scan, in the rows' order. The
/// first row that cannot be rebuilt ends the work with its error: no row is
/// passed over. The rows' block heights are taken to be decimal text.
pub fn reconstruct_all(rows: Vec<TransactionRow>) -> (r: Result<
    Vec<TransactionRecord>,
    StoreError,
>)
    requires
        all_heights_are_decimal(rows@),
    ensures
        match r {
            Ok(records) => reconstruction_of_all(rows@) == Ok::<
                Seq<TransactionRecordView>,
                StoreError,
            >(views(records@)),
            Err(e) => reconstruction_of_all(rows@) == Err::<
                Seq<TransactionRecordView>,
                StoreError,
            >(e),
        },
        r matches Ok(records) ==> records@.len() == rows@.len(),
{
    let ghost all = rows@;
    let mut records: Vec<TransactionRecord> = Vec::new();
    assert(all.take(0) =~= Seq::<TransactionRow>::empty());
    assert(views(records@) =~= Seq::<TransactionRecordView>::empty());
    for row in iter: rows
        invariant
            iter.seq() == all,
            records@.len() == iter.index(),
            all_heights_are_decimal(all),
            reconstruction_of_all(all.take(iter.index() as int)) == Ok::<
                Seq<TransactionRecordView>,
                StoreError,
            >(views(records@)),
            forall|j: int| 0 <= j < iter.index() ==> (#[trigger] all[j]).reconstruction() is Ok,
    {
        let ghost i = iter.index() as int;
        let ghost before = views(records@);
        assert(row == all[i]);
        assert(all.take(i + 1).drop_last() =~= all.take(i));
        assert(all.take(i + 1).last() == all[i]);
        match reconstruct(row) {
            Ok(record) => {
                records.push(record);
                assert(views(records@) =~= before.push(record@));
            },
            Err(e) => {
                proof {
                    lemma_first_failure(all, i);
                }
                return Err(e);
            },
        }
    }
    assert(all.take(all.len() as int) =~= all);
    Ok(records)
}

} // verus!
