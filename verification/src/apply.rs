//! The writes of one transaction's update, in their order.
//!
//! An update is written in four steps: the transaction itself, the account's
//! new snapshot, the note updates, and one step for each new note tag. Each
//! write is awaited before the next begins, and the first that fails ends the
//! work: what was written before stays written. The applier decides which
//! write comes next; its caller performs the write and reports how it went.

use vstd::prelude::*;

use crate::error::StoreError;

verus! {

/// One write of an update.
#[derive(Debug, Clone, Copy, PartialEq, Eq, Structural)]
pub enum ApplyAction {
    /// Persist the executed transaction.
    InsertTransaction,
    /// Hand the account's new snapshot to the account store.
    UpdateAccount,
    /// Hand the note updates to the note store.
    ApplyNoteUpdates,
    /// Register the new tag at this index with the tag store.
    AddNoteTag(usize),
}

/// The writes of an update with `tag_count` new tags, in their order.
pub open spec fn plan(tag_count: nat) -> Seq<ApplyAction> {
    seq![ApplyAction::InsertTransaction, ApplyAction::UpdateAccount, ApplyAction::ApplyNoteUpdates]
        + Seq::new(tag_count, |i: int| ApplyAction::AddNoteTag(i as usize))
}

/// How far the writes of one update have come.
pub struct ApplyProgress {
    /// How many new tags the update brings.
    pub tag_count: nat,
    /// How many writes were acknowledged.
    pub acknowledged: nat,
    /// Why a write failed, once one has.
    pub failure: Option<StoreError>,
}

impl ApplyProgress {
    /// Whether no more writes are acknowledged than the plan has.
    pub open spec fn valid(self) -> bool {
        self.acknowledged <= plan(self.tag_count).len()
    }

    /// The progress of an update of which nothing is written yet.
    pub open spec fn start(tag_count: nat) -> ApplyProgress {
        ApplyProgress { tag_count, acknowledged: 0, failure: None }
    }

    /// The write to perform now; `None` once every write is acknowledged or
    /// one has failed.
    pub open spec fn pending(self) -> Option<ApplyAction> {
        if self.failure is None && self.acknowledged < plan(self.tag_count).len() {
            Some(plan(self.tag_count)[self.acknowledged as int])
        } else {
            None
        }
    }

    /// The progress after the pending write went as `outcome` says. Where no
    /// write is pending, nothing changes.
    pub open spec fn after(self, outcome: Result<(), StoreError>) -> ApplyProgress {
        if self.pending() is None {
            self
        } else {
            match outcome {
                Ok(_) => ApplyProgress { acknowledged: self.acknowledged + 1, ..self },
                Err(e) => ApplyProgress { failure: Some(e), ..self },
            }
        }
    }

    /// How the update ended; `None` while a write is pending.
    pub open spec fn outcome(self) -> Option<Result<(), StoreError>> {
        match self.failure {
            Some(e) => Some(Err(e)),
            None => if self.pending() is None {
                Some(Ok(()))
            } else {
                None
            },
        }
    }

    /// The writes performed from here on, where they go as `outcomes` say,
    /// one after the other.
    pub open spec fn writes(self, outcomes: Seq<Result<(), StoreError>>) -> Seq<ApplyAction>
        decreases outcomes.len(),
    {
        if outcomes.len() == 0 || self.pending() is None {
            Seq::empty()
        } else {
            seq![self.pending()->0] + self.after(outcomes[0]).writes(outcomes.drop_first())
        }
    }

    /// The progress reached from here, where the writes go as `outcomes`
    /// say, one after the other.
    pub open spec fn end(self, outcomes: Seq<Result<(), StoreError>>) -> ApplyProgress
        decreases outcomes.len(),
    {
        if outcomes.len() == 0 || self.pending() is None {
            self
        } else {
            self.after(outcomes[0]).end(outcomes.drop_first())
        }
    }
}

/// Decides, write by write, how one update is applied.
pub struct TransactionApplier {
    tag_count: usize,
    fixed_done: u8,
    tags_done: usize,
    failure: Option<StoreError>,
}

impl View for TransactionApplier {
    type V = ApplyProgress;

    closed spec fn view(&self) -> ApplyProgress {
        ApplyProgress {
            tag_count: self.tag_count as nat,
            acknowledged: (self.fixed_done + self.tags_done) as nat,
            failure: self.failure,
        }
    }
}

impl TransactionApplier {
    #[verifier::type_invariant]
    spec fn well_formed(&self) -> bool {
        &&& self.fixed_done <= 3
        &&& self.tags_done <= self.tag_count
        &&& self.tags_done > 0 ==> self.fixed_done == 3
    }

    /// The applier of an update that brings `tag_count` new tags.
    pub fn new(tag_count: usize) -> (applier: TransactionApplier)
        ensures
            applier@ == ApplyProgress::start(tag_count as nat),
            applier@.valid(),
    {
        TransactionApplier { tag_count, fixed_done: 0, tags_done: 0, failure: None }
    }

    /// The write to perform now, or `None` when the work has ended.
    pub fn next_action(&self) -> (action: Option<ApplyAction>)
        ensures
            action == self@.pending(),
            self@.valid(),
    {
        proof {
            use_type_invariant(self);
        }
        if self.failure.is_some() {
            None
        } else if self.fixed_done == 0 {
            Some(ApplyAction::InsertTransaction)
        } else if self.fixed_done == 1 {
            Some(ApplyAction::UpdateAccount)
        } else if self.fixed_done == 2 {
            Some(ApplyAction::ApplyNoteUpdates)
        } else if self.tags_done < self.tag_count {
            Some(ApplyAction::AddNoteTag(self.tags_done))
        } else {
            None
        }
    }

    /// Takes note of how the pending write went. Where no write is pending,
    /// nothing changes.
    pub fn acknowledge(&mut self, outcome: Result<(), StoreError>)
        ensures
            final(self)@ == old(self)@.after(outcome),
            final(self)@.valid(),
    {
        proof {
            use_type_invariant(&*self);
        }
        if self.failure.is_some() {
            return ;
        }
        if self.fixed_done == 3 && self.tags_done >= self.tag_count {
            return ;
        }
        match outcome {
            Ok(_) => {
                if self.fixed_done < 3 {
                    self.fixed_done = self.fixed_done + 1;
                } else {
                    self.tags_done = self.tags_done + 1;
                }
            },
            Err(e) => {
                self.failure = Some(e);
            },
        }
    }

    /// How the update ended: `Ok` once every write is acknowledged, the
    /// error of the write that failed, or `None` while a write is pending.
    pub fn result(self) -> (r: Option<Result<(), StoreError>>)
        ensures
            r == self@.outcome(),
    {
        proof {
            use_type_invariant(&self);
        }
        match self.failure {
            Some(e) => Some(Err(e)),
            None => if self.fixed_done == 3 && self.tags_done >= self.tag_count {
                Some(Ok(()))
            } else {
                None
            },
        }
    }
}

/// Whatever the outcomes, the writes performed follow the plan from where
/// the progress stands, in order and without a gap, one for each outcome at
/// most.
pub proof fn lemma_writes_follow_plan(
    progress: ApplyProgress,
    outcomes: Seq<Result<(), StoreError>>,
)
    requires
        progress.valid(),
    ensures
        progress.writes(outcomes).len() <= outcomes.len(),
        progress.acknowledged + progress.writes(outcomes).len() <= plan(
            progress.tag_count,
        ).len(),
        progress.end(outcomes).valid(),
        progress.writes(outcomes) == plan(progress.tag_count).subrange(
            progress.acknowledged as int,
            (progress.acknowledged + progress.writes(outcomes).len()) as int,
        ),
    decreases outcomes.len(),
{
    let steps = plan(progress.tag_count);
    let a = progress.acknowledged as int;
    if outcomes.len() == 0 || progress.pending() is None {
        assert(progress.writes(outcomes) =~= steps.subrange(a, a));
    } else {
        let next = progress.after(outcomes[0]);
        let rest = outcomes.drop_first();
        lemma_writes_follow_plan(next, rest);
        if outcomes[0] is Err {
            assert(next.pending() is None);
            assert(next.writes(rest) =~= Seq::<ApplyAction>::empty());
        }
        assert(progress.writes(outcomes) =~= steps.subrange(
            a,
            a + progress.writes(outcomes).len(),
        ));
    }
}

/// From a progress without failure, `k` writes that succeed are performed as
/// the plan has them. Where the outcomes end there, the progress has moved on
/// by `k`; where the next write fails, it is performed too, nothing after it
/// is, and its error is the failure.
proof fn lemma_run(progress: ApplyProgress, outcomes: Seq<Result<(), StoreError>>, k: nat)
    requires
        progress.failure is None,
        k <= outcomes.len(),
        forall|i: int| 0 <= i < k ==> (#[trigger] outcomes[i]) is Ok,
        progress.acknowledged + k <= plan(progress.tag_count).len(),
        k < outcomes.len() ==> outcomes[k as int] is Err && progress.acknowledged + k < plan(
            progress.tag_count,
        ).len(),
    ensures
        k == outcomes.len() ==> {
            &&& progress.writes(outcomes) == plan(progress.tag_count).subrange(
                progress.acknowledged as int,
                (progress.acknowledged + k) as int,
            )
            &&& progress.end(outcomes) == (ApplyProgress {
                acknowledged: progress.acknowledged + k,
                ..progress
            })
        },
        k < outcomes.len() ==> {
            &&& progress.writes(outcomes) == plan(progress.tag_count).subrange(
                progress.acknowledged as int,
                (progress.acknowledged + k + 1) as int,
            )
            &&& progress.end(outcomes) == (ApplyProgress {
                acknowledged: progress.acknowledged + k,
                failure: Some(outcomes[k as int]->Err_0),
                ..progress
            })
        },
    decreases outcomes.len(),
{
    let steps = plan(progress.tag_count);
    let a = progress.acknowledged as int;
    if outcomes.len() == 0 {
        assert(progress.writes(outcomes) =~= steps.subrange(a, a));
    } else {
        let next = progress.after(outcomes[0]);
        let rest = outcomes.drop_first();
        if k == 0 {
            assert(next.pending() is None);
            assert(next.writes(rest) =~= Seq::<ApplyAction>::empty());
            assert(progress.writes(outcomes) =~= steps.subrange(a, a + 1));
        } else {
            assert(outcomes[0] is Ok);
            assert forall|i: int| 0 <= i < k - 1 implies (#[trigger] rest[i]) is Ok by {
                assert(rest[i] == outcomes[i + 1]);
            }
            if k < outcomes.len() {
                assert(rest[k - 1] == outcomes[k as int]);
            }
            lemma_run(next, rest, (k - 1) as nat);
            if k == outcomes.len() {
                assert(progress.writes(outcomes) =~= steps.subrange(a, a + k));
            } else {
                assert(progress.writes(outcomes) =~= steps.subrange(a, a + k + 1));
            }
        }
    }
}

/// Where every write of an update succeeds, the writes performed are the
/// plan's, all of them and in its order, and the update ends well.
pub proof fn lemma_apply_completes(tag_count: nat, outcomes: Seq<Result<(), StoreError>>)
    requires
        outcomes.len() == 3 + tag_count,
        forall|i: int| 0 <= i < outcomes.len() ==> (#[trigger] outcomes[i]) is Ok,
    ensures
        ApplyProgress::start(tag_count).writes(outcomes) == plan(tag_count),
        ApplyProgress::start(tag_count).end(outcomes).outcome() == Some(
            Ok::<(), StoreError>(()),
        ),
{
    let start = ApplyProgress::start(tag_count);
    lemma_run(start, outcomes, outcomes.len());
    assert(plan(tag_count).subrange(0, (3 + tag_count) as int) =~= plan(tag_count));
}

/// Where the write at index `k` is the first that fails, the writes
/// performed are the plan's up to that one, none after it, and the update
/// ends with that write's error: what was written before stays written.
pub proof fn lemma_apply_fails_fast(
    tag_count: nat,
    outcomes: Seq<Result<(), StoreError>>,
    k: nat,
)
    requires
        k < 3 + tag_count,
        k < outcomes.len(),
        forall|i: int| 0 <= i < k ==> (#[trigger] outcomes[i]) is Ok,
        outcomes[k as int] is Err,
    ensures
        ApplyProgress::start(tag_count).writes(outcomes) == plan(tag_count).take((k + 1) as int),
        ApplyProgress::start(tag_count).end(outcomes).acknowledged == k,
        ApplyProgress::start(tag_count).end(outcomes).outcome() == Some(
            Err::<(), StoreError>(outcomes[k as int]->Err_0),
        ),
{
    lemma_run(ApplyProgress::start(tag_count), outcomes, k);
}

/// An update without new tags has three writes: the transaction, the
/// account and the note updates. Whatever their outcomes, no tag is
/// registered; where the three succeed, they are what is performed and the
/// update ends well.
pub proof fn lemma_apply_without_tags(outcomes: Seq<Result<(), StoreError>>)
    ensures
        plan(0) == seq![
            ApplyAction::InsertTransaction,
            ApplyAction::UpdateAccount,
            ApplyAction::ApplyNoteUpdates,
        ],
        forall|i: int, tag: usize|
            0 <= i < ApplyProgress::start(0).writes(outcomes).len() ==> ApplyProgress::start(
                0,
            ).writes(outcomes)[i] != ApplyAction::AddNoteTag(tag),
        outcomes.len() >= 3 && outcomes[0] is Ok && outcomes[1] is Ok && outcomes[2] is Ok ==> {
            &&& ApplyProgress::start(0).writes(outcomes) == plan(0)
            &&& ApplyProgress::start(0).end(outcomes).outcome() == Some(Ok::<(), StoreError>(()))
        },
{
    let start = ApplyProgress::start(0);
    assert(plan(0) =~= seq![
        ApplyAction::InsertTransaction,
        ApplyAction::UpdateAccount,
        ApplyAction::ApplyNoteUpdates,
    ]);
    lemma_writes_follow_plan(start, outcomes);
    if outcomes.len() >= 3 && outcomes[0] is Ok && outcomes[1] is Ok && outcomes[2] is Ok {
        let first = outcomes.take(3);
        lemma_apply_completes(0, first);
        lemma_writes_split(start, first, outcomes.skip(3));
        assert(first + outcomes.skip(3) =~= outcomes);
    }
}

/// Outcomes taken in two runs lead where they lead taken in one.
proof fn lemma_writes_split(
    progress: ApplyProgress,
    first: Seq<Result<(), StoreError>>,
    second: Seq<Result<(), StoreError>>,
)
    ensures
        progress.writes(first + second) == progress.writes(first) + progress.end(first).writes(
            second,
        ),
        progress.end(first + second) == progress.end(first).end(second),
    decreases first.len(),
{
    let all = first + second;
    if first.len() == 0 {
        assert(all =~= second);
        assert(progress.writes(all) =~= progress.writes(first) + progress.end(first).writes(
            second,
        ));
    } else if progress.pending() is None {
        assert(progress.end(first) == progress);
        lemma_stopped(progress, second);
        lemma_stopped(progress, all);
        assert(progress.writes(all) =~= progress.writes(first) + progress.end(first).writes(
            second,
        ));
    } else {
        assert(all[0] == first[0]);
        assert(all.drop_first() =~= first.drop_first() + second);
        lemma_writes_split(progress.after(first[0]), first.drop_first(), second);
        assert(progress.writes(all) =~= progress.writes(first) + progress.end(first).writes(
            second,
        ));
    }
}

/// Once no write is pending, none is performed and nothing changes.
proof fn lemma_stopped(progress: ApplyProgress, outcomes: Seq<Result<(), StoreError>>)
    requires
        progress.pending() is None,
    ensures
        progress.writes(outcomes) == Seq::<ApplyAction>::empty(),
        progress.end(outcomes) == progress,
{
}

} // verus!
