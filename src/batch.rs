use vstd::prelude::*;

use crate::error::ReceiveError;
use crate::watermark::{merged_all, Timestamp, WatermarkMap};

verus! {

/// The first failure among a batch's message results, if any.
pub open spec fn first_error(results: Seq<Result<(u128, Timestamp), ReceiveError>>) -> Option<
    ReceiveError,
>
    decreases results.len(),
{
    if results.len() == 0 {
        None
    } else {
        match first_error(results.drop_last()) {
            Some(e) => Some(e),
            None => match results.last() {
                Err(e) => Some(e),
                Ok(_) => None,
            },
        }
    }
}

/// The (device, end timestamp) pairs of a batch whose messages all succeeded.
pub open spec fn successes(results: Seq<Result<(u128, Timestamp), ReceiveError>>) -> Seq<
    (u128, Timestamp),
>
    decreases results.len(),
{
    if results.len() == 0 {
        Seq::empty()
    } else {
        match results.last() {
            Ok(p) => successes(results.drop_last()).push(p),
            Err(_) => successes(results.drop_last()),
        }
    }
}

/// What the pull loop does after one batch of descriptors.
#[derive(Clone, Copy, Debug, PartialEq, Eq, Structural)]
pub enum PullStep {
    /// The batch was processed and merged: wake the ingester, pull on.
    NotifyIngestion,
    /// The batch was empty: stop pulling and persist the watermarks.
    Finish,
}

/// Merges the joined results of one batch into the watermarks, all or
/// nothing: where any message failed, the watermarks stay as they were and
/// the first failure is returned, so the next iteration retries the range.
pub fn apply_batch(watermarks: &mut WatermarkMap, results: &Vec<Result<(u128, Timestamp), ReceiveError>>) -> (r: Result<(), ReceiveError>)
    ensures
        match first_error(results@) {
            Some(e) => r == Err::<(), ReceiveError>(e) && final(watermarks)@ == old(watermarks)@,
            None => r is Ok && final(watermarks)@ == merged_all(old(watermarks)@, successes(results@)),
        },
{
    let mut oks: Vec<(u128, Timestamp)> = Vec::new();
    let mut i: usize = 0;
    while i < results.len()
        invariant
            i <= results@.len(),
            first_error(results@.take(i as int)) is None,
            oks@ == successes(results@.take(i as int)),
            watermarks@ == old(watermarks)@,
        decreases results@.len() - i,
    {
        proof {
            assert(results@.take(i + 1).drop_last() =~= results@.take(i as int));
        }
        match &results[i] {
            Err(e) => {
                proof {
                    lemma_first_error_prefix(results@, i + 1);
                    assert(first_error(results@) == Some(*e));
                }
                return Err(*e);
            },
            Ok(p) => {
                oks.push(*p);
            },
        }
        i = i + 1;
    }
    proof {
        assert(results@.take(results@.len() as int) =~= results@);
    }
    watermarks.merge_all(&oks);
    Ok(())
}

proof fn lemma_first_error_prefix(results: Seq<Result<(u128, Timestamp), ReceiveError>>, k: int)
    requires
        0 <= k <= results.len(),
        first_error(results.take(k)) is Some,
    ensures
        first_error(results) == first_error(results.take(k)),
    decreases results.len() - k,
{
    if k < results.len() {
        assert(results.take(k + 1).drop_last() =~= results.take(k));
        lemma_first_error_prefix(results, k + 1);
    } else {
        assert(results.take(k) =~= results);
    }
}

/// One step of the pull loop: an empty batch ends the pull; otherwise the
/// batch is merged all or nothing, and on success the ingester is woken.
pub fn on_batch(watermarks: &mut WatermarkMap, results: &Vec<Result<(u128, Timestamp), ReceiveError>>) -> (r: Result<PullStep, ReceiveError>)
    ensures
        results@.len() == 0 ==> r == Ok::<PullStep, ReceiveError>(PullStep::Finish)
            && final(watermarks)@ == old(watermarks)@,
        results@.len() > 0 ==> match first_error(results@) {
            Some(e) => r == Err::<PullStep, ReceiveError>(e) && final(watermarks)@ == old(watermarks)@,
            None => r == Ok::<PullStep, ReceiveError>(PullStep::NotifyIngestion)
                && final(watermarks)@ == merged_all(old(watermarks)@, successes(results@)),
        },
{
    if results.len() == 0 {
        return Ok(PullStep::Finish);
    }
    match apply_batch(watermarks, results) {
        Ok(()) => Ok(PullStep::NotifyIngestion),
        Err(e) => Err(e),
    }
}

/// Decoded operations whose number matched the count the descriptor
/// declared; only such a list is handed to storage.
pub struct CheckedOperations<T> {
    ops: Vec<T>,
}

impl<T> CheckedOperations<T> {
    pub closed spec fn ops(&self) -> Seq<T> {
        self.ops@
    }

    /// The checked operations, for one storage commit.
    pub fn into_vec(self) -> (r: Vec<T>)
        ensures
            r@ == self.ops(),
    {
        self.ops
    }
}

/// Checks the decoded operations against the declared count before anything
/// is committed: a mismatch is an error that carries both numbers.
pub fn check_operation_count<T>(ops: Vec<T>, declared: u32) -> (r: Result<CheckedOperations<T>, ReceiveError>)
    ensures
        ops@.len() == declared as int ==> (r matches Ok(c) && c.ops() == ops@),
        ops@.len() != declared as int ==> r == Err::<CheckedOperations<T>, ReceiveError>(
            ReceiveError::OperationCountMismatch { declared, decoded: ops@.len() as usize },
        ),
{
    let decoded = ops.len();
    if decoded as u64 == declared as u64 {
        Ok(CheckedOperations { ops })
    } else {
        Err(ReceiveError::OperationCountMismatch { declared, decoded })
    }
}

/// The number of downloads allowed at once: the machine's parallelism where
/// it is known, else one.
pub fn download_permits(parallelism: Option<usize>) -> (r: usize)
    ensures
        r >= 1,
        parallelism matches Some(n) && n >= 1 ==> r == parallelism->Some_0,
        !(parallelism matches Some(n) && n >= 1) ==> r == 1,
{
    match parallelism {
        Some(n) => if n >= 1 {
            n
        } else {
            1
        },
        None => 1,
    }
}

} // verus!
