//! Decisions of validator registration: batching per relay, retrying
//! failed sends, and whether the registration succeeded overall.

use vstd::prelude::*;
use crate::types::ValidatorRegistration;
use crate::validation::sat_sub;

verus! {

/// The batches concatenated in order.
pub open spec fn flatten(batches: Seq<Seq<ValidatorRegistration>>) -> Seq<ValidatorRegistration>
    decreases batches.len(),
{
    if batches.len() == 0 {
        Seq::empty()
    } else {
        flatten(batches.drop_last()) + batches.last()
    }
}

/// Splits the registrations into batches of `batch_size` (the last one may
/// be shorter), or one batch of all of them when no size is set.
pub fn registration_batches(registrations: &Vec<ValidatorRegistration>, batch_size: Option<usize>) -> (batches: Vec<Vec<ValidatorRegistration>>)
    requires
        batch_size != Some(0usize),
    ensures
        flatten(batches@.map_values(|b: Vec<ValidatorRegistration>| b@)) == registrations@,
        batch_size is None ==> batches@.len() == 1,
        batch_size matches Some(size) ==> {
            &&& batches@.len() == (registrations@.len() + size - 1) / size as int
            &&& forall|i: int| 0 <= i < batches@.len() - 1 ==> #[trigger] batches@[i]@.len() == size
            &&& batches@.len() > 0 ==> 1 <= batches@.last()@.len() <= size
        },
{
    match batch_size {
        None => {
            let mut all: Vec<ValidatorRegistration> = Vec::new();
            let mut i: usize = 0;
            while i < registrations.len()
                invariant
                    i <= registrations@.len(),
                    all@ == registrations@.take(i as int),
                decreases registrations@.len() - i,
            {
                all.push(registrations[i]);
                assert(all@ =~= registrations@.take(i + 1));
                i = i + 1;
            }
            assert(registrations@.take(i as int) =~= registrations@);
            let mut batches: Vec<Vec<ValidatorRegistration>> = Vec::new();
            batches.push(all);
            proof {
                let views = batches@.map_values(|b: Vec<ValidatorRegistration>| b@);
                assert(views.drop_last() =~= Seq::<Seq<ValidatorRegistration>>::empty());
                assert(flatten(views.drop_last()) == Seq::<ValidatorRegistration>::empty());
                assert(views.last() == all@);
                assert(flatten(views) =~= registrations@);
            }
            batches
        },
        Some(size) => {
            let mut batches: Vec<Vec<ValidatorRegistration>> = Vec::new();
            let mut start: usize = 0;
            assert((0 + size - 1) / (size as int) == 0) by (nonlinear_arith)
                requires size > 0;
            assert(batches@.map_values(|b: Vec<ValidatorRegistration>| b@) =~= Seq::<Seq<ValidatorRegistration>>::empty());
            assert(registrations@.take(0) =~= Seq::<ValidatorRegistration>::empty());
            while start < registrations.len()
                invariant
                    size > 0,
                    start <= registrations@.len(),
                    flatten(batches@.map_values(|b: Vec<ValidatorRegistration>| b@)) == registrations@.take(start as int),
                    batches@.len() == (start + size - 1) / size as int,
                    start % size == 0 || start == registrations@.len(),
                    forall|i: int| 0 <= i < batches@.len() ==> #[trigger] batches@[i]@.len() == size
                        || (i == batches@.len() - 1 && start == registrations@.len()),
                    forall|i: int| 0 <= i < batches@.len() ==> 1 <= #[trigger] batches@[i]@.len() <= size,
                decreases registrations@.len() - start,
            {
                let end: usize = if registrations.len() - start > size { start + size } else { registrations.len() };
                let mut batch: Vec<ValidatorRegistration> = Vec::new();
                let mut i: usize = start;
                while i < end
                    invariant
                        start <= i <= end,
                        end <= registrations@.len(),
                        batch@ == registrations@.subrange(start as int, i as int),
                    decreases end - i,
                {
                    batch.push(registrations[i]);
                    assert(batch@ =~= registrations@.subrange(start as int, i + 1));
                    i = i + 1;
                }
                let ghost old_batches = batches@;
                batches.push(batch);
                proof {
                    let views = batches@.map_values(|b: Vec<ValidatorRegistration>| b@);
                    assert(views.drop_last() =~= old_batches.map_values(|b: Vec<ValidatorRegistration>| b@));
                    assert(registrations@.take(end as int) =~= registrations@.take(start as int) + registrations@.subrange(start as int, end as int));
                    assert(flatten(views) =~= registrations@.take(end as int));
                    if end < registrations@.len() {
                        assert(end == start + size);
                        assert(((start + size) as int) % (size as int) == 0) by (nonlinear_arith)
                            requires (start as int) % (size as int) == 0, size > 0;
                        assert((end + size - 1) / (size as int) == (start + size - 1) / (size as int) + 1) by (nonlinear_arith)
                            requires end == start + size, size > 0;
                    } else {
                        assert((end + size - 1) / (size as int) == (start + size - 1) / (size as int) + 1) by (nonlinear_arith)
                            requires (start as int) % (size as int) == 0, start < end, end <= start + size, size > 0;
                    }
                }
                start = end;
            }
            proof {
                assert(registrations@.take(start as int) =~= registrations@);
            }
            batches
        },
    }
}

/// Progress of sending one batch to one relay: retries so far, the pause
/// before the next try, and the time left (milliseconds).
#[derive(Debug, Clone, Copy, PartialEq, Eq, Structural)]
pub struct RegistrationRetry {
    pub retry: u32,
    pub backoff_ms: u64,
    pub remaining_timeout_ms: u64,
}

impl RegistrationRetry {
    /// The state before the first try: the whole timeout is left and the
    /// first pause is 250 ms.
    pub fn start(timeout_ms: u64) -> (state: RegistrationRetry)
        ensures
            state == (RegistrationRetry { retry: 0, backoff_ms: 250, remaining_timeout_ms: timeout_ms }),
    {
        RegistrationRetry { retry: 0, backoff_ms: 250, remaining_timeout_ms: timeout_ms }
    }

    /// After a failure worth retrying: counts it and says whether another
    /// try is allowed under `retry_limit`.
    pub fn on_retryable_failure(&mut self, retry_limit: u32) -> (again: bool)
        ensures
            final(self).retry == if old(self).retry < u32::MAX { old(self).retry + 1 } else { u32::MAX as int },
            final(self).backoff_ms == old(self).backoff_ms,
            final(self).remaining_timeout_ms == old(self).remaining_timeout_ms,
            again == (final(self).retry < retry_limit),
    {
        self.retry = if self.retry < u32::MAX { self.retry + 1 } else { u32::MAX };
        self.retry < retry_limit
    }

    /// After pausing: the next pause grows by 250 ms, and the time left is
    /// the timeout minus the time since the failed try began; no time left
    /// means giving up.
    pub fn after_backoff(&mut self, timeout_ms: u64, elapsed_ms: u64) -> (again: bool)
        ensures
            final(self).retry == old(self).retry,
            final(self).backoff_ms == if old(self).backoff_ms <= u64::MAX - 250 { old(self).backoff_ms + 250 } else { u64::MAX as int },
            final(self).remaining_timeout_ms == sat_sub(timeout_ms, elapsed_ms),
            again == (final(self).remaining_timeout_ms > 0),
    {
        self.backoff_ms = self.backoff_ms.saturating_add(250);
        self.remaining_timeout_ms = timeout_ms.saturating_sub(elapsed_ms);
        self.remaining_timeout_ms > 0
    }
}

/// Whether registration succeeded: it does when at least one relay
/// accepted the registrations, whether all relays are waited for or not.
pub fn registration_succeeded(wait_all: bool, outcomes: &Vec<bool>) -> (ok: bool)
    ensures
        ok == exists|i: int| 0 <= i < outcomes@.len() && #[trigger] outcomes@[i],
{
    let _ = wait_all;
    let mut i: usize = 0;
    while i < outcomes.len()
        invariant
            i <= outcomes@.len(),
            forall|j: int| 0 <= j < i ==> !(#[trigger] outcomes@[j]),
        decreases outcomes@.len() - i,
    {
        if outcomes[i] {
            return true;
        }
        i = i + 1;
    }
    false
}

} // verus!
