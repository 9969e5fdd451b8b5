use vstd::prelude::*;

use crate::consts::FETCH_RETRIES;

verus! {

/// How a request for bars to the market data service ended.
#[derive(Clone, Copy, Debug, PartialEq, Eq, Structural)]
pub enum FetchOutcome {
    /// The bars arrived.
    Success,
    /// The service refused the request because of its rate limit.
    RateLimited,
    /// The request failed for another reason.
    Failed,
}

/// What to do after a response.
#[derive(Clone, Copy, Debug, PartialEq, Eq, Structural)]
pub enum FetchAction {
    /// Use the response.
    Accept,
    /// Wait out the rate limit, then issue the request again.
    WaitAndRetry,
    /// Issue the request again at once.
    Retry,
    /// Stop: all attempts failed.
    GiveUp,
}

/// Retry bookkeeping for one request: how many times it has been issued.
#[derive(Clone, Copy, Debug, PartialEq, Eq, Structural)]
pub struct FetchRetry {
    pub attempts: usize,
}

/// The action that follows a response after `attempts` issued requests.
///
/// The first request is not a retry, so a failed request may be issued again
/// while at most `FETCH_RETRIES` requests have been issued: that allows
/// `FETCH_RETRIES` retries.
pub open spec fn fetch_action(attempts: nat, outcome: FetchOutcome) -> FetchAction {
    match outcome {
        FetchOutcome::Success => FetchAction::Accept,
        _ => if attempts <= FETCH_RETRIES {
            if outcome == FetchOutcome::RateLimited {
                FetchAction::WaitAndRetry
            } else {
                FetchAction::Retry
            }
        } else {
            FetchAction::GiveUp
        },
    }
}

/// True for actions that issue the request again.
pub open spec fn reissues(a: FetchAction) -> bool {
    a == FetchAction::WaitAndRetry || a == FetchAction::Retry
}

impl FetchRetry {
    /// The state right after the first request has been issued.
    pub fn new() -> (r: Self)
        ensures
            r.attempts == 1,
    {
        FetchRetry { attempts: 1 }
    }

    /// Decides what follows a response, and counts the request issued again
    /// if the decision is to retry.
    pub fn on_response(&mut self, outcome: FetchOutcome) -> (a: FetchAction)
        ensures
            a == fetch_action(old(self).attempts as nat, outcome),
            final(self).attempts == if reissues(a) {
                old(self).attempts + 1
            } else {
                old(self).attempts as int
            },
            old(self).attempts <= FETCH_RETRIES + 1 ==> final(self).attempts <= FETCH_RETRIES + 1,
            old(self).attempts <= FETCH_RETRIES && outcome == FetchOutcome::RateLimited ==> a
                == FetchAction::WaitAndRetry,
            old(self).attempts <= FETCH_RETRIES && outcome == FetchOutcome::Failed ==> a
                == FetchAction::Retry,
    {
        match outcome {
            FetchOutcome::Success => FetchAction::Accept,
            _ => {
                if self.attempts <= FETCH_RETRIES {
                    self.attempts = self.attempts + 1;
                    if outcome == FetchOutcome::RateLimited {
                        FetchAction::WaitAndRetry
                    } else {
                        FetchAction::Retry
                    }
                } else {
                    FetchAction::GiveUp
                }
            },
        }
    }
}

/// Number of requests issued when the responses are `outcomes`, in order,
/// starting after `attempts` requests: each response either ends the run or
/// leads to one more request.
pub open spec fn requests_issued(attempts: nat, outcomes: Seq<FetchOutcome>) -> nat
    decreases outcomes.len(),
{
    if outcomes.len() == 0 {
        attempts
    } else if reissues(fetch_action(attempts, outcomes[0])) {
        requests_issued(attempts + 1, outcomes.drop_first())
    } else {
        attempts
    }
}

/// However the service responds, a request is issued at most
/// `FETCH_RETRIES + 1` times in all: the first request and at most
/// `FETCH_RETRIES` retries.
pub proof fn lemma_attempts_bounded(attempts: nat, outcomes: Seq<FetchOutcome>)
    requires
        1 <= attempts <= FETCH_RETRIES + 1,
    ensures
        requests_issued(attempts, outcomes) <= FETCH_RETRIES + 1,
    decreases outcomes.len(),
{
    if outcomes.len() > 0 && reissues(fetch_action(attempts, outcomes[0])) {
        lemma_attempts_bounded(attempts + 1, outcomes.drop_first());
    }
}

/// A successful response is always accepted, and a failure is only given up
/// on once all `FETCH_RETRIES` retries have been spent; until then a rate
/// limit is always waited out before the retry, and another failure is
/// retried at once.
pub proof fn lemma_give_up_only_when_spent(attempts: nat, outcome: FetchOutcome)
    ensures
        outcome == FetchOutcome::Success ==> fetch_action(attempts, outcome) == FetchAction::Accept,
        fetch_action(attempts, outcome) == FetchAction::GiveUp <==> attempts > FETCH_RETRIES
            && outcome != FetchOutcome::Success,
        fetch_action(attempts, outcome) == FetchAction::WaitAndRetry ==> outcome
            == FetchOutcome::RateLimited,
        attempts <= FETCH_RETRIES && outcome == FetchOutcome::RateLimited ==> fetch_action(
            attempts,
            outcome,
        ) == FetchAction::WaitAndRetry,
        attempts <= FETCH_RETRIES && outcome == FetchOutcome::Failed ==> fetch_action(
            attempts,
            outcome,
        ) == FetchAction::Retry,
{
}

/// Whether the run of requests that starts after `attempts` requests, with
/// the responses `outcomes` in order, ends with a response that is used.
pub open spec fn run_accepted(attempts: nat, outcomes: Seq<FetchOutcome>) -> bool
    decreases outcomes.len(),
{
    if outcomes.len() == 0 {
        false
    } else if fetch_action(attempts, outcomes[0]) == FetchAction::Accept {
        true
    } else if reissues(fetch_action(attempts, outcomes[0])) {
        run_accepted(attempts + 1, outcomes.drop_first())
    } else {
        false
    }
}

proof fn lemma_failures_then_success(attempts: nat, m: nat, outcomes: Seq<FetchOutcome>)
    requires
        1 <= attempts <= FETCH_RETRIES + 1,
        m < outcomes.len(),
        forall|i: int| 0 <= i < m ==> #[trigger] outcomes[i] != FetchOutcome::Success,
        outcomes[m as int] == FetchOutcome::Success,
    ensures
        requests_issued(attempts, outcomes) == if attempts + m <= FETCH_RETRIES + 1 {
            (attempts + m) as int
        } else {
            FETCH_RETRIES + 1
        },
        run_accepted(attempts, outcomes) <==> attempts + m <= FETCH_RETRIES + 1,
    decreases m,
{
    if m > 0 && attempts <= FETCH_RETRIES {
        assert(outcomes[0] != FetchOutcome::Success);
        let rest = outcomes.drop_first();
        assert forall|i: int| 0 <= i < m - 1 implies #[trigger] rest[i] != FetchOutcome::Success by {
            assert(rest[i] == outcomes[i + 1]);
        }
        assert(rest[m - 1] == outcomes[m as int]);
        lemma_failures_then_success(attempts + 1, (m - 1) as nat, rest);
    } else if m > 0 {
        assert(outcomes[0] != FetchOutcome::Success);
    }
}

/// When the service fails the first `m` requests (for whatever reason) and
/// answers the next one, `min(m, FETCH_RETRIES) + 1` requests are issued in
/// all, and the answer is used exactly when `m <= FETCH_RETRIES`; otherwise
/// the request is given up after `FETCH_RETRIES` retries.
pub proof fn lemma_requests_for_failures(m: nat, outcomes: Seq<FetchOutcome>)
    requires
        m < outcomes.len(),
        forall|i: int| 0 <= i < m ==> #[trigger] outcomes[i] != FetchOutcome::Success,
        outcomes[m as int] == FetchOutcome::Success,
    ensures
        requests_issued(1, outcomes) == if m <= FETCH_RETRIES {
            (m + 1) as int
        } else {
            FETCH_RETRIES + 1
        },
        run_accepted(1, outcomes) <==> m <= FETCH_RETRIES,
{
    lemma_failures_then_success(1, m, outcomes);
}

} // verus!
