//! When a failed attempt is tried again.
//!
//! The layer decides; the caller sends the requests, waits between two
//! attempts, and tells the layer how each attempt ended and how much time
//! has gone by since the first.

use vstd::prelude::*;

verus! {

/// The part of the retry policy that decides: the status codes that call for
/// another attempt, the time budget and the number of attempts.
#[derive(Debug, Clone)]
pub struct RetryConfig {
    /// The HTTP status codes after which a request is sent again.
    pub retryable_status_codes: Vec<u16>,
    /// The time after which no further attempt is made, in milliseconds.
    pub max_elapsed_time: u64,
    /// The largest number of attempts.
    pub max_tries: u32,
}

/// How one attempt ended.
#[derive(Debug, Clone, Copy, PartialEq, Eq, Structural)]
pub enum Attempt {
    /// A response came back, with this HTTP status.
    Response(u16),
    /// No response came back.
    TransportError,
}

/// What follows an attempt.
#[derive(Debug, Clone, Copy, PartialEq, Eq, Structural)]
pub enum RetryAction {
    /// The response is the answer: hand it on.
    Deliver,
    /// Wait and send the request again.
    Retry,
    /// Give up: the last error is the failure of the request.
    Fail,
}

/// Whether an attempt calls for another one: it brought no response, or a
/// response with one of the status codes of the configuration.
pub open spec fn retryable(codes: Seq<u16>, attempt: Attempt) -> bool {
    match attempt {
        Attempt::Response(status) => codes.contains(status),
        Attempt::TransportError => true,
    }
}

/// What follows the attempt that ended as `attempt`, when `tries` attempts
/// were made before it and `elapsed` milliseconds have gone by: the response
/// is delivered unless the attempt calls for another one; another one is
/// made unless the attempts or the time are used up.
pub open spec fn decided(
    codes: Seq<u16>,
    max_tries: int,
    max_elapsed: int,
    tries: int,
    attempt: Attempt,
    elapsed: int,
) -> RetryAction {
    if !retryable(codes, attempt) {
        RetryAction::Deliver
    } else if tries + 1 >= max_tries || elapsed > max_elapsed {
        RetryAction::Fail
    } else {
        RetryAction::Retry
    }
}

/// What becomes of a request whose attempts end as `attempts` say, the
/// `i`-th after `elapsed[i]` milliseconds, from attempt `from` on: the
/// position of the attempt whose response is delivered, or of the attempt
/// after which the request is given up, and which of the two it is. `None`
/// where the attempts run out before either.
pub open spec fn run(
    conf: RetryConfig,
    attempts: Seq<Attempt>,
    elapsed: Seq<u64>,
    from: int,
) -> Option<(int, RetryAction)>
    decreases attempts.len() - from,
{
    if from < 0 || from >= attempts.len() || from >= elapsed.len() {
        None
    } else {
        match decided(
            conf.retryable_status_codes@,
            conf.max_tries as int,
            conf.max_elapsed_time as int,
            from,
            attempts[from],
            elapsed[from] as int,
        ) {
            RetryAction::Retry => run(conf, attempts, elapsed, from + 1),
            action => Some((from, action)),
        }
    }
}

/// The retry policy of one request.
#[derive(Debug)]
pub struct RetryLayer {
    conf: RetryConfig,
    tries: u32,
}

impl RetryLayer {
    /// The configuration of the layer.
    pub closed spec fn conf_view(self) -> RetryConfig {
        self.conf
    }

    /// The number of attempts that the layer has been told of.
    pub closed spec fn tries_view(self) -> u32 {
        self.tries
    }

    /// The policy for a request of which no attempt has been made.
    pub fn new(conf: RetryConfig) -> (layer: RetryLayer)
        ensures
            layer.conf_view() == conf,
            layer.tries_view() == 0,
    {
        RetryLayer { conf, tries: 0 }
    }

    /// Whether the status is one after which the request is sent again.
    pub fn is_retryable_status(&self, status: u16) -> (r: bool)
        ensures
            r == self.conf_view().retryable_status_codes@.contains(status),
    {
        let n: usize = self.conf.retryable_status_codes.len();
        let mut i: usize = 0;
        while i < n
            invariant
                0 <= i <= n,
                n == self.conf.retryable_status_codes@.len(),
                forall|j: int| 0 <= j < i ==> self.conf.retryable_status_codes@[j] != status,
            decreases n - i,
        {
            if self.conf.retryable_status_codes[i] == status {
                return true;
            }
            i = i + 1;
        }
        false
    }

    /// Takes note of an attempt and says what follows it: see `decided`.
    /// `elapsed` is the time since the first attempt, in milliseconds.
    pub fn on_attempt(&mut self, attempt: Attempt, elapsed: u64) -> (action: RetryAction)
        ensures
            final(self).conf_view() == old(self).conf_view(),
            action == decided(
                old(self).conf_view().retryable_status_codes@,
                old(self).conf_view().max_tries as int,
                old(self).conf_view().max_elapsed_time as int,
                old(self).tries_view() as int,
                attempt,
                elapsed as int,
            ),
            action == RetryAction::Retry ==> final(self).tries_view() == old(self).tries_view() + 1,
            action != RetryAction::Retry ==> final(self).tries_view() == old(self).tries_view(),
    {
        let again: bool = match attempt {
            Attempt::Response(status) => self.is_retryable_status(status),
            Attempt::TransportError => true,
        };
        if !again {
            RetryAction::Deliver
        } else if self.tries >= self.conf.max_tries || self.conf.max_tries - self.tries <= 1
            || elapsed > self.conf.max_elapsed_time {
            RetryAction::Fail
        } else {
            self.tries = self.tries + 1;
            RetryAction::Retry
        }
    }
}

/// Every attempt before `k` calls for another one and is within the time
/// budget.
pub open spec fn failures_within_budget(
    conf: RetryConfig,
    attempts: Seq<Attempt>,
    elapsed: Seq<u64>,
    k: int,
) -> bool {
    forall|j: int|
        0 <= j < k ==> retryable(conf.retryable_status_codes@, #[trigger] attempts[j])
            && elapsed[j] <= conf.max_elapsed_time
}

/// A request that fails fewer times than the configuration allows attempts,
/// each time in a way that calls for another attempt and within the time
/// budget, and then gets a response that does not, has that response
/// delivered.
pub proof fn lemma_success_after_retries(
    conf: RetryConfig,
    attempts: Seq<Attempt>,
    elapsed: Seq<u64>,
    k: int,
)
    requires
        0 <= k < attempts.len(),
        attempts.len() == elapsed.len(),
        k < conf.max_tries,
        failures_within_budget(conf, attempts, elapsed, k),
        !retryable(conf.retryable_status_codes@, attempts[k]),
    ensures
        run(conf, attempts, elapsed, 0) == Some((k, RetryAction::Deliver)),
{
    lemma_run_from(conf, attempts, elapsed, 0, k);
}

/// A request whose attempts all call for another one is given up after as
/// many attempts as the configuration allows.
pub proof fn lemma_failure_after_max_tries(
    conf: RetryConfig,
    attempts: Seq<Attempt>,
    elapsed: Seq<u64>,
)
    requires
        attempts.len() == elapsed.len(),
        1 <= conf.max_tries <= attempts.len(),
        failures_within_budget(conf, attempts, elapsed, conf.max_tries as int),
    ensures
        run(conf, attempts, elapsed, 0) == Some((conf.max_tries - 1, RetryAction::Fail)),
{
    lemma_run_from(conf, attempts, elapsed, 0, conf.max_tries - 1);
}

/// A request that fails, in a way that calls for another attempt, after more
/// time than the configuration allows, is given up at that attempt.
pub proof fn lemma_failure_after_max_elapsed(
    conf: RetryConfig,
    attempts: Seq<Attempt>,
    elapsed: Seq<u64>,
    k: int,
)
    requires
        0 <= k < attempts.len(),
        attempts.len() == elapsed.len(),
        k < conf.max_tries,
        failures_within_budget(conf, attempts, elapsed, k),
        retryable(conf.retryable_status_codes@, attempts[k]),
        elapsed[k] > conf.max_elapsed_time,
    ensures
        run(conf, attempts, elapsed, 0) == Some((k, RetryAction::Fail)),
{
    lemma_run_from(conf, attempts, elapsed, 0, k);
}

/// From any attempt on, a run of failures within the budgets leads to the
/// attempt at `k`, which decides.
proof fn lemma_run_from(
    conf: RetryConfig,
    attempts: Seq<Attempt>,
    elapsed: Seq<u64>,
    from: int,
    k: int,
)
    requires
        0 <= from <= k < attempts.len(),
        attempts.len() == elapsed.len(),
        k < conf.max_tries,
        failures_within_budget(conf, attempts, elapsed, k),
    ensures
        run(conf, attempts, elapsed, from) == run(conf, attempts, elapsed, k),
    decreases k - from,
{
    if from < k {
        assert(retryable(conf.retryable_status_codes@, attempts[from]));
        lemma_run_from(conf, attempts, elapsed, from + 1, k);
    }
}

} // verus!
