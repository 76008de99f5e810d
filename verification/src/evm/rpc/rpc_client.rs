//! Batches of calls, and the classification of their results.

use vstd::prelude::*;
use crate::evm::rpc::retry_layer::RetryConfig;

verus! {

/// One JSON-RPC call: the method and its parameters, each a JSON text.
#[derive(Debug, Clone)]
pub struct RpcCall {
    pub method: String,
    pub params: Vec<Vec<u8>>,
}

/// What a call yielded: a JSON value, as its text, or the message of the
/// error that the node answered with.
#[derive(Debug, Clone)]
pub enum RpcResult {
    Value(Vec<u8>),
    Error(String),
}

/// What came back for one call.
#[derive(Debug, Clone)]
pub enum RpcResponse {
    /// A result; the JSON text of it.
    Value(Vec<u8>),
    /// An error response of the node, with its message.
    ErrorResp(String),
    /// Any other failure: of the transport, of serialisation.
    Failure(String),
}

/// A failure that ends the whole invocation.
#[derive(Debug, Clone)]
pub enum RpcFailure {
    /// A call yielded `null`, and the configuration refuses that.
    NullValue,
    /// The node answered a call with an error, and the configuration refuses
    /// that; or the call failed otherwise. The message is inside.
    Call(String),
}

/// The configuration of a client.
#[derive(Debug, Clone)]
pub struct RpcClientConfig {
    /// One request for each call.
    pub disable_batch: bool,
    /// The largest number of calls in one request.
    pub max_batch_size: usize,
    /// The largest number of requests in flight.
    pub max_concurrent_requests: usize,
    /// A `null` result is a failure of the invocation.
    pub fail_on_null: bool,
    /// An error response is a failure of the invocation.
    pub fail_on_error: bool,
    /// The HTTP status codes after which a request is sent again.
    pub retryable_status_codes: Vec<u16>,
    /// The pause before the second attempt, in milliseconds.
    pub retry_initial_interval: u64,
    /// The longest pause between two attempts, in milliseconds.
    pub retry_max_interval: u64,
    /// The time after which no further attempt is made, in milliseconds.
    pub retry_max_elapsed_time: u64,
    /// The largest number of attempts.
    pub retry_max_tries: u32,
}

impl RpcClientConfig {
    /// The values that hold where the endpoint sets nothing: batches of 100,
    /// 5 requests in flight, `null` and error responses reported per call,
    /// retries after the status codes 429, 502 and 503, a first pause of
    /// 100 ms, pauses of at most 30 s, 60 s in all, 10 attempts.
    pub open spec fn is_default(self) -> bool {
        &&& !self.disable_batch
        &&& self.max_batch_size == 100
        &&& self.max_concurrent_requests == 5
        &&& !self.fail_on_null
        &&& !self.fail_on_error
        &&& self.retryable_status_codes@ == seq![429u16, 502u16, 503u16]
        &&& self.retry_initial_interval == 100
        &&& self.retry_max_interval == 30_000
        &&& self.retry_max_elapsed_time == 60_000
        &&& self.retry_max_tries == 10
    }

    /// The retry policy that the configuration describes.
    pub fn retry_config(&self) -> (r: RetryConfig)
        ensures
            r.retryable_status_codes@ == self.retryable_status_codes@,
            r.max_elapsed_time == self.retry_max_elapsed_time,
            r.max_tries == self.retry_max_tries,
    {
        let mut codes: Vec<u16> = Vec::new();
        let n: usize = self.retryable_status_codes.len();
        let mut i: usize = 0;
        while i < n
            invariant
                0 <= i <= n,
                n == self.retryable_status_codes@.len(),
                codes@ == self.retryable_status_codes@.take(i as int),
            decreases n - i,
        {
            codes.push(self.retryable_status_codes[i]);
            assert(self.retryable_status_codes@.take(i + 1) =~= self.retryable_status_codes@.take(
                i as int,
            ).push(self.retryable_status_codes@[i as int]));
            i = i + 1;
        }
        assert(self.retryable_status_codes@.take(n as int) =~= self.retryable_status_codes@);
        RetryConfig {
            retryable_status_codes: codes,
            max_elapsed_time: self.retry_max_elapsed_time,
            max_tries: self.retry_max_tries,
        }
    }
}

impl Default for RpcClientConfig {
    fn default() -> (conf: RpcClientConfig)
        ensures
            conf.is_default(),
    {
        let mut codes: Vec<u16> = Vec::new();
        codes.push(429);
        codes.push(502);
        codes.push(503);
        assert(codes@ =~= seq![429u16, 502u16, 503u16]);
        RpcClientConfig {
            disable_batch: false,
            max_batch_size: 100,
            max_concurrent_requests: 5,
            fail_on_null: false,
            fail_on_error: false,
            retryable_status_codes: codes,
            retry_initial_interval: 100,
            retry_max_interval: 30_000,
            retry_max_elapsed_time: 60_000,
            retry_max_tries: 10,
        }
    }
}

/// Whether a JSON text is `null`: its bytes are those four letters.
pub open spec fn is_null_text(json: Seq<u8>) -> bool {
    json == seq![110u8, 117u8, 108u8, 108u8]
}

/// What a response means for its call under a configuration: a `null`
/// result fails the invocation where the configuration refuses `null`, an
/// error response fails it where the configuration refuses errors, and any
/// other failure fails it always. Otherwise the call has its value, or its
/// error message.
pub open spec fn classified(conf: RpcClientConfig, response: RpcResponse) -> Result<
    RpcResult,
    RpcFailure,
> {
    match response {
        RpcResponse::Value(json) => if conf.fail_on_null && is_null_text(json@) {
            Err(RpcFailure::NullValue)
        } else {
            Ok(RpcResult::Value(json))
        },
        RpcResponse::ErrorResp(message) => if conf.fail_on_error {
            Err(RpcFailure::Call(message))
        } else {
            Ok(RpcResult::Error(message))
        },
        RpcResponse::Failure(message) => Err(RpcFailure::Call(message)),
    }
}

/// The failure of the first of the first `n` responses that fails the
/// invocation, if one does.
pub open spec fn first_failure(conf: RpcClientConfig, responses: Seq<RpcResponse>, n: int) -> Option<
    RpcFailure,
>
    decreases n,
{
    if n <= 0 || n > responses.len() {
        None
    } else {
        match first_failure(conf, responses, n - 1) {
            Some(failure) => Some(failure),
            None => match classified(conf, responses[n - 1]) {
                Err(failure) => Some(failure),
                Ok(_) => None,
            },
        }
    }
}

/// The responses of the first `n` batches, one batch after the other.
pub open spec fn joined(batches: Seq<Vec<RpcResponse>>, n: int) -> Seq<RpcResponse>
    decreases n,
{
    if n <= 0 || n > batches.len() {
        Seq::empty()
    } else {
        joined(batches, n - 1) + batches[n - 1]@
    }
}

/// The number of requests that `calls` calls make in batches of at most
/// `size`: the quotient, rounded up.
pub open spec fn batch_count(calls: int, size: int) -> int {
    (calls + size - 1) / size
}

/// The calls of the `i`-th batch: from `i * size` up to the next multiple of
/// `size`, or to the end.
pub open spec fn batch_range(calls: int, size: int, i: int) -> (int, int) {
    (
        i * size,
        if (i + 1) * size <= calls {
            (i + 1) * size
        } else {
            calls
        },
    )
}

/// The size of the batches under a configuration: one call where batches
/// are disabled.
pub open spec fn effective_batch_size(conf: RpcClientConfig) -> int {
    if conf.disable_batch {
        1
    } else {
        conf.max_batch_size as int
    }
}

/// A client for one endpoint.
#[derive(Debug, Clone)]
pub struct RpcClient {
    pub conf: RpcClientConfig,
}

impl RpcClient {
    /// A client with this configuration.
    pub fn new(conf: RpcClientConfig) -> (client: RpcClient)
        ensures
            client.conf == conf,
    {
        RpcClient { conf }
    }

    /// What a response means for its call: see `classified`.
    pub fn process_rpc_result(&self, response: RpcResponse) -> (r: Result<RpcResult, RpcFailure>)
        ensures
            r == classified(self.conf, response),
    {
        match response {
            RpcResponse::Value(json) => {
                if self.conf.fail_on_null && is_null(json.as_slice()) {
                    Err(RpcFailure::NullValue)
                } else {
                    Ok(RpcResult::Value(json))
                }
            },
            RpcResponse::ErrorResp(message) => {
                if self.conf.fail_on_error {
                    Err(RpcFailure::Call(message))
                } else {
                    Ok(RpcResult::Error(message))
                }
            },
            RpcResponse::Failure(message) => Err(RpcFailure::Call(message)),
        }
    }

    /// The batches for `calls` calls: the positions of the first call of
    /// each batch and of the call after its last, in order. Every batch but
    /// the last holds `max_batch_size` calls, or one call where batches are
    /// disabled; the batches follow one another and cover all the calls.
    pub fn batch_call(&self, calls: usize) -> (batches: Vec<(usize, usize)>)
        requires
            self.conf.disable_batch || self.conf.max_batch_size > 0,
        ensures
            batches@.len() == batch_count(calls as int, effective_batch_size(self.conf)),
            forall|i: int|
                0 <= i < batches@.len() ==> (#[trigger] batches@[i]).0 == batch_range(
                    calls as int,
                    effective_batch_size(self.conf),
                    i,
                ).0 && batches@[i].1 == batch_range(
                    calls as int,
                    effective_batch_size(self.conf),
                    i,
                ).1,
    {
        let size: usize = if self.conf.disable_batch {
            1
        } else {
            self.conf.max_batch_size
        };
        let mut batches: Vec<(usize, usize)> = Vec::new();
        let mut start: usize = 0;
        while start < calls
            invariant
                size >= 1,
                batches@.len() == 0 || start < calls,
                size == effective_batch_size(self.conf),
                start <= calls,
                start == batches@.len() * size,
                forall|i: int|
                    0 <= i < batches@.len() ==> (#[trigger] batches@[i]).0 == batch_range(
                        calls as int,
                        size as int,
                        i,
                    ).0 && batches@[i].1 == batch_range(calls as int, size as int, i).1,
            decreases calls - start,
        {
            let end: usize = if calls - start > size {
                start + size
            } else {
                calls
            };
            proof {
                let k = batches@.len() as int;
                assert((k + 1) * size == k * size + size) by (nonlinear_arith);
            }
            batches.push((start, end));
            if end == calls {
                proof {
                    lemma_batch_count_last(batches@.len() as int, size as int, calls as int);
                }
                return batches;
            }
            start = end;
        }
        proof {
            assert(batches@.len() == 0);
            assert(calls == 0);
            lemma_batch_count_zero(size as int);
        }
        batches
    }

    /// One request for each of `calls` calls, whatever the configuration
    /// says of batches: the `i`-th request holds the `i`-th call alone.
    pub fn multi_call(&self, calls: usize) -> (requests: Vec<(usize, usize)>)
        ensures
            requests@.len() == calls,
            forall|i: int| 0 <= i < calls ==> (#[trigger] requests@[i]) == (i as usize, (i
                + 1) as usize),
    {
        let mut requests: Vec<(usize, usize)> = Vec::new();
        let mut i: usize = 0;
        while i < calls
            invariant
                0 <= i <= calls,
                requests@.len() == i,
                forall|j: int| 0 <= j < i ==> (#[trigger] requests@[j]) == (j as usize, (j
                    + 1) as usize),
            decreases calls - i,
        {
            requests.push((i, i + 1));
            i = i + 1;
        }
        requests
    }

    /// The responses to the calls of an invocation, in the order of the
    /// calls, from the responses to its batches, in the order of the
    /// batches.
    pub fn join_responses(batches: Vec<Vec<RpcResponse>>) -> (responses: Vec<RpcResponse>)
        ensures
            responses@ == joined(batches@, batches@.len() as int),
    {
        let ghost all = batches@;
        let mut rest = batches;
        let mut reversed: Vec<Vec<RpcResponse>> = Vec::new();
        while rest.len() > 0
            invariant
                reversed@.len() + rest@.len() == all.len(),
                forall|i: int| 0 <= i < rest@.len() ==> rest@[i] == all[i],
                forall|i: int|
                    0 <= i < reversed@.len() ==> reversed@[i] == all[all.len() - 1 - i],
            decreases rest@.len(),
        {
            match rest.pop() {
                Some(batch) => {
                    reversed.push(batch);
                },
                None => {},
            }
        }
        let mut responses: Vec<RpcResponse> = Vec::new();
        let ghost mut done: int = 0;
        while reversed.len() > 0
            invariant
                all == batches@,
                0 <= done,
                reversed@.len() + done == all.len(),
                forall|i: int|
                    0 <= i < reversed@.len() ==> reversed@[i] == all[all.len() - 1 - i],
                responses@ == joined(all, done),
            decreases reversed@.len(),
        {
            match reversed.pop() {
                Some(batch) => {
                    let mut batch = batch;
                    assert(batch == all[done]);
                    responses.append(&mut batch);
                    proof {
                        done = done + 1;
                    }
                },
                None => {},
            }
        }
        responses
    }

    /// The results of an invocation from the responses to its calls, in the
    /// order of the calls.
    ///
    /// Fails exactly when one of the responses fails the invocation, with the
    /// failure of the first such response. Otherwise there is one result for
    /// each call, at the call's position.
    pub fn calls(&self, responses: Vec<RpcResponse>) -> (r: Result<Vec<RpcResult>, RpcFailure>)
        ensures
            match r {
                Ok(results) => {
                    &&& first_failure(self.conf, responses@, responses@.len() as int) is None
                    &&& results@.len() == responses@.len()
                    &&& forall|i: int|
                        0 <= i < results@.len() ==> classified(self.conf, responses@[i]) == Ok::<
                            RpcResult,
                            RpcFailure,
                        >(#[trigger] results@[i])
                },
                Err(failure) => first_failure(self.conf, responses@, responses@.len() as int)
                    == Some(failure),
            },
    {
        let ghost all = responses@;
        let mut rest = responses;
        let mut reversed: Vec<RpcResponse> = Vec::new();
        while rest.len() > 0
            invariant
                reversed@.len() + rest@.len() == all.len(),
                forall|i: int| 0 <= i < rest@.len() ==> rest@[i] == all[i],
                forall|i: int|
                    0 <= i < reversed@.len() ==> reversed@[i] == all[all.len() - 1 - i],
            decreases rest@.len(),
        {
            match rest.pop() {
                Some(response) => {
                    reversed.push(response);
                },
                None => {},
            }
        }
        let mut results: Vec<RpcResult> = Vec::new();
        while reversed.len() > 0
            invariant
                all == responses@,
                reversed@.len() + results@.len() == all.len(),
                forall|i: int|
                    0 <= i < reversed@.len() ==> reversed@[i] == all[all.len() - 1 - i],
                first_failure(self.conf, all, results@.len() as int) is None,
                forall|i: int|
                    0 <= i < results@.len() ==> classified(self.conf, all[i]) == Ok::<
                        RpcResult,
                        RpcFailure,
                    >(#[trigger] results@[i]),
            decreases reversed@.len(),
        {
            let ghost k = results@.len() as int;
            match reversed.pop() {
                Some(response) => {
                    assert(response == all[k]);
                    match self.process_rpc_result(response) {
                        Ok(result) => {
                            results.push(result);
                        },
                        Err(failure) => {
                            proof {
                                lemma_first_failure_stays(
                                    self.conf,
                                    all,
                                    k + 1,
                                    all.len() as int,
                                );
                            }
                            return Err(failure);
                        },
                    }
                },
                None => {},
            }
        }
        Ok(results)
    }
}

/// Whether a JSON text is `null`.
fn is_null(bytes: &[u8]) -> (r: bool)
    ensures
        r == is_null_text(bytes@),
{
    let same: bool = bytes.len() == 4 && bytes[0] == 110 && bytes[1] == 117 && bytes[2] == 108
        && bytes[3] == 108;
    if same {
        assert(bytes@ =~= seq![110u8, 117u8, 108u8, 108u8]);
    }
    same
}

/// A failure among the first `n` responses is the failure among the first
/// `m`, for every larger `m`.
pub proof fn lemma_first_failure_stays(
    conf: RpcClientConfig,
    responses: Seq<RpcResponse>,
    n: int,
    m: int,
)
    requires
        0 <= n <= m <= responses.len(),
        first_failure(conf, responses, n) is Some,
    ensures
        first_failure(conf, responses, m) == first_failure(conf, responses, n),
    decreases m - n,
{
    if n < m {
        lemma_first_failure_stays(conf, responses, n, m - 1);
    }
}

/// No call, no request.
proof fn lemma_batch_count_zero(size: int)
    requires
        size >= 1,
    ensures
        batch_count(0, size) == 0,
{
    assert((0 + size - 1) / size == 0) by (nonlinear_arith)
        requires
            size >= 1,
    ;
}

/// Where the `k`-th batch ends with the last call, there are `k` batches.
proof fn lemma_batch_count_last(k: int, size: int, calls: int)
    requires
        size >= 1,
        k >= 1,
        (k - 1) * size < calls <= k * size,
    ensures
        batch_count(calls, size) == k,
{
    assert((calls + size - 1) / size == k) by (nonlinear_arith)
        requires
            size >= 1,
            k >= 1,
            (k - 1) * size < calls <= k * size,
    ;
}

/// The number of batches is the number of calls divided by the size of a
/// batch, rounded up: the batches hold all the calls, and without the last
/// batch they would not.
pub proof fn lemma_batch_count_is_ceiling(calls: int, size: int)
    requires
        calls >= 0,
        size >= 1,
    ensures
        batch_count(calls, size) >= 0,
        batch_count(calls, size) * size >= calls,
        calls > 0 ==> (batch_count(calls, size) - 1) * size < calls,
        calls == 0 ==> batch_count(calls, size) == 0,
{
    let count = (calls + size - 1) / size;
    assert(count >= 0 && count * size >= calls && (calls > 0 ==> (count - 1) * size < calls) && (
    calls == 0 ==> count == 0)) by (nonlinear_arith)
        requires
            calls >= 0,
            size >= 1,
            count == (calls + size - 1) / size,
    ;
}

/// The batches partition the calls: the first starts with the first call,
/// each one starts where the one before it ends, none is empty, each but the
/// last is full, and the last ends with the last call.
pub proof fn lemma_batches_partition(calls: int, size: int, i: int)
    requires
        calls >= 0,
        size >= 1,
        0 <= i < batch_count(calls, size),
    ensures
        batch_range(calls, size, 0).0 == 0,
        batch_range(calls, size, i).0 < batch_range(calls, size, i).1 <= calls,
        batch_range(calls, size, i).1 - batch_range(calls, size, i).0 <= size,
        i + 1 < batch_count(calls, size) ==> batch_range(calls, size, i).1 - batch_range(
            calls,
            size,
            i,
        ).0 == size && batch_range(calls, size, i + 1).0 == batch_range(calls, size, i).1,
        i + 1 == batch_count(calls, size) ==> batch_range(calls, size, i).1 == calls,
{
    lemma_batch_count_is_ceiling(calls, size);
    let count = batch_count(calls, size);
    assert(0 * size == 0) by (nonlinear_arith);
    assert((i + 1) * size == i * size + size) by (nonlinear_arith);
    assert(i * size <= (count - 1) * size) by (nonlinear_arith)
        requires
            i <= count - 1,
            size >= 1,
    ;
    if i + 1 < count {
        assert((i + 1) * size <= (count - 1) * size) by (nonlinear_arith)
            requires
                i + 1 <= count - 1,
                size >= 1,
        ;
    } else {
        assert((i + 1) * size == count * size);
    }
}

/// Each of the first `n` batches holds one response for each of its calls.
pub open spec fn batches_answered(batches: Seq<Vec<RpcResponse>>, calls: int, size: int, n: int) -> bool {
    forall|i: int|
        0 <= i < n ==> (#[trigger] batches[i])@.len() == batch_range(calls, size, i).1
            - batch_range(calls, size, i).0
}

/// Where every batch holds one response for each of its calls, the joined
/// responses of the first `n` batches are as many as the calls of those
/// batches, and those of all the batches as many as the calls of the
/// invocation.
pub proof fn lemma_joined_length(batches: Seq<Vec<RpcResponse>>, calls: int, size: int, n: int)
    requires
        calls >= 0,
        size >= 1,
        0 <= n <= batches.len(),
        n <= batch_count(calls, size),
        batches_answered(batches, calls, size, n),
    ensures
        n < batch_count(calls, size) ==> joined(batches, n).len() == batch_range(calls, size, n).0,
        n == batch_count(calls, size) ==> joined(batches, n).len() == calls,
    decreases n,
{
    lemma_batch_count_is_ceiling(calls, size);
    assert(0 * size == 0) by (nonlinear_arith);
    if n > 0 {
        lemma_joined_length(batches, calls, size, n - 1);
        lemma_batches_partition(calls, size, n - 1);
        assert(joined(batches, n) == joined(batches, n - 1) + batches[n - 1]@);
        assert(batches[n - 1]@.len() == batch_range(calls, size, n - 1).1 - batch_range(
            calls,
            size,
            n - 1,
        ).0);
    }
}

/// Where every batch holds one response for each of its calls, in the
/// order of its calls, the joined responses hold the response to each call
/// at the position of the call among all the calls: whatever the size of
/// the batches, the response to the `j`-th call of the `i`-th batch stands
/// at the position of that call.
pub proof fn lemma_joined_keeps_the_order(
    batches: Seq<Vec<RpcResponse>>,
    calls: int,
    size: int,
    n: int,
    i: int,
    j: int,
)
    requires
        calls >= 0,
        size >= 1,
        0 <= n <= batches.len(),
        n <= batch_count(calls, size),
        batches_answered(batches, calls, size, n),
        0 <= i < n,
        0 <= j < batches[i]@.len(),
    ensures
        0 <= batch_range(calls, size, i).0 + j < joined(batches, n).len(),
        joined(batches, n)[batch_range(calls, size, i).0 + j] == batches[i]@[j],
    decreases n,
{
    lemma_joined_length(batches, calls, size, n - 1);
    lemma_batches_partition(calls, size, i);
    let before = joined(batches, n - 1);
    assert(joined(batches, n) == before + batches[n - 1]@);
    if i < n - 1 {
        lemma_joined_keeps_the_order(batches, calls, size, n - 1, i, j);
    } else {
        assert(before.len() == batch_range(calls, size, i).0);
    }
}

} // verus!
