use evm_codec::evm::rpc::concurrency_limit_layer::ConcurrencyLimitLayer;
use evm_codec::evm::rpc::retry_layer::{Attempt, RetryAction, RetryConfig, RetryLayer};
use evm_codec::evm::rpc::rpc_client::{
    RpcClient, RpcClientConfig, RpcFailure, RpcResponse, RpcResult,
};

fn value(json: &str) -> RpcResponse {
    RpcResponse::Value(json.as_bytes().to_vec())
}

#[test]
fn default_configuration() {
    let conf = RpcClientConfig::default();
    assert!(!conf.disable_batch);
    assert_eq!(conf.max_batch_size, 100);
    assert_eq!(conf.max_concurrent_requests, 5);
    assert!(!conf.fail_on_null);
    assert!(!conf.fail_on_error);
    assert_eq!(conf.retryable_status_codes, vec![429, 502, 503]);
    assert_eq!(conf.retry_initial_interval, 100);
    assert_eq!(conf.retry_max_interval, 30_000);
    assert_eq!(conf.retry_max_elapsed_time, 60_000);
    assert_eq!(conf.retry_max_tries, 10);
    let retry = conf.retry_config();
    assert_eq!(retry.retryable_status_codes, vec![429, 502, 503]);
    assert_eq!(retry.max_elapsed_time, 60_000);
    assert_eq!(retry.max_tries, 10);
}

#[test]
fn batches_of_two() {
    let mut conf = RpcClientConfig::default();
    conf.max_batch_size = 2;
    let client = RpcClient::new(conf);
    assert_eq!(client.batch_call(0), vec![]);
    assert_eq!(client.batch_call(1), vec![(0, 1)]);
    assert_eq!(client.batch_call(2), vec![(0, 2)]);
    assert_eq!(client.batch_call(5), vec![(0, 2), (2, 4), (4, 5)]);
    for n in 0..20usize {
        assert_eq!(client.batch_call(n).len(), (n + 1) / 2);
    }
}

#[test]
fn batches_cover_the_calls_in_order() {
    let client = RpcClient::new(RpcClientConfig::default());
    let batches = client.batch_call(250);
    assert_eq!(batches, vec![(0, 100), (100, 200), (200, 250)]);
    let mut next = 0;
    for (start, end) in client.batch_call(1234) {
        assert_eq!(start, next);
        assert!(start < end && end - start <= 100);
        next = end;
    }
    assert_eq!(next, 1234);
}

#[test]
fn one_request_per_call_without_batches() {
    let mut conf = RpcClientConfig::default();
    conf.disable_batch = true;
    conf.max_batch_size = 0;
    let client = RpcClient::new(conf);
    assert_eq!(client.batch_call(3), vec![(0, 1), (1, 2), (2, 3)]);
}

#[test]
fn null_is_a_value_by_default() {
    let client = RpcClient::new(RpcClientConfig::default());
    let result = client.process_rpc_result(value("null")).unwrap();
    assert!(matches!(result, RpcResult::Value(json) if json == b"null"));
}

#[test]
fn null_fails_the_invocation_where_the_configuration_says_so() {
    let mut conf = RpcClientConfig::default();
    conf.fail_on_null = true;
    let client = RpcClient::new(conf);
    assert!(matches!(client.process_rpc_result(value("null")), Err(RpcFailure::NullValue)));
    assert!(matches!(client.process_rpc_result(value("\"null\"")), Ok(RpcResult::Value(_))));
    assert!(matches!(client.process_rpc_result(value("nul")), Ok(RpcResult::Value(_))));
    assert!(matches!(client.process_rpc_result(value("0")), Ok(RpcResult::Value(_))));
    let responses = vec![value("1"), value("null"), value("3")];
    assert!(matches!(client.calls(responses), Err(RpcFailure::NullValue)));
}

#[test]
fn error_responses_are_results_unless_the_configuration_refuses_them() {
    let client = RpcClient::new(RpcClientConfig::default());
    let error = RpcResponse::ErrorResp("execution reverted".to_string());
    assert!(matches!(
        client.process_rpc_result(error.clone()),
        Ok(RpcResult::Error(m)) if m == "execution reverted"
    ));
    let mut conf = RpcClientConfig::default();
    conf.fail_on_error = true;
    let strict = RpcClient::new(conf);
    assert!(matches!(
        strict.process_rpc_result(error),
        Err(RpcFailure::Call(m)) if m == "execution reverted"
    ));
}

#[test]
fn other_failures_always_fail_the_invocation() {
    let client = RpcClient::new(RpcClientConfig::default());
    let failure = RpcResponse::Failure("connection reset".to_string());
    assert!(matches!(
        client.process_rpc_result(failure),
        Err(RpcFailure::Call(m)) if m == "connection reset"
    ));
}

#[test]
fn results_keep_the_order_of_the_calls() {
    let client = RpcClient::new(RpcClientConfig::default());
    let responses = vec![
        value("\"a\""),
        RpcResponse::ErrorResp("b".to_string()),
        value("null"),
        value("{\"c\":1}"),
    ];
    let results = client.calls(responses).unwrap();
    assert_eq!(results.len(), 4);
    assert!(matches!(&results[0], RpcResult::Value(j) if j == b"\"a\""));
    assert!(matches!(&results[1], RpcResult::Error(m) if m == "b"));
    assert!(matches!(&results[2], RpcResult::Value(j) if j == b"null"));
    assert!(matches!(&results[3], RpcResult::Value(j) if j == b"{\"c\":1}"));
    assert!(client.calls(vec![]).unwrap().is_empty());
}

#[test]
fn first_failure_is_the_failure_of_the_invocation() {
    let client = RpcClient::new(RpcClientConfig::default());
    let responses = vec![
        value("1"),
        RpcResponse::Failure("first".to_string()),
        RpcResponse::Failure("second".to_string()),
    ];
    assert!(matches!(client.calls(responses), Err(RpcFailure::Call(m)) if m == "first"));
}

fn retry_layer(max_tries: u32) -> RetryLayer {
    RetryLayer::new(RetryConfig {
        retryable_status_codes: vec![429, 502, 503],
        max_elapsed_time: 60_000,
        max_tries,
    })
}

#[test]
fn status_503_is_retried_until_the_last_attempt_succeeds() {
    let mut layer = retry_layer(10);
    for i in 0..9u64 {
        assert_eq!(layer.on_attempt(Attempt::Response(503), i * 100), RetryAction::Retry);
    }
    assert_eq!(layer.on_attempt(Attempt::Response(200), 1000), RetryAction::Deliver);
}

#[test]
fn request_is_given_up_after_the_largest_number_of_attempts() {
    let mut layer = retry_layer(10);
    for _ in 0..9 {
        assert_eq!(layer.on_attempt(Attempt::TransportError, 0), RetryAction::Retry);
    }
    assert_eq!(layer.on_attempt(Attempt::Response(502), 0), RetryAction::Fail);
    let mut single = retry_layer(1);
    assert_eq!(single.on_attempt(Attempt::Response(429), 0), RetryAction::Fail);
    let mut none = retry_layer(0);
    assert_eq!(none.on_attempt(Attempt::Response(429), 0), RetryAction::Fail);
    assert_eq!(none.on_attempt(Attempt::Response(200), 0), RetryAction::Deliver);
}

#[test]
fn request_is_given_up_after_the_time_budget() {
    let mut layer = retry_layer(10);
    assert_eq!(layer.on_attempt(Attempt::Response(503), 60_000), RetryAction::Retry);
    assert_eq!(layer.on_attempt(Attempt::Response(503), 60_001), RetryAction::Fail);
}

#[test]
fn other_statuses_are_delivered() {
    let mut layer = retry_layer(10);
    assert!(layer.is_retryable_status(429));
    assert!(!layer.is_retryable_status(500));
    assert_eq!(layer.on_attempt(Attempt::Response(500), 0), RetryAction::Deliver);
    assert_eq!(layer.on_attempt(Attempt::Response(404), 70_000), RetryAction::Deliver);
}

#[test]
fn limit_lets_requests_start_while_there_is_room() {
    let mut limit = ConcurrencyLimitLayer::new(2);
    assert!(limit.acquire());
    assert!(limit.acquire());
    assert!(!limit.acquire());
    assert!(!limit.acquire());
    assert_eq!(limit.in_flight(), 2);
    assert_eq!(limit.waiting(), 2);
    assert!(limit.release());
    assert_eq!(limit.in_flight(), 2);
    assert!(limit.release());
    assert!(!limit.release());
    assert_eq!(limit.in_flight(), 1);
    assert_eq!(limit.waiting(), 0);
    assert!(limit.acquire());
    assert!(!limit.release());
    assert!(!limit.release());
    assert_eq!(limit.in_flight(), 0);
}

#[test]
fn limit_of_zero_lets_nothing_start() {
    let mut limit = ConcurrencyLimitLayer::new(0);
    assert!(!limit.acquire());
    assert_eq!(limit.in_flight(), 0);
    assert_eq!(limit.waiting(), 1);
}

#[test]
fn one_request_per_call_on_demand() {
    let client = RpcClient::new(RpcClientConfig::default());
    assert_eq!(client.multi_call(0), vec![]);
    assert_eq!(client.multi_call(3), vec![(0, 1), (1, 2), (2, 3)]);
}

#[test]
fn responses_of_the_batches_are_joined_in_the_order_of_the_calls() {
    let mut conf = RpcClientConfig::default();
    conf.max_batch_size = 2;
    let client = RpcClient::new(conf);
    let calls = ["a", "b", "c", "d", "e"];
    let batches: Vec<Vec<RpcResponse>> = client
        .batch_call(calls.len())
        .iter()
        .map(|(start, end)| calls[*start..*end].iter().map(|c| value(&format!("\"{}\"", c))).collect())
        .collect();
    assert_eq!(batches.len(), 3);
    let results = client.calls(RpcClient::join_responses(batches)).unwrap();
    assert_eq!(results.len(), calls.len());
    for (call, result) in calls.iter().zip(&results) {
        assert!(matches!(result, RpcResult::Value(json) if json == format!("\"{}\"", call).as_bytes()));
    }
    assert!(RpcClient::join_responses(vec![]).is_empty());
    assert!(RpcClient::join_responses(vec![vec![], vec![]]).is_empty());
}
