//! Which handler a request goes to, by its method and by the endpoint that it
//! came in at, and how the answers to a batch are put together.

use crate::text::same_text;
use crate::types::{ErrorResponse, MaybeErrorResponse, Response, Responses};
use vstd::prelude::*;

verus! {

/// Where a request came in.
#[derive(Clone, Copy, Debug, PartialEq, Eq, Structural)]
pub enum Endpoint {
    /// The endpoint of the followers.
    Client,
    /// The endpoint of the controller.
    Controller,
}

/// The handler of a request.
#[derive(Clone, Copy, Debug, PartialEq, Eq, Structural)]
pub enum Route {
    /// A fork choice of a follower.
    ForkchoiceUpdated,
    /// A fork choice of the controller.
    ControllerForkchoiceUpdated,
    /// A payload of a follower.
    NewPayload,
    /// A payload of the controller.
    ControllerNewPayload,
    /// A request for a payload that was built.
    GetPayload,
    /// A request for the capabilities of the engine, answered from what the
    /// engine said at most a quarter of an hour ago.
    ExchangeCapabilities,
    /// The question whether the engine is syncing.
    Syncing,
    /// The question for the id of the chain.
    ChainId,
    /// A request that the engine answers itself.
    ProxyDirectly,
    /// A method that is not supported.
    Unsupported,
}

pub open spec fn is_fcu_method(method: Seq<char>) -> bool {
    ||| method == "engine_forkchoiceUpdatedV1"@
    ||| method == "engine_forkchoiceUpdatedV2"@
    ||| method == "engine_forkchoiceUpdatedV3"@
}

pub open spec fn is_new_payload_method(method: Seq<char>) -> bool {
    ||| method == "engine_newPayloadV1"@
    ||| method == "engine_newPayloadV2"@
    ||| method == "engine_newPayloadV3"@
    ||| method == "engine_newPayloadV4"@
}

pub open spec fn is_get_payload_method(method: Seq<char>) -> bool {
    ||| method == "engine_getPayloadV1"@
    ||| method == "engine_getPayloadV2"@
    ||| method == "engine_getPayloadV3"@
}

pub open spec fn is_proxied_method(method: Seq<char>) -> bool {
    ||| method == "eth_getBlockByNumber"@
    ||| method == "eth_getBlockByHash"@
    ||| method == "eth_getLogs"@
    ||| method == "eth_call"@
    ||| method == "eth_blockNumber"@
    ||| method == "engine_getPayloadBodiesByHashV1"@
    ||| method == "engine_getPayloadBodiesByRangeV1"@
}

/// The handler of a method at an endpoint. The two endpoints differ in the
/// handlers of fork choices and of payloads, and in nothing else.
pub open spec fn route_of(endpoint: Endpoint, method: Seq<char>) -> Route {
    if is_fcu_method(method) {
        if endpoint is Controller {
            Route::ControllerForkchoiceUpdated
        } else {
            Route::ForkchoiceUpdated
        }
    } else if is_new_payload_method(method) {
        if endpoint is Controller {
            Route::ControllerNewPayload
        } else {
            Route::NewPayload
        }
    } else if method == "eth_syncing"@ {
        Route::Syncing
    } else if method == "eth_chainId"@ {
        Route::ChainId
    } else if method == "engine_exchangeCapabilities"@ {
        Route::ExchangeCapabilities
    } else if is_proxied_method(method) {
        Route::ProxyDirectly
    } else if is_get_payload_method(method) {
        Route::GetPayload
    } else {
        Route::Unsupported
    }
}

fn fcu_method(method: &str) -> (r: bool)
    ensures
        r == is_fcu_method(method@),
{
    same_text(method, "engine_forkchoiceUpdatedV1") || same_text(
        method,
        "engine_forkchoiceUpdatedV2",
    ) || same_text(method, "engine_forkchoiceUpdatedV3")
}

fn new_payload_method(method: &str) -> (r: bool)
    ensures
        r == is_new_payload_method(method@),
{
    same_text(method, "engine_newPayloadV1") || same_text(method, "engine_newPayloadV2")
        || same_text(method, "engine_newPayloadV3") || same_text(method, "engine_newPayloadV4")
}

fn get_payload_method(method: &str) -> (r: bool)
    ensures
        r == is_get_payload_method(method@),
{
    same_text(method, "engine_getPayloadV1") || same_text(method, "engine_getPayloadV2")
        || same_text(method, "engine_getPayloadV3")
}

fn proxied_method(method: &str) -> (r: bool)
    ensures
        r == is_proxied_method(method@),
{
    same_text(method, "eth_getBlockByNumber") || same_text(method, "eth_getBlockByHash")
        || same_text(method, "eth_getLogs") || same_text(method, "eth_call") || same_text(
        method,
        "eth_blockNumber",
    ) || same_text(method, "engine_getPayloadBodiesByHashV1") || same_text(
        method,
        "engine_getPayloadBodiesByRangeV1",
    )
}

/// The handler of a method at an endpoint.
pub fn route(endpoint: Endpoint, method: &str) -> (r: Route)
    ensures
        r == route_of(endpoint, method@),
{
    if fcu_method(method) {
        match endpoint {
            Endpoint::Controller => Route::ControllerForkchoiceUpdated,
            Endpoint::Client => Route::ForkchoiceUpdated,
        }
    } else if new_payload_method(method) {
        match endpoint {
            Endpoint::Controller => Route::ControllerNewPayload,
            Endpoint::Client => Route::NewPayload,
        }
    } else if same_text(method, "eth_syncing") {
        Route::Syncing
    } else if same_text(method, "eth_chainId") {
        Route::ChainId
    } else if same_text(method, "engine_exchangeCapabilities") {
        Route::ExchangeCapabilities
    } else if proxied_method(method) {
        Route::ProxyDirectly
    } else if get_payload_method(method) {
        Route::GetPayload
    } else {
        Route::Unsupported
    }
}

/// Batches are taken at the endpoint of the followers alone.
pub fn accepts_batches(endpoint: Endpoint) -> (r: bool)
    ensures
        r == (endpoint is Client),
{
    match endpoint {
        Endpoint::Client => true,
        Endpoint::Controller => false,
    }
}

/// The answer to one request of a batch.
pub open spec fn answer_of(result: Result<Response, ErrorResponse>) -> MaybeErrorResponse {
    match result {
        Ok(response) => MaybeErrorResponse::Success(response),
        Err(error) => MaybeErrorResponse::Failure(error),
    }
}

/// The answers to a batch, from what became of each of its requests: as many
/// answers as requests, in the order of the requests, an error where the
/// request failed.
pub fn collect_responses(results: Vec<Result<Response, ErrorResponse>>) -> (responses: Responses)
    ensures
        responses matches Responses::Multiple(answers) && answers@.len() == results@.len()
            && forall|i: int|
            0 <= i < results@.len() ==> #[trigger] answers@[i] == answer_of(results@[i]),
{
    let ghost all = results@;
    let mut results = results;
    let mut answers: Vec<MaybeErrorResponse> = Vec::new();
    // The results are taken from the back, so the answers are made in reverse.
    while results.len() > 0
        invariant
            results@.len() + answers@.len() == all.len(),
            results@ == all.take(results@.len() as int),
            forall|i: int|
                0 <= i < answers@.len() ==> #[trigger] answers@[i] == answer_of(
                    all[all.len() - 1 - i],
                ),
        decreases results.len(),
    {
        let ghost before = results@;
        let result = results.pop().unwrap();
        assert(results@ =~= all.take(results@.len() as int));
        assert(result == all[results@.len() as int]);
        answers.push(
            match result {
                Ok(response) => MaybeErrorResponse::Success(response),
                Err(error) => MaybeErrorResponse::Failure(error),
            },
        );
    }
    let mut ordered: Vec<MaybeErrorResponse> = Vec::new();
    while answers.len() > 0
        invariant
            answers@.len() + ordered@.len() == all.len(),
            forall|i: int|
                0 <= i < answers@.len() ==> #[trigger] answers@[i] == answer_of(
                    all[all.len() - 1 - i],
                ),
            forall|i: int| 0 <= i < ordered@.len() ==> #[trigger] ordered@[i] == answer_of(all[i]),
        decreases answers.len(),
    {
        let ghost last = answers@.len() - 1;
        let answer = answers.pop().unwrap();
        assert(answer == answer_of(all[all.len() - 1 - last]));
        ordered.push(answer);
    }
    Responses::Multiple(ordered)
}

} // verus!
