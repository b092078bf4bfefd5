//! JSON-RPC requests and responses, and the fork choice that keys the cache.

use crate::hash::BlockHash;
use crate::text::joined;
use vstd::prelude::*;
use vstd::string::StringExecFns;

pub use serde_json::Value as JsonValue;

verus! {

/// `serde_json::Value`: the id of a request, its parameters and the result
/// of a response are carried through and never looked into.
#[verifier::external_type_specification]
#[verifier::external_body]
pub struct ExJsonValue(serde_json::Value);

/// `serde_json::Error`: why parameters could not be read or a result not be written.
#[verifier::external_type_specification]
#[verifier::external_body]
pub struct ExJsonError(serde_json::Error);

/// One request or a batch of them.
#[derive(Debug, PartialEq)]
pub enum Requests {
    Single(Request),
    Multiple(Vec<Request>),
}

#[derive(Debug, PartialEq)]
pub struct Request {
    pub jsonrpc: String,
    pub method: String,
    pub params: JsonValue,
    pub id: JsonValue,
}

#[derive(Debug, PartialEq, Eq)]
pub struct JsonError {
    pub code: ErrorCode,
    pub message: String,
}

#[derive(Clone, Copy, Debug, PartialEq, Eq, Structural)]
pub enum ErrorCode {
    ParseError,
    InvalidRequest,
    MethodNotFound,
    InvalidParams,
    InternalError,
    ServerError,
    UnknownPayload,
    InvalidForkChoiceState,
    InvalidPayloadAttributes,
    TooLargeRequest,
}

impl ErrorCode {
    /// The number that stands for the error in a response.
    pub open spec fn code_spec(self) -> int {
        match self {
            ErrorCode::ParseError => -32700,
            ErrorCode::InvalidRequest => -32600,
            ErrorCode::MethodNotFound => -32601,
            ErrorCode::InvalidParams => -32602,
            ErrorCode::InternalError => -32603,
            ErrorCode::ServerError => -32000,
            ErrorCode::UnknownPayload => -38001,
            ErrorCode::InvalidForkChoiceState => -38002,
            ErrorCode::InvalidPayloadAttributes => -38003,
            ErrorCode::TooLargeRequest => -38004,
        }
    }

    pub fn code(self) -> (r: i32)
        ensures
            r == self.code_spec(),
    {
        match self {
            ErrorCode::ParseError => -32700,
            ErrorCode::InvalidRequest => -32600,
            ErrorCode::MethodNotFound => -32601,
            ErrorCode::InvalidParams => -32602,
            ErrorCode::InternalError => -32603,
            ErrorCode::ServerError => -32000,
            ErrorCode::UnknownPayload => -38001,
            ErrorCode::InvalidForkChoiceState => -38002,
            ErrorCode::InvalidPayloadAttributes => -38003,
            ErrorCode::TooLargeRequest => -38004,
        }
    }

    /// The error that a number stands for, if it stands for one.
    pub fn from_code(code: i32) -> (r: Option<ErrorCode>)
        ensures
            match r {
                Some(error) => error.code_spec() == code,
                None => forall|error: ErrorCode| error.code_spec() != code,
            },
    {
        if code == -32700 {
            Some(ErrorCode::ParseError)
        } else if code == -32600 {
            Some(ErrorCode::InvalidRequest)
        } else if code == -32601 {
            Some(ErrorCode::MethodNotFound)
        } else if code == -32602 {
            Some(ErrorCode::InvalidParams)
        } else if code == -32603 {
            Some(ErrorCode::InternalError)
        } else if code == -32000 {
            Some(ErrorCode::ServerError)
        } else if code == -38001 {
            Some(ErrorCode::UnknownPayload)
        } else if code == -38002 {
            Some(ErrorCode::InvalidForkChoiceState)
        } else if code == -38003 {
            Some(ErrorCode::InvalidPayloadAttributes)
        } else if code == -38004 {
            Some(ErrorCode::TooLargeRequest)
        } else {
            None
        }
    }
}

#[derive(Debug, PartialEq)]
pub struct Response {
    pub jsonrpc: String,
    pub id: JsonValue,
    pub result: JsonValue,
}

#[derive(Debug, PartialEq)]
pub struct ErrorResponse {
    pub jsonrpc: String,
    pub id: JsonValue,
    pub error: JsonError,
}

#[derive(Debug, PartialEq)]
pub enum MaybeErrorResponse {
    Success(Response),
    Failure(ErrorResponse),
}

impl From<Result<Response, ErrorResponse>> for MaybeErrorResponse {
    fn from(res: Result<Response, ErrorResponse>) -> (r: Self) {
        match res {
            Ok(x) => MaybeErrorResponse::Success(x),
            Err(x) => MaybeErrorResponse::Failure(x),
        }
    }
}

impl vstd::std_specs::convert::FromSpecImpl<Result<Response, ErrorResponse>> for MaybeErrorResponse {
    open spec fn obeys_from_spec() -> bool {
        true
    }

    open spec fn from_spec(res: Result<Response, ErrorResponse>) -> Self {
        match res {
            Ok(x) => MaybeErrorResponse::Success(x),
            Err(x) => MaybeErrorResponse::Failure(x),
        }
    }
}

/// One response or a batch of them.
#[derive(Debug)]
pub enum Responses {
    Single(MaybeErrorResponse),
    Multiple(Vec<MaybeErrorResponse>),
}

/// A fork choice: the head of the chain, and its safe and its finalized block.
#[derive(Clone, Copy, Debug, PartialEq, Eq, Hash)]
pub struct JsonForkchoiceStateV1 {
    pub head_block_hash: BlockHash,
    pub safe_block_hash: BlockHash,
    pub finalized_block_hash: BlockHash,
}

/// A number that is written in hexadecimal.
#[derive(Clone, Copy, Debug, PartialEq, Eq)]
pub struct QuantityU64 {
    pub value: u64,
}

/// `serde_json::Error` as its `Debug` impl writes it. Nothing is claimed of the text.
#[verifier::external_body]
fn debug_text(error: &serde_json::Error) -> (text: String) {
    format!("{error:?}")
}

impl Request {
    /// The id of the request and its parameters, once they have been read
    /// from `params`; where they could not be read, a parse error under that id.
    pub fn parse_as<T>(self, parsed: Result<T, serde_json::Error>) -> (r: Result<
        (JsonValue, T),
        ErrorResponse,
    >)
        ensures
            match r {
                Ok(pair) => parsed == Ok::<T, serde_json::Error>(pair.1) && pair.0 == self.id,
                Err(e) => parsed is Err && e.is_error(self.id, ErrorCode::ParseError)
                    && has_prefix(e.error.message@, "parse error: "@),
            },
    {
        let id = self.id;
        match parsed {
            Ok(params) => Ok((id, params)),
            Err(e) => Err(ErrorResponse::parse_error(id, e)),
        }
    }
}

/// Whether a text begins with another.
pub open spec fn has_prefix(text: Seq<char>, prefix: Seq<char>) -> bool {
    prefix.len() <= text.len() && text.subrange(0, prefix.len() as int) == prefix
}

impl ErrorResponse {
    /// A JSON-RPC 2.0 error response under the given id, with the given code.
    pub open spec fn is_error(self, id: JsonValue, code: ErrorCode) -> bool {
        &&& self.jsonrpc@ == "2.0"@
        &&& self.id == id
        &&& self.error.code == code
    }

    pub fn unsupported_method(id: JsonValue, method: &str) -> (r: Self)
        ensures
            r.is_error(id, ErrorCode::MethodNotFound),
            r.error.message@ == "method `"@ + method@ + "` not supported"@,
    {
        let mut message = joined("method `", method);
        message.append("` not supported");
        ErrorResponse {
            jsonrpc: String::from_str("2.0"),
            id,
            error: JsonError { code: ErrorCode::MethodNotFound, message },
        }
    }

    pub fn parse_error(id: JsonValue, error: serde_json::Error) -> (r: Self)
        ensures
            r.is_error(id, ErrorCode::ParseError),
            has_prefix(r.error.message@, "parse error: "@),
    {
        let detail = debug_text(&error);
        let message = joined("parse error: ", detail.as_str());
        assert(message@.subrange(0, "parse error: "@.len() as int) =~= "parse error: "@);
        ErrorResponse::parse_error_generic(id, message)
    }

    pub fn parse_error_generic(id: JsonValue, message: String) -> (r: Self)
        ensures
            r.is_error(id, ErrorCode::ParseError),
            r.error.message == message,
    {
        ErrorResponse {
            jsonrpc: String::from_str("2.0"),
            id,
            error: JsonError { code: ErrorCode::ParseError, message },
        }
    }

    pub fn invalid_request(id: JsonValue, message: String) -> (r: Self)
        ensures
            r.is_error(id, ErrorCode::InvalidRequest),
            r.error.message == message,
    {
        ErrorResponse {
            jsonrpc: String::from_str("2.0"),
            id,
            error: JsonError { code: ErrorCode::InvalidRequest, message },
        }
    }

    pub fn invalid_payload_attributes(id: JsonValue, message: String) -> (r: Self)
        ensures
            r.is_error(id, ErrorCode::InvalidPayloadAttributes),
            r.error.message == message,
    {
        ErrorResponse {
            jsonrpc: String::from_str("2.0"),
            id,
            error: JsonError { code: ErrorCode::InvalidPayloadAttributes, message },
        }
    }

    pub fn unknown_payload(id: JsonValue, message: String) -> (r: Self)
        ensures
            r.is_error(id, ErrorCode::UnknownPayload),
            r.error.message == message,
    {
        ErrorResponse {
            jsonrpc: String::from_str("2.0"),
            id,
            error: JsonError { code: ErrorCode::UnknownPayload, message },
        }
    }
}

impl Response {
    /// The response that carries a result, once the result has been written as
    /// JSON; where it could not be written, a parse error under the same id.
    pub fn new(id: JsonValue, result: Result<JsonValue, serde_json::Error>) -> (r: Result<
        Self,
        ErrorResponse,
    >)
        ensures
            match r {
                Ok(response) => result == Ok::<JsonValue, serde_json::Error>(response.result)
                    && response.id == id && response.jsonrpc@ == "2.0"@,
                Err(e) => result is Err && e.is_error(id, ErrorCode::ParseError) && has_prefix(
                    e.error.message@,
                    "parse error: "@,
                ),
            },
    {
        match result {
            Ok(result) => Ok(Response { jsonrpc: String::from_str("2.0"), id, result }),
            Err(e) => Err(ErrorResponse::parse_error(id, e)),
        }
    }
}

} // verus!
