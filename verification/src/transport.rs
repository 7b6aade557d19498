//! What is sent to the completion service, and what is done with the status of
//! its answer. The sending itself is the caller's.

use crate::error::{AssistError, ServiceError};
use crate::message::OpenAIRequest;
use vstd::prelude::*;
use vstd::string::*;

verus! {

/// The method of the request.
pub const METHOD: &'static str = "POST";

/// Where completions are asked for.
pub const ENDPOINT: &'static str = "https://api.openai.com/v1/chat/completions";

/// The one status on which the body is read as a stream of events.
pub const STATUS_OK: u16 = 200;

/// One header of the request.
#[derive(Clone, Debug, PartialEq, Eq)]
pub struct Header {
    pub name: String,
    pub value: String,
}

/// One request, ready to be serialised and sent over a new connection.
#[derive(Clone, Debug, PartialEq, Eq)]
pub struct OutboundRequest {
    pub method: String,
    pub url: String,
    pub headers: Vec<Header>,
    pub body: OpenAIRequest,
}

/// The headers of a request made with `api_key`: the body's type, then the
/// bearer credential.
pub open spec fn is_request_headers(headers: Seq<Header>, api_key: Seq<char>) -> bool {
    &&& headers.len() == 2
    &&& headers[0].name@ == "Content-Type"@
    &&& headers[0].value@ == "application/json"@
    &&& headers[1].name@ == "Authorization"@
    &&& headers[1].value@ == "Bearer "@ + api_key
}

/// Makes the request that carries `request` to the service. Streaming is
/// switched on whatever `request` says; its model and messages are sent as they
/// are.
pub fn outbound_request(api_key: &str, request: OpenAIRequest) -> (outbound: OutboundRequest)
    ensures
        outbound.method@ == METHOD@,
        outbound.url@ == ENDPOINT@,
        is_request_headers(outbound.headers@, api_key@),
        outbound.body.stream,
        outbound.body.model == request.model,
        outbound.body.messages == request.messages,
{
    let mut headers: Vec<Header> = Vec::new();
    headers.push(
        Header {
            name: String::from_str("Content-Type"),
            value: String::from_str("application/json"),
        },
    );
    headers.push(
        Header {
            name: String::from_str("Authorization"),
            value: String::from_str("Bearer ").concat(api_key),
        },
    );
    OutboundRequest {
        method: String::from_str(METHOD),
        url: String::from_str(ENDPOINT),
        headers,
        body: request.streaming(),
    }
}

/// The body of the request as it was encoded, or the failure that ends the
/// command where it did not encode.
pub fn encoded_body(encoded: Result<String, String>) -> (body: Result<String, AssistError>)
    ensures
        body == (match encoded {
            Ok(text) => Ok::<String, AssistError>(text),
            Err(reason) => Err::<String, AssistError>(AssistError::Serialization(reason)),
        }),
{
    match encoded {
        Ok(text) => Ok(text),
        Err(reason) => Err(AssistError::Serialization(reason)),
    }
}

/// What to do with a response, by its status.
#[derive(Clone, Copy, Debug, PartialEq, Eq, Structural)]
pub enum ResponsePlan {
    /// Hand the body, still open, to the decoder and return at once.
    DecodeStream,
    /// Read the body to its end and fail with it.
    DrainAndFail,
}

/// The plan for a status: the body is decoded as a stream of events on status
/// 200 and on no other.
pub open spec fn plan_of(status: u16) -> ResponsePlan {
    if status == STATUS_OK {
        ResponsePlan::DecodeStream
    } else {
        ResponsePlan::DrainAndFail
    }
}

/// The body is decoded as a stream of events on status 200 and on no other.
pub fn plan_for_status(status: u16) -> (plan: ResponsePlan)
    ensures
        plan == plan_of(status),
{
    if status == STATUS_OK {
        ResponsePlan::DecodeStream
    } else {
        ResponsePlan::DrainAndFail
    }
}

/// What follows the sending: the plan for the status that came back, or the
/// failure of the connection. Nothing is sent a second time.
pub fn plan_for_response(sent: Result<u16, String>) -> (plan: Result<ResponsePlan, AssistError>)
    ensures
        plan == (match sent {
            Ok(status) => Ok::<ResponsePlan, AssistError>(plan_of(status)),
            Err(reason) => Err::<ResponsePlan, AssistError>(AssistError::Transport(reason)),
        }),
{
    match sent {
        Ok(status) => Ok(plan_for_status(status)),
        Err(reason) => Err(AssistError::Transport(reason)),
    }
}

/// The failure for a response that is not decoded, once its body has been
/// read to the end: it carries the status and the whole body, unchanged. Where
/// reading the body failed, that is the failure. Status 200 is no failure.
pub fn response_failure(status: u16, drained: Result<String, String>) -> (failure: Option<
    AssistError,
>)
    ensures
        failure == (if status == STATUS_OK {
            None::<AssistError>
        } else {
            Some(
                match drained {
                    Ok(body) => AssistError::Service(ServiceError { status, body }),
                    Err(reason) => AssistError::Transport(reason),
                },
            )
        }),
{
    if status == STATUS_OK {
        None
    } else {
        match drained {
            Ok(body) => Some(AssistError::Service(ServiceError { status, body })),
            Err(reason) => Some(AssistError::Transport(reason)),
        }
    }
}

} // verus!
