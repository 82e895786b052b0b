//! Server-side request handling decisions: authentication of parsed request lines,
//! method routing, and the shape of every response the driver sends.

use vstd::prelude::*;
use vstd::string::*;
use crate::json::text_member;
use crate::protocol::{ErrorKind, RpcErrorData, RpcRequest, RpcResponse, kind_code};
use crate::text::{owned, str_equal};

verus! {

/// `resp` is an error response to request `id` with the given kind and message.
pub open spec fn is_error_response(resp: RpcResponse, id: u64, kind: ErrorKind, message: Seq<char>) -> bool {
    &&& resp.is_well_formed()
    &&& resp.id == id
    &&& resp.result is None
    &&& resp.error matches Some(e) && e.code == kind_code(kind) && e.message@ == message
        && e.data == Some(RpcErrorData { kind })
}

/// The auth token a request carries: the string member `token` of its params.
pub open spec fn request_token(req: RpcRequest) -> Option<Seq<char>> {
    text_member(req.params, "token"@)
}

/// Decides what happens to one request line after parsing: a line that did not parse
/// is answered with an `internal` error for id 0; a request whose params lack the
/// expected token is answered with `auth_failed`; any other request is forwarded.
pub fn authorize(parsed: Result<RpcRequest, String>, token: &str) -> (r: Result<RpcRequest, RpcResponse>)
    ensures
        match parsed {
            Err(e) => r matches Err(resp) && is_error_response(
                resp,
                0,
                ErrorKind::Internal,
                "malformed request: "@ + e@,
            ),
            Ok(req) => if request_token(req) == Some(token@) {
                r == Ok::<RpcRequest, RpcResponse>(req)
            } else {
                r matches Err(resp) && is_error_response(
                    resp,
                    req.id,
                    ErrorKind::AuthFailed,
                    "missing or invalid token"@,
                )
            },
        },
{
    match parsed {
        Err(e) => {
            let mut m = owned("malformed request: ");
            m.append(e.as_str());
            Err(RpcResponse::error(0, ErrorKind::Internal, m))
        },
        Ok(req) => {
            let ok = match crate::json::get_text_member(&req.params, "token") {
                Some(t) => str_equal(t.as_str(), token),
                None => false,
            };
            if ok {
                Ok(req)
            } else {
                let id = req.id;
                Err(RpcResponse::error(id, ErrorKind::AuthFailed, owned("missing or invalid token")))
            }
        },
    }
}

/// The answer when the foreground handler loop can no longer take requests.
pub fn handler_gone(id: u64) -> (r: RpcResponse)
    ensures
        is_error_response(r, id, ErrorKind::Internal, "driver handler loop is gone"@),
{
    RpcResponse::error(id, ErrorKind::Internal, owned("driver handler loop is gone"))
}

/// The answer when the handler dropped a request without replying.
pub fn request_dropped(id: u64) -> (r: RpcResponse)
    ensures
        is_error_response(r, id, ErrorKind::Internal, "request dropped by handler"@),
{
    RpcResponse::error(id, ErrorKind::Internal, owned("request dropped by handler"))
}

/// The RPC methods the driver serves.
#[derive(Debug, Clone, Copy, PartialEq, Eq, Structural)]
pub enum Method {
    Info,
    Windows,
    Tree,
    Click,
    Screenshot,
    WaitIdle,
    TypeText,
    Key,
    Scroll,
    Focus,
    Query,
    Unknown,
}

/// The method a name selects.
pub open spec fn method_named(name: Seq<char>) -> Method {
    if name == "info"@ {
        Method::Info
    } else if name == "windows"@ {
        Method::Windows
    } else if name == "tree"@ {
        Method::Tree
    } else if name == "click"@ {
        Method::Click
    } else if name == "screenshot"@ {
        Method::Screenshot
    } else if name == "wait_idle"@ {
        Method::WaitIdle
    } else if name == "type_text"@ {
        Method::TypeText
    } else if name == "key"@ {
        Method::Key
    } else if name == "scroll"@ {
        Method::Scroll
    } else if name == "focus"@ {
        Method::Focus
    } else if name == "query"@ {
        Method::Query
    } else {
        Method::Unknown
    }
}

/// Routes a request's method name.
pub fn route(name: &str) -> (m: Method)
    ensures
        m == method_named(name@),
{
    if str_equal(name, "info") {
        Method::Info
    } else if str_equal(name, "windows") {
        Method::Windows
    } else if str_equal(name, "tree") {
        Method::Tree
    } else if str_equal(name, "click") {
        Method::Click
    } else if str_equal(name, "screenshot") {
        Method::Screenshot
    } else if str_equal(name, "wait_idle") {
        Method::WaitIdle
    } else if str_equal(name, "type_text") {
        Method::TypeText
    } else if str_equal(name, "key") {
        Method::Key
    } else if str_equal(name, "scroll") {
        Method::Scroll
    } else if str_equal(name, "focus") {
        Method::Focus
    } else if str_equal(name, "query") {
        Method::Query
    } else {
        Method::Unknown
    }
}

/// The failure of a handler: a kind and a message.
pub type HandlerError = (ErrorKind, String);

/// The failure for a method name the driver does not serve.
pub fn unknown_method(name: &str) -> (e: HandlerError)
    ensures
        e.0 == ErrorKind::Unsupported,
        e.1@ == "unknown method: "@ + name@,
{
    let mut m = owned("unknown method: ");
    m.append(name);
    (ErrorKind::Unsupported, m)
}

/// The failure for params that do not deserialize into the method's params type.
pub fn invalid_params(detail: &str) -> (e: HandlerError)
    ensures
        e.0 == ErrorKind::Internal,
        e.1@ == "invalid params: "@ + detail@,
{
    let mut m = owned("invalid params: ");
    m.append(detail);
    (ErrorKind::Internal, m)
}

/// An internal failure with the given message.
pub fn internal(message: String) -> (e: HandlerError)
    ensures
        e.0 == ErrorKind::Internal,
        e.1@ == message@,
{
    (ErrorKind::Internal, message)
}

/// The response to request `id` for a handler's outcome.
pub fn respond(id: u64, outcome: Result<serde_json::Value, HandlerError>) -> (r: RpcResponse)
    ensures
        r.is_well_formed(),
        r.id == id,
        match outcome {
            Ok(v) => r.result == Some(v) && r.error is None,
            Err(e) => is_error_response(r, id, e.0, e.1@),
        },
{
    match outcome {
        Ok(v) => RpcResponse::success(id, v),
        Err((kind, message)) => RpcResponse::error(id, kind, message),
    }
}

} // verus!
