//! Request/response types of the driver's JSON-RPC protocol.
//!
//! The wire format is newline-delimited JSON-RPC 2.0: one request or response object
//! per line over a localhost TCP connection. Every request carries an auth `token`
//! (from the discovery file) inside its `params`.

use vstd::prelude::*;
use vstd::string::*;
use crate::text::owned;

verus! {

/// Version of the RPC protocol described by this module.
pub const PROTOCOL_VERSION: u32 = 1;

/// Directory under the OS temp dir where discovery files are written.
pub const DISCOVERY_DIR_NAME: &'static str = "gpui-driver";

/// Machine-readable failure categories carried in `error.data.kind`.
#[derive(Debug, Clone, Copy, PartialEq, Eq, Structural)]
pub enum ErrorKind {
    ElementNotFound,
    ElementNotVisible,
    WindowNotFound,
    Timeout,
    Unsupported,
    AuthFailed,
    Internal,
}

/// The JSON-RPC `error.code` of each kind (application-defined range).
pub open spec fn kind_code(kind: ErrorKind) -> int {
    match kind {
        ErrorKind::ElementNotFound => -32000,
        ErrorKind::ElementNotVisible => -32001,
        ErrorKind::WindowNotFound => -32002,
        ErrorKind::Timeout => -32003,
        ErrorKind::Unsupported => -32004,
        ErrorKind::AuthFailed => -32005,
        ErrorKind::Internal => -32099,
    }
}

/// The snake_case name under which each kind travels on the wire.
pub open spec fn kind_wire_name(kind: ErrorKind) -> Seq<char> {
    match kind {
        ErrorKind::ElementNotFound => "element_not_found"@,
        ErrorKind::ElementNotVisible => "element_not_visible"@,
        ErrorKind::WindowNotFound => "window_not_found"@,
        ErrorKind::Timeout => "timeout"@,
        ErrorKind::Unsupported => "unsupported"@,
        ErrorKind::AuthFailed => "auth_failed"@,
        ErrorKind::Internal => "internal"@,
    }
}

/// The variant name of each kind, as `Debug` prints it.
pub open spec fn kind_variant_name(kind: ErrorKind) -> Seq<char> {
    match kind {
        ErrorKind::ElementNotFound => "ElementNotFound"@,
        ErrorKind::ElementNotVisible => "ElementNotVisible"@,
        ErrorKind::WindowNotFound => "WindowNotFound"@,
        ErrorKind::Timeout => "Timeout"@,
        ErrorKind::Unsupported => "Unsupported"@,
        ErrorKind::AuthFailed => "AuthFailed"@,
        ErrorKind::Internal => "Internal"@,
    }
}

impl ErrorKind {
    /// JSON-RPC `error.code` for this kind.
    pub fn code(self) -> (c: i64)
        ensures
            c == kind_code(self),
    {
        match self {
            ErrorKind::ElementNotFound => -32000,
            ErrorKind::ElementNotVisible => -32001,
            ErrorKind::WindowNotFound => -32002,
            ErrorKind::Timeout => -32003,
            ErrorKind::Unsupported => -32004,
            ErrorKind::AuthFailed => -32005,
            ErrorKind::Internal => -32099,
        }
    }

    /// The snake_case wire name of this kind.
    pub fn wire_name(self) -> (s: String)
        ensures
            s@ == kind_wire_name(self),
    {
        match self {
            ErrorKind::ElementNotFound => owned("element_not_found"),
            ErrorKind::ElementNotVisible => owned("element_not_visible"),
            ErrorKind::WindowNotFound => owned("window_not_found"),
            ErrorKind::Timeout => owned("timeout"),
            ErrorKind::Unsupported => owned("unsupported"),
            ErrorKind::AuthFailed => owned("auth_failed"),
            ErrorKind::Internal => owned("internal"),
        }
    }

    /// The variant name of this kind, as `Debug` prints it.
    pub fn variant_name(self) -> (s: String)
        ensures
            s@ == kind_variant_name(self),
    {
        match self {
            ErrorKind::ElementNotFound => owned("ElementNotFound"),
            ErrorKind::ElementNotVisible => owned("ElementNotVisible"),
            ErrorKind::WindowNotFound => owned("WindowNotFound"),
            ErrorKind::Timeout => owned("Timeout"),
            ErrorKind::Unsupported => owned("Unsupported"),
            ErrorKind::AuthFailed => owned("AuthFailed"),
            ErrorKind::Internal => owned("Internal"),
        }
    }
}

/// The `data` member of an error: the structured kind.
#[derive(Debug, Clone, Copy)]
pub struct RpcErrorData {
    pub kind: ErrorKind,
}

/// JSON-RPC error object with structured `data.kind`.
#[derive(Debug)]
pub struct RpcError {
    pub code: i64,
    pub message: String,
    pub data: Option<RpcErrorData>,
}

/// A single JSON-RPC 2.0 request.
#[derive(Debug)]
pub struct RpcRequest {
    pub jsonrpc: String,
    pub id: u64,
    pub method: String,
    pub params: serde_json::Value,
}

/// A single JSON-RPC 2.0 response. Exactly one of `result`/`error` is set.
#[derive(Debug)]
pub struct RpcResponse {
    pub jsonrpc: String,
    pub id: u64,
    pub result: Option<serde_json::Value>,
    pub error: Option<RpcError>,
}

impl RpcRequest {
    /// A JSON-RPC 2.0 request with the given id, method and params.
    pub fn new(id: u64, method: &str, params: serde_json::Value) -> (r: Self)
        ensures
            r.jsonrpc@ == "2.0"@,
            r.id == id,
            r.method@ == method@,
            r.params == params,
    {
        RpcRequest { jsonrpc: owned("2.0"), id, method: owned(method), params }
    }
}

impl RpcResponse {
    /// Exactly one of `result` and `error` is set.
    pub open spec fn is_well_formed(&self) -> bool {
        self.jsonrpc@ == "2.0"@ && (self.result is Some) != (self.error is Some)
    }

    /// A successful response carrying `result`.
    pub fn success(id: u64, result: serde_json::Value) -> (r: Self)
        ensures
            r.is_well_formed(),
            r.id == id,
            r.result == Some(result),
            r.error is None,
    {
        RpcResponse { jsonrpc: owned("2.0"), id, result: Some(result), error: None }
    }

    /// A failed response: `error.code` is the kind's code, `error.data.kind` the kind.
    pub fn error(id: u64, kind: ErrorKind, message: String) -> (r: Self)
        ensures
            r.is_well_formed(),
            r.id == id,
            r.result is None,
            r.error matches Some(e) && e.code == kind_code(kind) && e.message@ == message@
                && e.data == Some(RpcErrorData { kind }),
    {
        RpcResponse {
            jsonrpc: owned("2.0"),
            id,
            result: None,
            error: Some(RpcError { code: kind.code(), message, data: Some(RpcErrorData { kind }) }),
        }
    }
}

/// Discovery file written to `<temp>/gpui-driver/<pid>.json` on init.
#[derive(Debug, Clone)]
pub struct DiscoveryFile {
    pub app_name: String,
    pub pid: u32,
    pub port: u16,
    pub token: String,
    pub protocol_version: u32,
    pub started_at: String,
}

// ---- info ----

#[derive(Debug, Clone)]
pub struct InfoParams {
    pub token: String,
}

#[derive(Debug, Clone)]
pub struct InfoResult {
    pub app_name: String,
    pub app_version: String,
    pub protocol_version: u32,
    pub gpui_driver_version: String,
}

// ---- windows ----

#[derive(Debug, Clone)]
pub struct WindowsParams {
    pub token: String,
}

// ---- tree ----

#[derive(Debug, Clone)]
pub struct TreeParams {
    pub token: String,
    pub window_id: u64,
}

// ---- click ----

/// Mouse buttons accepted in `click.button`; `Left` when omitted.
#[derive(Debug, Clone, Copy, PartialEq, Eq, Structural)]
pub enum MouseButton {
    Left,
    Right,
    Middle,
}

impl Default for MouseButton {
    fn default() -> (b: Self)
        ensures
            b == MouseButton::Left,
    {
        MouseButton::Left
    }
}

/// Keyboard modifiers, as accepted in `click.modifiers`.
#[derive(Debug, Clone, Copy, PartialEq, Eq, Structural)]
pub enum Modifier {
    Ctrl,
    Alt,
    Shift,
    Cmd,
    Fn,
}

#[derive(Debug, Clone)]
pub struct ClickParams {
    pub token: String,
    pub window_id: u64,
    pub id: String,
    pub button: MouseButton,
    pub modifiers: Vec<Modifier>,
}

// ---- screenshot ----

#[derive(Debug, Clone)]
pub struct ScreenshotParams {
    pub token: String,
    pub window_id: u64,
}

/// The `method` a screenshot result reports when the server omits it.
pub fn default_screenshot_method() -> (s: String)
    ensures
        s@ == "renderer"@,
{
    owned("renderer")
}

// ---- wait_idle ----

/// `wait_idle.timeout_ms` when omitted.
pub fn default_timeout_ms() -> (t: u64)
    ensures
        t == 5000,
{
    5000
}

/// `wait_idle.quiet_ms` when omitted.
pub fn default_quiet_ms() -> (t: u64)
    ensures
        t == 150,
{
    150
}

#[derive(Debug, Clone)]
pub struct WaitIdleParams {
    pub token: String,
    pub window_id: u64,
    pub timeout_ms: u64,
    pub quiet_ms: u64,
}

#[derive(Debug, Clone, Copy)]
pub struct WaitIdleResult {
    /// Milliseconds spent waiting until the window went quiet.
    pub waited_ms: u64,
}

// ---- type_text / key / scroll / focus / query ----

#[derive(Debug, Clone)]
pub struct TypeTextParams {
    pub token: String,
    pub window_id: u64,
    pub text: String,
}

#[derive(Debug, Clone, Copy)]
pub struct TypeTextResult {
    pub typed: bool,
}

#[derive(Debug, Clone)]
pub struct KeyParams {
    pub token: String,
    pub window_id: u64,
    /// GPUI-style keystroke, e.g. `ctrl-s`.
    pub combo: String,
}

#[derive(Debug, Clone, Copy)]
pub struct KeyResult {
    pub dispatched: bool,
}

#[derive(Debug, Clone, Copy)]
pub struct ScrollResult {
    pub scrolled: bool,
}

#[derive(Debug, Clone)]
pub struct FocusParams {
    pub token: String,
    pub window_id: u64,
    pub id: String,
}

#[derive(Debug, Clone, Copy)]
pub struct FocusResult {
    pub focused: bool,
}

#[derive(Debug, Clone)]
pub struct QueryParams {
    pub token: String,
    pub window_id: u64,
    pub text_contains: Option<String>,
    pub id_contains: Option<String>,
}

} // verus!
