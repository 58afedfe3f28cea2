//! Wire types of the in-container service.
//!
//! The protocol is JSON-RPC 2.0. Messages are length-delimited, see
//! [`crate::framing`].
use crate::agent::opt_text;
use crate::json::{
    json_flag, json_member, json_null, json_signed, json_text, json_unsigned, json_value, member,
    parse_json, value_flag, value_is_null, value_signed, value_text, value_unsigned,
};
use vstd::prelude::*;
use vstd::string::*;

verus! {

/// The protocol version. Exchanged in the `initialize` handshake so client and
/// server can detect a mismatch before doing any real work.
pub const PROTOCOL_VERSION: u32 = 1;

// ─── JSON-RPC envelopes ────────────────────────────────────────────────

/// A JSON-RPC request. `params` is left as a raw value; typed params live in
/// [`InitializeParams`] and friends.
#[derive(Debug, Clone, PartialEq)]
pub struct Request {
    pub jsonrpc: String,
    pub id: u64,
    pub method: String,
    pub params: Option<serde_json::Value>,
}

impl Request {
    /// Build a `"2.0"` request with the given id, method and params.
    pub fn new(id: u64, method: String, params: serde_json::Value) -> (r: Request)
        ensures
            r.jsonrpc@ == "2.0"@,
            r.id == id,
            r.method == method,
            r.params == Some(params),
    {
        Request { jsonrpc: "2.0".to_owned(), id, method, params: Some(params) }
    }
}

/// A JSON-RPC error object.
#[derive(Debug, Clone, PartialEq)]
pub struct RpcError {
    pub code: i64,
    pub message: String,
    pub data: Option<serde_json::Value>,
}

impl RpcError {
    /// An error without further data.
    pub fn new(code: i64, message: String) -> (r: RpcError)
        ensures
            r == (RpcError { code, message, data: None }),
    {
        RpcError { code, message, data: None }
    }
}

/// A JSON-RPC response: exactly one of `result` / `error` is present.
#[derive(Debug, Clone, PartialEq)]
pub struct Response {
    pub jsonrpc: String,
    pub id: u64,
    pub result: Option<serde_json::Value>,
    pub error: Option<RpcError>,
}

impl Response {
    /// A successful response carrying `result`.
    pub fn ok(id: u64, result: serde_json::Value) -> (r: Response)
        ensures
            r.jsonrpc@ == "2.0"@,
            r.id == id,
            r.result == Some(result),
            r.error is None,
    {
        Response { jsonrpc: "2.0".to_owned(), id, result: Some(result), error: None }
    }

    /// A failed response carrying an [`RpcError`].
    pub fn err(id: u64, error: RpcError) -> (r: Response)
        ensures
            r.jsonrpc@ == "2.0"@,
            r.id == id,
            r.result is None,
            r.error == Some(error),
    {
        Response { jsonrpc: "2.0".to_owned(), id, result: None, error: Some(error) }
    }
}

/// A JSON-RPC notification: a `method`/`params` message with **no `id`**,
/// so it is never matched to a request.
#[derive(Debug, Clone, PartialEq)]
pub struct Notification {
    pub jsonrpc: String,
    pub method: String,
    pub params: Option<serde_json::Value>,
}

impl Notification {
    /// Build a `"2.0"` notification with the given method and params.
    pub fn new(method: String, params: serde_json::Value) -> (r: Notification)
        ensures
            r.jsonrpc@ == "2.0"@,
            r.method == method,
            r.params == Some(params),
    {
        Notification { jsonrpc: "2.0".to_owned(), method, params: Some(params) }
    }
}

/// A message received from the peer on a shared channel: either a
/// [`Response`] to one of our requests, or a server-initiated
/// [`Notification`]. The discriminator is the presence of an `id` field.
#[derive(Debug, Clone, PartialEq)]
pub enum Incoming {
    Response(Response),
    Notification(Notification),
}

/// Why a frame body is no message.
#[derive(Debug)]
pub enum DecodeError {
    /// The body is not JSON.
    Json(serde_json::Error),
    /// A field is missing or holds something else than it should.
    Field(&'static str),
}

/// An optional member: `null` counts as absent.
pub open spec fn optional_member(v: serde_json::Value, key: Seq<char>) -> Option<serde_json::Value> {
    match json_member(v, key) {
        Some(m) if !json_null(m) => Some(m),
        _ => None,
    }
}

/// The text of a member that must be a string.
pub open spec fn text_member(v: serde_json::Value, key: Seq<char>) -> Option<Seq<char>> {
    match json_member(v, key) {
        Some(m) => json_text(m),
        None => None,
    }
}

/// Whether a value carries an `id`: then it is a response.
pub open spec fn has_id(v: serde_json::Value) -> bool {
    optional_member(v, "id"@) is Some
}

/// Whether a value is an error object.
pub open spec fn is_error_object(v: serde_json::Value) -> bool {
    json_member(v, "code"@) is Some && json_signed(json_member(v, "code"@)->0) is Some && text_member(
        v,
        "message"@,
    ) is Some
}

/// The first field that keeps a value from being an error object.
pub open spec fn error_fault(v: serde_json::Value) -> Option<Seq<char>> {
    if json_member(v, "code"@) is None || json_signed(json_member(v, "code"@)->0) is None {
        Some("code"@)
    } else if text_member(v, "message"@) is None {
        Some("message"@)
    } else {
        None
    }
}

/// Whether an error object reads as `e`.
pub open spec fn reads_as_error(v: serde_json::Value, e: RpcError) -> bool {
    is_error_object(v) && json_signed(json_member(v, "code"@)->0) == Some(e.code) && text_member(
        v,
        "message"@,
    ) == Some(e.message@) && e.data == optional_member(v, "data"@)
}

/// Whether a value is a response.
pub open spec fn is_response(v: serde_json::Value) -> bool {
    &&& text_member(v, "jsonrpc"@) is Some
    &&& json_member(v, "id"@) is Some && json_unsigned(json_member(v, "id"@)->0) is Some
    &&& optional_member(v, "error"@) is Some ==> is_error_object(optional_member(v, "error"@)->0)
}

/// The first field that keeps a value from being a response.
pub open spec fn response_fault(v: serde_json::Value) -> Option<Seq<char>> {
    if text_member(v, "jsonrpc"@) is None {
        Some("jsonrpc"@)
    } else if json_member(v, "id"@) is None || json_unsigned(json_member(v, "id"@)->0) is None {
        Some("id"@)
    } else {
        match optional_member(v, "error"@) {
            Some(e) => error_fault(e),
            None => None,
        }
    }
}

/// Whether a response reads as `r`.
pub open spec fn reads_as_response(v: serde_json::Value, r: Response) -> bool {
    &&& is_response(v)
    &&& text_member(v, "jsonrpc"@) == Some(r.jsonrpc@)
    &&& json_unsigned(json_member(v, "id"@)->0) == Some(r.id)
    &&& r.result == optional_member(v, "result"@)
    &&& match optional_member(v, "error"@) {
        None => r.error is None,
        Some(e) => r.error is Some && reads_as_error(e, r.error->0),
    }
}

/// Whether a value is a notification.
pub open spec fn is_notification(v: serde_json::Value) -> bool {
    text_member(v, "jsonrpc"@) is Some && text_member(v, "method"@) is Some
}

/// The first field that keeps a value from being a notification.
pub open spec fn notification_fault(v: serde_json::Value) -> Option<Seq<char>> {
    if text_member(v, "jsonrpc"@) is None {
        Some("jsonrpc"@)
    } else if text_member(v, "method"@) is None {
        Some("method"@)
    } else {
        None
    }
}

/// Whether a value was refused for the given field.
pub open spec fn refused_for(e: DecodeError, fault: Option<Seq<char>>) -> bool {
    e is Field && fault == Some(e->Field_0@)
}

/// Whether a notification reads as `n`.
pub open spec fn reads_as_notification(v: serde_json::Value, n: Notification) -> bool {
    &&& is_notification(v)
    &&& text_member(v, "jsonrpc"@) == Some(n.jsonrpc@)
    &&& text_member(v, "method"@) == Some(n.method@)
    &&& n.params == optional_member(v, "params"@)
}

/// An optional member: `null` counts as absent.
fn optional(v: &serde_json::Value, key: &str) -> (r: Option<serde_json::Value>)
    ensures
        r == optional_member(*v, key@),
{
    match member(v, key) {
        None => None,
        Some(m) => {
            if value_is_null(&m) {
                None
            } else {
                Some(m)
            }
        },
    }
}

/// The text of a member that must be a string.
fn text_of_member(v: &serde_json::Value, key: &str) -> (r: Option<String>)
    ensures
        opt_text(r) == text_member(*v, key@),
{
    match member(v, key) {
        None => None,
        Some(m) => value_text(&m),
    }
}

impl RpcError {
    /// Read an error object.
    pub fn from_value(v: &serde_json::Value) -> (r: Result<RpcError, DecodeError>)
        ensures
            r is Ok <==> is_error_object(*v),
            match r {
                Ok(e) => reads_as_error(*v, e),
                Err(e) => refused_for(e, error_fault(*v)),
            },
    {
        let code = match member(v, "code") {
            None => None,
            Some(m) => value_signed(&m),
        };
        let code: i64 = match code {
            Some(c) => c,
            None => {
                return Err(DecodeError::Field("code"));
            },
        };
        match text_of_member(v, "message") {
            Some(message) => Ok(RpcError { code, message, data: optional(v, "data") }),
            None => Err(DecodeError::Field("message")),
        }
    }
}

impl Response {
    /// Read a response.
    pub fn from_value(v: &serde_json::Value) -> (r: Result<Response, DecodeError>)
        ensures
            r is Ok <==> is_response(*v),
            match r {
                Ok(resp) => reads_as_response(*v, resp),
                Err(e) => refused_for(e, response_fault(*v)),
            },
    {
        let jsonrpc = match text_of_member(v, "jsonrpc") {
            Some(s) => s,
            None => {
                return Err(DecodeError::Field("jsonrpc"));
            },
        };
        let id = match member(v, "id") {
            None => None,
            Some(m) => value_unsigned(&m),
        };
        let id: u64 = match id {
            Some(n) => n,
            None => {
                return Err(DecodeError::Field("id"));
            },
        };
        let error = match optional(v, "error") {
            None => None,
            Some(e) => match RpcError::from_value(&e) {
                Ok(error) => Some(error),
                Err(e) => {
                    return Err(e);
                },
            },
        };
        Ok(Response { jsonrpc, id, result: optional(v, "result"), error })
    }
}

impl Notification {
    /// Read a notification.
    pub fn from_value(v: &serde_json::Value) -> (r: Result<Notification, DecodeError>)
        ensures
            r is Ok <==> is_notification(*v),
            match r {
                Ok(note) => reads_as_notification(*v, note),
                Err(e) => refused_for(e, notification_fault(*v)),
            },
    {
        let jsonrpc = match text_of_member(v, "jsonrpc") {
            Some(s) => s,
            None => {
                return Err(DecodeError::Field("jsonrpc"));
            },
        };
        match text_of_member(v, "method") {
            Some(method) => Ok(Notification { jsonrpc, method, params: optional(v, "params") }),
            None => Err(DecodeError::Field("method")),
        }
    }
}

/// What a JSON value reads as: with an `id` it is a [`Response`], without one a
/// [`Notification`]; an error when it is neither, for its first faulty field.
pub open spec fn classified(v: serde_json::Value, r: Result<Incoming, DecodeError>) -> bool {
    if has_id(v) {
        match r {
            Ok(Incoming::Response(resp)) => reads_as_response(v, resp),
            Ok(Incoming::Notification(_)) => false,
            Err(e) => !is_response(v) && refused_for(e, response_fault(v)),
        }
    } else {
        match r {
            Ok(Incoming::Response(_)) => false,
            Ok(Incoming::Notification(note)) => reads_as_notification(v, note),
            Err(e) => !is_notification(v) && refused_for(e, notification_fault(v)),
        }
    }
}

impl Incoming {
    /// Classify and read a JSON value: with an `id` it is a [`Response`],
    /// without one a [`Notification`].
    pub fn from_value(v: &serde_json::Value) -> (r: Result<Incoming, DecodeError>)
        ensures
            classified(*v, r),
    {
        if optional(v, "id").is_some() {
            match Response::from_value(v) {
                Ok(r) => Ok(Incoming::Response(r)),
                Err(e) => Err(e),
            }
        } else {
            match Notification::from_value(v) {
                Ok(n) => Ok(Incoming::Notification(n)),
                Err(e) => Err(e),
            }
        }
    }

    /// Classify and parse a single JSON-RPC frame body.
    pub fn from_slice(body: &[u8]) -> (r: Result<Incoming, DecodeError>)
        ensures
            match json_value(body@) {
                None => r is Err && r->Err_0 is Json,
                Some(v) => classified(v, r),
            },
    {
        match parse_json(body) {
            Ok(v) => Incoming::from_value(&v),
            Err(e) => Err(DecodeError::Json(e)),
        }
    }
}

// ─── Search ────────────────────────────────────────────────────────────

/// Params for `methods::FS_SEARCH`: start a streaming content search.
///
/// `search_id` is a client-assigned handle used to correlate the streamed
/// `SearchResultParams` notifications and to target a later
/// `methods::FS_CANCEL_SEARCH`. `max_results` caps the total number of
/// matches streamed before the server stops early and reports `truncated`.
#[derive(Debug, PartialEq, Eq)]
pub struct SearchParams {
    pub search_id: u64,
    pub query: String,
    /// Treat `query` as a regular expression instead of a literal.
    pub is_regex: bool,
    /// Match case-sensitively.
    pub case_sensitive: bool,
    /// Stop after this many matches (server reports `truncated`). `None`
    /// means unbounded.
    pub max_results: Option<u64>,
}

pub struct SearchParamsView {
    pub search_id: u64,
    pub query: Seq<char>,
    pub is_regex: bool,
    pub case_sensitive: bool,
    pub max_results: Option<u64>,
}

impl View for SearchParams {
    type V = SearchParamsView;

    open spec fn view(&self) -> SearchParamsView {
        SearchParamsView {
            search_id: self.search_id,
            query: self.query@,
            is_regex: self.is_regex,
            case_sensitive: self.case_sensitive,
            max_results: self.max_results,
        }
    }
}

/// A single content-search hit.
#[derive(Debug, PartialEq, Eq)]
pub struct SearchMatch {
    /// Workspace-relative path (forward slashes).
    pub path: String,
    /// 1-based line number of the match.
    pub line: u64,
    /// 1-based column (byte offset within the line) of the match start.
    pub column: u64,
    /// The full matching line, with trailing newline stripped.
    pub text: String,
}

pub struct SearchMatchView {
    pub path: Seq<char>,
    pub line: u64,
    pub column: u64,
    pub text: Seq<char>,
}

impl View for SearchMatch {
    type V = SearchMatchView;

    open spec fn view(&self) -> SearchMatchView {
        SearchMatchView {
            path: self.path@,
            line: self.line,
            column: self.column,
            text: self.text@,
        }
    }
}

impl Clone for SearchMatch {
    fn clone(&self) -> (r: SearchMatch)
        ensures
            r@ == self@,
    {
        SearchMatch {
            path: self.path.clone(),
            line: self.line,
            column: self.column,
            text: self.text.clone(),
        }
    }
}

/// How a search ended: how many matches were emitted and whether it stopped
/// early (hit `max_results` or was cancelled).
#[derive(Debug, Clone, Copy, PartialEq, Eq, Structural)]
pub struct SearchSummary {
    pub count: u64,
    pub truncated: bool,
    /// `true` when the search ended because of a cancel request.
    pub cancelled: bool,
}

// ─── Method params / results ───────────────────────────────────────────

#[derive(Debug, Clone, PartialEq)]
pub struct InitializeParams {
    pub protocol_version: u32,
}

#[derive(Debug, Clone, PartialEq)]
pub struct InitializeResult {
    pub protocol_version: u32,
    pub server_info: ServerInfo,
    pub capabilities: Capabilities,
}

#[derive(Debug, Clone, PartialEq)]
pub struct ServerInfo {
    pub name: String,
    pub version: String,
}

#[derive(Debug, Clone, Copy, PartialEq, Eq)]
pub struct Capabilities {
    pub fs: bool,
    pub git: bool,
    /// The server can push `methods::FS_DID_CHANGE` notifications after an
    /// `methods::FS_WATCH` request. Defaults to `false` so an
    /// older daemon that omits the field is treated as non-watching.
    pub watch: bool,
    /// The server supports streaming content search via
    /// `methods::FS_SEARCH`. Defaults to `false` for older daemons.
    pub search: bool,
    /// The server can spawn and tunnel an ACP coding-agent child via
    /// `methods::ACP_START`. Defaults to `false` for older
    /// daemons.
    pub acp: bool,
    /// The server owns the ACP client/session and speaks the higher-level
    /// `session.*` protocol. Defaults to `false` for older daemons.
    pub session: bool,
}

/// The flag under a key that must be there.
pub open spec fn flag_member(v: serde_json::Value, key: Seq<char>) -> Option<bool> {
    match json_member(v, key) {
        Some(m) => json_flag(m),
        None => None,
    }
}

/// The flag under a key that an older daemon leaves out: then it is not set.
pub open spec fn newer_flag(v: serde_json::Value, key: Seq<char>) -> Option<bool> {
    match json_member(v, key) {
        Some(m) => json_flag(m),
        None => Some(false),
    }
}

/// The first field that keeps a value from being a set of capabilities.
pub open spec fn capabilities_fault(v: serde_json::Value) -> Option<Seq<char>> {
    if flag_member(v, "fs"@) is None {
        Some("fs"@)
    } else if flag_member(v, "git"@) is None {
        Some("git"@)
    } else if newer_flag(v, "watch"@) is None {
        Some("watch"@)
    } else if newer_flag(v, "search"@) is None {
        Some("search"@)
    } else if newer_flag(v, "acp"@) is None {
        Some("acp"@)
    } else if newer_flag(v, "session"@) is None {
        Some("session"@)
    } else {
        None
    }
}

/// Whether a set of capabilities reads as `c`.
pub open spec fn reads_as_capabilities(v: serde_json::Value, c: Capabilities) -> bool {
    &&& flag_member(v, "fs"@) == Some(c.fs)
    &&& flag_member(v, "git"@) == Some(c.git)
    &&& newer_flag(v, "watch"@) == Some(c.watch)
    &&& newer_flag(v, "search"@) == Some(c.search)
    &&& newer_flag(v, "acp"@) == Some(c.acp)
    &&& newer_flag(v, "session"@) == Some(c.session)
}

/// The first field that keeps a value from naming a server.
pub open spec fn server_fault(v: serde_json::Value) -> Option<Seq<char>> {
    if text_member(v, "name"@) is None {
        Some("name"@)
    } else if text_member(v, "version"@) is None {
        Some("version"@)
    } else {
        None
    }
}

/// Whether the name of a server reads as `s`.
pub open spec fn reads_as_server(v: serde_json::Value, s: ServerInfo) -> bool {
    text_member(v, "name"@) == Some(s.name@) && text_member(v, "version"@) == Some(s.version@)
}

/// The protocol version under a key.
pub open spec fn version_member(v: serde_json::Value) -> Option<u32> {
    match json_member(v, "protocol_version"@) {
        Some(m) => match json_unsigned(m) {
            Some(n) if n <= u32::MAX => Some(n as u32),
            _ => None,
        },
        None => None,
    }
}

/// The first field that keeps a value from being the result of a handshake.
pub open spec fn handshake_fault(v: serde_json::Value) -> Option<Seq<char>> {
    if version_member(v) is None {
        Some("protocol_version"@)
    } else {
        match json_member(v, "server_info"@) {
            None => Some("server_info"@),
            Some(s) => if server_fault(s) is Some {
                server_fault(s)
            } else {
                match json_member(v, "capabilities"@) {
                    None => Some("capabilities"@),
                    Some(c) => capabilities_fault(c),
                }
            },
        }
    }
}

/// Whether the result of a handshake reads as `r`.
pub open spec fn reads_as_handshake(v: serde_json::Value, r: InitializeResult) -> bool {
    &&& version_member(v) == Some(r.protocol_version)
    &&& json_member(v, "server_info"@) is Some && reads_as_server(
        json_member(v, "server_info"@)->0,
        r.server_info,
    )
    &&& json_member(v, "capabilities"@) is Some && reads_as_capabilities(
        json_member(v, "capabilities"@)->0,
        r.capabilities,
    )
}

/// The flag under a key that must be there.
fn flag(v: &serde_json::Value, key: &'static str) -> (r: Result<bool, DecodeError>)
    ensures
        match flag_member(*v, key@) {
            Some(b) => r == Ok::<bool, DecodeError>(b),
            None => r is Err && refused_for(r->Err_0, Some(key@)),
        },
{
    match member(v, key) {
        None => Err(DecodeError::Field(key)),
        Some(m) => match value_flag(&m) {
            Some(b) => Ok(b),
            None => Err(DecodeError::Field(key)),
        },
    }
}

/// The flag under a key that an older daemon leaves out.
fn flag_or_unset(v: &serde_json::Value, key: &'static str) -> (r: Result<bool, DecodeError>)
    ensures
        match newer_flag(*v, key@) {
            Some(b) => r == Ok::<bool, DecodeError>(b),
            None => r is Err && refused_for(r->Err_0, Some(key@)),
        },
{
    match member(v, key) {
        None => Ok(false),
        Some(m) => match value_flag(&m) {
            Some(b) => Ok(b),
            None => Err(DecodeError::Field(key)),
        },
    }
}

impl Capabilities {
    /// Read a set of capabilities. Those that came later than the first daemons
    /// count as unset where they are left out.
    pub fn from_value(v: &serde_json::Value) -> (r: Result<Capabilities, DecodeError>)
        ensures
            r is Ok <==> capabilities_fault(*v) is None,
            match r {
                Ok(c) => reads_as_capabilities(*v, c),
                Err(e) => refused_for(e, capabilities_fault(*v)),
            },
    {
        let fs: bool = match flag(v, "fs") {
            Ok(b) => b,
            Err(e) => {
                return Err(e);
            },
        };
        let git: bool = match flag(v, "git") {
            Ok(b) => b,
            Err(e) => {
                return Err(e);
            },
        };
        let watch: bool = match flag_or_unset(v, "watch") {
            Ok(b) => b,
            Err(e) => {
                return Err(e);
            },
        };
        let search: bool = match flag_or_unset(v, "search") {
            Ok(b) => b,
            Err(e) => {
                return Err(e);
            },
        };
        let acp: bool = match flag_or_unset(v, "acp") {
            Ok(b) => b,
            Err(e) => {
                return Err(e);
            },
        };
        match flag_or_unset(v, "session") {
            Ok(session) => Ok(Capabilities { fs, git, watch, search, acp, session }),
            Err(e) => Err(e),
        }
    }
}

impl ServerInfo {
    /// Read the name of a server.
    pub fn from_value(v: &serde_json::Value) -> (r: Result<ServerInfo, DecodeError>)
        ensures
            r is Ok <==> server_fault(*v) is None,
            match r {
                Ok(s) => reads_as_server(*v, s),
                Err(e) => refused_for(e, server_fault(*v)),
            },
    {
        let name = match text_of_member(v, "name") {
            Some(s) => s,
            None => {
                return Err(DecodeError::Field("name"));
            },
        };
        match text_of_member(v, "version") {
            Some(version) => Ok(ServerInfo { name, version }),
            None => Err(DecodeError::Field("version")),
        }
    }
}

impl InitializeResult {
    /// Read the result of a handshake.
    pub fn from_value(v: &serde_json::Value) -> (r: Result<InitializeResult, DecodeError>)
        ensures
            r is Ok <==> handshake_fault(*v) is None,
            match r {
                Ok(result) => reads_as_handshake(*v, result),
                Err(e) => refused_for(e, handshake_fault(*v)),
            },
    {
        let version = match member(v, "protocol_version") {
            None => None,
            Some(m) => value_unsigned(&m),
        };
        let protocol_version: u32 = match version {
            Some(n) if n <= 0xffff_ffff => n as u32,
            _ => {
                return Err(DecodeError::Field("protocol_version"));
            },
        };
        let server_info = match member(v, "server_info") {
            None => {
                return Err(DecodeError::Field("server_info"));
            },
            Some(s) => match ServerInfo::from_value(&s) {
                Ok(info) => info,
                Err(e) => {
                    return Err(e);
                },
            },
        };
        match member(v, "capabilities") {
            None => Err(DecodeError::Field("capabilities")),
            Some(c) => match Capabilities::from_value(&c) {
                Ok(capabilities) => Ok(
                    InitializeResult { protocol_version, server_info, capabilities },
                ),
                Err(e) => Err(e),
            },
        }
    }
}

/// A daemon that predates a capability is taken to lack it: where the fields
/// that came later are left out, they read as unset, and nothing is refused for
/// it.
pub proof fn law_left_out_capabilities_are_unset(v: serde_json::Value, c: Capabilities)
    requires
        reads_as_capabilities(v, c),
    ensures
        capabilities_fault(v) is None,
        json_member(v, "watch"@) is None ==> !c.watch,
        json_member(v, "search"@) is None ==> !c.search,
        json_member(v, "acp"@) is None ==> !c.acp,
        json_member(v, "session"@) is None ==> !c.session,
{
}

/// What stands under a key of an object, where `null` counts as nothing.
pub open spec fn stands_under(v: serde_json::Value, key: Seq<char>) -> Option<serde_json::Value> {
    match json_member(v, key) {
        None => None,
        Some(m) => if json_null(m) {
            None
        } else {
            Some(m)
        },
    }
}

/// A message with an `id` is read as a response and never as a notification, and
/// each of its fields is what stands under that field's name: the id, the version,
/// and whichever of a result and an error is there.
pub proof fn law_a_response_is_read_field_by_field(v: serde_json::Value, r: Response)
    requires
        classified(v, Ok(Incoming::Response(r))),
    ensures
        stands_under(v, "id"@) is Some && json_unsigned(stands_under(v, "id"@)->0) == Some(r.id),
        json_member(v, "jsonrpc"@) is Some && json_text(json_member(v, "jsonrpc"@)->0) == Some(
            r.jsonrpc@,
        ),
        r.result == stands_under(v, "result"@),
        stands_under(v, "error"@) is None ==> r.error is None,
        stands_under(v, "error"@) is Some ==> r.error is Some && reads_as_error(
            stands_under(v, "error"@)->0,
            r.error->0,
        ),
{
}

/// An error is read as its code, its message and its data, each from the field of
/// that name.
pub proof fn law_an_error_is_read_field_by_field(v: serde_json::Value, e: RpcError)
    requires
        reads_as_error(v, e),
    ensures
        json_member(v, "code"@) is Some && json_signed(json_member(v, "code"@)->0) == Some(e.code),
        json_member(v, "message"@) is Some && json_text(json_member(v, "message"@)->0) == Some(
            e.message@,
        ),
        e.data == stands_under(v, "data"@),
{
}

/// A message without an `id` is read as a notification: its method and its params
/// are what stands under these names.
pub proof fn law_a_notification_is_read_field_by_field(v: serde_json::Value, n: Notification)
    requires
        classified(v, Ok(Incoming::Notification(n))),
    ensures
        stands_under(v, "id"@) is None,
        json_member(v, "jsonrpc"@) is Some && json_text(json_member(v, "jsonrpc"@)->0) == Some(
            n.jsonrpc@,
        ),
        json_member(v, "method"@) is Some && json_text(json_member(v, "method"@)->0) == Some(
            n.method@,
        ),
        n.params == stands_under(v, "params"@),
{
}

/// A message is refused only where a field that it needs is missing or of another
/// kind, and is refused for such a field.
pub proof fn law_a_message_is_refused_for_a_faulty_field(v: serde_json::Value, e: DecodeError)
    requires
        classified(v, Err(e)),
    ensures
        e is Field,
        e->Field_0@ == "jsonrpc"@ ==> json_member(v, "jsonrpc"@) is None || json_text(
            json_member(v, "jsonrpc"@)->0,
        ) is None,
        e->Field_0@ == "jsonrpc"@ || e->Field_0@ == "id"@ || e->Field_0@ == "method"@
            || e->Field_0@ == "code"@ || e->Field_0@ == "message"@,
        stands_under(v, "id"@) is None && (json_member(v, "jsonrpc"@) is Some && json_text(
            json_member(v, "jsonrpc"@)->0,
        ) is Some) ==> e->Field_0@ == "method"@ && (json_member(v, "method"@) is None || json_text(
            json_member(v, "method"@)->0,
        ) is None),
{
    reveal_strlit("jsonrpc");
    reveal_strlit("id");
    reveal_strlit("code");
    reveal_strlit("message");
    reveal_strlit("method");
    assert("jsonrpc"@[0] == 'j' && "jsonrpc"@.len() == 7);
    assert("id"@.len() == 2);
    assert("code"@.len() == 4);
    assert("message"@[0] == 'm' && "message"@.len() == 7);
    assert("method"@.len() == 6);
}

/// The answer to a handshake is read field by field: the version, the name and the
/// version of the server, and each capability under its own name.
pub proof fn law_a_handshake_is_read_field_by_field(v: serde_json::Value, r: InitializeResult)
    requires
        reads_as_handshake(v, r),
    ensures
        json_member(v, "protocol_version"@) is Some && json_unsigned(
            json_member(v, "protocol_version"@)->0,
        ) == Some(r.protocol_version as u64),
        json_member(v, "server_info"@) is Some && ({
            let s = json_member(v, "server_info"@)->0;
            &&& json_member(s, "name"@) is Some && json_text(json_member(s, "name"@)->0) == Some(
                r.server_info.name@,
            )
            &&& json_member(s, "version"@) is Some && json_text(json_member(s, "version"@)->0)
                == Some(r.server_info.version@)
        }),
        json_member(v, "capabilities"@) is Some && ({
            let c = json_member(v, "capabilities"@)->0;
            &&& json_member(c, "fs"@) is Some && json_flag(json_member(c, "fs"@)->0) == Some(
                r.capabilities.fs,
            )
            &&& json_member(c, "git"@) is Some && json_flag(json_member(c, "git"@)->0) == Some(
                r.capabilities.git,
            )
            &&& json_member(c, "watch"@) is Some ==> json_flag(json_member(c, "watch"@)->0)
                == Some(r.capabilities.watch)
            &&& json_member(c, "search"@) is Some ==> json_flag(json_member(c, "search"@)->0)
                == Some(r.capabilities.search)
            &&& json_member(c, "acp"@) is Some ==> json_flag(json_member(c, "acp"@)->0) == Some(
                r.capabilities.acp,
            )
            &&& json_member(c, "session"@) is Some ==> json_flag(json_member(c, "session"@)->0)
                == Some(r.capabilities.session)
        }),
{
}

#[derive(Debug, Clone, PartialEq)]
pub struct FsListParams {
    pub path: String,
}

#[derive(Debug, Clone, PartialEq)]
pub struct FsListResult {
    pub entries: Vec<FsEntry>,
}

#[derive(Debug, Clone, PartialEq, Eq)]
pub struct FsEntry {
    pub name: String,
    pub is_dir: bool,
}

#[derive(Debug, Clone, PartialEq)]
pub struct FsReadParams {
    pub path: String,
    /// Byte offset to start reading from. Defaults to `0`. Enables paging
    /// through large files in bounded chunks instead of one giant frame.
    pub offset: u64,
    /// Maximum number of bytes to return from `offset`. `None` reads to the
    /// end of the file.
    pub len: Option<u64>,
}

#[derive(Debug, Clone, PartialEq)]
pub struct FsReadResult {
    /// Base64-encoded file contents for the requested range. Base64 keeps
    /// arbitrary bytes safe over the JSON channel.
    pub content_base64: String,
    /// `true` when this chunk reached the end of the file (i.e. no more
    /// bytes follow `offset + returned_len`). Lets a client stop paging.
    pub eof: bool,
    /// Total size of the file in bytes, independent of the requested range.
    pub total_size: u64,
}

#[derive(Debug, Clone, PartialEq)]
pub struct FsStatParams {
    pub path: String,
}

#[derive(Debug, Clone, PartialEq, Eq)]
pub struct FsStatResult {
    pub is_dir: bool,
    pub len: u64,
}

#[derive(Debug, Clone, PartialEq)]
pub struct GitStatusParams {
    pub include_ignored: bool,
}

#[derive(Debug, Clone, PartialEq)]
pub struct GitStatusResult {
    pub entries: Vec<GitStatusEntry>,
}

#[derive(Debug, Clone, PartialEq)]
pub struct GitStatusEntry {
    pub path: String,
    pub status: WireStatus,
}

/// Wire-stable mirror of the explorer's status kinds. Kept independent of
/// `fleet-git`'s `StatusKind` so the protocol owns its own serialization
/// contract; the edges map between the two.
#[derive(Debug, Clone, Copy, PartialEq, Eq)]
pub enum WireStatus {
    Modified,
    Added,
    Deleted,
    Renamed,
    Untracked,
    Ignored,
    Conflicted,
}

#[derive(Debug, Clone, PartialEq)]
pub struct GitBranchResult {
    pub branch: Option<String>,
}

/// Params for `methods::GIT_DIFF`: the workspace-relative path to diff
/// and whether to show the staged (index-vs-HEAD) diff instead of the
/// working-tree diff.
#[derive(Debug, Clone, PartialEq, Eq)]
pub struct GitDiffParams {
    pub path: String,
    pub staged: bool,
}

/// Result of `methods::GIT_DIFF`: the raw unified diff (empty when the
/// path has no changes).
#[derive(Debug, Clone, PartialEq, Eq)]
pub struct GitDiffResult {
    pub diff: String,
}

/// Params for `methods::FS_WATCH`: start (`true`) or stop (`false`)
/// watching the workspace root for changes.
#[derive(Debug, Clone, PartialEq, Eq)]
pub struct FsWatchParams {
    pub enable: bool,
}

/// Result of `methods::FS_WATCH`: whether the server is now watching.
#[derive(Debug, Clone, PartialEq, Eq)]
pub struct FsWatchResult {
    pub watching: bool,
}

/// Params for the `methods::FS_DID_CHANGE` notification: the set of
/// workspace-relative paths that changed since the last notification.
///
/// The list is coalesced and best-effort: an empty list means "something
/// changed but the precise paths are unknown — refresh". Clients should
/// treat it as a hint to re-fetch, not an authoritative diff.
#[derive(Debug, Clone, PartialEq, Eq)]
pub struct FsDidChangeParams {
    pub paths: Vec<String>,
}

/// Params for the `methods::FS_SEARCH_RESULT` notification: a coalesced
/// batch of matches for one `search_id`.
#[derive(Debug, Clone, PartialEq, Eq)]
pub struct SearchResultParams {
    pub search_id: u64,
    pub matches: Vec<SearchMatch>,
}

/// Ack returned immediately by `methods::FS_SEARCH`. The search runs
/// asynchronously; results stream as `SearchResultParams` notifications and
/// finish with a `SearchDoneParams` notification. `accepted` is `false` only
/// if the backend refused to start (e.g. an invalid pattern).
#[derive(Debug, Clone, PartialEq, Eq)]
pub struct SearchAck {
    pub accepted: bool,
}

/// Params for the terminal `methods::FS_SEARCH_DONE` notification: the
/// `search_id` that finished plus its `SearchSummary`.
#[derive(Debug, Clone, PartialEq, Eq)]
pub struct SearchDoneParams {
    pub search_id: u64,
    pub summary: SearchSummary,
}

/// Params for `methods::FS_CANCEL_SEARCH`: which in-flight search to stop.
#[derive(Debug, Clone, PartialEq, Eq)]
pub struct CancelSearchParams {
    pub search_id: u64,
}

/// Result of `methods::FS_CANCEL_SEARCH`: whether a matching in-flight
/// search was found and signalled.
#[derive(Debug, Clone, PartialEq, Eq)]
pub struct CancelSearchResult {
    pub cancelled: bool,
}

/// Params for `methods::ACP_START`: spawn an ACP coding-agent child.
///
/// `command` is a shell-free argv-style command line (parsed the same way the
/// host would parse an ACP command, e.g. `copilot --acp --stdio`). `cwd` is the
/// working directory for the child — normally the workspace root. `env` is a
/// list of extra environment variables to set on the child.
#[derive(Debug, Clone, PartialEq, Eq)]
pub struct AcpStartParams {
    pub command: String,
    pub cwd: Option<String>,
    pub env: Vec<AcpEnvVar>,
}

/// A single environment variable for the ACP child.
#[derive(Debug, Clone, PartialEq, Eq)]
pub struct AcpEnvVar {
    pub name: String,
    pub value: String,
}

/// Result of `methods::ACP_START`: whether a child was spawned. `started` is
/// `false` if a child was already running (the existing one is left in place).
#[derive(Debug, Clone, PartialEq, Eq)]
pub struct AcpStartResult {
    pub started: bool,
}

/// Params for the `methods::ACP_SEND` / `methods::ACP_RECV` notifications:
/// one line of ACP wire data (no trailing newline).
#[derive(Debug, Clone, PartialEq, Eq)]
pub struct AcpDataParams {
    pub data: String,
}

/// Params for the `methods::ACP_EXIT` notification: the child's exit code,
/// or `None` if it was terminated by a signal / the code was unavailable.
#[derive(Debug, Clone, PartialEq, Eq)]
pub struct AcpExitParams {
    pub code: Option<i32>,
}

/// Result of `methods::ACP_STOP`: whether a running child was signalled.
#[derive(Debug, Clone, PartialEq, Eq)]
pub struct AcpStopResult {
    pub stopped: bool,
}

// ─── Session protocol ──────────────────────────────────────────────────

/// Params for `methods::SESSION_START`: launch (or resume) a daemon-owned
/// ACP session.
#[derive(Debug, Clone, PartialEq, Eq)]
pub struct SessionStartParams {
    /// The ACP agent command line, e.g. `copilot --acp --stdio`.
    pub command: String,
    /// Working directory / session cwd inside the container.
    pub cwd: String,
    /// A prior session id to resume, if any (best-effort — the daemon falls
    /// back to listing or creating a session when it cannot be resumed).
    pub previous_session_id: Option<String>,
    /// Extra environment variables for the agent child.
    pub env: Vec<AcpEnvVar>,
}

/// Result of `methods::SESSION_START`.
#[derive(Debug, Clone, PartialEq, Eq)]
pub struct SessionStartResult {
    /// The active session id (freshly created or resumed).
    pub session_id: Option<String>,
    /// If set, interactive authentication is required before a session can be
    /// established; the host should run this terminal command and retry.
    pub auth_required: Option<Vec<String>>,
}

/// Params for the `methods::SESSION_PROMPT` notification.
#[derive(Debug, Clone, PartialEq, Eq)]
pub struct SessionPromptParams {
    pub text: String,
}

/// Params for the `methods::SESSION_UPDATE` notification: one forwarded ACP
/// `session/update`, carried as the raw ACP JSON value so the host can feed it
/// straight into its own update aggregation.
#[derive(Debug, PartialEq)]
pub struct SessionUpdateParams {
    pub update: serde_json::Value,
}

/// Params for the `methods::SESSION_PERMISSION_REQUEST` notification.
#[derive(Debug, Clone, PartialEq, Eq)]
pub struct SessionPermissionRequestParams {
    /// Correlates with the `SessionPermissionRespondParams::request_id` the
    /// host sends back.
    pub request_id: String,
    /// Human-readable tool title shown to the operator.
    pub tool_name: String,
    /// Selectable options: `(option_id, display_name, kind_label)`.
    pub options: Vec<PermissionOption>,
}

/// A single permission option offered to the operator.
#[derive(Debug, Clone, PartialEq, Eq)]
pub struct PermissionOption {
    pub option_id: String,
    pub name: String,
    pub kind: String,
}

/// Params for the `methods::SESSION_PERMISSION_RESPOND` notification.
#[derive(Debug, Clone, PartialEq, Eq)]
pub struct SessionPermissionRespondParams {
    pub request_id: String,
    /// The chosen `option_id`, or `None` to cancel/reject.
    pub option_id: Option<String>,
}

/// Params for the `methods::SESSION_PROMPT_RESULT` notification.
#[derive(Debug, Clone, PartialEq, Eq)]
pub struct SessionPromptResultParams {
    pub ok: bool,
    pub error: Option<String>,
}

/// Params for the `methods::SESSION_CONNECTED` notification.
#[derive(Debug, Clone, PartialEq, Eq)]
pub struct SessionConnectedParams {
    pub session_id: Option<String>,
}

/// Params for the `methods::SESSION_OUTPUT` notification: one diagnostic line.
#[derive(Debug, Clone, PartialEq, Eq)]
pub struct SessionOutputParams {
    pub line: String,
}

/// Params for the `methods::SESSION_ERROR` notification.
#[derive(Debug, Clone, PartialEq, Eq)]
pub struct SessionErrorParams {
    pub message: String,
}

/// Params for the `methods::SESSION_EXIT` notification.
#[derive(Debug, Clone, PartialEq, Eq)]
pub struct SessionExitParams {
    pub code: Option<i32>,
}

/// Params for the `methods::SESSION_AUTH_REQUIRED` notification.
#[derive(Debug, Clone, PartialEq, Eq)]
pub struct SessionAuthRequiredParams {
    /// A terminal command the operator should run to authenticate.
    pub command: Vec<String>,
}

} // verus!
