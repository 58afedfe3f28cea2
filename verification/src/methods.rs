//! Reserved JSON-RPC method names.
use vstd::prelude::*;

verus! {

pub const INITIALIZE: &'static str = "initialize";

pub const FS_LIST: &'static str = "fs.list";

pub const FS_READ: &'static str = "fs.read";

pub const FS_STAT: &'static str = "fs.stat";

pub const GIT_STATUS: &'static str = "git.status";

pub const GIT_BRANCH: &'static str = "git.branch";

/// Request: unified diff for a single path.
pub const GIT_DIFF: &'static str = "git.diff";

/// Request: start a streaming content search over the workspace.
pub const FS_SEARCH: &'static str = "fs.search";

/// Request: cancel an in-flight `FS_SEARCH` by its `searchId`.
pub const FS_CANCEL_SEARCH: &'static str = "fs.cancelSearch";

/// Server→client notification: a batch of search matches.
pub const FS_SEARCH_RESULT: &'static str = "fs.searchResult";

/// Server→client notification: an `FS_SEARCH` finished. Carries
/// the terminal `SearchDoneParams` summary; the request itself only acks.
pub const FS_SEARCH_DONE: &'static str = "fs.searchDone";

/// Request: start or stop watching the workspace for changes.
pub const FS_WATCH: &'static str = "fs.watch";

/// Server→client notification: the workspace changed.
pub const FS_DID_CHANGE: &'static str = "fs.didChange";

/// Request: spawn an ACP coding-agent child process inside the workspace
/// and begin tunnelling its stdio through this connection.
pub const ACP_START: &'static str = "acp.start";

/// Client→server notification: one line of ACP wire data destined for the
/// child's stdin. ACP's stdio transport is newline-delimited JSON, so each
/// notification carries exactly one message.
pub const ACP_SEND: &'static str = "acp.send";

/// Server→client notification: one line of ACP wire data read from the
/// child's stdout.
pub const ACP_RECV: &'static str = "acp.recv";

/// Server→client notification: one line from the child's stderr (diagnostic
/// output, e.g. device-code login URLs). Surfaced to the operator.
pub const ACP_STDERR: &'static str = "acp.stderr";

/// Server→client notification: the ACP child exited.
pub const ACP_EXIT: &'static str = "acp.exit";

/// Request: terminate the ACP child if one is running.
pub const ACP_STOP: &'static str = "acp.stop";

/// Request: start (or resume) an ACP coding-agent session owned by the
/// daemon. Spawns the agent, runs the ACP handshake, and returns the
/// session id. See `SessionStartParams` / `SessionStartResult`.
pub const SESSION_START: &'static str = "session.start";

/// Client→server notification: submit a prompt turn. A notification (not a
/// request) because a turn can run far longer than the request timeout;
/// completion arrives via `SESSION_PROMPT_RESULT`.
pub const SESSION_PROMPT: &'static str = "session.prompt";

/// Request: cancel the in-flight prompt turn, if any.
pub const SESSION_CANCEL: &'static str = "session.cancel";

/// Client→server notification: the operator's answer to a
/// `SESSION_PERMISSION_REQUEST`, keyed by its `request_id`.
pub const SESSION_PERMISSION_RESPOND: &'static str = "session.permissionRespond";

/// Server→client notification: a forwarded ACP `session/update` (opaque ACP
/// JSON in `SessionUpdateParams::update`). The host feeds it into its own
/// update aggregation.
pub const SESSION_UPDATE: &'static str = "session.update";

/// Server→client notification: the agent is requesting tool-use permission.
/// The host must reply with `SESSION_PERMISSION_RESPOND`.
pub const SESSION_PERMISSION_REQUEST: &'static str = "session.permissionRequest";

/// Server→client notification: a prompt turn finished (ok, or with error).
pub const SESSION_PROMPT_RESULT: &'static str = "session.promptResult";

/// Server→client notification: the session is open and ready for prompts.
pub const SESSION_CONNECTED: &'static str = "session.connected";

/// Server→client notification: a diagnostic/stderr line from the agent
/// (e.g. device-code login URLs).
pub const SESSION_OUTPUT: &'static str = "session.output";

/// Server→client notification: a session-level error.
pub const SESSION_ERROR: &'static str = "session.error";

/// Server→client notification: the agent process exited.
pub const SESSION_EXIT: &'static str = "session.exit";

/// Server→client notification: interactive authentication is required; the
/// host should run the carried terminal command.
pub const SESSION_AUTH_REQUIRED: &'static str = "session.authRequired";

/// Each method goes by its own name on the wire.
pub proof fn law_methods_go_by_their_names()
    ensures
        INITIALIZE@ == "initialize"@,
        FS_LIST@ == "fs.list"@,
        FS_READ@ == "fs.read"@,
        FS_STAT@ == "fs.stat"@,
        GIT_STATUS@ == "git.status"@,
        GIT_BRANCH@ == "git.branch"@,
        GIT_DIFF@ == "git.diff"@,
        FS_SEARCH@ == "fs.search"@,
        FS_CANCEL_SEARCH@ == "fs.cancelSearch"@,
        FS_SEARCH_RESULT@ == "fs.searchResult"@,
        FS_SEARCH_DONE@ == "fs.searchDone"@,
        FS_WATCH@ == "fs.watch"@,
        FS_DID_CHANGE@ == "fs.didChange"@,
        ACP_START@ == "acp.start"@,
        ACP_SEND@ == "acp.send"@,
        ACP_RECV@ == "acp.recv"@,
        ACP_STDERR@ == "acp.stderr"@,
        ACP_EXIT@ == "acp.exit"@,
        ACP_STOP@ == "acp.stop"@,
        SESSION_START@ == "session.start"@,
        SESSION_PROMPT@ == "session.prompt"@,
        SESSION_CANCEL@ == "session.cancel"@,
        SESSION_PERMISSION_RESPOND@ == "session.permissionRespond"@,
        SESSION_UPDATE@ == "session.update"@,
        SESSION_PERMISSION_REQUEST@ == "session.permissionRequest"@,
        SESSION_PROMPT_RESULT@ == "session.promptResult"@,
        SESSION_CONNECTED@ == "session.connected"@,
        SESSION_OUTPUT@ == "session.output"@,
        SESSION_ERROR@ == "session.error"@,
        SESSION_EXIT@ == "session.exit"@,
        SESSION_AUTH_REQUIRED@ == "session.authRequired"@,
{
}

} // verus!
