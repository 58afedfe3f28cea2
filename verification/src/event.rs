//! What the application reacts to.
//!
//! Everything that wants to nudge the UI (input, agent output, file changes,
//! the outcome of background work) arrives as an [`AppEvent`]. What a runtime
//! reports of its sessions arrives as a [`SessionEvent`] inside one.
use crate::agent::{
    opt_text, AvailableCommand, AvailableCommandView, StreamedText, StreamedTextView, ToolCall,
    ToolCallView, WorkspaceFs, WorkspaceFsView,
};
use crate::explorer::{status_views, DirEntry, DirEntryView, StatusKind};
use crate::keybind::KeyEvent;
use crate::order::all_views;
use crate::protocol::{SearchMatch, SearchMatchView, SearchSummary};
use crate::text::views;
use vstd::prelude::*;

verus! {

/// A file changed; `content` is what it holds now, if it could be read.
#[derive(Debug)]
pub struct ChangeEvent {
    pub path: String,
    pub content: Option<String>,
}

/// Something that could not be stored.
#[derive(Debug, Clone, Copy, PartialEq, Eq, Structural)]
pub enum Persisted {
    Layer,
    Workspaces,
    Pairings,
}

/// The single event the application loop reacts to.
#[derive(Debug)]
pub enum AppEvent {
    Input(KeyEvent),
    Change(ChangeEvent),
    /// An MCP client called the `show_diff` tool.
    McpShowDiff { agent_id: String, path: String, content: String },
    /// An MCP client called the `show_file` tool.
    McpShowFile { agent_id: String, path: String, content: String },
    /// An MCP client called the `notify` tool.
    McpNotify { agent_id: String, message: String },
    /// An MCP client called the `send_to_workspace` tool.
    McpSendToWorkspace {
        sender_id: String,
        sender_name: String,
        target_id: String,
        message: String,
        thread: String,
    },
    /// Request to reconnect an agent (e.g. after container rebuild).
    ReconnectAgent { agent_id: String },
    /// An event from the runtime.
    Session(SessionEvent),
    /// Result of a status refresh, with the flag that it was issued with.
    ExplorerStatusReady {
        root: String,
        include_ignored: bool,
        result: Result<Vec<(String, StatusKind)>, String>,
    },
    /// A container-backed filesystem finished connecting.
    ExplorerFsReady { agent_id: String, container_id: String, fs: WorkspaceFs },
    /// The in-container filesystem changed.
    ExplorerFsChanged { agent_id: String, container_id: String },
    /// A directory listing completed.
    ExplorerDirReady { root: String, rel: String, result: Result<Vec<DirEntry>, String> },
    /// A file read completed.
    ExplorerFileReady {
        agent_id: String,
        root: String,
        full_path: String,
        result: Result<String, String>,
        scroll_to: u16,
    },
    /// A diff of a file completed.
    ExplorerDiffReady {
        agent_id: String,
        root: String,
        full_path: String,
        result: Result<String, String>,
    },
    /// A batch of matches of a search.
    SearchResults { agent_id: String, search_id: u64, matches: Vec<SearchMatch> },
    /// A search ended.
    SearchDone { agent_id: String, search_id: u64, summary: SearchSummary },
    /// The branch inside an agent's container was read; `None` when there is
    /// none.
    AgentBranchReady { agent_id: String, container_id: String, branch: Option<String> },
    /// A path of the command line was completed, if it could be.
    PathCompleted { verb: String, path: Option<String> },
    /// Something could not be stored.
    PersistFailed { what: Persisted, error: String },
    /// An agent's background task returned.
    TaskFinished { agent_id: String, task: u64 },
    /// Redraw.
    Repaint,
}

/// What a runtime reports of its sessions.
#[derive(Debug)]
pub enum SessionEvent {
    Output { agent_id: String, line: String },
    ContainerReady {
        agent_id: String,
        container_id: String,
        remote_user: String,
        remote_workspace_folder: String,
    },
    Exited { agent_id: String, code: Option<i32> },
    Error { agent_id: String, message: String },
    Connected { agent_id: String, session_id: Option<String> },
    AuthRequired { agent_id: String, command: Vec<String> },
    /// A tool wants permission. Options are `(id, label, kind)`; the answer
    /// goes to the reply channel with the given number.
    PermissionRequest {
        agent_id: String,
        tool_name: String,
        options: Vec<(String, String, String)>,
        reply: u64,
    },
    AssistantMessage { agent_id: String, message: StreamedText },
    Thought { agent_id: String, thought: StreamedText },
    UserMessage { agent_id: String, message: StreamedText },
    ToolCall { agent_id: String, call: ToolCall },
    AvailableCommands { agent_id: String, commands: Vec<AvailableCommand> },
    ExplorerFs { agent_id: String, container_id: String, fs: WorkspaceFs },
    ExplorerFsChanged { agent_id: String, container_id: String },
    SearchResults { agent_id: String, search_id: u64, matches: Vec<SearchMatch> },
    SearchDone { agent_id: String, search_id: u64, summary: SearchSummary },
    AgentBranch { agent_id: String, container_id: String, branch: Option<String> },
    /// An agent opened a tunnel to the MCP server; `stream` is the number of
    /// its byte stream, if that is still there.
    McpTunnelOpen { agent_id: String, tunnel_id: u64, stream: Option<u64> },
    McpTunnelClose { agent_id: String, tunnel_id: u64 },
}

pub enum AppEventView {
    Input(KeyEvent),
    Change { path: Seq<char>, content: Option<Seq<char>> },
    McpShowDiff { agent_id: Seq<char>, path: Seq<char>, content: Seq<char> },
    McpShowFile { agent_id: Seq<char>, path: Seq<char>, content: Seq<char> },
    McpNotify { agent_id: Seq<char>, message: Seq<char> },
    McpSendToWorkspace {
        sender_id: Seq<char>,
        sender_name: Seq<char>,
        target_id: Seq<char>,
        message: Seq<char>,
        thread: Seq<char>,
    },
    ReconnectAgent { agent_id: Seq<char> },
    Session(SessionEventView),
    ExplorerStatusReady {
        root: Seq<char>,
        include_ignored: bool,
        result: Result<Seq<(Seq<char>, StatusKind)>, Seq<char>>,
    },
    ExplorerFsReady { agent_id: Seq<char>, container_id: Seq<char>, fs: WorkspaceFsView },
    ExplorerFsChanged { agent_id: Seq<char>, container_id: Seq<char> },
    ExplorerDirReady { root: Seq<char>, rel: Seq<char>, result: Option<Seq<DirEntryView>> },
    ExplorerFileReady {
        agent_id: Seq<char>,
        root: Seq<char>,
        full_path: Seq<char>,
        result: Option<Seq<char>>,
        scroll_to: u16,
    },
    ExplorerDiffReady {
        agent_id: Seq<char>,
        root: Seq<char>,
        full_path: Seq<char>,
        result: Option<Seq<char>>,
    },
    SearchResults { agent_id: Seq<char>, search_id: u64, matches: Seq<SearchMatchView> },
    SearchDone { agent_id: Seq<char>, search_id: u64, summary: SearchSummary },
    AgentBranchReady {
        agent_id: Seq<char>,
        container_id: Seq<char>,
        branch: Option<Seq<char>>,
    },
    PathCompleted { verb: Seq<char>, path: Option<Seq<char>> },
    PersistFailed { what: Persisted, error: Seq<char> },
    TaskFinished { agent_id: Seq<char>, task: u64 },
    Repaint,
}

pub enum SessionEventView {
    Output { agent_id: Seq<char>, line: Seq<char> },
    ContainerReady {
        agent_id: Seq<char>,
        container_id: Seq<char>,
        remote_user: Seq<char>,
        remote_workspace_folder: Seq<char>,
    },
    Exited { agent_id: Seq<char> },
    Error { agent_id: Seq<char>, message: Seq<char> },
    Connected { agent_id: Seq<char>, session_id: Option<Seq<char>> },
    AuthRequired { agent_id: Seq<char>, command: Seq<Seq<char>> },
    PermissionRequest {
        agent_id: Seq<char>,
        tool_name: Seq<char>,
        options: Seq<(Seq<char>, Seq<char>, Seq<char>)>,
        reply: u64,
    },
    AssistantMessage { agent_id: Seq<char>, message: StreamedTextView },
    Thought { agent_id: Seq<char>, thought: StreamedTextView },
    UserMessage { agent_id: Seq<char>, message: StreamedTextView },
    ToolCall { agent_id: Seq<char>, call: ToolCallView },
    AvailableCommands { agent_id: Seq<char>, commands: Seq<AvailableCommandView> },
    ExplorerFs { agent_id: Seq<char>, container_id: Seq<char>, fs: WorkspaceFsView },
    ExplorerFsChanged { agent_id: Seq<char>, container_id: Seq<char> },
    SearchResults { agent_id: Seq<char>, search_id: u64, matches: Seq<SearchMatchView> },
    SearchDone { agent_id: Seq<char>, search_id: u64, summary: SearchSummary },
    AgentBranch { agent_id: Seq<char>, container_id: Seq<char>, branch: Option<Seq<char>> },
    McpTunnelOpen { agent_id: Seq<char>, tunnel_id: u64, stream: Option<u64> },
    McpTunnelClose { tunnel_id: u64 },
}

/// The views of permission options.
pub open spec fn option_views(v: Seq<(String, String, String)>) -> Seq<
    (Seq<char>, Seq<char>, Seq<char>),
> {
    v.map_values(|o: (String, String, String)| (o.0@, o.1@, o.2@))
}

/// What a read gave, if it succeeded.
pub open spec fn ok_text(r: Result<String, String>) -> Option<Seq<char>> {
    match r {
        Ok(s) => Some(s@),
        Err(_) => None,
    }
}

impl View for SessionEvent {
    type V = SessionEventView;

    open spec fn view(&self) -> SessionEventView {
        match self {
            SessionEvent::Output { agent_id, line } => SessionEventView::Output {
                agent_id: agent_id@,
                line: line@,
            },
            SessionEvent::ContainerReady {
                agent_id,
                container_id,
                remote_user,
                remote_workspace_folder,
            } => SessionEventView::ContainerReady {
                agent_id: agent_id@,
                container_id: container_id@,
                remote_user: remote_user@,
                remote_workspace_folder: remote_workspace_folder@,
            },
            SessionEvent::Exited { agent_id, code } => SessionEventView::Exited {
                agent_id: agent_id@,
            },
            SessionEvent::Error { agent_id, message } => SessionEventView::Error {
                agent_id: agent_id@,
                message: message@,
            },
            SessionEvent::Connected { agent_id, session_id } => SessionEventView::Connected {
                agent_id: agent_id@,
                session_id: opt_text(*session_id),
            },
            SessionEvent::AuthRequired { agent_id, command } => SessionEventView::AuthRequired {
                agent_id: agent_id@,
                command: views(command@),
            },
            SessionEvent::PermissionRequest { agent_id, tool_name, options, reply } =>
                SessionEventView::PermissionRequest {
                agent_id: agent_id@,
                tool_name: tool_name@,
                options: option_views(options@),
                reply: *reply,
            },
            SessionEvent::AssistantMessage { agent_id, message } =>
                SessionEventView::AssistantMessage { agent_id: agent_id@, message: message@ },
            SessionEvent::Thought { agent_id, thought } => SessionEventView::Thought {
                agent_id: agent_id@,
                thought: thought@,
            },
            SessionEvent::UserMessage { agent_id, message } => SessionEventView::UserMessage {
                agent_id: agent_id@,
                message: message@,
            },
            SessionEvent::ToolCall { agent_id, call } => SessionEventView::ToolCall {
                agent_id: agent_id@,
                call: call@,
            },
            SessionEvent::AvailableCommands { agent_id, commands } =>
                SessionEventView::AvailableCommands {
                agent_id: agent_id@,
                commands: all_views(commands@),
            },
            SessionEvent::ExplorerFs { agent_id, container_id, fs } =>
                SessionEventView::ExplorerFs {
                agent_id: agent_id@,
                container_id: container_id@,
                fs: fs@,
            },
            SessionEvent::ExplorerFsChanged { agent_id, container_id } =>
                SessionEventView::ExplorerFsChanged {
                agent_id: agent_id@,
                container_id: container_id@,
            },
            SessionEvent::SearchResults { agent_id, search_id, matches } =>
                SessionEventView::SearchResults {
                agent_id: agent_id@,
                search_id: *search_id,
                matches: all_views(matches@),
            },
            SessionEvent::SearchDone { agent_id, search_id, summary } =>
                SessionEventView::SearchDone {
                agent_id: agent_id@,
                search_id: *search_id,
                summary: *summary,
            },
            SessionEvent::AgentBranch { agent_id, container_id, branch } =>
                SessionEventView::AgentBranch {
                agent_id: agent_id@,
                container_id: container_id@,
                branch: opt_text(*branch),
            },
            SessionEvent::McpTunnelOpen { agent_id, tunnel_id, stream } =>
                SessionEventView::McpTunnelOpen {
                agent_id: agent_id@,
                tunnel_id: *tunnel_id,
                stream: *stream,
            },
            SessionEvent::McpTunnelClose { agent_id, tunnel_id } =>
                SessionEventView::McpTunnelClose { tunnel_id: *tunnel_id },
        }
    }
}

impl View for AppEvent {
    type V = AppEventView;

    open spec fn view(&self) -> AppEventView {
        match self {
            AppEvent::Input(key) => AppEventView::Input(*key),
            AppEvent::Change(c) => AppEventView::Change {
                path: c.path@,
                content: opt_text(c.content),
            },
            AppEvent::McpShowDiff { agent_id, path, content } => AppEventView::McpShowDiff {
                agent_id: agent_id@,
                path: path@,
                content: content@,
            },
            AppEvent::McpShowFile { agent_id, path, content } => AppEventView::McpShowFile {
                agent_id: agent_id@,
                path: path@,
                content: content@,
            },
            AppEvent::McpNotify { agent_id, message } => AppEventView::McpNotify {
                agent_id: agent_id@,
                message: message@,
            },
            AppEvent::McpSendToWorkspace { sender_id, sender_name, target_id, message, thread } =>
                AppEventView::McpSendToWorkspace {
                sender_id: sender_id@,
                sender_name: sender_name@,
                target_id: target_id@,
                message: message@,
                thread: thread@,
            },
            AppEvent::ReconnectAgent { agent_id } => AppEventView::ReconnectAgent {
                agent_id: agent_id@,
            },
            AppEvent::Session(e) => AppEventView::Session(e@),
            AppEvent::ExplorerStatusReady { root, include_ignored, result } =>
                AppEventView::ExplorerStatusReady {
                root: root@,
                include_ignored: *include_ignored,
                result: match *result {
                    Ok(v) => Ok(status_views(v@)),
                    Err(e) => Err(e@),
                },
            },
            AppEvent::ExplorerFsReady { agent_id, container_id, fs } =>
                AppEventView::ExplorerFsReady {
                agent_id: agent_id@,
                container_id: container_id@,
                fs: fs@,
            },
            AppEvent::ExplorerFsChanged { agent_id, container_id } =>
                AppEventView::ExplorerFsChanged {
                agent_id: agent_id@,
                container_id: container_id@,
            },
            AppEvent::ExplorerDirReady { root, rel, result } => AppEventView::ExplorerDirReady {
                root: root@,
                rel: rel@,
                result: match *result {
                    Ok(v) => Some(all_views(v@)),
                    Err(_) => None,
                },
            },
            AppEvent::ExplorerFileReady { agent_id, root, full_path, result, scroll_to } =>
                AppEventView::ExplorerFileReady {
                agent_id: agent_id@,
                root: root@,
                full_path: full_path@,
                result: ok_text(*result),
                scroll_to: *scroll_to,
            },
            AppEvent::ExplorerDiffReady { agent_id, root, full_path, result } =>
                AppEventView::ExplorerDiffReady {
                agent_id: agent_id@,
                root: root@,
                full_path: full_path@,
                result: ok_text(*result),
            },
            AppEvent::SearchResults { agent_id, search_id, matches } =>
                AppEventView::SearchResults {
                agent_id: agent_id@,
                search_id: *search_id,
                matches: all_views(matches@),
            },
            AppEvent::SearchDone { agent_id, search_id, summary } => AppEventView::SearchDone {
                agent_id: agent_id@,
                search_id: *search_id,
                summary: *summary,
            },
            AppEvent::AgentBranchReady { agent_id, container_id, branch } =>
                AppEventView::AgentBranchReady {
                agent_id: agent_id@,
                container_id: container_id@,
                branch: opt_text(*branch),
            },
            AppEvent::PathCompleted { verb, path } => AppEventView::PathCompleted {
                verb: verb@,
                path: opt_text(*path),
            },
            AppEvent::PersistFailed { what, error } => AppEventView::PersistFailed {
                what: *what,
                error: error@,
            },
            AppEvent::TaskFinished { agent_id, task } => AppEventView::TaskFinished {
                agent_id: agent_id@,
                task: *task,
            },
            AppEvent::Repaint => AppEventView::Repaint,
        }
    }
}

/// The options of a permission request are seen as they were offered, each with
/// its id, its label and its kind in their places.
pub proof fn law_options_are_seen_as_offered(v: Seq<(String, String, String)>, i: int)
    requires
        0 <= i < v.len(),
    ensures
        option_views(v).len() == v.len(),
        option_views(v)[i] == (v[i].0@, v[i].1@, v[i].2@),
{
}

/// What happened is what is reacted to: each part of an event is where its name
/// says, and a read that failed gives nothing.
pub proof fn law_an_event_is_what_it_says(
    a: String,
    b: String,
    c: String,
    d: String,
    e: String,
    fs: WorkspaceFs,
    result: Result<String, String>,
    row: u16,
    n: u64,
    matches: Vec<SearchMatch>,
    summary: SearchSummary,
    x: Option<String>,
    what: Persisted,
)
    ensures
        (AppEvent::McpShowDiff { agent_id: a, path: b, content: c })@ == (
        AppEventView::McpShowDiff { agent_id: a@, path: b@, content: c@ }),
        (AppEvent::McpShowFile { agent_id: a, path: b, content: c })@ == (
        AppEventView::McpShowFile { agent_id: a@, path: b@, content: c@ }),
        (AppEvent::McpNotify { agent_id: a, message: b })@ == (
        AppEventView::McpNotify { agent_id: a@, message: b@ }),
        (AppEvent::McpSendToWorkspace {
            sender_id: a,
            sender_name: b,
            target_id: c,
            message: d,
            thread: e,
        })@ == (
        AppEventView::McpSendToWorkspace {
            sender_id: a@,
            sender_name: b@,
            target_id: c@,
            message: d@,
            thread: e@,
        }),
        (AppEvent::ReconnectAgent { agent_id: a })@ == (
        AppEventView::ReconnectAgent { agent_id: a@ }),
        (AppEvent::ExplorerFsReady { agent_id: a, container_id: b, fs })@ == (
        AppEventView::ExplorerFsReady { agent_id: a@, container_id: b@, fs: fs@ }),
        (AppEvent::ExplorerFsChanged { agent_id: a, container_id: b })@ == (
        AppEventView::ExplorerFsChanged { agent_id: a@, container_id: b@ }),
        (AppEvent::ExplorerFileReady {
            agent_id: a,
            root: b,
            full_path: c,
            result,
            scroll_to: row,
        })@ == (
        AppEventView::ExplorerFileReady {
            agent_id: a@,
            root: b@,
            full_path: c@,
            result: (match result { Ok(s) => Some(s@), Err(_) => None }),
            scroll_to: row,
        }),
        (AppEvent::ExplorerDiffReady { agent_id: a, root: b, full_path: c, result })@ == (
        AppEventView::ExplorerDiffReady {
            agent_id: a@,
            root: b@,
            full_path: c@,
            result: (match result { Ok(s) => Some(s@), Err(_) => None }),
        }),
        (AppEvent::SearchResults { agent_id: a, search_id: n, matches })@ == (
        AppEventView::SearchResults { agent_id: a@, search_id: n, matches: all_views(matches@) }),
        (AppEvent::SearchDone { agent_id: a, search_id: n, summary })@ == (
        AppEventView::SearchDone { agent_id: a@, search_id: n, summary }),
        (AppEvent::AgentBranchReady { agent_id: a, container_id: b, branch: x })@ == (
        AppEventView::AgentBranchReady { agent_id: a@, container_id: b@, branch: opt_text(x) }),
        (AppEvent::PathCompleted { verb: a, path: x })@ == (
        AppEventView::PathCompleted { verb: a@, path: opt_text(x) }),
        (AppEvent::PersistFailed { what, error: a })@ == (
        AppEventView::PersistFailed { what, error: a@ }),
        (AppEvent::TaskFinished { agent_id: a, task: n })@ == (
        AppEventView::TaskFinished { agent_id: a@, task: n }),
{
}

/// What a runtime reports is what is reacted to: each part of a report is where
/// its name says.
pub proof fn law_a_session_event_is_what_it_says(
    a: String,
    b: String,
    c: String,
    d: String,
    code: Option<i32>,
    x: Option<String>,
    words: Vec<String>,
    options: Vec<(String, String, String)>,
    n: u64,
    text: StreamedText,
    call: ToolCall,
    commands: Vec<AvailableCommand>,
    fs: WorkspaceFs,
    matches: Vec<SearchMatch>,
    summary: SearchSummary,
    stream: Option<u64>,
)
    ensures
        (SessionEvent::Output { agent_id: a, line: b })@ == (
        SessionEventView::Output { agent_id: a@, line: b@ }),
        (SessionEvent::ContainerReady {
            agent_id: a,
            container_id: b,
            remote_user: c,
            remote_workspace_folder: d,
        })@ == (
        SessionEventView::ContainerReady {
            agent_id: a@,
            container_id: b@,
            remote_user: c@,
            remote_workspace_folder: d@,
        }),
        (SessionEvent::Exited { agent_id: a, code })@ == (
        SessionEventView::Exited { agent_id: a@ }),
        (SessionEvent::Error { agent_id: a, message: b })@ == (
        SessionEventView::Error { agent_id: a@, message: b@ }),
        (SessionEvent::Connected { agent_id: a, session_id: x })@ == (
        SessionEventView::Connected { agent_id: a@, session_id: opt_text(x) }),
        (SessionEvent::AuthRequired { agent_id: a, command: words })@ == (
        SessionEventView::AuthRequired { agent_id: a@, command: views(words@) }),
        (SessionEvent::PermissionRequest { agent_id: a, tool_name: b, options, reply: n })@ == (
        SessionEventView::PermissionRequest {
            agent_id: a@,
            tool_name: b@,
            options: option_views(options@),
            reply: n,
        }),
        (SessionEvent::AssistantMessage { agent_id: a, message: text })@ == (
        SessionEventView::AssistantMessage { agent_id: a@, message: text@ }),
        (SessionEvent::Thought { agent_id: a, thought: text })@ == (
        SessionEventView::Thought { agent_id: a@, thought: text@ }),
        (SessionEvent::UserMessage { agent_id: a, message: text })@ == (
        SessionEventView::UserMessage { agent_id: a@, message: text@ }),
        (SessionEvent::ToolCall { agent_id: a, call })@ == (
        SessionEventView::ToolCall { agent_id: a@, call: call@ }),
        (SessionEvent::AvailableCommands { agent_id: a, commands })@ == (
        SessionEventView::AvailableCommands { agent_id: a@, commands: all_views(commands@) }),
        (SessionEvent::ExplorerFs { agent_id: a, container_id: b, fs })@ == (
        SessionEventView::ExplorerFs { agent_id: a@, container_id: b@, fs: fs@ }),
        (SessionEvent::ExplorerFsChanged { agent_id: a, container_id: b })@ == (
        SessionEventView::ExplorerFsChanged { agent_id: a@, container_id: b@ }),
        (SessionEvent::SearchResults { agent_id: a, search_id: n, matches })@ == (
        SessionEventView::SearchResults {
            agent_id: a@,
            search_id: n,
            matches: all_views(matches@),
        }),
        (SessionEvent::SearchDone { agent_id: a, search_id: n, summary })@ == (
        SessionEventView::SearchDone { agent_id: a@, search_id: n, summary }),
        (SessionEvent::AgentBranch { agent_id: a, container_id: b, branch: x })@ == (
        SessionEventView::AgentBranch { agent_id: a@, container_id: b@, branch: opt_text(x) }),
        (SessionEvent::McpTunnelOpen { agent_id: a, tunnel_id: n, stream })@ == (
        SessionEventView::McpTunnelOpen { agent_id: a@, tunnel_id: n, stream }),
        (SessionEvent::McpTunnelClose { agent_id: a, tunnel_id: n })@ == (
        SessionEventView::McpTunnelClose { tunnel_id: n }),
{
}

} // verus!
