//! Agent state held by the UI.
//!
//! Each agent wraps an ACP connection. The `acp_command` field specifies
//! what command to launch (e.g. `copilot --acp --stdio`). When
//! `workspace_folder` is set, the agent runs inside a dev container for that
//! repo.
use crate::order::{all_views, Keyed};
use vstd::prelude::*;

verus! {

/// The view of an optional string.
pub open spec fn opt_text(o: Option<String>) -> Option<Seq<char>> {
    match o {
        Some(s) => Some(s@),
        None => None,
    }
}

/// What an agent is doing.
#[derive(Debug, Clone, Copy, PartialEq, Eq, Structural)]
pub enum AgentStatus {
    Idle,
    Running,
    Stopped,
    Error,
}

impl AgentStatus {
    /// The word shown for the status.
    pub open spec fn label_text(&self) -> Seq<char> {
        match self {
            AgentStatus::Idle => "idle"@,
            AgentStatus::Running => "running"@,
            AgentStatus::Stopped => "stopped"@,
            AgentStatus::Error => "error"@,
        }
    }

    /// The word shown for the status.
    pub fn label(&self) -> (r: &'static str)
        ensures
            r@ == self.label_text(),
    {
        match self {
            AgentStatus::Idle => "idle",
            AgentStatus::Running => "running",
            AgentStatus::Stopped => "stopped",
            AgentStatus::Error => "error",
        }
    }
}

/// How far a streamed message has come.
#[derive(Debug, Clone)]
pub enum MessageStatus {
    Streaming,
    Completed,
    Failed(String),
}

pub enum MessageStatusView {
    Streaming,
    Completed,
    Failed(Seq<char>),
}

impl View for MessageStatus {
    type V = MessageStatusView;

    open spec fn view(&self) -> MessageStatusView {
        match self {
            MessageStatus::Streaming => MessageStatusView::Streaming,
            MessageStatus::Completed => MessageStatusView::Completed,
            MessageStatus::Failed(reason) => MessageStatusView::Failed(reason@),
        }
    }
}

impl MessageStatus {
    /// Whether no more text will arrive.
    pub fn is_terminal(&self) -> (r: bool)
        ensures
            r == !(self@ is Streaming),
    {
        match self {
            MessageStatus::Streaming => false,
            _ => true,
        }
    }
}

/// How far a tool call has come.
#[derive(Debug, Clone, Copy, PartialEq, Eq, Structural)]
pub enum ToolCallStatusKind {
    Pending,
    InProgress,
    Completed,
    Failed,
}

/// A streamed text: the number of its stream, and its text and status when the
/// stream was last looked at.
#[derive(Debug)]
pub struct StreamedText {
    pub stream: u64,
    pub text: String,
    pub status: MessageStatus,
}

pub struct StreamedTextView {
    pub stream: u64,
    pub text: Seq<char>,
    pub status: MessageStatusView,
}

impl View for StreamedText {
    type V = StreamedTextView;

    open spec fn view(&self) -> StreamedTextView {
        StreamedTextView { stream: self.stream, text: self.text@, status: self.status@ }
    }
}

/// A tool call: the number of its stream, and its title and status when the
/// stream was last looked at.
#[derive(Debug)]
pub struct ToolCall {
    pub id: String,
    pub stream: u64,
    pub title: String,
    pub status: ToolCallStatusKind,
}

pub struct ToolCallView {
    pub id: Seq<char>,
    pub stream: u64,
    pub title: Seq<char>,
    pub status: ToolCallStatusKind,
}

impl View for ToolCall {
    type V = ToolCallView;

    open spec fn view(&self) -> ToolCallView {
        ToolCallView {
            id: self.id@,
            stream: self.stream,
            title: self.title@,
            status: self.status,
        }
    }
}

/// A single visible item in an agent's conversation pane.
///
/// `Info` / `Error` / `Prompt` are static text that the UI itself authored;
/// the other variants follow a stream.
#[derive(Debug)]
pub enum HistoryEntry {
    /// Informational line authored by the UI (e.g. "ACP session connected").
    Info(String),
    /// Error line authored by the UI.
    Error(String),
    /// User prompt the operator typed and dispatched.
    Prompt(String),
    /// A streamed assistant message.
    Assistant(StreamedText),
    /// A streamed agent thought.
    Thought(StreamedText),
    /// A user message replayed from session history during load/resume.
    User(StreamedText),
    /// A tool call.
    Tool(ToolCall),
}

pub enum HistoryEntryView {
    Info(Seq<char>),
    Error(Seq<char>),
    Prompt(Seq<char>),
    Assistant(StreamedTextView),
    Thought(StreamedTextView),
    User(StreamedTextView),
    Tool(ToolCallView),
}

impl View for HistoryEntry {
    type V = HistoryEntryView;

    open spec fn view(&self) -> HistoryEntryView {
        match self {
            HistoryEntry::Info(s) => HistoryEntryView::Info(s@),
            HistoryEntry::Error(s) => HistoryEntryView::Error(s@),
            HistoryEntry::Prompt(s) => HistoryEntryView::Prompt(s@),
            HistoryEntry::Assistant(m) => HistoryEntryView::Assistant(m@),
            HistoryEntry::Thought(m) => HistoryEntryView::Thought(m@),
            HistoryEntry::User(m) => HistoryEntryView::User(m@),
            HistoryEntry::Tool(t) => HistoryEntryView::Tool(t@),
        }
    }
}

/// A slash command that an agent advertises.
#[derive(Debug)]
pub struct AvailableCommand {
    pub name: String,
    pub description: String,
    pub hint: Option<String>,
}

pub struct AvailableCommandView {
    pub name: Seq<char>,
    pub description: Seq<char>,
    pub hint: Option<Seq<char>>,
}

impl View for AvailableCommand {
    type V = AvailableCommandView;

    open spec fn view(&self) -> AvailableCommandView {
        AvailableCommandView {
            name: self.name@,
            description: self.description@,
            hint: opt_text(self.hint),
        }
    }
}

impl Clone for AvailableCommand {
    fn clone(&self) -> (r: AvailableCommand)
        ensures
            r@ == self@,
    {
        let hint = match &self.hint {
            Some(h) => Some(h.clone()),
            None => None,
        };
        AvailableCommand {
            name: self.name.clone(),
            description: self.description.clone(),
            hint,
        }
    }
}

/// Commands are listed by their names.
impl Keyed for AvailableCommandView {
    open spec fn group(&self) -> int {
        0
    }

    open spec fn key(&self) -> Seq<char> {
        self.name
    }
}

/// Copies of all commands, in order.
pub fn clone_commands(v: &Vec<AvailableCommand>) -> (r: Vec<AvailableCommand>)
    ensures
        all_views(r@) == all_views(v@),
{
    let mut out: Vec<AvailableCommand> = Vec::new();
    let mut i: usize = 0;
    while i < v.len()
        invariant
            i <= v@.len(),
            all_views(out@) == all_views(v@).take(i as int),
        decreases v@.len() - i,
    {
        let ghost had = out@;
        out.push(v[i].clone());
        proof {
            assert(all_views(out@) =~= all_views(had).push(v@[i as int]@));
            assert(all_views(v@).take(i + 1) =~= all_views(v@).take(i as int).push(v@[i as int]@));
        }
        i = i + 1;
    }
    proof {
        assert(all_views(v@).take(i as int) =~= all_views(v@));
    }
    out
}

/// A filesystem that holds a workspace: the host's, or one served from inside
/// a container over the connection with the given number.
#[derive(Debug)]
pub struct WorkspaceFs {
    pub root: String,
    pub remote: Option<u64>,
}

pub struct WorkspaceFsView {
    pub root: Seq<char>,
    pub remote: Option<u64>,
}

impl View for WorkspaceFs {
    type V = WorkspaceFsView;

    open spec fn view(&self) -> WorkspaceFsView {
        WorkspaceFsView { root: self.root@, remote: self.remote }
    }
}

impl Clone for WorkspaceFs {
    fn clone(&self) -> (r: WorkspaceFs)
        ensures
            r@ == self@,
    {
        WorkspaceFs { root: self.root.clone(), remote: self.remote }
    }
}

impl WorkspaceFs {
    /// The host's filesystem at `root`.
    pub fn local(root: String) -> (r: WorkspaceFs)
        ensures
            r@ == (WorkspaceFsView { root: root@, remote: None }),
    {
        WorkspaceFs { root, remote: None }
    }

    /// Whether the filesystem is served from inside a container.
    pub fn is_remote(&self) -> (r: bool)
        ensures
            r == self@.remote is Some,
    {
        self.remote.is_some()
    }
}

/// The view of an optional filesystem.
pub open spec fn opt_fs(o: Option<WorkspaceFs>) -> Option<WorkspaceFsView> {
    match o {
        Some(fs) => Some(fs@),
        None => None,
    }
}

/// A copy of an optional filesystem.
pub fn clone_fs(o: &Option<WorkspaceFs>) -> (r: Option<WorkspaceFs>)
    ensures
        opt_fs(r) == opt_fs(*o),
{
    match o {
        Some(fs) => Some(fs.clone()),
        None => None,
    }
}

/// A copy of an optional string.
pub fn clone_text(o: &Option<String>) -> (r: Option<String>)
    ensures
        opt_text(r) == opt_text(*o),
{
    match o {
        Some(s) => Some(s.clone()),
        None => None,
    }
}

/// The container that an agent runs in.
#[derive(Debug)]
pub struct ContainerInfo {
    pub container_id: String,
    pub workspace_folder: String,
    pub remote_workspace_folder: String,
    pub remote_user: String,
}

pub struct ContainerInfoView {
    pub container_id: Seq<char>,
    pub workspace_folder: Seq<char>,
    pub remote_workspace_folder: Seq<char>,
    pub remote_user: Seq<char>,
}

impl View for ContainerInfo {
    type V = ContainerInfoView;

    open spec fn view(&self) -> ContainerInfoView {
        ContainerInfoView {
            container_id: self.container_id@,
            workspace_folder: self.workspace_folder@,
            remote_workspace_folder: self.remote_workspace_folder@,
            remote_user: self.remote_user@,
        }
    }
}

impl Clone for ContainerInfo {
    fn clone(&self) -> (r: ContainerInfo)
        ensures
            r@ == self@,
    {
        ContainerInfo {
            container_id: self.container_id.clone(),
            workspace_folder: self.workspace_folder.clone(),
            remote_workspace_folder: self.remote_workspace_folder.clone(),
            remote_user: self.remote_user.clone(),
        }
    }
}

/// The view of an optional container.
pub open spec fn opt_container(o: Option<ContainerInfo>) -> Option<ContainerInfoView> {
    match o {
        Some(c) => Some(c@),
        None => None,
    }
}

/// A background task that runs an agent.
#[derive(Debug, Clone, Copy, PartialEq, Eq, Structural)]
pub struct TaskHandle {
    pub task: u64,
    /// Whether the task has returned.
    pub finished: bool,
}

/// How long a branch read from the host is shown before it is read again, in
/// milliseconds.
pub const GIT_BRANCH_TTL_MS: u64 = 2000;

/// A branch read from the host, and when.
#[derive(Debug)]
pub struct BranchReading {
    pub at_ms: u64,
    pub branch: Option<String>,
}

/// What to show as an agent's branch.
#[derive(Debug)]
pub enum BranchLookup {
    /// The agent has no workspace, so no branch.
    NoWorkspace,
    /// The last reading is recent enough.
    Known(Option<String>),
    /// The branch must be read from this workspace.
    Read(String),
}

/// An agent of the fleet.
#[derive(Debug)]
pub struct Agent {
    pub id: String,
    pub name: String,
    pub status: AgentStatus,
    pub history: Vec<HistoryEntry>,
    /// Command to launch the ACP agent (e.g. `copilot --acp --stdio`).
    pub acp_command: String,
    /// Optional repo path with `.devcontainer/` config.
    /// When set, the agent runs inside a dev container.
    pub workspace_folder: Option<String>,
    /// Channel for sending prompts to the persistent ACP connection.
    /// `None` until the connection is established.
    pub prompt_tx: Option<u64>,
    /// The agent's background task (container start + ACP loop).
    pub task_handle: Option<TaskHandle>,
    /// ACP session ID — persisted across reconnections for session resume.
    pub session_id: Option<String>,
    /// The line index that ended up at the top of the conversation's viewport
    /// after clamping, when it was last drawn.
    pub last_effective_top: usize,
    /// Slash commands that the agent advertised.
    pub available_commands: Vec<AvailableCommand>,
    /// The container that the agent runs in, once it is up.
    pub container: Option<ContainerInfo>,
    /// The branch inside the container.
    pub git_branch: Option<String>,
    /// The container-backed filesystem, once one was delivered.
    pub explorer_fs: Option<WorkspaceFs>,
    /// The branch last read from the host.
    pub branch_reading: Option<BranchReading>,
}

pub struct BranchReadingView {
    pub at_ms: u64,
    pub branch: Option<Seq<char>>,
}

#[verifier::ext_equal]
pub struct AgentView {
    pub id: Seq<char>,
    pub name: Seq<char>,
    pub status: AgentStatus,
    pub history: Seq<HistoryEntryView>,
    pub acp_command: Seq<char>,
    pub workspace_folder: Option<Seq<char>>,
    pub prompt_tx: Option<u64>,
    pub task_handle: Option<TaskHandle>,
    pub session_id: Option<Seq<char>>,
    pub last_effective_top: usize,
    pub available_commands: Seq<AvailableCommandView>,
    pub container: Option<ContainerInfoView>,
    pub git_branch: Option<Seq<char>>,
    pub explorer_fs: Option<WorkspaceFsView>,
    pub branch_reading: Option<BranchReadingView>,
}

/// The view of an optional reading.
pub open spec fn opt_reading(o: Option<BranchReading>) -> Option<BranchReadingView> {
    match o {
        Some(r) => Some(BranchReadingView { at_ms: r.at_ms, branch: opt_text(r.branch) }),
        None => None,
    }
}

impl View for Agent {
    type V = AgentView;

    open spec fn view(&self) -> AgentView {
        AgentView {
            id: self.id@,
            name: self.name@,
            status: self.status,
            history: all_views(self.history@),
            acp_command: self.acp_command@,
            workspace_folder: opt_text(self.workspace_folder),
            prompt_tx: self.prompt_tx,
            task_handle: self.task_handle,
            session_id: opt_text(self.session_id),
            last_effective_top: self.last_effective_top,
            available_commands: all_views(self.available_commands@),
            container: opt_container(self.container),
            git_branch: opt_text(self.git_branch),
            explorer_fs: opt_fs(self.explorer_fs),
            branch_reading: opt_reading(self.branch_reading),
        }
    }
}

/// A new agent: idle, with nothing said and nothing connected.
pub open spec fn new_agent(id: Seq<char>, name: Seq<char>) -> AgentView {
    AgentView {
        id,
        name,
        status: AgentStatus::Idle,
        history: seq![],
        acp_command: seq![],
        workspace_folder: None,
        prompt_tx: None,
        task_handle: None,
        session_id: None,
        last_effective_top: 0,
        available_commands: seq![],
        container: None,
        git_branch: None,
        explorer_fs: None,
        branch_reading: None,
    }
}

impl AgentView {
    /// The agent with one more entry in its history.
    pub open spec fn with_entry(self, entry: HistoryEntryView) -> AgentView {
        AgentView { history: self.history.push(entry), ..self }
    }

    /// The agent with one more informational line.
    pub open spec fn with_info(self, line: Seq<char>) -> AgentView {
        self.with_entry(HistoryEntryView::Info(line))
    }
}

impl Agent {
    /// A new agent.
    pub fn new(id: String, name: String) -> (r: Agent)
        ensures
            r@ == new_agent(id@, name@),
    {
        let r = Agent {
            id,
            name,
            status: AgentStatus::Idle,
            history: Vec::new(),
            acp_command: String::new(),
            workspace_folder: None,
            prompt_tx: None,
            task_handle: None,
            session_id: None,
            last_effective_top: 0,
            available_commands: Vec::new(),
            container: None,
            git_branch: None,
            explorer_fs: None,
            branch_reading: None,
        };
        proof {
            assert(r@ =~= new_agent(id@, name@));
        }
        r
    }

    /// The agent with the command to launch it.
    pub fn with_acp_command(self, command: String) -> (r: Agent)
        ensures
            r@ == (AgentView { acp_command: command@, ..self@ }),
    {
        let mut r = self;
        r.acp_command = command;
        r
    }

    /// The agent with its workspace. A branch read before is forgotten.
    pub fn with_workspace(self, path: String) -> (r: Agent)
        ensures
            r@ == (AgentView {
                workspace_folder: Some(path@),
                branch_reading: None,
                ..self@
            }),
    {
        let mut r = self;
        r.workspace_folder = Some(path);
        r.branch_reading = None;
        r
    }

    /// The effective command to run: the raw ACP command, whether or not the
    /// agent has a workspace. What starts the container also runs the command
    /// inside it.
    pub fn effective_acp_command(&self) -> (r: String)
        ensures
            r@ == self@.acp_command,
    {
        self.acp_command.clone()
    }

    /// The branch of the workspace on the host. A reading counts for
    /// [`GIT_BRANCH_TTL_MS`], so that drawing does not read the disk each time.
    pub fn git_branch(&self, now_ms: u64) -> (r: BranchLookup)
        ensures
            match self@.workspace_folder {
                None => r is NoWorkspace,
                Some(ws) => match self@.branch_reading {
                    Some(reading) if now_ms < reading.at_ms + GIT_BRANCH_TTL_MS => r matches
                        BranchLookup::Known(b) && opt_text(b) == reading.branch,
                    _ => r matches BranchLookup::Read(path) && path@ == ws,
                },
            },
    {
        match &self.workspace_folder {
            None => BranchLookup::NoWorkspace,
            Some(ws) => {
                match &self.branch_reading {
                    Some(reading) => {
                        if now_ms < reading.at_ms || now_ms - reading.at_ms < GIT_BRANCH_TTL_MS {
                            return BranchLookup::Known(clone_text(&reading.branch));
                        }
                    },
                    None => {},
                }
                BranchLookup::Read(ws.clone())
            },
        }
    }

    /// Remember a branch that was read from the host.
    pub fn store_branch(&mut self, now_ms: u64, branch: Option<String>)
        ensures
            final(self)@ == (AgentView {
                branch_reading: Some(BranchReadingView { at_ms: now_ms, branch: opt_text(branch) }),
                ..old(self)@
            }),
    {
        self.branch_reading = Some(BranchReading { at_ms: now_ms, branch });
    }

    /// Append an entry to the history.
    pub fn push_entry(&mut self, entry: HistoryEntry)
        ensures
            final(self)@ == old(self)@.with_entry(entry@),
    {
        self.history.push(entry);
        proof {
            assert(all_views(self.history@) =~= all_views(old(self).history@).push(entry@));
        }
    }

    /// Append an informational line.
    pub fn info(&mut self, line: String)
        ensures
            final(self)@ == old(self)@.with_entry(HistoryEntryView::Info(line@)),
    {
        self.push_entry(HistoryEntry::Info(line));
    }

    /// Append an error line.
    pub fn error(&mut self, line: String)
        ensures
            final(self)@ == old(self)@.with_entry(HistoryEntryView::Error(line@)),
    {
        self.push_entry(HistoryEntry::Error(line));
    }

    /// Append a user prompt.
    pub fn prompt(&mut self, line: String)
        ensures
            final(self)@ == old(self)@.with_entry(HistoryEntryView::Prompt(line@)),
    {
        self.push_entry(HistoryEntry::Prompt(line));
    }
}

// ─── Laws ──────────────────────────────────────────────────────────────

/// A new agent has the id and the name that it was given, is idle, and has
/// nothing else. A branch that was read from the host counts for two seconds.
pub proof fn law_a_new_agent_is_idle(id: Seq<char>, name: Seq<char>)
    ensures
        ({
            let agent = new_agent(id, name);
            &&& agent.id == id && agent.name == name
            &&& agent.status == AgentStatus::Idle
            &&& agent.history.len() == 0 && agent.available_commands.len() == 0
            &&& agent.acp_command.len() == 0 && agent.workspace_folder is None
            &&& agent.prompt_tx is None && agent.task_handle is None && agent.session_id is None
            &&& agent.container is None && agent.git_branch is None && agent.explorer_fs is None
            &&& agent.branch_reading is None && agent.last_effective_top == 0
        }),
        GIT_BRANCH_TTL_MS == 2 * 1000,
{
}

/// The views of values hold the values' own parts, each in its place.
pub proof fn law_a_view_holds_the_parts(
    fs: WorkspaceFs,
    container: ContainerInfo,
    command: AvailableCommand,
    text: StreamedText,
    call: ToolCall,
)
    ensures
        fs@.root == fs.root@ && fs@.remote == fs.remote,
        container@.container_id == container.container_id@ && container@.workspace_folder
            == container.workspace_folder@ && container@.remote_workspace_folder
            == container.remote_workspace_folder@ && container@.remote_user
            == container.remote_user@,
        command@.name == command.name@ && command@.description == command.description@,
        text@.stream == text.stream && text@.text == text.text@ && text@.status == text.status@,
        call@.id == call.id@ && call@.stream == call.stream && call@.title == call.title@
            && call@.status == call.status,
{
}

} // verus!
