//! Agent and session lifecycle for [`App`]: connecting agents, draining
//! session events into history, and upgrading the explorer to the filesystem
//! inside a container.
use crate::agent::{
    clone_fs, clone_text, opt_fs, opt_text, AgentStatus, AgentView, ContainerInfo,
    ContainerInfoView, HistoryEntry, HistoryEntryView, StreamedText, StreamedTextView, TaskHandle,
    WorkspaceFs, WorkspaceFsView,
};
use crate::app::actions::lemma_update_keeps_index;
use crate::app::{App, AppView, PendingPermission, PendingPermissionView};
use crate::effect::{Effect, EffectView};
use crate::event::{AppEvent, AppEventView, SessionEvent, SessionEventView};
use crate::text::{concat2, concat3, contains, occurs, same};
use crate::types::{Screen, ScreenView, SessionFocus, SidePane, SidePaneView};
use vstd::prelude::*;
use vstd::string::*;

verus! {

/// The host's filesystem of a workspace.
pub open spec fn local_fs(workspace: Option<Seq<char>>) -> Option<WorkspaceFsView> {
    match workspace {
        Some(root) => Some(WorkspaceFsView { root, remote: None }),
        None => None,
    }
}

/// The host's filesystem of a workspace.
fn local_of(workspace: &Option<String>) -> (r: Option<WorkspaceFs>)
    ensures
        opt_fs(r) == local_fs(opt_text(*workspace)),
{
    match workspace {
        Some(root) => Some(WorkspaceFs::local(root.clone())),
        None => None,
    }
}

/// What is said when an agent is started.
pub open spec fn start_line(workspace: Option<Seq<char>>) -> Seq<char> {
    match workspace {
        Some(ws) => "Starting container ("@ + ws + ")..."@,
        None => "Connecting..."@,
    }
}

impl AppView {
    /// Whether an agent's wire messages are logged.
    pub open spec fn logs(self, id: Seq<char>) -> bool {
        self.acp_log && match self.acp_log_filter {
            Some(pattern) => occurs(pattern, id),
            None => true,
        }
    }

    /// The state with the explorer pointed at a filesystem.
    pub open spec fn explorer_at(self, fs: Option<WorkspaceFsView>) -> AppView {
        AppView { explorer: self.explorer.pointed_at(fs), ..self }
    }

    /// The state after a connection to the service inside a container was
    /// requested.
    pub open spec fn service_requested(
        self,
        agent_id: Seq<char>,
        container: ContainerInfoView,
        workspace: Seq<char>,
    ) -> AppView {
        self.emit(EffectView::ConnectService { agent_id, container, workspace })
    }

    /// The state after an agent's branch was requested: only an agent with a
    /// container and a workspace has one to read.
    pub open spec fn branch_requested(self, id: Seq<char>) -> AppView {
        if self.knows(id) {
            match (self.agent(id).container, self.agent(id).workspace_folder) {
                (Some(container), Some(workspace)) => self.emit(
                    EffectView::FetchBranch { agent_id: id, container, workspace },
                ),
                _ => self,
            }
        } else {
            self
        }
    }

    /// Whether the explorer already shows the container-backed files of this
    /// agent's workspace.
    pub open spec fn shows_remote(self, agent: AgentView) -> bool {
        match (self.explorer.fs, agent.workspace_folder) {
            (Some(fs), Some(root)) => fs.remote is Some && fs.root == root,
            _ => false,
        }
    }

    /// The state with the explorer on an agent's workspace: on the
    /// container-backed files that were delivered, or else on the host's, with
    /// the service inside the container asked for.
    pub open spec fn explorer_on(self, agent: AgentView) -> AppView {
        if self.shows_remote(agent) {
            self
        } else {
            match agent.explorer_fs {
                Some(fs) => self.explorer_at(Some(fs)).refresh_requested(),
                None => self.explorer_on_host(agent),
            }
        }
    }

    /// The state with the explorer on the host's files of an agent's
    /// workspace, with the service inside its container asked for.
    pub open spec fn explorer_on_host(self, agent: AgentView) -> AppView {
        let s = self.explorer_at(local_fs(agent.workspace_folder));
        let t = if s.explorer.fs is Some && (self.explorer.fs is None || s.explorer.status.is_empty()) {
            s.refresh_requested()
        } else {
            s
        };
        match (agent.container, agent.workspace_folder) {
            (Some(container), Some(workspace)) => t.service_requested(
                agent.id,
                container,
                workspace,
            ),
            _ => t,
        }
    }

    /// The agent without a task that has returned.
    pub open spec fn without_finished_task(agent: AgentView) -> AgentView {
        match agent.task_handle {
            Some(task) if task.finished => AgentView { task_handle: None, ..agent },
            _ => agent,
        }
    }

    /// The state after an agent was started, unless it is connected, connecting
    /// or has no command.
    pub open spec fn agent_started(self, id: Seq<char>) -> AppView {
        let agent = AppView::without_finished_task(self.agent(id));
        let s = self.with_agent(id, agent);
        if agent.prompt_tx is Some || agent.task_handle is Some || agent.acp_command.len() == 0 {
            s
        } else {
            let channel = self.next_channel;
            AppView {
                next_channel: if channel < u64::MAX {
                    (channel + 1) as u64
                } else {
                    0
                },
                ..s
            }.emit(
                EffectView::StartAgent {
                    agent_id: agent.id,
                    command: agent.acp_command,
                    workspace: agent.workspace_folder,
                    session_id: agent.session_id,
                    log: self.logs(agent.id),
                    channel,
                },
            ).with_agent(
                id,
                AgentView {
                    prompt_tx: Some(channel),
                    task_handle: Some(TaskHandle { task: channel, finished: false }),
                    status: AgentStatus::Running,
                    ..agent
                }.with_info(start_line(agent.workspace_folder)),
            )
        }
    }

    /// The state after an agent was made the one that is worked with: the
    /// explorer shows its workspace, and its connection is started if need be.
    pub open spec fn connected(self, id: Seq<char>) -> AppView {
        if self.knows(id) {
            self.explorer_on(self.agent(id)).agent_started(id)
        } else {
            self
        }
    }

    /// The state with the conversation of an agent following its bottom, if it
    /// is the one being viewed.
    pub open spec fn following(self, id: Seq<char>) -> AppView {
        match self.screen {
            ScreenView::AgentSession { agent_id, focus, side_pane, scroll, input_mode } =>
                if agent_id == id {
                AppView {
                    screen: ScreenView::AgentSession {
                        agent_id,
                        focus,
                        side_pane,
                        scroll: usize::MAX,
                        input_mode,
                    },
                    ..self
                }
            } else {
                self
            },
            _ => self,
        }
    }

    /// The state with a pane that a tool opened for an agent: its session is
    /// entered if it is not the one being viewed.
    pub open spec fn tool_pane(self, id: Seq<char>, pane: SidePaneView) -> AppView {
        let s = if self.viewed() == Some(id) {
            self.with_pane(Some(pane))
        } else {
            AppView {
                screen: ScreenView::AgentSession {
                    agent_id: id,
                    focus: SessionFocus::Conversation,
                    side_pane: Some(pane),
                    scroll: 0,
                    input_mode: false,
                },
                ..self
            }
        };
        if s.explorer.fs is Some {
            s.refresh_requested()
        } else {
            s
        }
    }

    /// The state with an agent whose session ended.
    pub open spec fn exited(self, id: Seq<char>) -> AppView {
        let s = if self.knows(id) {
            self.with_agent(
                id,
                AgentView {
                    status: AgentStatus::Stopped,
                    prompt_tx: None,
                    task_handle: None,
                    explorer_fs: None,
                    ..self.agent(id)
                },
            )
        } else {
            self
        };
        if self.viewed() == Some(id) {
            s.explorer_at(
                if self.knows(id) {
                    local_fs(self.agent(id).workspace_folder)
                } else {
                    None
                },
            )
        } else {
            s
        }
    }

    /// The state with a container that came up.
    pub open spec fn container_ready(self, id: Seq<char>, container: ContainerInfoView) -> AppView {
        if !self.knows(id) {
            self
        } else {
            let s = self.with_agent(
                id,
                AgentView { container: Some(container), ..self.agent(id) },
            ).branch_requested(id);
            match self.agent(id).workspace_folder {
                Some(ws) if self.viewed() == Some(id) => s.service_requested(id, container, ws),
                _ => s,
            }
        }
    }

    /// The state with a session that was opened.
    pub open spec fn session_connected(
        self,
        id: Seq<char>,
        session_id: Option<Seq<char>>,
    ) -> AppView {
        if !self.knows(id) {
            self
        } else {
            let s = self.with_agent(
                id,
                AgentView { status: AgentStatus::Idle, session_id, ..self.agent(id) }.with_info(
                    "ACP session connected."@,
                ),
            );
            match self.agent(id).workspace_folder {
                Some(workspace) => s.emit(EffectView::SaveState { workspace, session_id }),
                None => s,
            }
        }
    }

    /// The state with a login that an agent needs.
    pub open spec fn auth_required(self, id: Seq<char>, command: Seq<Seq<char>>) -> AppView {
        let s = if self.knows(id) {
            self.with_agent(
                id,
                AgentView {
                    status: AgentStatus::Stopped,
                    prompt_tx: None,
                    task_handle: None,
                    ..self.agent(id).with_info(
                        "🔑 Authentication required — launching login flow..."@,
                    )
                },
            )
        } else {
            self
        };
        AppView { auth_pending: Some((id, command)), ..s }
    }

    /// The state with a message that an agent began.
    pub open spec fn assistant_began(self, id: Seq<char>, message: StreamedTextView) -> AppView {
        let s = if self.knows(id) {
            self.with_agent(
                id,
                AgentView { status: AgentStatus::Running, ..self.agent(id) }.with_entry(
                    HistoryEntryView::Assistant(message),
                ),
            )
        } else {
            self
        };
        s.emit(EffectView::TrackStream { stream: message.stream })
    }

    /// What a session event does.
    pub open spec fn session_event(self, event: SessionEventView) -> AppView {
        match event {
            SessionEventView::Output { agent_id, line } => self.log(
                agent_id,
                HistoryEntryView::Info(line),
            ),
            SessionEventView::ContainerReady {
                agent_id,
                container_id,
                remote_user,
                remote_workspace_folder,
            } => self.container_ready(
                agent_id,
                ContainerInfoView {
                    container_id,
                    workspace_folder: seq![],
                    remote_workspace_folder,
                    remote_user,
                },
            ),
            SessionEventView::Exited { agent_id } => self.exited(agent_id),
            SessionEventView::Error { agent_id, message } => if self.knows(agent_id) {
                self.with_agent(
                    agent_id,
                    AgentView { status: AgentStatus::Error, ..self.agent(agent_id) }.with_entry(
                        HistoryEntryView::Error("[error] "@ + message),
                    ),
                )
            } else {
                self
            },
            SessionEventView::Connected { agent_id, session_id } => self.session_connected(
                agent_id,
                session_id,
            ),
            SessionEventView::AuthRequired { agent_id, command } => self.auth_required(
                agent_id,
                command,
            ),
            SessionEventView::PermissionRequest { agent_id, tool_name, options, reply } => AppView {
                permission_pending: Some(
                    PendingPermissionView { tool_name, options, reply, selected: 0 },
                ),
                ..self.log(
                    agent_id,
                    HistoryEntryView::Info("🔐 Permission requested: "@ + tool_name),
                )
            },
            SessionEventView::AssistantMessage { agent_id, message } => self.assistant_began(
                agent_id,
                message,
            ),
            SessionEventView::Thought { agent_id, thought } => self.log(
                agent_id,
                HistoryEntryView::Thought(thought),
            ).emit(EffectView::TrackStream { stream: thought.stream }),
            SessionEventView::UserMessage { agent_id, message } => self.log(
                agent_id,
                HistoryEntryView::User(message),
            ).emit(EffectView::TrackStream { stream: message.stream }),
            SessionEventView::ToolCall { agent_id, call } => self.log(
                agent_id,
                HistoryEntryView::Tool(call),
            ).emit(EffectView::TrackStream { stream: call.stream }),
            SessionEventView::AvailableCommands { agent_id, commands } => if self.knows(agent_id) {
                self.with_agent(
                    agent_id,
                    AgentView { available_commands: commands, ..self.agent(agent_id) },
                )
            } else {
                self
            },
            SessionEventView::ExplorerFs { agent_id, container_id, fs } => {
                let s = if self.knows(agent_id) {
                    self.with_agent(
                        agent_id,
                        AgentView { explorer_fs: Some(fs), ..self.agent(agent_id) },
                    )
                } else {
                    self
                };
                s.emit(
                    EffectView::Emit(AppEventView::ExplorerFsReady { agent_id, container_id, fs }),
                )
            },
            SessionEventView::ExplorerFsChanged { agent_id, container_id } => self.emit(
                EffectView::Emit(AppEventView::ExplorerFsChanged { agent_id, container_id }),
            ),
            SessionEventView::SearchResults { agent_id, search_id, matches } => self.emit(
                EffectView::Emit(AppEventView::SearchResults { agent_id, search_id, matches }),
            ),
            SessionEventView::SearchDone { agent_id, search_id, summary } => self.emit(
                EffectView::Emit(AppEventView::SearchDone { agent_id, search_id, summary }),
            ),
            SessionEventView::AgentBranch { agent_id, container_id, branch } => self.emit(
                EffectView::Emit(
                    AppEventView::AgentBranchReady { agent_id, container_id, branch },
                ),
            ),
            SessionEventView::McpTunnelOpen { agent_id, tunnel_id, stream } => match stream {
                Some(stream) => AppView {
                    mcp_tunnels: self.mcp_tunnels.insert(tunnel_id),
                    ..self
                }.emit(EffectView::ServeTunnel { agent_id, tunnel_id, stream }),
                None => self,
            },
            SessionEventView::McpTunnelClose { tunnel_id } => if self.mcp_tunnels.contains(
                tunnel_id,
            ) {
                AppView { mcp_tunnels: self.mcp_tunnels.remove(tunnel_id), ..self }.emit(
                    EffectView::CloseTunnel { tunnel_id },
                )
            } else {
                self
            },
        }
    }
}

impl App {
    /// Ask for a connection to the service inside a container.
    pub(crate) fn request_service_fs_upgrade(
        &mut self,
        agent_id: String,
        info: ContainerInfo,
        workspace: String,
    )
        ensures
            final(self)@ == old(self)@.service_requested(agent_id@, info@, workspace@),
    {
        self.emit(Effect::ConnectService { agent_id, container: info, workspace });
    }

    /// Ask for the branch inside an agent's container.
    pub(crate) fn refresh_agent_branch(&mut self, agent_id: &str)
        ensures
            final(self)@ == old(self)@.branch_requested(agent_id@),
    {
        let k: usize = self.index_of(agent_id);
        if k >= self.agents.len() {
            return;
        }
        let container = match &self.agents[k].container {
            Some(c) => c.clone(),
            None => {
                return;
            },
        };
        let workspace = match &self.agents[k].workspace_folder {
            Some(w) => w.clone(),
            None => {
                return;
            },
        };
        self.emit(Effect::FetchBranch { agent_id: agent_id.to_owned(), container, workspace });
    }

    /// Point the explorer at an agent's workspace.
    fn point_explorer(&mut self, k: usize)
        requires
            k < old(self).agents@.len(),
        ensures
            final(self)@ == old(self)@.explorer_on(old(self).agents@[k as int]@),
    {
        let already_remote = match (&self.explorer.fs, &self.agents[k].workspace_folder) {
            (Some(fs), Some(root)) => fs.is_remote() && same(fs.root.as_str(), root.as_str()),
            _ => false,
        };
        if already_remote {
            return;
        }
        let stored = clone_fs(&self.agents[k].explorer_fs);
        match stored {
            Some(fs) => {
                self.explorer.set_fs(Some(fs));
                self.request_explorer_refresh();
            },
            None => {
                self.point_explorer_at_host(k);
            },
        }
    }

    /// Point the explorer at the host's files of an agent's workspace.
    fn point_explorer_at_host(&mut self, k: usize)
        requires
            k < old(self).agents@.len(),
        ensures
            final(self)@ == old(self)@.explorer_on_host(old(self).agents@[k as int]@),
    {
        let ghost before = self@;
        let ghost agent = self.agents@[k as int]@;
        let agent_id = self.agents[k].id.clone();
        let workspace = clone_text(&self.agents[k].workspace_folder);
        let container = match &self.agents[k].container {
            Some(c) => Some(c.clone()),
            None => None,
        };
        let had_fs = self.explorer.fs.is_some();
        self.explorer.set_fs(local_of(&workspace));
        proof {
            assert(self@ == before.explorer_at(local_fs(agent.workspace_folder)));
        }
        let first = self.explorer.fs.is_some() && (!had_fs || self.explorer.status.is_empty());
        if first {
            self.request_explorer_refresh();
        }
        match (container, workspace) {
            (Some(container), Some(workspace)) => {
                self.request_service_fs_upgrade(agent_id, container, workspace);
            },
            _ => {},
        }
    }

    /// Start the connection of an agent, unless it is connected, connecting or
    /// has no command.
    fn start_agent(&mut self, agent_id: &str)
        requires
            old(self)@.knows(agent_id@),
        ensures
            final(self)@ == old(self)@.agent_started(agent_id@),
    {
        let ghost before = self@;
        let k: usize = self.index_of(agent_id);
        let ghost agent = AppView::without_finished_task(before.agent(agent_id@));
        let finished = match self.agents[k].task_handle {
            Some(task) => task.finished,
            None => false,
        };
        if finished {
            self.agents[k].task_handle = None;
        }
        proof {
            assert(self@ =~= before.with_agent(agent_id@, agent));
            assert(self.agents@[k as int]@ == agent);
            lemma_update_keeps_index(before.agents, k as int, agent, agent_id@);
        }
        if self.agents[k].prompt_tx.is_some() || self.agents[k].task_handle.is_some() {
            return;
        }
        if self.agents[k].acp_command.as_str().is_empty() {
            return;
        }
        let id = self.agents[k].id.clone();
        let log = self.acp_log && match &self.acp_log_filter {
            Some(pattern) => contains(id.as_str(), pattern.as_str()),
            None => true,
        };
        let command = self.agents[k].effective_acp_command();
        let workspace = clone_text(&self.agents[k].workspace_folder);
        let session_id = clone_text(&self.agents[k].session_id);
        let channel: u64 = self.next_channel;
        self.next_channel = channel.wrapping_add(1);
        let line = match &workspace {
            Some(ws) => concat3("Starting container (", ws.as_str(), ")..."),
            None => "Connecting...".to_owned(),
        };
        self.agents[k].prompt_tx = Some(channel);
        self.agents[k].task_handle = Some(TaskHandle { task: channel, finished: false });
        self.agents[k].status = AgentStatus::Running;
        self.agents[k].info(line);
        self.emit(Effect::StartAgent { agent_id: id, command, workspace, session_id, log, channel });
        proof {
            assert(self@ =~= before.agent_started(agent_id@));
        }
    }

    /// Start the ACP connection for an agent if not already connected, and
    /// point the explorer at its workspace.
    pub fn ensure_agent_connected(&mut self, agent_id: String)
        ensures
            final(self)@ == old(self)@.connected(agent_id@),
    {
        let k: usize = self.index_of(agent_id.as_str());
        if k >= self.agents.len() {
            return;
        }
        self.point_explorer(k);
        proof {
            lemma_explorer_on_keeps_agents(old(self)@, old(self)@.agent(agent_id@));
        }
        self.start_agent(agent_id.as_str());
    }

    /// Snap to the bottom of the conversation for the agent that the user is
    /// currently viewing. Routine streaming updates do not call this: the user
    /// can read history without being yanked back to the bottom.
    pub(crate) fn auto_scroll_for(&mut self, id: &str)
        ensures
            final(self)@ == old(self)@.following(id@),
    {
        match &mut self.screen {
            Screen::AgentSession { agent_id, scroll, .. } => {
                if same(agent_id.as_str(), id) {
                    *scroll = usize::MAX;
                }
            },
            _ => {},
        }
    }

    /// Open or replace the side pane when a tool targets a specific agent.
    pub(crate) fn handle_mcp_side_pane(&mut self, agent_id: String, pane: SidePane)
        ensures
            final(self)@ == old(self)@.tool_pane(agent_id@, pane@),
    {
        if self.is_viewed(agent_id.as_str()) {
            self.set_pane(Some(pane));
        } else {
            self.screen = Screen::AgentSession {
                agent_id,
                focus: SessionFocus::Conversation,
                side_pane: Some(pane),
                scroll: 0,
                input_mode: false,
            };
        }
        if self.explorer.fs.is_some() {
            self.request_explorer_refresh();
        }
    }

    /// Show another side pane in the session.
    pub(crate) fn set_pane(&mut self, pane: Option<SidePane>)
        ensures
            final(self)@ == old(self)@.with_pane(crate::types::opt_pane(pane)),
    {
        match &mut self.screen {
            Screen::AgentSession { side_pane, .. } => {
                *side_pane = pane;
            },
            _ => {},
        }
    }

    /// Drain a session event into the state.
    pub(crate) fn handle_session_event(&mut self, event: SessionEvent)
        ensures
            final(self)@ == old(self)@.session_event(event@),
    {
        let ghost before = self@;
        match event {
            SessionEvent::Output { agent_id, line } => {
                self.log(agent_id.as_str(), HistoryEntry::Info(line));
            },
            SessionEvent::ContainerReady {
                agent_id,
                container_id,
                remote_user,
                remote_workspace_folder,
            } => {
                let info = ContainerInfo {
                    container_id,
                    workspace_folder: String::new(),
                    remote_workspace_folder,
                    remote_user,
                };
                proof {
                    assert(info.workspace_folder@ =~= seq![]);
                }
                self.on_container_ready(agent_id, info);
            },
            SessionEvent::Exited { agent_id, .. } => {
                self.on_exited(agent_id.as_str());
            },
            SessionEvent::Error { agent_id, message } => {
                let k: usize = self.index_of(agent_id.as_str());
                if k < self.agents.len() {
                    self.agents[k].error(concat2("[error] ", message.as_str()));
                    self.agents[k].status = AgentStatus::Error;
                    proof {
                        assert(self@ =~= before.session_event(event@));
                    }
                }
            },
            SessionEvent::Connected { agent_id, session_id } => {
                self.on_connected(agent_id.as_str(), session_id);
            },
            SessionEvent::AuthRequired { agent_id, command } => {
                self.on_auth_required(agent_id, command);
            },
            SessionEvent::PermissionRequest { agent_id, tool_name, options, reply } => {
                let line = concat2("🔐 Permission requested: ", tool_name.as_str());
                self.log(agent_id.as_str(), HistoryEntry::Info(line));
                self.permission_pending = Some(
                    PendingPermission { tool_name, options, reply, selected: 0 },
                );
            },
            SessionEvent::AssistantMessage { agent_id, message } => {
                self.on_assistant_message(agent_id.as_str(), message);
            },
            SessionEvent::Thought { agent_id, thought } => {
                let stream: u64 = thought.stream;
                self.log(agent_id.as_str(), HistoryEntry::Thought(thought));
                self.emit(Effect::TrackStream { stream });
            },
            SessionEvent::UserMessage { agent_id, message } => {
                let stream: u64 = message.stream;
                self.log(agent_id.as_str(), HistoryEntry::User(message));
                self.emit(Effect::TrackStream { stream });
            },
            SessionEvent::ToolCall { agent_id, call } => {
                let stream: u64 = call.stream;
                self.log(agent_id.as_str(), HistoryEntry::Tool(call));
                self.emit(Effect::TrackStream { stream });
            },
            SessionEvent::AvailableCommands { agent_id, commands } => {
                let k: usize = self.index_of(agent_id.as_str());
                if k < self.agents.len() {
                    self.agents[k].available_commands = commands;
                    proof {
                        assert(self@ =~= before.session_event(event@));
                    }
                }
            },
            SessionEvent::ExplorerFs { agent_id, container_id, fs } => {
                let k: usize = self.index_of(agent_id.as_str());
                if k < self.agents.len() {
                    self.agents[k].explorer_fs = Some(fs.clone());
                    proof {
                        assert(self@ =~= before.with_agent(
                            agent_id@,
                            AgentView { explorer_fs: Some(fs@), ..before.agent(agent_id@) },
                        ));
                    }
                }
                self.emit(Effect::Emit(AppEvent::ExplorerFsReady { agent_id, container_id, fs }));
            },
            SessionEvent::ExplorerFsChanged { agent_id, container_id } => {
                self.emit(Effect::Emit(AppEvent::ExplorerFsChanged { agent_id, container_id }));
            },
            SessionEvent::SearchResults { agent_id, search_id, matches } => {
                self.emit(Effect::Emit(AppEvent::SearchResults { agent_id, search_id, matches }));
            },
            SessionEvent::SearchDone { agent_id, search_id, summary } => {
                self.emit(Effect::Emit(AppEvent::SearchDone { agent_id, search_id, summary }));
            },
            SessionEvent::AgentBranch { agent_id, container_id, branch } => {
                self.emit(
                    Effect::Emit(AppEvent::AgentBranchReady { agent_id, container_id, branch }),
                );
            },
            SessionEvent::McpTunnelOpen { agent_id, tunnel_id, stream } => {
                self.serve_mcp_tunnel(agent_id, tunnel_id, stream);
            },
            SessionEvent::McpTunnelClose { tunnel_id, .. } => {
                if self.mcp_tunnels.contains(&tunnel_id) {
                    let _was = self.mcp_tunnels.remove(&tunnel_id);
                    self.emit(Effect::CloseTunnel { tunnel_id });
                }
            },
        }
    }

    /// Serve MCP over a freshly-opened tunnel, if its stream is still there.
    fn serve_mcp_tunnel(&mut self, agent_id: String, tunnel_id: u64, stream: Option<u64>)
        ensures
            final(self)@ == old(self)@.session_event(
                SessionEventView::McpTunnelOpen { agent_id: agent_id@, tunnel_id, stream },
            ),
    {
        match stream {
            Some(stream) => {
                let _new = self.mcp_tunnels.insert(tunnel_id);
                self.emit(Effect::ServeTunnel { agent_id, tunnel_id, stream });
            },
            None => {},
        }
    }

    /// Record a container that came up, and ask for what can be read in it.
    fn on_container_ready(&mut self, agent_id: String, info: ContainerInfo)
        ensures
            final(self)@ == old(self)@.container_ready(agent_id@, info@),
    {
        let ghost before = self@;
        let k: usize = self.index_of(agent_id.as_str());
        if k >= self.agents.len() {
            return;
        }
        let workspace = clone_text(&self.agents[k].workspace_folder);
        self.agents[k].container = Some(info.clone());
        proof {
            assert(self@ =~= before.with_agent(
                agent_id@,
                AgentView { container: Some(info@), ..before.agent(agent_id@) },
            ));
        }
        self.refresh_agent_branch(agent_id.as_str());
        if self.is_viewed(agent_id.as_str()) {
            match workspace {
                Some(ws) => self.request_service_fs_upgrade(agent_id, info, ws),
                None => {},
            }
        }
    }

    /// Record that an agent's session ended.
    fn on_exited(&mut self, agent_id: &str)
        ensures
            final(self)@ == old(self)@.exited(agent_id@),
    {
        let ghost before = self@;
        let k: usize = self.index_of(agent_id);
        let mut local: Option<WorkspaceFs> = None;
        if k < self.agents.len() {
            local = local_of(&self.agents[k].workspace_folder);
            self.agents[k].status = AgentStatus::Stopped;
            self.agents[k].prompt_tx = None;
            self.agents[k].task_handle = None;
            self.agents[k].explorer_fs = None;
            proof {
                assert(self@ =~= before.with_agent(
                    agent_id@,
                    AgentView {
                        status: AgentStatus::Stopped,
                        prompt_tx: None,
                        task_handle: None,
                        explorer_fs: None,
                        ..before.agent(agent_id@)
                    },
                ));
            }
        }
        if self.is_viewed(agent_id) {
            self.explorer.set_fs(local);
        }
    }

    /// Record a session that was opened.
    fn on_connected(&mut self, agent_id: &str, session_id: Option<String>)
        ensures
            final(self)@ == old(self)@.session_connected(agent_id@, opt_text(session_id)),
    {
        let ghost before = self@;
        let k: usize = self.index_of(agent_id);
        if k >= self.agents.len() {
            return;
        }
        let workspace = clone_text(&self.agents[k].workspace_folder);
        self.agents[k].status = AgentStatus::Idle;
        self.agents[k].session_id = clone_text(&session_id);
        self.agents[k].info("ACP session connected.".to_owned());
        proof {
            assert(self@ =~= before.with_agent(
                agent_id@,
                AgentView {
                    status: AgentStatus::Idle,
                    session_id: opt_text(session_id),
                    ..before.agent(agent_id@)
                }.with_info("ACP session connected."@),
            ));
        }
        match workspace {
            Some(workspace) => self.emit(Effect::SaveState { workspace, session_id }),
            None => {},
        }
    }

    /// Record a login that an agent needs.
    fn on_auth_required(&mut self, agent_id: String, command: Vec<String>)
        ensures
            final(self)@ == old(self)@.auth_required(agent_id@, crate::text::views(command@)),
    {
        let ghost before = self@;
        let k: usize = self.index_of(agent_id.as_str());
        if k < self.agents.len() {
            self.agents[k].info("🔑 Authentication required — launching login flow...".to_owned());
            self.agents[k].status = AgentStatus::Stopped;
            self.agents[k].prompt_tx = None;
            self.agents[k].task_handle = None;
            proof {
                assert(self@ =~= before.with_agent(
                    agent_id@,
                    AgentView {
                        status: AgentStatus::Stopped,
                        prompt_tx: None,
                        task_handle: None,
                        ..before.agent(agent_id@).with_info(
                            "🔑 Authentication required — launching login flow..."@,
                        )
                    },
                ));
            }
        }
        self.auth_pending = Some((agent_id, command));
    }

    /// Record a message that an agent began.
    fn on_assistant_message(&mut self, agent_id: &str, message: StreamedText)
        ensures
            final(self)@ == old(self)@.assistant_began(agent_id@, message@),
    {
        let ghost before = self@;
        let stream: u64 = message.stream;
        let k: usize = self.index_of(agent_id);
        if k < self.agents.len() {
            self.agents[k].status = AgentStatus::Running;
            self.agents[k].push_entry(HistoryEntry::Assistant(message));
            proof {
                assert(self@ =~= before.with_agent(
                    agent_id@,
                    AgentView {
                        status: AgentStatus::Running,
                        ..before.agent(agent_id@)
                    }.with_entry(HistoryEntryView::Assistant(message@)),
                ));
            }
        }
        self.emit(Effect::TrackStream { stream });
    }
}

/// Pointing the explorer changes no agent.
pub proof fn lemma_explorer_on_keeps_agents(s: AppView, agent: AgentView)
    ensures
        s.explorer_on(agent).agents == s.agents,
        s.explorer_on(agent).screen == s.screen,
        s.explorer_on(agent).acp_log == s.acp_log,
        s.explorer_on(agent).acp_log_filter == s.acp_log_filter,
        s.explorer_on(agent).next_channel == s.next_channel,
{
}

} // verus!
