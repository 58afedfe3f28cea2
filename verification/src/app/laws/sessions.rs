//! What the events of a session mean for its agent.
use crate::agent::{
    AgentStatus, AgentView, AvailableCommandView, ContainerInfoView, HistoryEntryView,
    StreamedTextView, TaskHandle, ToolCallView, WorkspaceFsView,
};
use crate::app::actions::{lemma_agent_index, lemma_update_keeps_index};
use crate::app::laws::asking::{
    asks, changes_agent, lemma_asks_none, lemma_asks_one, lemma_handled, only_asks, same_tree,
};
use crate::app::{started, AppView};
use crate::config::Config;
use crate::effect::EffectView;
use crate::event::{AppEventView, SessionEventView};
use crate::keybind::{KeyCode, KeyEvent};
use crate::pairing::PairView;
use crate::protocol::{SearchMatchView, SearchSummary};
use crate::text::has_prefix;
use crate::types::ScreenView;
use crate::workspace::{agent_of, WorkspaceEntryView};
use vstd::prelude::*;

verus! {

/// An agent is known exactly if one of the fleet has its id, and it is then the
/// first that does.
pub proof fn law_an_agent_is_found_by_its_id(app: AppView, id: Seq<char>, i: int)
    requires
        0 <= i < app.agents.len(),
    ensures
        app.agents[i].id == id ==> app.knows(id) && app.index(id) <= i,
        app.knows(id) ==> app.agent(id).id == id && app.agent(id) == app.agents[app.index(
            id,
        ) as int],
        app.knows(id) && i < app.index(id) ==> app.agents[i].id != id,
{
    lemma_agent_index(app.agents, id);
}

/// The agent that is viewed is the one whose session is on the screen, with that
/// session's pane; in the list none is viewed and there is no pane.
pub proof fn law_the_viewed_agent_is_on_the_screen(app: AppView)
    ensures
        match app.screen {
            ScreenView::AgentList { .. } => app.viewed() is None && app.pane() is None
                && !app.composing(),
            ScreenView::AgentSession { agent_id, side_pane, input_mode, .. } => app.viewed()
                == Some(agent_id) && app.pane() == side_pane && app.composing() == input_mode,
        },
{
}

// ─── Opening and resuming a session ────────────────────────────────────

/// A session that was opened is remembered: its agent is idle and holds the
/// session, and what is stored for the agent's workspace is exactly that
/// session. Nothing is stored for an agent without a workspace.
pub proof fn law_an_opened_session_is_stored(
    app: AppView,
    id: Seq<char>,
    session: Option<Seq<char>>,
)
    requires
        app.knows(id),
    ensures
        ({
            let event = SessionEventView::Connected { agent_id: id, session_id: session };
            let after = app.handled(AppEventView::Session(event));
            let agent = AgentView {
                status: AgentStatus::Idle,
                session_id: session,
                history: app.agent(id).history.push(
                    HistoryEntryView::Info("ACP session connected."@),
                ),
                ..app.agent(id)
            };
            match app.agent(id).workspace_folder {
                Some(workspace) => {
                    let stored = EffectView::SaveState { workspace, session_id: session };
                    &&& app.session_event(event).effects == app.effects.push(stored)
                    &&& changes_agent(app, after, id, agent, seq![stored])
                },
                None => changes_agent(app, after, id, agent, seq![]),
            }
        }),
{
    let event = SessionEventView::Connected { agent_id: id, session_id: session };
    let e = AppEventView::Session(event);
    let s = app.reacted(e);
    match app.agent(id).workspace_folder {
        Some(workspace) => {
            let stored = EffectView::SaveState { workspace, session_id: session };
            lemma_asks_one(app, s, stored);
            lemma_handled(app, e, seq![stored]);
        },
        None => {
            lemma_asks_none(app, s);
            lemma_handled(app, e, seq![]);
        },
    }
}

/// A session outlives the program: an agent that is made from what was stored
/// when a session was opened is started, on the next run, with the command and
/// the workspace of its entry and asked for that session.
pub proof fn law_a_stored_session_is_resumed_on_the_next_run(
    app: AppView,
    id: Seq<char>,
    workspace: Seq<char>,
    command: Seq<char>,
    session: Option<Seq<char>>,
    config: Config,
    pairings: Set<PairView>,
)
    requires
        app.knows(id),
        app.agent(id).workspace_folder == Some(workspace),
        command.len() > 0,
    ensures
        ({
            let opened = app.session_event(
                SessionEventView::Connected { agent_id: id, session_id: session },
            );
            let made = agent_of(
                WorkspaceEntryView { path: workspace, acp_command: command },
                opened.effects.last()->SaveState_session_id,
            );
            let next = started(config, seq![made], pairings, false, None);
            let after = next.reacted(AppEventView::ReconnectAgent { agent_id: made.id });
            &&& opened.effects.last() matches EffectView::SaveState { workspace: w, .. } && w
                == workspace
            &&& after.effects == seq![
                EffectView::StartAgent {
                    agent_id: made.id,
                    command,
                    workspace: Some(workspace),
                    session_id: session,
                    log: false,
                    channel: 0,
                },
            ]
        }),
{
    let opened = app.session_event(
        SessionEventView::Connected { agent_id: id, session_id: session },
    );
    let made = agent_of(
        WorkspaceEntryView { path: workspace, acp_command: command },
        opened.effects.last()->SaveState_session_id,
    );
    let next = started(config, seq![made], pairings, false, None);
    lemma_agent_index(next.agents, made.id);
    assert(next.agents[0].id == made.id);
    assert(next.index(made.id) == 0);
    assert(next.agent(made.id) == made);
    let s = next.explorer_on(made);
    assert(s.effects == next.effects);
    assert(s.agents == next.agents);
    assert(s.agents.update(0, made) =~= s.agents);
    let after = next.reacted(AppEventView::ReconnectAgent { agent_id: made.id });
    assert(after.effects =~= seq![
        EffectView::StartAgent {
            agent_id: made.id,
            command,
            workspace: Some(workspace),
            session_id: session,
            log: false,
            channel: 0,
        },
    ]);
}

// ─── Permission requests ───────────────────────────────────────────────

/// A permission request is put to the user as it came: with its tool, its
/// options in their order and its reply, and the first option highlighted.
/// Nothing is answered yet.
pub proof fn law_a_permission_request_is_put_to_the_user(
    app: AppView,
    id: Seq<char>,
    tool_name: Seq<char>,
    options: Seq<(Seq<char>, Seq<char>, Seq<char>)>,
    reply: u64,
)
    ensures
        ({
            let after = app.handled(
                AppEventView::Session(
                    SessionEventView::PermissionRequest { agent_id: id, tool_name, options, reply },
                ),
            );
            &&& after.permission_pending matches Some(pending) && pending.tool_name == tool_name
                && pending.options == options && pending.reply == reply && pending.selected == 0
            &&& after == AppView {
                permission_pending: after.permission_pending,
                agents: after.agents,
                explorer: after.explorer,
                effects: after.effects,
                ..app
            }
            &&& same_tree(app.explorer, after.explorer)
            &&& asks(app, after, seq![])
            &&& !app.knows(id) ==> after.agents == app.agents
            &&& app.knows(id) ==> after.agents == app.agents.update(
                app.index(id) as int,
                AgentView {
                    history: app.agent(id).history.push(
                        HistoryEntryView::Info("🔐 Permission requested: "@ + tool_name),
                    ),
                    ..app.agent(id)
                },
            )
        }),
{
    let e = AppEventView::Session(
        SessionEventView::PermissionRequest { agent_id: id, tool_name, options, reply },
    );
    lemma_asks_none(app, app.reacted(e));
    lemma_handled(app, e, seq![]);
}

/// Pressing `y` at a permission request allows: the reply that the request
/// waits for gets the id of the first option offered whose kind begins with
/// `allow`, and the request is closed.
pub proof fn law_yes_chooses_the_first_option_that_allows(
    app: AppView,
    id: Seq<char>,
    tool_name: Seq<char>,
    options: Seq<(Seq<char>, Seq<char>, Seq<char>)>,
    reply: u64,
    key: KeyEvent,
    first: int,
)
    requires
        key.code == KeyCode::Char('y'),
        0 <= first < options.len(),
        has_prefix(options[first].2, "allow"@),
        forall|i: int| 0 <= i < first ==> !has_prefix((#[trigger] options[i]).2, "allow"@),
    ensures
        ({
            let asked = app.handled(
                AppEventView::Session(
                    SessionEventView::PermissionRequest { agent_id: id, tool_name, options, reply },
                ),
            );
            let answered = asked.handled(AppEventView::Input(key));
            &&& answered.permission_pending is None
            &&& asks(
                asked,
                answered,
                seq![EffectView::ReplyPermission { reply, option_id: Some(options[first].0) }],
            )
        }),
{
    let asked = app.handled(
        AppEventView::Session(
            SessionEventView::PermissionRequest { agent_id: id, tool_name, options, reply },
        ),
    );
    law_a_permission_request_is_put_to_the_user(app, id, tool_name, options, reply);
    lemma_first_allowing(options, first);
    let e = EffectView::ReplyPermission { reply, option_id: Some(options[first].0) };
    let k = AppEventView::Input(key);
    lemma_asks_one(asked, asked.reacted(k), e);
    lemma_handled(asked, k, seq![e]);
}

/// The first option that allows is the one found.
pub(crate) proof fn lemma_first_allowing(
    options: Seq<(Seq<char>, Seq<char>, Seq<char>)>,
    first: int,
)
    requires
        0 <= first < options.len(),
        has_prefix(options[first].2, "allow"@),
        forall|i: int| 0 <= i < first ==> !has_prefix((#[trigger] options[i]).2, "allow"@),
    ensures
        crate::app::input::allow_index(options) == first,
    decreases options.len(),
{
    if first > 0 {
        let rest = options.drop_first();
        assert(!has_prefix(options[0].2, "allow"@));
        assert forall|i: int| 0 <= i < first - 1 implies !has_prefix(
            (#[trigger] rest[i]).2,
            "allow"@,
        ) by {
            assert(rest[i] == options[i + 1]);
        }
        lemma_first_allowing(rest, first - 1);
    }
}

// ─── What an agent says ────────────────────────────────────────────────

/// A line of output, an error, a thought, a replayed user message, a tool call
/// and a message each become the last entry of their agent's history, as they
/// came. An error stops nothing but shows in the agent's status, and a message
/// shows that the agent is at work. Whatever streams is followed.
pub proof fn law_what_an_agent_says_is_its_last_entry(
    app: AppView,
    id: Seq<char>,
    text: Seq<char>,
    message: StreamedTextView,
    call: ToolCallView,
)
    requires
        app.knows(id),
    ensures
        changes_agent(
            app,
            app.handled(
                AppEventView::Session(SessionEventView::Output { agent_id: id, line: text }),
            ),
            id,
            AgentView {
                history: app.agent(id).history.push(HistoryEntryView::Info(text)),
                ..app.agent(id)
            },
            seq![],
        ),
        changes_agent(
            app,
            app.handled(
                AppEventView::Session(SessionEventView::Error { agent_id: id, message: text }),
            ),
            id,
            AgentView {
                status: AgentStatus::Error,
                history: app.agent(id).history.push(HistoryEntryView::Error("[error] "@ + text)),
                ..app.agent(id)
            },
            seq![],
        ),
        changes_agent(
            app,
            app.handled(
                AppEventView::Session(SessionEventView::AssistantMessage { agent_id: id, message }),
            ),
            id,
            AgentView {
                status: AgentStatus::Running,
                history: app.agent(id).history.push(HistoryEntryView::Assistant(message)),
                ..app.agent(id)
            },
            seq![EffectView::TrackStream { stream: message.stream }],
        ),
        changes_agent(
            app,
            app.handled(
                AppEventView::Session(SessionEventView::Thought { agent_id: id, thought: message }),
            ),
            id,
            AgentView {
                history: app.agent(id).history.push(HistoryEntryView::Thought(message)),
                ..app.agent(id)
            },
            seq![EffectView::TrackStream { stream: message.stream }],
        ),
        changes_agent(
            app,
            app.handled(
                AppEventView::Session(SessionEventView::UserMessage { agent_id: id, message }),
            ),
            id,
            AgentView {
                history: app.agent(id).history.push(HistoryEntryView::User(message)),
                ..app.agent(id)
            },
            seq![EffectView::TrackStream { stream: message.stream }],
        ),
        changes_agent(
            app,
            app.handled(AppEventView::Session(SessionEventView::ToolCall { agent_id: id, call })),
            id,
            AgentView {
                history: app.agent(id).history.push(HistoryEntryView::Tool(call)),
                ..app.agent(id)
            },
            seq![EffectView::TrackStream { stream: call.stream }],
        ),
{
    let output = AppEventView::Session(SessionEventView::Output { agent_id: id, line: text });
    lemma_asks_none(app, app.reacted(output));
    lemma_handled(app, output, seq![]);
    let error = AppEventView::Session(SessionEventView::Error { agent_id: id, message: text });
    lemma_asks_none(app, app.reacted(error));
    lemma_handled(app, error, seq![]);
    let track = EffectView::TrackStream { stream: message.stream };
    let began = AppEventView::Session(SessionEventView::AssistantMessage { agent_id: id, message });
    lemma_asks_one(app, app.reacted(began), track);
    lemma_handled(app, began, seq![track]);
    let thought = AppEventView::Session(
        SessionEventView::Thought { agent_id: id, thought: message },
    );
    lemma_asks_one(app, app.reacted(thought), track);
    lemma_handled(app, thought, seq![track]);
    let user = AppEventView::Session(SessionEventView::UserMessage { agent_id: id, message });
    lemma_asks_one(app, app.reacted(user), track);
    lemma_handled(app, user, seq![track]);
    let tool = AppEventView::Session(SessionEventView::ToolCall { agent_id: id, call });
    let track_call = EffectView::TrackStream { stream: call.stream };
    lemma_asks_one(app, app.reacted(tool), track_call);
    lemma_handled(app, tool, seq![track_call]);
}

/// The slash commands of an agent are those that it advertised last, in order.
pub proof fn law_advertised_commands_are_the_agents(
    app: AppView,
    id: Seq<char>,
    commands: Seq<AvailableCommandView>,
)
    requires
        app.knows(id),
    ensures
        changes_agent(
            app,
            app.handled(
                AppEventView::Session(
                    SessionEventView::AvailableCommands { agent_id: id, commands },
                ),
            ),
            id,
            AgentView { available_commands: commands, ..app.agent(id) },
            seq![],
        ),
{
    let e = AppEventView::Session(SessionEventView::AvailableCommands { agent_id: id, commands });
    lemma_asks_none(app, app.reacted(e));
    lemma_handled(app, e, seq![]);
}

// ─── Containers ────────────────────────────────────────────────────────

/// A container that came up is its agent's, with its id, its user and its
/// folder each in its place. Its branch is read, and while its agent is on
/// screen the service inside it is connected, both for the agent's workspace.
pub proof fn law_a_container_that_came_up_is_its_agents(
    app: AppView,
    id: Seq<char>,
    container_id: Seq<char>,
    remote_user: Seq<char>,
    remote_workspace_folder: Seq<char>,
)
    requires
        app.knows(id),
    ensures
        ({
            let after = app.handled(
                AppEventView::Session(
                    SessionEventView::ContainerReady {
                        agent_id: id,
                        container_id,
                        remote_user,
                        remote_workspace_folder,
                    },
                ),
            );
            let container = ContainerInfoView {
                container_id,
                workspace_folder: seq![],
                remote_workspace_folder,
                remote_user,
            };
            let agent = AgentView { container: Some(container), ..app.agent(id) };
            match app.agent(id).workspace_folder {
                None => changes_agent(app, after, id, agent, seq![]),
                Some(workspace) => {
                    let branch = EffectView::FetchBranch { agent_id: id, container, workspace };
                    let service = EffectView::ConnectService { agent_id: id, container, workspace };
                    if app.viewed() == Some(id) {
                        changes_agent(app, after, id, agent, seq![branch, service])
                    } else {
                        changes_agent(app, after, id, agent, seq![branch])
                    }
                },
            }
        }),
{
    let e = AppEventView::Session(
        SessionEventView::ContainerReady {
            agent_id: id,
            container_id,
            remote_user,
            remote_workspace_folder,
        },
    );
    let container = ContainerInfoView {
        container_id,
        workspace_folder: seq![],
        remote_workspace_folder,
        remote_user,
    };
    let agent = AgentView { container: Some(container), ..app.agent(id) };
    let k = app.index(id) as int;
    lemma_agent_index(app.agents, id);
    lemma_update_keeps_index(app.agents, k, agent, id);
    let s = app.reacted(e);
    match app.agent(id).workspace_folder {
        None => {
            lemma_asks_none(app, s);
            lemma_handled(app, e, seq![]);
        },
        Some(workspace) => {
            let branch = EffectView::FetchBranch { agent_id: id, container, workspace };
            let service = EffectView::ConnectService { agent_id: id, container, workspace };
            if app.viewed() == Some(id) {
                assert(s.effects =~= app.effects + seq![branch, service]);
                assert(s.effects.take((app.effects.len() + 2) as int) =~= s.effects);
                lemma_handled(app, e, seq![branch, service]);
            } else {
                lemma_asks_one(app, s, branch);
                lemma_handled(app, e, seq![branch]);
            }
        },
    }
}

/// Files inside a container become their agent's, and are announced with the
/// container that they belong to.
pub proof fn law_files_inside_a_container_are_announced(
    app: AppView,
    id: Seq<char>,
    container_id: Seq<char>,
    fs: WorkspaceFsView,
)
    ensures
        ({
            let after = app.handled(
                AppEventView::Session(SessionEventView::ExplorerFs { agent_id: id, container_id, fs }),
            );
            let announced = seq![
                EffectView::Emit(
                    AppEventView::ExplorerFsReady { agent_id: id, container_id, fs },
                ),
            ];
            if app.knows(id) {
                changes_agent(
                    app,
                    after,
                    id,
                    AgentView { explorer_fs: Some(fs), ..app.agent(id) },
                    announced,
                )
            } else {
                only_asks(app, after, announced)
            }
        }),
{
    let e = AppEventView::Session(SessionEventView::ExplorerFs { agent_id: id, container_id, fs });
    let announced = EffectView::Emit(
        AppEventView::ExplorerFsReady { agent_id: id, container_id, fs },
    );
    lemma_asks_one(app, app.reacted(e), announced);
    lemma_handled(app, e, seq![announced]);
}

/// What a background worker reports of an agent is passed on unchanged: which
/// files changed, the hits and the end of a search, and the branch.
pub proof fn law_reports_are_passed_on_unchanged(
    app: AppView,
    id: Seq<char>,
    container_id: Seq<char>,
    search_id: u64,
    matches: Seq<SearchMatchView>,
    summary: SearchSummary,
    branch: Option<Seq<char>>,
)
    ensures
        only_asks(
            app,
            app.handled(
                AppEventView::Session(
                    SessionEventView::ExplorerFsChanged { agent_id: id, container_id },
                ),
            ),
            seq![
                EffectView::Emit(AppEventView::ExplorerFsChanged { agent_id: id, container_id }),
            ],
        ),
        only_asks(
            app,
            app.handled(
                AppEventView::Session(
                    SessionEventView::SearchResults { agent_id: id, search_id, matches },
                ),
            ),
            seq![
                EffectView::Emit(
                    AppEventView::SearchResults { agent_id: id, search_id, matches },
                ),
            ],
        ),
        only_asks(
            app,
            app.handled(
                AppEventView::Session(
                    SessionEventView::SearchDone { agent_id: id, search_id, summary },
                ),
            ),
            seq![
                EffectView::Emit(AppEventView::SearchDone { agent_id: id, search_id, summary }),
            ],
        ),
        only_asks(
            app,
            app.handled(
                AppEventView::Session(
                    SessionEventView::AgentBranch { agent_id: id, container_id, branch },
                ),
            ),
            seq![
                EffectView::Emit(
                    AppEventView::AgentBranchReady { agent_id: id, container_id, branch },
                ),
            ],
        ),
{
    let changed = SessionEventView::ExplorerFsChanged { agent_id: id, container_id };
    lemma_passed_on(
        app,
        changed,
        AppEventView::ExplorerFsChanged { agent_id: id, container_id },
    );
    let hits = SessionEventView::SearchResults { agent_id: id, search_id, matches };
    lemma_passed_on(
        app,
        hits,
        AppEventView::SearchResults { agent_id: id, search_id, matches },
    );
    let done = SessionEventView::SearchDone { agent_id: id, search_id, summary };
    lemma_passed_on(app, done, AppEventView::SearchDone { agent_id: id, search_id, summary });
    let read = SessionEventView::AgentBranch { agent_id: id, container_id, branch };
    lemma_passed_on(
        app,
        read,
        AppEventView::AgentBranchReady { agent_id: id, container_id, branch },
    );
}

proof fn lemma_passed_on(app: AppView, event: SessionEventView, passed: AppEventView)
    requires
        app.session_event(event) == app.emit(EffectView::Emit(passed)),
    ensures
        only_asks(
            app,
            app.handled(AppEventView::Session(event)),
            seq![EffectView::Emit(passed)],
        ),
{
    let e = AppEventView::Session(event);
    lemma_asks_one(app, app.reacted(e), EffectView::Emit(passed));
    lemma_handled(app, e, seq![EffectView::Emit(passed)]);
}

/// A tunnel is served from when it opens until it closes: opening one with a
/// stream serves that stream for that agent and remembers the tunnel, closing
/// one that is open stops it and forgets it, and any other tunnel is untouched.
pub proof fn law_a_tunnel_is_served_while_it_is_open(
    app: AppView,
    id: Seq<char>,
    tunnel_id: u64,
    stream: u64,
)
    ensures
        ({
            let opened = app.handled(
                AppEventView::Session(
                    SessionEventView::McpTunnelOpen { agent_id: id, tunnel_id, stream: Some(stream) },
                ),
            );
            let closed = opened.handled(
                AppEventView::Session(SessionEventView::McpTunnelClose { tunnel_id }),
            );
            &&& only_asks(
                AppView { mcp_tunnels: opened.mcp_tunnels, ..app },
                opened,
                seq![EffectView::ServeTunnel { agent_id: id, tunnel_id, stream }],
            )
            &&& forall|t: u64| #[trigger]
                opened.mcp_tunnels.contains(t) <==> t == tunnel_id || app.mcp_tunnels.contains(t)
            &&& only_asks(
                AppView { mcp_tunnels: closed.mcp_tunnels, ..opened },
                closed,
                seq![EffectView::CloseTunnel { tunnel_id }],
            )
            &&& forall|t: u64| #[trigger]
                closed.mcp_tunnels.contains(t) <==> t != tunnel_id && app.mcp_tunnels.contains(t)
        }),
        only_asks(
            app,
            app.handled(
                AppEventView::Session(
                    SessionEventView::McpTunnelOpen { agent_id: id, tunnel_id, stream: None },
                ),
            ),
            seq![],
        ),
        !app.mcp_tunnels.contains(tunnel_id) ==> only_asks(
            app,
            app.handled(AppEventView::Session(SessionEventView::McpTunnelClose { tunnel_id })),
            seq![],
        ),
{
    let open = AppEventView::Session(
        SessionEventView::McpTunnelOpen { agent_id: id, tunnel_id, stream: Some(stream) },
    );
    let close = AppEventView::Session(SessionEventView::McpTunnelClose { tunnel_id });
    let none = AppEventView::Session(
        SessionEventView::McpTunnelOpen { agent_id: id, tunnel_id, stream: None },
    );
    let opened = app.handled(open);
    let serve = EffectView::ServeTunnel { agent_id: id, tunnel_id, stream };
    lemma_asks_one(app, app.reacted(open), serve);
    lemma_handled(app, open, seq![serve]);
    assert(opened.mcp_tunnels.contains(tunnel_id));
    let stop = EffectView::CloseTunnel { tunnel_id };
    lemma_asks_one(opened, opened.reacted(close), stop);
    lemma_handled(opened, close, seq![stop]);
    lemma_asks_none(app, app.reacted(none));
    lemma_handled(app, none, seq![]);
    if !app.mcp_tunnels.contains(tunnel_id) {
        lemma_asks_none(app, app.reacted(close));
        lemma_handled(app, close, seq![]);
    }
}

// ─── The end of a session ──────────────────────────────────────────────

/// A session that ended leaves its agent stopped, with no channel, no task and
/// no files inside a container, and with all else as it was: its history, its
/// session to resume and its workspace. Behind the viewed agent the explorer
/// goes back to the host's files.
pub proof fn law_an_ended_session_leaves_its_agent_stopped(app: AppView, id: Seq<char>)
    requires
        app.knows(id),
    ensures
        ({
            let after = app.handled(
                AppEventView::Session(SessionEventView::Exited { agent_id: id }),
            );
            let agent = AgentView {
                status: AgentStatus::Stopped,
                prompt_tx: None,
                task_handle: None,
                explorer_fs: None,
                ..app.agent(id)
            };
            &&& after.agents == app.agents.update(app.index(id) as int, agent)
            &&& asks(app, after, seq![])
            &&& after == AppView {
                agents: after.agents,
                explorer: after.explorer,
                effects: after.effects,
                ..app
            }
            &&& app.viewed() != Some(id) ==> same_tree(app.explorer, after.explorer)
            &&& app.viewed() == Some(id) ==> after.explorer.fs == match app.agent(
                id,
            ).workspace_folder {
                Some(root) => Some(WorkspaceFsView { root, remote: None }),
                None => None,
            }
        }),
{
    let e = AppEventView::Session(SessionEventView::Exited { agent_id: id });
    lemma_asks_none(app, app.reacted(e));
    lemma_handled(app, e, seq![]);
}

/// An agent that needs a login is stopped, and exactly its login command is
/// what is to be run for it. Its session is kept.
pub proof fn law_a_login_is_asked_for_the_agent_that_needs_it(
    app: AppView,
    id: Seq<char>,
    command: Seq<Seq<char>>,
)
    ensures
        ({
            let after = app.handled(
                AppEventView::Session(SessionEventView::AuthRequired { agent_id: id, command }),
            );
            let asked = AppView { auth_pending: Some((id, command)), ..app };
            if app.knows(id) {
                changes_agent(
                    asked,
                    after,
                    id,
                    AgentView {
                        status: AgentStatus::Stopped,
                        prompt_tx: None,
                        task_handle: None,
                        history: app.agent(id).history.push(
                            HistoryEntryView::Info(
                                "🔑 Authentication required — launching login flow..."@,
                            ),
                        ),
                        ..app.agent(id)
                    },
                    seq![],
                )
            } else {
                only_asks(asked, after, seq![])
            }
        }),
{
    let e = AppEventView::Session(SessionEventView::AuthRequired { agent_id: id, command });
    lemma_asks_none(app, app.reacted(e));
    lemma_handled(app, e, seq![]);
}

/// What is reported of an agent that is not in the fleet changes no agent.
pub proof fn law_an_unknown_agent_changes_no_other(app: AppView, event: SessionEventView)
    requires
        match event {
            SessionEventView::Output { agent_id, .. } => !app.knows(agent_id),
            SessionEventView::ContainerReady { agent_id, .. } => !app.knows(agent_id),
            SessionEventView::Exited { agent_id } => !app.knows(agent_id),
            SessionEventView::Error { agent_id, .. } => !app.knows(agent_id),
            SessionEventView::Connected { agent_id, .. } => !app.knows(agent_id),
            SessionEventView::AuthRequired { agent_id, .. } => !app.knows(agent_id),
            SessionEventView::PermissionRequest { agent_id, .. } => !app.knows(agent_id),
            SessionEventView::AssistantMessage { agent_id, .. } => !app.knows(agent_id),
            SessionEventView::Thought { agent_id, .. } => !app.knows(agent_id),
            SessionEventView::UserMessage { agent_id, .. } => !app.knows(agent_id),
            SessionEventView::ToolCall { agent_id, .. } => !app.knows(agent_id),
            SessionEventView::AvailableCommands { agent_id, .. } => !app.knows(agent_id),
            SessionEventView::ExplorerFs { agent_id, .. } => !app.knows(agent_id),
            _ => true,
        },
    ensures
        app.handled(AppEventView::Session(event)).agents == app.agents,
        app.handled(AppEventView::Session(event)).screen == app.screen,
        event is Connected || event is ContainerReady || event is Exited || event is Error
            || event is Output || event is AvailableCommands ==> app.session_event(event).effects
            == app.effects,
{
    crate::app::laws::asking::law_syncing_only_fills_the_tree(
        app.reacted(AppEventView::Session(event)),
    );
}

// ─── Tasks and branches ────────────────────────────────────────────────

/// A task that returned is marked only where it is its agent's own: a report of
/// another task changes nothing.
pub proof fn law_only_an_agents_own_task_ends(app: AppView, id: Seq<char>, task: u64)
    requires
        app.knows(id),
    ensures
        ({
            let after = app.handled(AppEventView::TaskFinished { agent_id: id, task });
            match app.agent(id).task_handle {
                Some(handle) if handle.task == task => changes_agent(
                    app,
                    after,
                    id,
                    AgentView {
                        task_handle: Some(TaskHandle { task, finished: true }),
                        ..app.agent(id)
                    },
                    seq![],
                ),
                _ => only_asks(app, after, seq![]),
            }
        }),
{
    let e = AppEventView::TaskFinished { agent_id: id, task };
    lemma_asks_none(app, app.reacted(e));
    lemma_handled(app, e, seq![]);
}

/// A branch that was read is shown for its agent as long as the agent still runs
/// in the container that it was read in, and is dropped otherwise.
pub proof fn law_a_branch_belongs_to_its_container(
    app: AppView,
    id: Seq<char>,
    container_id: Seq<char>,
    branch: Option<Seq<char>>,
)
    requires
        app.knows(id),
    ensures
        ({
            let after = app.handled(
                AppEventView::AgentBranchReady { agent_id: id, container_id, branch },
            );
            match app.agent(id).container {
                Some(c) if c.container_id == container_id => changes_agent(
                    app,
                    after,
                    id,
                    AgentView { git_branch: branch, ..app.agent(id) },
                    seq![],
                ),
                _ => only_asks(app, after, seq![]),
            }
        }),
{
    let e = AppEventView::AgentBranchReady { agent_id: id, container_id, branch };
    lemma_asks_none(app, app.reacted(e));
    lemma_handled(app, e, seq![]);
}

// ─── Starting an agent ─────────────────────────────────────────────────

/// An agent that is neither connected nor connecting is started as it is
/// configured: with its own command, workspace and session, and on a channel of
/// its own, over which it is then prompted. It runs, and its history says what
/// is being waited for.
pub proof fn law_an_agent_is_started_as_configured(app: AppView, id: Seq<char>)
    requires
        app.knows(id),
        app.agent(id).prompt_tx is None,
        app.agent(id).task_handle is None,
        app.agent(id).acp_command.len() > 0,
    ensures
        ({
            let agent = app.agent(id);
            let channel = app.next_channel;
            let after = app.agent_started(id);
            &&& after.effects == app.effects.push(
                EffectView::StartAgent {
                    agent_id: id,
                    command: agent.acp_command,
                    workspace: agent.workspace_folder,
                    session_id: agent.session_id,
                    log: app.acp_log && match app.acp_log_filter {
                        Some(pattern) => crate::text::occurs(pattern, id),
                        None => true,
                    },
                    channel,
                },
            )
            &&& channel < u64::MAX ==> after.next_channel == channel + 1
            &&& after.agents == app.agents.update(
                app.index(id) as int,
                AgentView {
                    prompt_tx: Some(channel),
                    task_handle: Some(TaskHandle { task: channel, finished: false }),
                    status: AgentStatus::Running,
                    history: agent.history.push(
                        HistoryEntryView::Info(
                            match agent.workspace_folder {
                                Some(workspace) => "Starting container ("@ + workspace + ")..."@,
                                None => "Connecting..."@,
                            },
                        ),
                    ),
                    ..agent
                },
            )
            &&& after == AppView {
                agents: after.agents,
                next_channel: after.next_channel,
                effects: after.effects,
                ..app
            }
        }),
{
    lemma_agent_index(app.agents, id);
    let k = app.index(id) as int;
    assert(app.agents.update(k, app.agent(id)) =~= app.agents);
}

/// Reconnecting an agent starts it, and starts it once: an agent that is
/// connected or whose task still runs is not started again, and one without a
/// command never is.
pub proof fn law_a_connected_agent_is_not_started_again(app: AppView, id: Seq<char>)
    requires
        app.knows(id),
        app.agent(id).prompt_tx is Some || app.agent(id).acp_command.len() == 0 || (
        app.agent(id).task_handle matches Some(task) && !task.finished),
    ensures
        app.agent_started(id).effects == app.effects,
        app.agent_started(id).next_channel == app.next_channel,
        app.agent(id).task_handle is None || !(app.agent(id).task_handle->0).finished
            ==> app.agent_started(id) == app,
{
    lemma_agent_index(app.agents, id);
    let k = app.index(id) as int;
    assert(app.agents.update(k, app.agent(id)) =~= app.agents);
}

/// A task that has returned does not keep its agent from being started.
pub proof fn law_a_returned_task_does_not_block_a_restart(app: AppView, id: Seq<char>)
    requires
        app.knows(id),
        app.agent(id).prompt_tx is None,
        app.agent(id).task_handle matches Some(task) && task.finished,
        app.agent(id).acp_command.len() > 0,
    ensures
        app.agent_started(id).effects.len() == app.effects.len() + 1,
        app.agent_started(id).effects.last() matches EffectView::StartAgent { agent_id, .. }
            && agent_id == id,
{
    lemma_agent_index(app.agents, id);
    let k = app.index(id) as int;
    let idle = AgentView { task_handle: None, ..app.agent(id) };
    lemma_update_keeps_index(app.agents, k, idle, id);
}

} // verus!
