//! What the commands of the command line do.
use crate::agent::{AgentStatus, AgentView, HistoryEntryView, TaskHandle, WorkspaceFsView};
use crate::app::actions::lemma_agent_index;
use crate::app::commands::{parsed_command, peer_candidates};
use crate::app::laws::lemma_keeps_explorer_on;
use crate::app::AppView;
use crate::effect::EffectView;
use crate::event::{AppEventView, SessionEventView};
use crate::pairing::{linked, ordered_pair, pairs_of, peers_of};
use crate::paths::base_name;
use crate::text::{joined, lowercase, occurs, trimmed};
use crate::types::{ScreenView, SessionFocus, SidePaneView};
use crate::workspace::{agent_id_for, entries_of, WorkspaceEntryView};
use vstd::prelude::*;

verus! {

/// Whether a command line is this verb with this argument: blanks around the
/// line and around the argument do not count.
pub open spec fn says(cmd: Seq<char>, verb: Seq<char>, arg: Seq<char>) -> bool {
    let line = trimmed(cmd);
    let n = verb.len() as int;
    &&& 0 < n <= line.len()
    &&& line.take(n) == verb
    &&& forall|i: int| 0 <= i < n ==> verb[i] != ' '
    &&& line.len() == n && arg.len() == 0 || line.len() > n && line[n] == ' ' && trimmed(
        line.skip(n + 1),
    ) == arg
}

proof fn lemma_said(cmd: Seq<char>, verb: Seq<char>, arg: Seq<char>)
    requires
        says(cmd, verb, arg),
    ensures
        trimmed(cmd).len() > 0,
        parsed_command(trimmed(cmd)) == (verb, arg),
{
    let line = trimmed(cmd);
    let n = verb.len() as int;
    assert forall|i: int| 0 <= i < n implies line[i] != ' ' by {
        assert(line.take(n)[i] == verb[i]);
    }
    crate::text::lemma_position_is(line, ' ', n);
    if line.len() == n {
        assert(line.take(n) =~= line);
        assert(arg =~= Seq::<char>::empty());
    }
}

/// No two verbs are the same word.
proof fn lemma_verbs_differ(verb: Seq<char>)
    ensures
        verb == "open"@ ==> verb.len() == 4 && verb[0] == 'o',
        verb == "o"@ ==> verb.len() == 1 && verb[0] == 'o',
        verb == "close"@ ==> verb.len() == 5 && verb[0] == 'c',
        verb == "rebuild"@ ==> verb.len() == 7 && verb[0] == 'r',
        verb == "commands"@ ==> verb.len() == 8 && verb[0] == 'c',
        verb == "cmds"@ ==> verb.len() == 4 && verb[0] == 'c',
        verb == "connect"@ ==> verb.len() == 7 && verb[0] == 'c',
        verb == "disconnect"@ ==> verb.len() == 10 && verb[0] == 'd',
        verb == "connections"@ ==> verb.len() == 11 && verb[0] == 'c',
        verb == "connected"@ ==> verb.len() == 9 && verb[0] == 'c',
        verb == "q"@ ==> verb.len() == 1 && verb[0] == 'q',
        verb == "quit"@ ==> verb.len() == 4 && verb[0] == 'q',
{
    reveal_strlit("open");
    reveal_strlit("o");
    reveal_strlit("close");
    reveal_strlit("rebuild");
    reveal_strlit("commands");
    reveal_strlit("cmds");
    reveal_strlit("connect");
    reveal_strlit("disconnect");
    reveal_strlit("connections");
    reveal_strlit("connected");
    reveal_strlit("q");
    reveal_strlit("quit");
}

/// A line of blanks does nothing, and a word that is no command is named.
pub proof fn law_an_unknown_command_is_named(
    app: AppView,
    cmd: Seq<char>,
    verb: Seq<char>,
    arg: Seq<char>,
)
    ensures
        trimmed(cmd).len() == 0 ==> app.executed(cmd) == app,
        says(cmd, verb, arg) && verb != "open"@ && verb != "o"@ && verb != "close"@ && verb
            != "rebuild"@ && verb != "commands"@ && verb != "cmds"@ && verb != "connect"@ && verb
            != "disconnect"@ && verb != "connections"@ && verb != "connected"@ && verb != "q"@
            && verb != "quit"@ ==> app.executed(cmd) == (AppView {
            status_message: Some("Unknown command: "@ + verb),
            ..app
        }),
{
    if says(cmd, verb, arg) {
        lemma_said(cmd, verb, arg);
    }
}

/// `:q` and `:quit` quit, from every screen, and do nothing else.
pub proof fn law_q_quits(app: AppView, cmd: Seq<char>, arg: Seq<char>)
    requires
        says(cmd, "q"@, arg) || says(cmd, "quit"@, arg),
    ensures
        app.executed(cmd) == (AppView { should_quit: true, ..app }),
{
    let verb = if says(cmd, "q"@, arg) {
        "q"@
    } else {
        "quit"@
    };
    lemma_said(cmd, verb, arg);
    lemma_verbs_differ(verb);
}

// ─── Opening and closing ───────────────────────────────────────────────

/// The agent that a workspace is opened with: named after the last part of its
/// path, with Copilot as its command, idle and without a session.
pub open spec fn fresh_agent(path: Seq<char>) -> AgentView {
    let label = match base_name(path) {
        Some(name) => name,
        None => "workspace"@,
    };
    AgentView {
        id: "copilot-"@ + label,
        name: "Copilot ("@ + label + ")"@,
        status: AgentStatus::Idle,
        history: seq![],
        acp_command: "copilot --acp --stdio"@,
        workspace_folder: Some(path),
        prompt_tx: None,
        task_handle: None,
        session_id: None,
        last_effective_top: 0,
        available_commands: seq![],
        container: None,
        git_branch: None,
        explorer_fs: None,
        branch_reading: None,
    }
}

/// The screen of a session as it is entered.
pub open spec fn entered_at(id: Seq<char>) -> ScreenView {
    ScreenView::AgentSession {
        agent_id: id,
        focus: SessionFocus::Conversation,
        side_pane: None,
        scroll: 0,
        input_mode: false,
    }
}

/// `:open` of a path without an agent makes its agent, behind those that are
/// there: its layer is made and the list of workspaces is stored with the new one
/// last, its session is entered, and it is started for that path with no session
/// to resume.
pub proof fn law_open_adds_a_workspace(
    app: AppView,
    cmd: Seq<char>,
    path: Seq<char>,
)
    requires
        says(cmd, "open"@, path) || says(cmd, "o"@, path),
        path.len() > 0,
        !app.knows(fresh_agent(path).id),
    ensures
        ({
            let made = fresh_agent(path);
            let after = app.executed(cmd);
            let n = app.effects.len() as int;
            &&& after.screen == entered_at(made.id)
            &&& after.agents.len() == app.agents.len() + 1
            &&& after.agents.take(app.agents.len() as int) == app.agents
            &&& after.agents.last() == AgentView {
                status: AgentStatus::Running,
                prompt_tx: Some(app.next_channel),
                task_handle: Some(TaskHandle { task: app.next_channel, finished: false }),
                history: seq![HistoryEntryView::Info("Starting container ("@ + path + ")..."@)],
                ..made
            }
            &&& after.effects.len() >= n + 3
            &&& after.effects.take(n) == app.effects
            &&& after.effects[n] == (EffectView::GenerateLayer { workspace: path })
            &&& after.effects[n + 1] == (EffectView::SaveWorkspaces {
                entries: entries_of(app.agents).push(
                    WorkspaceEntryView { path, acp_command: "copilot --acp --stdio"@ },
                ),
            })
            &&& after.effects.last() matches EffectView::StartAgent {
                agent_id,
                command,
                workspace,
                session_id,
                channel,
                ..
            } && agent_id == made.id && command == "copilot --acp --stdio"@ && workspace == Some(
                path,
            ) && session_id is None && channel == app.next_channel
            &&& after.explorer.fs matches Some(fs) && fs.root == path
        }),
{
    let verb = if says(cmd, "open"@, path) {
        "open"@
    } else {
        "o"@
    };
    lemma_said(cmd, verb, path);
    lemma_verbs_differ(verb);
    let made = fresh_agent(path);
    let id = made.id;
    assert(crate::app::commands::opened_agent(path) =~= made);
    assert(agent_id_for(path) == id);
    let s = AppView { agents: app.agents.push(made), ..app };
    assert(s.agents.drop_last() =~= app.agents);
    assert(entries_of(s.agents) =~= entries_of(app.agents).push(
        WorkspaceEntryView { path, acp_command: "copilot --acp --stdio"@ },
    ));
    let t = s.emit(EffectView::GenerateLayer { workspace: path }).emit(
        EffectView::SaveWorkspaces { entries: entries_of(s.agents) },
    );
    let u = AppView { screen: entered_at(id), ..t };
    assert(app.executed(cmd) == u.connected(id));
    lemma_agent_index(app.agents, id);
    lemma_agent_index(u.agents, id);
    assert(u.index(id) == app.agents.len()) by {
        let k = u.index(id) as int;
        assert(u.agents[app.agents.len() as int].id == id);
        if k < app.agents.len() {
            assert(app.agents[k].id != id);
            assert(u.agents[k] == app.agents[k]);
        }
    }
    assert(u.agent(id) == made);
    reveal_strlit("copilot --acp --stdio");
    let v = u.explorer_on(made);
    lemma_keeps_explorer_on(u, made);
    assert(v.agents == u.agents);
    assert(v.screen == u.screen);
    assert(v.next_channel == u.next_channel);
    crate::app::laws::sessions::law_an_agent_is_started_as_configured(v, id);
    let after = v.agent_started(id);
    crate::app::laws::moves::law_connecting_shows_the_agents_workspace(u, id);
    let n = app.effects.len() as int;
    assert(u.effects == app.effects.push(EffectView::GenerateLayer { workspace: path }).push(
        EffectView::SaveWorkspaces { entries: entries_of(s.agents) },
    ));
    assert(v.effects.take(u.effects.len() as int) == u.effects);
    assert(v.effects[n] == u.effects[n]) by {
        assert(v.effects.take(u.effects.len() as int)[n] == v.effects[n]);
    }
    assert(v.effects[n + 1] == u.effects[n + 1]) by {
        assert(v.effects.take(u.effects.len() as int)[n + 1] == v.effects[n + 1]);
    }
    assert(after.effects.take(n) =~= app.effects) by {
        assert forall|i: int| 0 <= i < n implies after.effects[i] == app.effects[i] by {
            assert(v.effects.take(u.effects.len() as int)[i] == v.effects[i]);
        }
    }
    assert(after.agents.take(app.agents.len() as int) =~= app.agents);
    assert(made.history.push(HistoryEntryView::Info("Starting container ("@ + path + ")..."@))
        =~= seq![HistoryEntryView::Info("Starting container ("@ + path + ")..."@)]);
}

/// `:open` of a path whose agent is there enters that agent's session and adds
/// nothing; `:open` without a path says how it is used.
pub proof fn law_open_enters_a_known_workspace(app: AppView, cmd: Seq<char>, path: Seq<char>)
    requires
        says(cmd, "open"@, path) || says(cmd, "o"@, path),
    ensures
        path.len() == 0 ==> app.executed(cmd) == (AppView {
            status_message: Some("Usage: :open <path/to/repo>"@),
            ..app
        }),
        path.len() > 0 && app.knows(fresh_agent(path).id) ==> app.executed(cmd) == (AppView {
            screen: entered_at(fresh_agent(path).id),
            ..app
        }).connected(fresh_agent(path).id),
{
    let verb = if says(cmd, "open"@, path) {
        "open"@
    } else {
        "o"@
    };
    lemma_said(cmd, verb, path);
    lemma_verbs_differ(verb);
}

/// `:close` takes the viewed agent out of the fleet, keeps all others in their
/// order, stores the list that is left and shows the list of agents. Without a
/// session it says why it does nothing.
pub proof fn law_close_removes_the_viewed_workspace(
    app: AppView,
    cmd: Seq<char>,
    arg: Seq<char>,
)
    requires
        says(cmd, "close"@, arg),
    ensures
        ({
            let after = app.executed(cmd);
            match app.viewed() {
                None => after == AppView {
                    status_message: Some("No workspace open — use :close from a session"@),
                    ..app
                },
                Some(id) => {
                    &&& after.agents == app.agents.filter(|a: AgentView| a.id != id)
                    &&& after.screen == (ScreenView::AgentList { selected: 0 })
                    &&& after.effects == app.effects.push(
                        EffectView::SaveWorkspaces { entries: entries_of(after.agents) },
                    )
                    &&& (app.explorer.fs matches Some(fs) && fs.remote is Some)
                        ==> after.explorer.fs is None
                    &&& !(app.explorer.fs matches Some(fs) && fs.remote is Some) ==> after.explorer
                        == app.explorer
                    &&& after == AppView {
                        agents: after.agents,
                        explorer: after.explorer,
                        screen: after.screen,
                        effects: after.effects,
                        ..app
                    }
                },
            }
        }),
{
    lemma_said(cmd, "close"@, arg);
    lemma_verbs_differ("close"@);
}

// ─── Rebuilding ────────────────────────────────────────────────────────

/// What a rebuild asks for, in order: the agent's own task is aborted if there is
/// one, its layer is made anew, its container is removed, and the lists of
/// workspaces and the forgotten session are stored.
pub open spec fn rebuild_of(app: AppView, id: Seq<char>, workspace: Seq<char>) -> Seq<EffectView> {
    let stopped = match app.agent(id).task_handle {
        Some(task) => seq![EffectView::AbortTask { task: task.task }],
        None => seq![],
    };
    stopped + seq![
        EffectView::GenerateLayer { workspace },
        EffectView::RemoveContainer { agent_id: id, workspace },
        EffectView::SaveWorkspaces { entries: entries_of(app.agents) },
        EffectView::SaveState { workspace, session_id: None },
    ]
}

/// `:rebuild` stops the viewed agent and forgets all that belongs to its old
/// container, its session among it, while its history, its command and its
/// workspace are kept. The explorer goes back to the host's files of that
/// workspace. Without a session or a workspace it says why it does nothing.
pub proof fn law_rebuild_starts_over_with_a_new_container(
    app: AppView,
    cmd: Seq<char>,
    arg: Seq<char>,
)
    requires
        says(cmd, "rebuild"@, arg),
        app.viewed() is Some ==> app.knows(app.viewed()->0),
    ensures
        ({
            let after = app.executed(cmd);
            match app.viewed() {
                None => after == AppView {
                    status_message: Some("No workspace open — use :rebuild from a session"@),
                    ..app
                },
                Some(id) => match app.agent(id).workspace_folder {
                    None => after == AppView {
                        status_message: Some(
                            "Agent has no workspace — :rebuild needs a container agent"@,
                        ),
                        ..app
                    },
                    Some(workspace) => {
                        &&& after.agents == app.agents.update(
                            app.index(id) as int,
                            AgentView {
                                status: AgentStatus::Stopped,
                                task_handle: None,
                                prompt_tx: None,
                                session_id: None,
                                container: None,
                                explorer_fs: None,
                                git_branch: None,
                                history: app.agent(id).history.push(
                                    HistoryEntryView::Info("🔄 Rebuilding container..."@),
                                ),
                                ..app.agent(id)
                            },
                        )
                        &&& after.effects == app.effects + rebuild_of(app, id, workspace)
                        &&& (app.explorer.fs matches Some(fs) && fs.remote is Some)
                            ==> after.explorer.fs == Some(
                            WorkspaceFsView { root: workspace, remote: None },
                        )
                        &&& !(app.explorer.fs matches Some(fs) && fs.remote is Some)
                            ==> after.explorer == app.explorer
                        &&& after == AppView {
                            agents: after.agents,
                            explorer: after.explorer,
                            effects: after.effects,
                            ..app
                        }
                    },
                },
            }
        }),
{
    lemma_said(cmd, "rebuild"@, arg);
    lemma_verbs_differ("rebuild"@);
    let after = app.executed(cmd);
    match app.viewed() {
        Some(id) => match app.agent(id).workspace_folder {
            Some(workspace) => {
                lemma_agent_index(app.agents, id);
                let k = app.index(id) as int;
                let stopped = crate::app::commands::rebuilding(app.agent(id));
                lemma_entries_updated(app.agents, k, stopped);
                assert(after.effects =~= app.effects + rebuild_of(app, id, workspace));
            },
            None => {},
        },
        None => {},
    }
}

/// The stored list depends only on the agents' workspaces and commands.
proof fn lemma_entries_updated(agents: Seq<AgentView>, k: int, agent: AgentView)
    requires
        0 <= k < agents.len(),
        agent.workspace_folder == agents[k].workspace_folder,
        agent.acp_command == agents[k].acp_command,
    ensures
        entries_of(agents.update(k, agent)) == entries_of(agents),
    decreases agents.len(),
{
    let t = agents.update(k, agent);
    if k == agents.len() - 1 {
        assert(t.drop_last() =~= agents.drop_last());
    } else {
        assert(t.drop_last() =~= agents.drop_last().update(k, agent));
        lemma_entries_updated(agents.drop_last(), k, agent);
    }
}

/// Once a container was removed its agent is told so and reconnected, whether or
/// not the removal worked; a failure is told first, with its reason.
pub proof fn law_a_removed_container_is_reconnected(id: Seq<char>, error: Seq<char>)
    ensures
        ({
            let gone = AppEventView::Session(
                SessionEventView::Output {
                    agent_id: id,
                    line: "Container removed. Reconnecting..."@,
                },
            );
            let again = AppEventView::ReconnectAgent { agent_id: id };
            let warning = AppEventView::Session(
                SessionEventView::Output {
                    agent_id: id,
                    line: "[warn] Failed to remove container: "@ + error,
                },
            );
            &&& crate::app::commands::removal_report(id, None) == seq![gone, again]
            &&& crate::app::commands::removal_report(id, Some(error)) == seq![
                warning,
                gone,
                again,
            ]
        }),
{
    let gone = AppEventView::Session(
        SessionEventView::Output { agent_id: id, line: "Container removed. Reconnecting..."@ },
    );
    let again = AppEventView::ReconnectAgent { agent_id: id };
    let warning = AppEventView::Session(
        SessionEventView::Output {
            agent_id: id,
            line: "[warn] Failed to remove container: "@ + error,
        },
    );
    assert(crate::app::commands::removal_report(id, None) =~= seq![gone, again]);
    assert(crate::app::commands::removal_report(id, Some(error)) =~= seq![warning, gone, again]);
}

// ─── Slash commands ────────────────────────────────────────────────────

/// `:commands` shows the slash commands that the viewed agent advertised, all of
/// them and in order, from the top; where there is nothing to show it says so.
pub proof fn law_commands_shows_what_the_agent_advertised(
    app: AppView,
    cmd: Seq<char>,
    arg: Seq<char>,
)
    requires
        says(cmd, "commands"@, arg) || says(cmd, "cmds"@, arg),
        app.viewed() is Some ==> app.knows(app.viewed()->0),
    ensures
        ({
            let after = app.executed(cmd);
            match app.viewed() {
                None => after == AppView {
                    status_message: Some("No workspace open — :commands needs an agent session"@),
                    ..app
                },
                Some(id) => if app.agent(id).available_commands.len() == 0 {
                    after == AppView {
                        status_message: Some("Agent has not advertised any slash commands yet"@),
                        ..app
                    }
                } else {
                    &&& after.pane() == Some(
                        SidePaneView::Commands {
                            commands: app.agent(id).available_commands,
                            scroll: 0,
                        },
                    )
                    &&& after.viewed() == app.viewed()
                    &&& after == AppView { screen: after.screen, ..app }
                },
            }
        }),
{
    let verb = if says(cmd, "commands"@, arg) {
        "commands"@
    } else {
        "cmds"@
    };
    lemma_said(cmd, verb, arg);
    lemma_verbs_differ(verb);
}

// ─── Pairings ──────────────────────────────────────────────────────────

/// Whether an agent is another one that `query` may mean: it occurs in the
/// agent's id or name, whatever the case.
pub open spec fn may_mean(agent: AgentView, current: Seq<char>, query: Seq<char>) -> bool {
    agent.id != current && (occurs(lowercase(query), lowercase(agent.id)) || occurs(
        lowercase(query),
        lowercase(agent.name),
    ))
}

/// `:connect` with a query that means exactly one other agent connects the viewed
/// agent with it, stores the pairings and says so; where the two are connected it
/// says that and stores nothing.
pub proof fn law_connect_pairs_the_viewed_agent_with_the_one_meant(
    app: AppView,
    cmd: Seq<char>,
    query: Seq<char>,
    current: Seq<char>,
    k: int,
)
    requires
        says(cmd, "connect"@, query),
        query.len() > 0,
        app.viewed() == Some(current),
        0 <= k < app.agents.len(),
        may_mean(app.agents[k], current, query),
        forall|i: int|
            0 <= i < app.agents.len() && i != k ==> !may_mean(
                #[trigger] app.agents[i],
                current,
                query,
            ),
    ensures
        ({
            let target = app.agents[k].id;
            let after = app.executed(cmd);
            if linked(app.pairings, current, target) {
                after == AppView {
                    status_message: Some("Already connected to "@ + target),
                    ..app
                }
            } else {
                &&& linked(after.pairings, current, target)
                &&& after.pairings == app.pairings.insert(ordered_pair(current, target))
                &&& after == AppView {
                    pairings: after.pairings,
                    status_message: Some("Connected "@ + current + " ↔ "@ + target),
                    effects: app.effects.push(
                        EffectView::SavePairings { pairs: pairs_of(after.pairings) },
                    ),
                    ..app
                }
            }
        }),
{
    lemma_said(cmd, "connect"@, query);
    lemma_verbs_differ("connect"@);
    lemma_one_candidate(app.agents, current, query, k);
}

proof fn lemma_one_candidate(agents: Seq<AgentView>, current: Seq<char>, query: Seq<char>, k: int)
    requires
        0 <= k < agents.len(),
        may_mean(agents[k], current, query),
        forall|i: int|
            0 <= i < agents.len() && i != k ==> !may_mean(#[trigger] agents[i], current, query),
    ensures
        crate::app::commands::candidates(agents, current, query) == seq![agents[k].id],
{
    let keep = |a: AgentView| a.id != current && crate::app::commands::mentions(a, query);
    lemma_filter_one(agents, keep, k);
    let id_of = |a: AgentView| a.id;
    assert(crate::app::commands::candidates(agents, current, query) == agents.filter(
        keep,
    ).map_values(id_of));
    assert(seq![agents[k]].map_values(id_of) =~= seq![agents[k].id]);
}

proof fn lemma_filter_one<T>(s: Seq<T>, keep: spec_fn(T) -> bool, k: int)
    requires
        0 <= k < s.len(),
        keep(s[k]),
        forall|i: int| 0 <= i < s.len() && i != k ==> !keep(#[trigger] s[i]),
    ensures
        s.filter(keep) == seq![s[k]],
    decreases s.len(),
{
    reveal(Seq::filter);
    let t = s.drop_last();
    if k == s.len() - 1 {
        lemma_filter_none(t, keep);
        assert(s.filter(keep) =~= seq![s[k]]);
    } else {
        assert(!keep(s.last()));
        lemma_filter_one(t, keep, k);
    }
}

proof fn lemma_filter_none<T>(s: Seq<T>, keep: spec_fn(T) -> bool)
    requires
        forall|i: int| 0 <= i < s.len() ==> !keep(#[trigger] s[i]),
    ensures
        s.filter(keep) == Seq::<T>::empty(),
    decreases s.len(),
{
    reveal(Seq::filter);
    if s.len() > 0 {
        assert(!keep(s.last()));
        lemma_filter_none(s.drop_last(), keep);
    }
}

/// `:connect` that means no other agent, or that is used without a session or a
/// query, says why it does nothing.
pub proof fn law_connect_says_why_it_does_nothing(
    app: AppView,
    cmd: Seq<char>,
    query: Seq<char>,
)
    requires
        says(cmd, "connect"@, query),
    ensures
        ({
            let after = app.executed(cmd);
            &&& app.viewed() is None ==> after == AppView {
                status_message: Some(":connect needs an open agent session"@),
                ..app
            }
            &&& app.viewed() is Some && query.len() == 0 ==> after == AppView {
                status_message: Some("Usage: :connect <agent>"@),
                ..app
            }
            &&& app.viewed() is Some && query.len() > 0 && (forall|i: int|
                0 <= i < app.agents.len() ==> !may_mean(
                    #[trigger] app.agents[i],
                    app.viewed()->0,
                    query,
                )) ==> after == AppView {
                status_message: Some("No other agent matches '"@ + query + "'"@),
                ..app
            }
        }),
{
    lemma_said(cmd, "connect"@, query);
    lemma_verbs_differ("connect"@);
    if app.viewed() is Some && query.len() > 0 && (forall|i: int|
        0 <= i < app.agents.len() ==> !may_mean(#[trigger] app.agents[i], app.viewed()->0, query)) {
        let current = app.viewed()->0;
        let keep = |a: AgentView| a.id != current && crate::app::commands::mentions(a, query);
        lemma_filter_none(app.agents, keep);
        assert(crate::app::commands::candidates(app.agents, current, query) == app.agents.filter(
            keep,
        ).map_values(|a: AgentView| a.id));
    }
}

/// `:connect` with a query that may mean several agents connects none of them and
/// names them all, by their ids and in order.
pub proof fn law_connect_names_what_may_be_meant(
    app: AppView,
    cmd: Seq<char>,
    query: Seq<char>,
    current: Seq<char>,
)
    requires
        says(cmd, "connect"@, query),
        query.len() > 0,
        app.viewed() == Some(current),
        app.agents.filter(|a: AgentView| may_mean(a, current, query)).len() > 1,
    ensures
        app.executed(cmd) == (AppView {
            status_message: Some(
                "Ambiguous — matches: "@ + joined(
                    app.agents.filter(
                        |a: AgentView| may_mean(a, current, query),
                    ).map_values(|a: AgentView| a.id),
                    ", "@,
                ),
            ),
            ..app
        }),
{
    lemma_said(cmd, "connect"@, query);
    lemma_verbs_differ("connect"@);
    let keep = |a: AgentView| a.id != current && crate::app::commands::mentions(a, query);
    let means = |a: AgentView| may_mean(a, current, query);
    assert(keep =~= means);
}

/// `:disconnect` with a query that may mean several peers parts none of them and
/// names them all, in order.
pub proof fn law_disconnect_names_what_may_be_meant(
    app: AppView,
    cmd: Seq<char>,
    query: Seq<char>,
    current: Seq<char>,
)
    requires
        says(cmd, "disconnect"@, query),
        query.len() > 0,
        app.viewed() == Some(current),
        peers_of(app.pairings, current).filter(
            |p: Seq<char>| occurs(lowercase(query), lowercase(p)),
        ).len() > 1,
    ensures
        app.executed(cmd) == (AppView {
            status_message: Some(
                "Ambiguous — matches: "@ + joined(
                    peers_of(app.pairings, current).filter(
                        |p: Seq<char>| occurs(lowercase(query), lowercase(p)),
                    ),
                    ", "@,
                ),
            ),
            ..app
        }),
{
    lemma_said(cmd, "disconnect"@, query);
    lemma_verbs_differ("disconnect"@);
}

/// `:disconnect` with a query that occurs in exactly one of the viewed agent's
/// peers, whatever the case, takes that pairing away, stores the pairings that
/// are left and says so.
pub proof fn law_disconnect_parts_the_viewed_agent_from_the_peer_meant(
    app: AppView,
    cmd: Seq<char>,
    query: Seq<char>,
    current: Seq<char>,
    k: int,
)
    requires
        says(cmd, "disconnect"@, query),
        query.len() > 0,
        app.viewed() == Some(current),
        0 <= k < peers_of(app.pairings, current).len(),
        occurs(lowercase(query), lowercase(peers_of(app.pairings, current)[k])),
        forall|i: int|
            0 <= i < peers_of(app.pairings, current).len() && i != k ==> !occurs(
                lowercase(query),
                lowercase(#[trigger] peers_of(app.pairings, current)[i]),
            ),
    ensures
        ({
            let peer = peers_of(app.pairings, current)[k];
            let after = app.executed(cmd);
            &&& !linked(after.pairings, current, peer)
            &&& after.pairings == app.pairings.remove(ordered_pair(current, peer))
            &&& after == AppView {
                pairings: after.pairings,
                status_message: Some("Disconnected "@ + current + " ↔ "@ + peer),
                effects: app.effects.push(
                    EffectView::SavePairings { pairs: pairs_of(after.pairings) },
                ),
                ..app
            }
        }),
{
    lemma_said(cmd, "disconnect"@, query);
    lemma_verbs_differ("disconnect"@);
    let peers = peers_of(app.pairings, current);
    let keep = |p: Seq<char>| occurs(lowercase(query), lowercase(p));
    lemma_filter_one(peers, keep, k);
    assert(peer_candidates(peers, query) == peers.filter(keep));
}

/// `:disconnect` without a session, a query or a peer that is meant says why it
/// does nothing.
pub proof fn law_disconnect_says_why_it_does_nothing(
    app: AppView,
    cmd: Seq<char>,
    query: Seq<char>,
)
    requires
        says(cmd, "disconnect"@, query),
    ensures
        ({
            let after = app.executed(cmd);
            &&& app.viewed() is None ==> after == AppView {
                status_message: Some(":disconnect needs an open agent session"@),
                ..app
            }
            &&& app.viewed() is Some && query.len() == 0 ==> after == AppView {
                status_message: Some("Usage: :disconnect <agent>"@),
                ..app
            }
            &&& app.viewed() is Some && query.len() > 0 && (forall|i: int|
                0 <= i < peers_of(app.pairings, app.viewed()->0).len() ==> !occurs(
                    lowercase(query),
                    lowercase(#[trigger] peers_of(app.pairings, app.viewed()->0)[i]),
                )) ==> after == AppView {
                status_message: Some("No connected agent matches '"@ + query + "'"@),
                ..app
            }
        }),
{
    lemma_said(cmd, "disconnect"@, query);
    lemma_verbs_differ("disconnect"@);
    if app.viewed() is Some && query.len() > 0 && (forall|i: int|
        0 <= i < peers_of(app.pairings, app.viewed()->0).len() ==> !occurs(
            lowercase(query),
            lowercase(#[trigger] peers_of(app.pairings, app.viewed()->0)[i]),
        )) {
        let peers = peers_of(app.pairings, app.viewed()->0);
        let keep = |p: Seq<char>| occurs(lowercase(query), lowercase(p));
        lemma_filter_none(peers, keep);
        assert(peer_candidates(peers, query) == peers.filter(keep));
    }
}

/// `:connections` names the peers of the viewed agent, in their order and with
/// commas between them, and changes nothing.
pub proof fn law_connections_names_the_peers(app: AppView, cmd: Seq<char>, arg: Seq<char>)
    requires
        says(cmd, "connections"@, arg) || says(cmd, "connected"@, arg),
    ensures
        app.executed(cmd) == (AppView {
            status_message: Some(
                match app.viewed() {
                    None => ":connections needs an open agent session"@,
                    Some(current) => if peers_of(app.pairings, current).len() == 0 {
                        "No connected workspaces (use :connect <agent>)"@
                    } else {
                        "Connected: "@ + joined(peers_of(app.pairings, current), ", "@)
                    },
                },
            ),
            ..app
        }),
{
    let verb = if says(cmd, "connections"@, arg) {
        "connections"@
    } else {
        "connected"@
    };
    lemma_said(cmd, verb, arg);
    lemma_verbs_differ(verb);
}

} // verus!
