//! `:` command execution and workspace lifecycle for [`App`]: opening and
//! closing a workspace agent, rebuilding its container, and connecting it with
//! others.
use crate::agent::{
    clone_commands, opt_text, Agent, AgentStatus, AgentView, WorkspaceFs, WorkspaceFsView,
};
use crate::app::actions::{enter_session, entered};
use crate::app::{App, AppView};
use crate::effect::{Effect, EffectView};
use crate::event::{AppEvent, AppEventView, SessionEvent, SessionEventView};
use crate::order::all_views;
use crate::pairing::{linked, lists_pairs, ordered_pair, pairs_of, peers_of};
use crate::text::{
    chars_of, concat2, concat3, contains, join, joined, lowercase, occurs, position_in, same,
    split_once, text_of, to_lower, trim, trimmed, views,
};
use crate::types::{Screen, ScreenView, SidePane, SidePaneView};
use crate::workspace::{
    agent_for, agent_id_for, agent_of, dir_name, entries_of, from_agents, WorkspaceEntryView,
};
use vstd::prelude::*;
use vstd::string::*;

verus! {

/// A command line as its verb and its argument.
pub open spec fn parsed_command(line: Seq<char>) -> (Seq<char>, Seq<char>) {
    match split_once(line, ' ') {
        Some((verb, rest)) => (verb, trimmed(rest)),
        None => (line, seq![]),
    }
}

/// Whether an agent's id or name holds `query`, whatever the case.
pub open spec fn mentions(agent: AgentView, query: Seq<char>) -> bool {
    occurs(lowercase(query), lowercase(agent.id)) || occurs(
        lowercase(query),
        lowercase(agent.name),
    )
}

/// The ids of the other agents that `query` may mean, in order.
pub open spec fn candidates(agents: Seq<AgentView>, current: Seq<char>, query: Seq<char>) -> Seq<
    Seq<char>,
> {
    agents.filter(|a: AgentView| a.id != current && mentions(a, query)).map_values(
        |a: AgentView| a.id,
    )
}

/// What is said when `query` may mean several agents.
pub open spec fn ambiguous(ids: Seq<Seq<char>>) -> Seq<char> {
    "Ambiguous — matches: "@ + joined(ids, ", "@)
}

/// The one other agent that `query` means, or what is said when there is none
/// or more than one.
pub open spec fn peer_meant(
    agents: Seq<AgentView>,
    current: Seq<char>,
    query: Seq<char>,
) -> Result<Seq<char>, Seq<char>> {
    let ids = candidates(agents, current, query);
    if ids.len() == 1 {
        Ok(ids[0])
    } else if ids.len() == 0 {
        Err("No other agent matches '"@ + query + "'"@)
    } else {
        Err(ambiguous(ids))
    }
}

/// The peers that `query` may mean.
pub open spec fn peer_candidates(peers: Seq<Seq<char>>, query: Seq<char>) -> Seq<Seq<char>> {
    peers.filter(|p: Seq<char>| occurs(lowercase(query), lowercase(p)))
}

/// The agent of a workspace that was just opened.
pub open spec fn opened_agent(path: Seq<char>) -> AgentView {
    agent_of(WorkspaceEntryView { path, acp_command: "copilot --acp --stdio"@ }, None)
}

/// An agent whose container is being rebuilt.
pub open spec fn rebuilding(agent: AgentView) -> AgentView {
    AgentView {
        task_handle: None,
        prompt_tx: None,
        status: AgentStatus::Stopped,
        session_id: None,
        container: None,
        explorer_fs: None,
        git_branch: None,
        ..agent
    }.with_info("🔄 Rebuilding container..."@)
}

impl AppView {
    /// The state in which an agent's session was entered.
    pub open spec fn session_entered(self, id: Seq<char>) -> AppView {
        AppView { screen: entered(id), ..self }.connected(id)
    }

    /// The state after a workspace was opened: its agent's session is entered,
    /// and the agent is made and stored first if there is none yet.
    pub open spec fn workspace_opened(self, path: Seq<char>) -> AppView {
        let id = agent_id_for(path);
        if self.knows(id) {
            self.session_entered(id)
        } else {
            let s = AppView { agents: self.agents.push(opened_agent(path)), ..self };
            s.emit(EffectView::GenerateLayer { workspace: path }).emit(
                EffectView::SaveWorkspaces { entries: entries_of(s.agents) },
            ).session_entered(id)
        }
    }

    /// The state with the slash commands of the viewed agent in the side pane.
    pub open spec fn commands_opened(self) -> AppView {
        match self.viewed() {
            None => self.say("No workspace open — :commands needs an agent session"@),
            Some(id) => if !self.knows(id) {
                self
            } else if self.agent(id).available_commands.len() == 0 {
                self.say("Agent has not advertised any slash commands yet"@)
            } else {
                self.with_pane(
                    Some(
                        SidePaneView::Commands {
                            commands: self.agent(id).available_commands,
                            scroll: 0,
                        },
                    ),
                )
            },
        }
    }

    /// The state after the viewed agent was connected with another.
    pub open spec fn peer_connected(self, query: Seq<char>) -> AppView {
        match self.viewed() {
            None => self.say(":connect needs an open agent session"@),
            Some(current) => if query.len() == 0 {
                self.say("Usage: :connect <agent>"@)
            } else {
                match peer_meant(self.agents, current, query) {
                    Err(message) => self.say(message),
                    Ok(target) => if current != target && !linked(self.pairings, current, target) {
                        let pairings = self.pairings.insert(ordered_pair(current, target));
                        AppView { pairings, ..self }.emit(
                            EffectView::SavePairings { pairs: pairs_of(pairings) },
                        ).say("Connected "@ + current + " ↔ "@ + target)
                    } else {
                        self.say("Already connected to "@ + target)
                    },
                }
            },
        }
    }

    /// The state after the viewed agent was disconnected from another.
    pub open spec fn peer_disconnected(self, query: Seq<char>) -> AppView {
        match self.viewed() {
            None => self.say(":disconnect needs an open agent session"@),
            Some(current) => if query.len() == 0 {
                self.say("Usage: :disconnect <agent>"@)
            } else {
                let found = peer_candidates(peers_of(self.pairings, current), query);
                if found.len() == 0 {
                    self.say("No connected agent matches '"@ + query + "'"@)
                } else if found.len() > 1 {
                    self.say(ambiguous(found))
                } else {
                    let pairings = self.pairings.remove(ordered_pair(current, found[0]));
                    AppView { pairings, ..self }.emit(
                        EffectView::SavePairings { pairs: pairs_of(pairings) },
                    ).say("Disconnected "@ + current + " ↔ "@ + found[0])
                }
            },
        }
    }

    /// The state in which the peers of the viewed agent are named.
    pub open spec fn connections_shown(self) -> AppView {
        match self.viewed() {
            None => self.say(":connections needs an open agent session"@),
            Some(current) => {
                let peers = peers_of(self.pairings, current);
                if peers.len() == 0 {
                    self.say("No connected workspaces (use :connect <agent>)"@)
                } else {
                    self.say("Connected: "@ + joined(peers, ", "@))
                }
            },
        }
    }

    /// The state after the viewed agent was removed.
    pub open spec fn workspace_closed(self) -> AppView {
        match self.viewed() {
            None => self.say("No workspace open — use :close from a session"@),
            Some(id) => {
                let agents = self.agents.filter(|a: AgentView| a.id != id);
                let explorer = match self.explorer.fs {
                    Some(fs) if fs.remote is Some => self.explorer.pointed_at(None),
                    _ => self.explorer,
                };
                AppView {
                    agents,
                    explorer,
                    screen: ScreenView::AgentList { selected: 0 },
                    ..self
                }.emit(EffectView::SaveWorkspaces { entries: entries_of(agents) })
            },
        }
    }

    /// The state after the container of the viewed agent began to be rebuilt:
    /// nothing of the old container is kept, and its session is forgotten for
    /// good.
    pub open spec fn container_rebuilt(self) -> AppView {
        match self.viewed() {
            None => self.say("No workspace open — use :rebuild from a session"@),
            Some(id) => if !self.knows(id) {
                self
            } else {
                match self.agent(id).workspace_folder {
                    None => self.say("Agent has no workspace — :rebuild needs a container agent"@),
                    Some(workspace) => {
                        let s = match self.agent(id).task_handle {
                            Some(task) => self.emit(EffectView::AbortTask { task: task.task }),
                            None => self,
                        };
                        let t = s.with_agent(id, rebuilding(self.agent(id)));
                        let u = match self.explorer.fs {
                            Some(fs) if fs.remote is Some => AppView {
                                explorer: t.explorer.pointed_at(
                                    Some(WorkspaceFsView { root: workspace, remote: None }),
                                ),
                                ..t
                            },
                            _ => t,
                        };
                        u.emit(EffectView::GenerateLayer { workspace }).emit(
                            EffectView::RemoveContainer { agent_id: id, workspace },
                        ).emit(EffectView::SaveWorkspaces { entries: entries_of(u.agents) }).emit(
                            EffectView::SaveState { workspace, session_id: None },
                        )
                    },
                }
            },
        }
    }

    /// What a `:` command does.
    pub open spec fn executed(self, cmd: Seq<char>) -> AppView {
        let line = trimmed(cmd);
        let (verb, rest) = parsed_command(line);
        if line.len() == 0 {
            self
        } else if verb == "open"@ || verb == "o"@ {
            if rest.len() == 0 {
                self.say("Usage: :open <path/to/repo>"@)
            } else {
                self.workspace_opened(rest)
            }
        } else if verb == "close"@ {
            self.workspace_closed()
        } else if verb == "rebuild"@ {
            self.container_rebuilt()
        } else if verb == "commands"@ || verb == "cmds"@ {
            self.commands_opened()
        } else if verb == "connect"@ {
            self.peer_connected(rest)
        } else if verb == "disconnect"@ {
            self.peer_disconnected(rest)
        } else if verb == "connections"@ || verb == "connected"@ {
            self.connections_shown()
        } else if verb == "q"@ || verb == "quit"@ {
            AppView { should_quit: true, ..self }
        } else {
            self.say("Unknown command: "@ + verb)
        }
    }
}

/// A command line as its verb and its argument.
fn parse_command(line: &str) -> (r: (String, String))
    ensures
        (r.0@, r.1@) == parsed_command(line@),
{
    let v = chars_of(line);
    let k: usize = position_in(v.as_slice(), ' ');
    if k < v.len() {
        let verb = text_of(v.as_slice(), 0, k);
        let rest = text_of(v.as_slice(), k + 1, v.len());
        proof {
            assert(verb@ =~= line@.take(k as int));
            assert(rest@ =~= line@.skip(k + 1));
        }
        (verb, trim(rest.as_str()))
    } else {
        (line.to_owned(), String::new())
    }
}

impl App {
    /// Parse and execute a `:` command.
    pub(crate) fn execute_command(&mut self, cmd: &str)
        ensures
            final(self)@ == old(self)@.executed(cmd@),
    {
        let line = trim(cmd);
        if line.as_str().is_empty() {
            return;
        }
        let (verb, rest) = parse_command(line.as_str());
        let v = verb.as_str();
        if same(v, "open") || same(v, "o") {
            if rest.as_str().is_empty() {
                self.say("Usage: :open <path/to/repo>".to_owned());
            } else {
                self.open_workspace(rest.as_str());
            }
        } else if same(v, "close") {
            self.close_current_workspace();
        } else if same(v, "rebuild") {
            self.rebuild_current_container();
        } else if same(v, "commands") || same(v, "cmds") {
            self.open_commands_view();
        } else if same(v, "connect") {
            self.connect_workspace(rest.as_str());
        } else if same(v, "disconnect") {
            self.disconnect_workspace(rest.as_str());
        } else if same(v, "connections") || same(v, "connected") {
            self.show_connections();
        } else if same(v, "q") || same(v, "quit") {
            self.should_quit = true;
        } else {
            self.say(concat2("Unknown command: ", v));
        }
    }

    /// Create a new Copilot agent for the given workspace path, unless there is
    /// one, and navigate to it.
    pub fn open_workspace(&mut self, path: &str)
        ensures
            final(self)@ == old(self)@.workspace_opened(path@),
    {
        let label = dir_name(path);
        let id = concat2("copilot-", label.as_str());
        let k: usize = self.index_of(id.as_str());
        if k < self.agents.len() {
            self.screen = enter_session(id.clone());
            self.ensure_agent_connected(id);
            return;
        }
        let ghost before = self@;
        let agent = agent_for(path, "copilot --acp --stdio", None);
        self.agents.push(agent);
        let ghost with_new = AppView { agents: before.agents.push(opened_agent(path@)), ..before };
        proof {
            assert(self@ =~= with_new);
        }
        self.emit(Effect::GenerateLayer { workspace: path.to_owned() });
        let entries = from_agents(&self.agents);
        self.emit(Effect::SaveWorkspaces { entries });
        self.screen = enter_session(id.clone());
        self.ensure_agent_connected(id);
    }

    /// Open the slash-commands browser in the right side pane.
    pub(crate) fn open_commands_view(&mut self)
        ensures
            final(self)@ == old(self)@.commands_opened(),
    {
        let id = match self.viewed_agent_id() {
            Some(id) => id,
            None => {
                self.say("No workspace open — :commands needs an agent session".to_owned());
                return;
            },
        };
        let k: usize = self.index_of(id.as_str());
        if k >= self.agents.len() {
            return;
        }
        if self.agents[k].available_commands.len() == 0 {
            self.say("Agent has not advertised any slash commands yet".to_owned());
            return;
        }
        let commands = clone_commands(&self.agents[k].available_commands);
        self.set_pane(Some(SidePane::Commands { commands, scroll: 0 }));
    }

    /// The one other agent that `query` means, by id or name (case-insensitive
    /// substring), or what to say when there is none or more than one.
    fn resolve_peer(&self, current: &str, query: &str) -> (r: Result<String, String>)
        ensures
            match peer_meant(self@.agents, current@, query@) {
                Ok(id) => r is Ok && r->Ok_0@ == id,
                Err(message) => r is Err && r->Err_0@ == message,
            },
    {
        let q = to_lower(query);
        let ghost all = self@.agents;
        let ghost keep = |a: AgentView| a.id != current@ && mentions(a, query@);
        let ghost id_of = |a: AgentView| a.id;
        let mut ids: Vec<String> = Vec::new();
        let mut i: usize = 0;
        proof {
            reveal(Seq::filter);
            assert(all.take(0) =~= seq![]);
            assert(views(ids@) =~= all.take(0).filter(keep).map_values(id_of));
        }
        while i < self.agents.len()
            invariant
                i <= self.agents@.len(),
                q@ == lowercase(query@),
                all == all_views(self.agents@),
                keep == (|a: AgentView| a.id != current@ && mentions(a, query@)),
                id_of == (|a: AgentView| a.id),
                views(ids@) == all.take(i as int).filter(keep).map_values(id_of),
            decreases self.agents@.len() - i,
        {
            let ghost had = ids@;
            let ghost a = self.agents@[i as int]@;
            proof {
                reveal(Seq::filter);
                assert(all.take(i + 1).drop_last() =~= all.take(i as int));
                assert(all.take(i + 1).last() == a);
            }
            let id = self.agents[i].id.clone();
            let low_id = to_lower(id.as_str());
            let low_name = to_lower(self.agents[i].name.as_str());
            let hit = contains(low_id.as_str(), q.as_str()) || contains(
                low_name.as_str(),
                q.as_str(),
            );
            if !same(id.as_str(), current) && hit {
                ids.push(id);
                proof {
                    let t = all.take(i as int).filter(keep);
                    assert(keep(a));
                    assert(all.take(i + 1).filter(keep) =~= t.push(a));
                    assert(t.push(a).map_values(id_of) =~= t.map_values(id_of).push(a.id));
                    assert(views(ids@) =~= views(had).push(a.id));
                }
            } else {
                proof {
                    assert(!keep(a));
                }
            }
            i = i + 1;
        }
        proof {
            assert(all.take(i as int) =~= all);
            assert(views(ids@) == candidates(all, current@, query@));
        }
        if ids.len() == 1 {
            Ok(ids[0].clone())
        } else if ids.len() == 0 {
            Err(concat3("No other agent matches '", query, "'"))
        } else {
            let list = join(&ids, ", ");
            Err(concat2("Ambiguous — matches: ", list.as_str()))
        }
    }

    /// Ask for the pairings to be stored: each once, in ascending order.
    fn persist_pairings(&mut self)
        ensures
            final(self)@ == old(self)@.emit(
                EffectView::SavePairings { pairs: pairs_of(old(self)@.pairings) },
            ),
            lists_pairs(pairs_of(old(self)@.pairings), old(self)@.pairings),
    {
        let pairs = self.pairings.save();
        self.emit(Effect::SavePairings { pairs });
    }

    /// `:connect <agent>` — pair the current session's agent with another so
    /// their agents may message each other.
    pub(crate) fn connect_workspace(&mut self, query: &str)
        ensures
            final(self)@ == old(self)@.peer_connected(query@),
    {
        let current = match self.viewed_agent_id() {
            Some(id) => id,
            None => {
                self.say(":connect needs an open agent session".to_owned());
                return;
            },
        };
        if query.is_empty() {
            self.say("Usage: :connect <agent>".to_owned());
            return;
        }
        let target = match self.resolve_peer(current.as_str(), query) {
            Ok(id) => id,
            Err(message) => {
                self.say(message);
                return;
            },
        };
        let ghost before = self@;
        if self.pairings.connect(current.as_str(), target.as_str()) {
            self.persist_pairings();
            let head = concat2("Connected ", current.as_str());
            self.say(concat3(head.as_str(), " ↔ ", target.as_str()));
        } else {
            proof {
                assert(self@.pairings =~= before.pairings);
                assert(self@ =~= before);
            }
            self.say(concat2("Already connected to ", target.as_str()));
        }
    }

    /// `:disconnect <agent>` — remove a pairing for the current session's
    /// agent. Works even if the peer is no longer open.
    pub(crate) fn disconnect_workspace(&mut self, query: &str)
        ensures
            final(self)@ == old(self)@.peer_disconnected(query@),
    {
        let current = match self.viewed_agent_id() {
            Some(id) => id,
            None => {
                self.say(":disconnect needs an open agent session".to_owned());
                return;
            },
        };
        if query.is_empty() {
            self.say("Usage: :disconnect <agent>".to_owned());
            return;
        }
        let peers = self.pairings.peers(current.as_str());
        let found = matching_peers(&peers, query);
        if found.len() == 0 {
            self.say(concat3("No connected agent matches '", query, "'"));
            return;
        }
        if found.len() > 1 {
            let list = join(&found, ", ");
            self.say(concat2("Ambiguous — matches: ", list.as_str()));
            return;
        }
        let target = found[0].clone();
        proof {
            let all = views(peers@);
            let f = peer_candidates(all, query@);
            assert(views(found@)[0] == target@);
            lemma_candidate_is_peer(all, query@, 0);
            assert(linked(self@.pairings, current@, target@));
        }
        if self.pairings.disconnect(current.as_str(), target.as_str()) {
            self.persist_pairings();
            let head = concat2("Disconnected ", current.as_str());
            self.say(concat3(head.as_str(), " ↔ ", target.as_str()));
        }
    }

    /// `:connections` — list the current session agent's connected peers.
    pub(crate) fn show_connections(&mut self)
        ensures
            final(self)@ == old(self)@.connections_shown(),
    {
        let current = match self.viewed_agent_id() {
            Some(id) => id,
            None => {
                self.say(":connections needs an open agent session".to_owned());
                return;
            },
        };
        let peers = self.pairings.peers(current.as_str());
        proof {
            assert(views(peers@).len() == peers@.len());
        }
        if peers.len() == 0 {
            self.say("No connected workspaces (use :connect <agent>)".to_owned());
        } else {
            let list = join(&peers, ", ");
            self.say(concat2("Connected: ", list.as_str()));
        }
    }

    /// Remove the currently viewed workspace agent and go back to the list.
    pub(crate) fn close_current_workspace(&mut self)
        ensures
            final(self)@ == old(self)@.workspace_closed(),
    {
        let id = match self.viewed_agent_id() {
            Some(id) => id,
            None => {
                self.say("No workspace open — use :close from a session".to_owned());
                return;
            },
        };
        let ghost before = self@;
        let mut agents: Vec<Agent> = Vec::new();
        std::mem::swap(&mut agents, &mut self.agents);
        self.agents = without_agent(agents, id.as_str());
        let remote = match &self.explorer.fs {
            Some(fs) => fs.is_remote(),
            None => false,
        };
        if remote {
            self.explorer.set_fs(None);
        }
        let entries = from_agents(&self.agents);
        self.screen = Screen::AgentList { selected: 0 };
        self.emit(Effect::SaveWorkspaces { entries });
        proof {
            assert(self@ =~= before.workspace_closed());
        }
    }

    /// Rebuild the container for the currently viewed workspace agent: the
    /// session is forgotten, in what is stored too, the old container is
    /// removed, and the agent is reconnected.
    pub fn rebuild_current_container(&mut self)
        ensures
            final(self)@ == old(self)@.container_rebuilt(),
    {
        let id = match self.viewed_agent_id() {
            Some(id) => id,
            None => {
                self.say("No workspace open — use :rebuild from a session".to_owned());
                return;
            },
        };
        let k: usize = self.index_of(id.as_str());
        if k >= self.agents.len() {
            return;
        }
        let workspace = match &self.agents[k].workspace_folder {
            Some(ws) => ws.clone(),
            None => {
                self.say("Agent has no workspace — :rebuild needs a container agent".to_owned());
                return;
            },
        };
        let ghost before = self@;
        let ghost agent = before.agent(id@);
        match self.agents[k].task_handle {
            Some(task) => {
                self.effects.push(Effect::AbortTask { task: task.task });
            },
            None => {},
        }
        let ghost s = match agent.task_handle {
            Some(task) => before.emit(EffectView::AbortTask { task: task.task }),
            None => before,
        };
        proof {
            assert(self@ =~= s);
        }
        self.agents[k].task_handle = None;
        self.agents[k].prompt_tx = None;
        self.agents[k].status = AgentStatus::Stopped;
        self.agents[k].session_id = None;
        self.agents[k].container = None;
        self.agents[k].explorer_fs = None;
        self.agents[k].git_branch = None;
        self.agents[k].info("🔄 Rebuilding container...".to_owned());
        proof {
            assert(self@ =~= s.with_agent(id@, rebuilding(agent)));
        }
        let remote = match &self.explorer.fs {
            Some(fs) => fs.is_remote(),
            None => false,
        };
        if remote {
            self.explorer.set_fs(Some(WorkspaceFs::local(workspace.clone())));
        }
        let ghost t = s.with_agent(id@, rebuilding(agent));
        let ghost u = match before.explorer.fs {
            Some(fs) if fs.remote is Some => AppView {
                explorer: t.explorer.pointed_at(
                    Some(WorkspaceFsView { root: workspace@, remote: None }),
                ),
                ..t
            },
            _ => t,
        };
        proof {
            assert(self@ =~= u);
        }
        self.emit(Effect::GenerateLayer { workspace: workspace.clone() });
        self.emit(Effect::RemoveContainer { agent_id: id, workspace: workspace.clone() });
        let entries = from_agents(&self.agents);
        self.emit(Effect::SaveWorkspaces { entries });
        self.emit(Effect::SaveState { workspace, session_id: None });
    }
}

/// What is reported once the container of an agent was to be removed: a warning
/// where that failed, that it is gone, and that the agent can be reconnected.
pub open spec fn removal_report(agent_id: Seq<char>, failure: Option<Seq<char>>) -> Seq<
    AppEventView,
> {
    let line = |text: Seq<char>|
        AppEventView::Session(SessionEventView::Output { agent_id, line: text });
    let warning = match failure {
        Some(error) => seq![line("[warn] Failed to remove container: "@ + error)],
        None => seq![],
    };
    warning + seq![
        line("Container removed. Reconnecting..."@),
        AppEventView::ReconnectAgent { agent_id },
    ]
}

/// What is to be reported once the container of an agent was to be removed.
pub fn container_removed(agent_id: &str, failure: Option<String>) -> (r: Vec<AppEvent>)
    ensures
        all_views(r@) == removal_report(agent_id@, opt_text(failure)),
{
    let mut events: Vec<AppEvent> = Vec::new();
    match &failure {
        Some(error) => {
            let line = concat2("[warn] Failed to remove container: ", error.as_str());
            events.push(
                AppEvent::Session(SessionEvent::Output { agent_id: agent_id.to_owned(), line }),
            );
        },
        None => {},
    }
    let line = "Container removed. Reconnecting...".to_owned();
    events.push(AppEvent::Session(SessionEvent::Output { agent_id: agent_id.to_owned(), line }));
    events.push(AppEvent::ReconnectAgent { agent_id: agent_id.to_owned() });
    proof {
        assert(all_views(events@) =~= removal_report(agent_id@, opt_text(failure)));
    }
    events
}

/// The peers that `query` may mean.
fn matching_peers(peers: &Vec<String>, query: &str) -> (r: Vec<String>)
    ensures
        views(r@) == peer_candidates(views(peers@), query@),
        r@.len() == peer_candidates(views(peers@), query@).len(),
{
    let q = to_lower(query);
    let ghost all = views(peers@);
    let ghost keep = |p: Seq<char>| occurs(lowercase(query@), lowercase(p));
    let mut out: Vec<String> = Vec::new();
    let mut i: usize = 0;
    proof {
        reveal(Seq::filter);
        assert(all.take(0) =~= seq![]);
        assert(views(out@) =~= all.take(0).filter(keep));
    }
    while i < peers.len()
        invariant
            i <= peers@.len(),
            q@ == lowercase(query@),
            all == views(peers@),
            keep == (|p: Seq<char>| occurs(lowercase(query@), lowercase(p))),
            views(out@) == all.take(i as int).filter(keep),
        decreases peers@.len() - i,
    {
        let ghost had = out@;
        let p = peers[i].clone();
        proof {
            reveal(Seq::filter);
            assert(all.take(i + 1).drop_last() =~= all.take(i as int));
            assert(all.take(i + 1).last() == p@);
        }
        let low = to_lower(p.as_str());
        if contains(low.as_str(), q.as_str()) {
            out.push(p);
            proof {
                assert(keep(p@));
                assert(views(out@) =~= views(had).push(p@));
            }
        } else {
            proof {
                assert(!keep(p@));
            }
        }
        i = i + 1;
    }
    proof {
        assert(all.take(i as int) =~= all);
        assert(views(out@).len() == out@.len());
    }
    out
}

/// What was filtered out of a list of peers is one of them.
proof fn lemma_candidate_is_peer(peers: Seq<Seq<char>>, query: Seq<char>, k: int)
    requires
        0 <= k < peer_candidates(peers, query).len(),
    ensures
        peers.contains(peer_candidates(peers, query)[k]),
{
    let keep = |p: Seq<char>| occurs(lowercase(query), lowercase(p));
    peers.lemma_filter_contains_rev(keep, peer_candidates(peers, query)[k]);
}

/// The agents whose id is another.
fn without_agent(agents: Vec<Agent>, id: &str) -> (r: Vec<Agent>)
    ensures
        all_views(r@) == all_views(agents@).filter(|a: AgentView| a.id != id@),
{
    let ghost all = all_views(agents@);
    let ghost keep = |a: AgentView| a.id != id@;
    let n: usize = agents.len();
    let mut rest = agents;
    let mut out: Vec<Agent> = Vec::new();
    let mut i: usize = 0;
    proof {
        reveal(Seq::filter);
        assert(all.take(0) =~= seq![]);
        assert(all_views(out@) =~= all.take(0).filter(keep));
    }
    while i < n
        invariant
            i <= n,
            n == all.len(),
            rest@.len() == n - i,
            all_views(rest@) == all.skip(i as int),
            keep == (|a: AgentView| a.id != id@),
            all_views(out@) == all.take(i as int).filter(keep),
        decreases n - i,
    {
        let ghost rest_before = rest@;
        let ghost had = out@;
        let a = rest.remove(0);
        proof {
            reveal(Seq::filter);
            assert(all_views(rest_before)[0] == a@);
            assert forall|j: int| 0 <= j < rest@.len() implies #[trigger] all_views(rest@)[j] == all.skip(
                i + 1,
            )[j] by {
                assert(rest@[j] == rest_before[j + 1]);
                assert(all_views(rest_before)[j + 1] == all.skip(i as int)[j + 1]);
            }
            assert(all_views(rest@) =~= all.skip(i + 1));
            assert(all.take(i + 1).drop_last() =~= all.take(i as int));
            assert(all.take(i + 1).last() == a@);
        }
        if !same(a.id.as_str(), id) {
            out.push(a);
            proof {
                assert(keep(a@));
                assert(all_views(out@) =~= all_views(had).push(a@));
            }
        } else {
            proof {
                assert(!keep(a@));
            }
        }
        i = i + 1;
    }
    proof {
        assert(all.take(i as int) =~= all);
    }
    out
}

} // verus!
