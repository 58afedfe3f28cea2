//! Persistent workspace registry.
//!
//! Opened workspaces are stored so that they reappear on next launch. Each
//! becomes a Copilot agent.
use crate::agent::{
    clone_text, new_agent, opt_text, Agent, AgentView,
};
use crate::order::all_views;
use crate::paths::{base_name, file_name, join_path, path_join};
use crate::text::{concat2, concat3};
use vstd::prelude::*;
use vstd::string::*;

verus! {

/// A single workspace entry as it is stored.
#[derive(Debug)]
pub struct WorkspaceEntry {
    /// Absolute path to the repo with (optional) `.devcontainer/` config.
    pub path: String,
    /// ACP command to launch (default: `copilot --acp --stdio`).
    pub acp_command: String,
}

pub struct WorkspaceEntryView {
    pub path: Seq<char>,
    pub acp_command: Seq<char>,
}

impl View for WorkspaceEntry {
    type V = WorkspaceEntryView;

    open spec fn view(&self) -> WorkspaceEntryView {
        WorkspaceEntryView { path: self.path@, acp_command: self.acp_command@ }
    }
}

impl Clone for WorkspaceEntry {
    fn clone(&self) -> (r: WorkspaceEntry)
        ensures
            r@ == self@,
    {
        WorkspaceEntry { path: self.path.clone(), acp_command: self.acp_command.clone() }
    }
}

/// Per-workspace runtime state. It survives container rebuilds and restarts.
#[derive(Debug)]
pub struct WorkspaceState {
    /// Last-used ACP session ID — used to resume on reconnect.
    pub session_id: Option<String>,
}

impl Default for WorkspaceState {
    /// No session to resume.
    fn default() -> (r: WorkspaceState)
        ensures
            r.session_id is None,
    {
        WorkspaceState { session_id: None }
    }
}

/// The stored list of workspaces.
#[derive(Debug)]
pub struct WorkspaceFile {
    pub workspaces: Vec<WorkspaceEntry>,
}

/// The command of an entry that names none.
pub fn default_acp_command() -> (r: String)
    ensures
        r@ == "copilot --acp --stdio"@,
{
    "copilot --acp --stdio".to_owned()
}

/// Where the list is kept, below the user's configuration directory.
pub fn config_path(config_dir: Option<String>) -> (r: Option<String>)
    ensures
        match config_dir {
            None => r is None,
            Some(d) => r is Some && r->0@ == path_join(
                path_join(d@, "fleet-commander"@),
                "workspaces.yaml"@,
            ),
        },
{
    match config_dir {
        None => None,
        Some(d) => {
            let app = join_path(d.as_str(), "fleet-commander");
            Some(join_path(app.as_str(), "workspaces.yaml"))
        },
    }
}

/// The workspaces of a stored list; none when there is no list that could be
/// read.
pub open spec fn listed(stored: Option<WorkspaceFile>) -> Seq<WorkspaceEntryView> {
    match stored {
        None => seq![],
        Some(file) => all_views(file.workspaces@),
    }
}

/// The workspaces of a stored list; none when there is no list that could be
/// read.
pub fn load(stored: Option<WorkspaceFile>) -> (r: Vec<WorkspaceEntry>)
    ensures
        all_views(r@) == listed(stored),
{
    let r = match stored {
        None => Vec::new(),
        Some(file) => file.workspaces,
    };
    proof {
        assert(all_views(r@) =~= listed(stored));
    }
    r
}

/// The list to store: it gives the workspaces back when it is loaded.
pub fn save(entries: &Vec<WorkspaceEntry>) -> (r: WorkspaceFile)
    ensures
        listed(Some(r)) == all_views(entries@),
{
    let mut out: Vec<WorkspaceEntry> = Vec::new();
    let mut i: usize = 0;
    while i < entries.len()
        invariant
            i <= entries@.len(),
            all_views(out@) == all_views(entries@).take(i as int),
        decreases entries@.len() - i,
    {
        let ghost had = out@;
        out.push(entries[i].clone());
        proof {
            assert(all_views(out@) =~= all_views(had).push(entries@[i as int]@));
            assert(all_views(entries@).take(i + 1) =~= all_views(entries@).take(i as int).push(
                entries@[i as int]@,
            ));
        }
        i = i + 1;
    }
    proof {
        assert(all_views(entries@).take(i as int) =~= all_views(entries@));
    }
    WorkspaceFile { workspaces: out }
}

/// The state of a workspace, from what was stored for it: no session to resume
/// when nothing was.
pub fn load_state(stored: Option<WorkspaceState>) -> (r: WorkspaceState)
    ensures
        match stored {
            None => r.session_id is None,
            Some(state) => r == state,
        },
{
    match stored {
        None => WorkspaceState { session_id: None },
        Some(state) => state,
    }
}

/// The name that a workspace goes by.
pub open spec fn dir_label(path: Seq<char>) -> Seq<char> {
    match base_name(path) {
        Some(name) => name,
        None => "workspace"@,
    }
}

/// The id of a workspace's agent.
pub open spec fn agent_id_for(path: Seq<char>) -> Seq<char> {
    "copilot-"@ + dir_label(path)
}

/// The name of a workspace's agent.
pub open spec fn agent_name_for(path: Seq<char>) -> Seq<char> {
    "Copilot ("@ + dir_label(path) + ")"@
}

/// The agent of a stored workspace.
pub open spec fn agent_of(entry: WorkspaceEntryView, session_id: Option<Seq<char>>) -> AgentView {
    AgentView {
        acp_command: entry.acp_command,
        workspace_folder: Some(entry.path),
        session_id,
        ..new_agent(agent_id_for(entry.path), agent_name_for(entry.path))
    }
}

/// The name that a workspace goes by.
pub fn dir_name(path: &str) -> (r: String)
    ensures
        r@ == dir_label(path@),
{
    match file_name(path) {
        Some(name) => name,
        None => "workspace".to_owned(),
    }
}

/// A new agent for a workspace.
pub fn agent_for(path: &str, acp_command: &str, session_id: Option<String>) -> (r: Agent)
    ensures
        r@ == agent_of(
            WorkspaceEntryView { path: path@, acp_command: acp_command@ },
            opt_text(session_id),
        ),
{
    let label = dir_name(path);
    let id = concat2("copilot-", label.as_str());
    let name = concat3("Copilot (", label.as_str(), ")");
    let mut agent = Agent::new(id, name).with_acp_command(acp_command.to_owned()).with_workspace(
        path.to_owned(),
    );
    agent.session_id = session_id;
    agent
}

/// The session of the `i`th workspace.
pub open spec fn session_at(states: Seq<WorkspaceState>, i: int) -> Option<Seq<char>> {
    if 0 <= i < states.len() {
        opt_text(states[i].session_id)
    } else {
        None
    }
}

/// Convert workspace entries to agents, each with the session of its state.
pub fn to_agents(entries: &Vec<WorkspaceEntry>, states: &Vec<WorkspaceState>) -> (r: Vec<Agent>)
    ensures
        r@.len() == entries@.len(),
        forall|i: int|
            0 <= i < r@.len() ==> (#[trigger] r@[i])@ == agent_of(
                entries@[i]@,
                session_at(states@, i),
            ),
{
    let mut out: Vec<Agent> = Vec::new();
    let mut i: usize = 0;
    while i < entries.len()
        invariant
            i <= entries@.len(),
            out@.len() == i,
            forall|k: int|
                0 <= k < i ==> (#[trigger] out@[k])@ == agent_of(
                    entries@[k]@,
                    session_at(states@, k),
                ),
        decreases entries@.len() - i,
    {
        let session = if i < states.len() {
            clone_text(&states[i].session_id)
        } else {
            None
        };
        let entry = &entries[i];
        out.push(agent_for(entry.path.as_str(), entry.acp_command.as_str(), session));
        i = i + 1;
    }
    out
}

/// The entries of the agents with workspaces, in order.
pub open spec fn entries_of(agents: Seq<AgentView>) -> Seq<WorkspaceEntryView>
    decreases agents.len(),
{
    if agents.len() == 0 {
        seq![]
    } else {
        let rest = entries_of(agents.drop_last());
        match agents.last().workspace_folder {
            Some(path) => rest.push(
                WorkspaceEntryView { path, acp_command: agents.last().acp_command },
            ),
            None => rest,
        }
    }
}

/// Build workspace entries from the current agent list (only agents with
/// workspaces).
pub fn from_agents(agents: &Vec<Agent>) -> (r: Vec<WorkspaceEntry>)
    ensures
        all_views(r@) == entries_of(all_views(agents@)),
{
    let ghost all = all_views(agents@);
    let mut out: Vec<WorkspaceEntry> = Vec::new();
    let mut i: usize = 0;
    proof {
        assert(all.take(0) =~= seq![]);
        assert(all_views(out@) =~= seq![]);
    }
    while i < agents.len()
        invariant
            i <= agents@.len(),
            all == all_views(agents@),
            all_views(out@) == entries_of(all.take(i as int)),
        decreases agents@.len() - i,
    {
        let ghost had = out@;
        proof {
            assert(all.take(i + 1).drop_last() =~= all.take(i as int));
            assert(all.take(i + 1).last() == agents@[i as int]@);
        }
        match &agents[i].workspace_folder {
            Some(path) => {
                out.push(
                    WorkspaceEntry {
                        path: path.clone(),
                        acp_command: agents[i].acp_command.clone(),
                    },
                );
                proof {
                    assert(all_views(out@) =~= all_views(had).push(out@.last()@));
                }
            },
            None => {},
        }
        i = i + 1;
    }
    proof {
        assert(all.take(i as int) =~= all);
    }
    out
}

// ─── Laws ──────────────────────────────────────────────────────────────

/// The agents made from stored workspaces store as those workspaces again,
/// whatever their sessions: a session is no part of the list.
pub proof fn law_agents_store_as_their_entries(
    entries: Seq<WorkspaceEntryView>,
    sessions: Seq<Option<Seq<char>>>,
)
    requires
        sessions.len() == entries.len(),
    ensures
        entries_of(Seq::new(entries.len(), |i: int| agent_of(entries[i], sessions[i]))) == entries,
    decreases entries.len(),
{
    let agents = Seq::new(entries.len(), |i: int| agent_of(entries[i], sessions[i]));
    if entries.len() > 0 {
        let e = entries.drop_last();
        let t = sessions.drop_last();
        law_agents_store_as_their_entries(e, t);
        assert(agents.drop_last() =~= Seq::new(e.len(), |i: int| agent_of(e[i], t[i])));
        assert(agents.last() == agent_of(entries.last(), sessions.last()));
        assert(entries =~= e.push(entries.last()));
        assert(entries_of(agents) =~= e.push(entries.last()));
    } else {
        assert(entries =~= seq![]);
    }
}

/// A stored workspace has an agent of its own: named after the last part of its
/// path, with the command and the path of its entry and the session that was
/// stored for it, idle, and with nothing said and nothing connected.
pub proof fn law_a_workspace_has_its_agent(
    entry: WorkspaceEntryView,
    session: Option<Seq<char>>,
    label: Seq<char>,
)
    requires
        base_name(entry.path) == Some(label) || base_name(entry.path) is None && label
            == "workspace"@,
    ensures
        agent_of(entry, session) == (AgentView {
            id: "copilot-"@ + label,
            name: "Copilot ("@ + label + ")"@,
            status: crate::agent::AgentStatus::Idle,
            history: Seq::empty(),
            acp_command: entry.acp_command,
            workspace_folder: Some(entry.path),
            prompt_tx: None,
            task_handle: None,
            session_id: session,
            last_effective_top: 0,
            available_commands: Seq::empty(),
            container: None,
            git_branch: None,
            explorer_fs: None,
            branch_reading: None,
        }),
{
}

/// Only agents with a workspace are stored, each under its path and its command,
/// and in the order of the fleet.
pub proof fn law_only_workspaces_are_stored(agents: Seq<AgentView>, agent: AgentView)
    ensures
        agent.workspace_folder is None ==> entries_of(agents.push(agent)) == entries_of(agents),
        agent.workspace_folder is Some ==> entries_of(agents.push(agent)) == entries_of(
            agents,
        ).push(
            WorkspaceEntryView {
                path: agent.workspace_folder->0,
                acp_command: agent.acp_command,
            },
        ),
        entries_of(Seq::<AgentView>::empty()) == Seq::<WorkspaceEntryView>::empty(),
{
    assert(agents.push(agent).drop_last() =~= agents);
}

/// Each workspace of a stored list has the session that was stored for it, in the
/// order of the list, and one without a stored state has none. A list that could
/// not be read is empty.
pub proof fn law_each_workspace_has_its_session(
    states: Seq<WorkspaceState>,
    file: WorkspaceFile,
    i: int,
)
    ensures
        0 <= i < states.len() ==> session_at(states, i) == (match states[i].session_id {
            Some(id) => Some(id@),
            None => None,
        }),
        i >= states.len() ==> session_at(states, i) is None,
        listed(None) == Seq::<WorkspaceEntryView>::empty(),
        listed(Some(file)).len() == file.workspaces@.len(),
        0 <= i < file.workspaces@.len() ==> listed(Some(file))[i].path == file.workspaces@[i].path@
            && listed(Some(file))[i].acp_command == file.workspaces@[i].acp_command@,
{
}

} // verus!
