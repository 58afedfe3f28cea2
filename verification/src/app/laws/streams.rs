//! What follows a stream, where reports of the service go, and the beginning and
//! the end of the program.
use crate::agent::{
    AgentView, HistoryEntryView, MessageStatusView, StreamedTextView, ToolCallStatusKind,
    ToolCallView,
};
use crate::app::streams::{aborts, notification_event, shut_down, workspaces_of};
use crate::app::{started, AppView};
use crate::config::Config;
use crate::effect::EffectView;
use crate::event::AppEventView;
use crate::order::all_views;
use crate::pairing::PairView;
use crate::protocol::{SearchDoneParams, SearchResultParams};
use crate::types::ScreenView;
use vstd::prelude::*;

verus! {

/// The text that an entry follows, if it follows one.
pub open spec fn followed_text(entry: HistoryEntryView) -> Option<StreamedTextView> {
    match entry {
        HistoryEntryView::Assistant(m) => Some(m),
        HistoryEntryView::Thought(m) => Some(m),
        HistoryEntryView::User(m) => Some(m),
        _ => None,
    }
}

/// Whether two entries are of the same kind.
pub open spec fn same_kind(a: HistoryEntryView, b: HistoryEntryView) -> bool {
    &&& a is Assistant == b is Assistant
    &&& a is Thought == b is Thought
    &&& a is User == b is User
    &&& a is Tool == b is Tool
}

/// An entry that follows a text stream reads as the stream does: it has its text
/// and its status, and stays the kind of entry that it is. Every other entry, and
/// everything else, stays as it is.
pub proof fn law_an_entry_reads_as_its_stream(
    app: AppView,
    stream: u64,
    text: Seq<char>,
    status: MessageStatusView,
    a: int,
    i: int,
)
    requires
        0 <= a < app.agents.len(),
        0 <= i < app.agents[a].history.len(),
    ensures
        ({
            let after = app.stream_read(stream, text, status);
            let was = app.agents[a].history[i];
            let is = after.agents[a].history[i];
            &&& after.agents.len() == app.agents.len()
            &&& after.agents[a].history.len() == app.agents[a].history.len()
            &&& match followed_text(was) {
                Some(m) if m.stream == stream => same_kind(was, is) && followed_text(is) == Some(
                    StreamedTextView { stream, text, status },
                ),
                _ => is == was,
            }
            &&& after.agents[a] == AgentView {
                history: after.agents[a].history,
                ..app.agents[a]
            }
            &&& after == AppView { agents: after.agents, ..app }
        }),
{
}

/// A tool call that is looked at again shows its title and its status, under the
/// id that it has. Every other entry, and everything else, stays as it is.
pub proof fn law_a_tool_call_shows_its_status(
    app: AppView,
    stream: u64,
    title: Seq<char>,
    status: ToolCallStatusKind,
    a: int,
    i: int,
)
    requires
        0 <= a < app.agents.len(),
        0 <= i < app.agents[a].history.len(),
    ensures
        ({
            let after = app.call_read(stream, title, status);
            let was = app.agents[a].history[i];
            let is = after.agents[a].history[i];
            &&& after.agents.len() == app.agents.len()
            &&& after.agents[a].history.len() == app.agents[a].history.len()
            &&& match was {
                HistoryEntryView::Tool(t) if t.stream == stream => is == HistoryEntryView::Tool(
                    ToolCallView { id: t.id, stream, title, status },
                ),
                _ => is == was,
            }
            &&& after.agents[a] == AgentView {
                history: after.agents[a].history,
                ..app.agents[a]
            }
            &&& after == AppView { agents: after.agents, ..app }
        }),
{
}

/// A report of the service inside a container goes to its agent: that files
/// changed, the hits of a search, or its end, under the search's own id. Any
/// other report, and one that cannot be read, goes nowhere.
pub proof fn law_a_report_of_the_service_goes_to_its_agent(
    id: Seq<char>,
    container_id: Seq<char>,
    method: Seq<char>,
    result: Option<SearchResultParams>,
    done: Option<SearchDoneParams>,
)
    ensures
        notification_event(id, container_id, "fs.didChange"@, result, done) == Some(
            AppEventView::ExplorerFsChanged { agent_id: id, container_id },
        ),
        notification_event(id, container_id, "fs.searchResult"@, result, done) == (match result {
            Some(p) => Some(
                AppEventView::SearchResults {
                    agent_id: id,
                    search_id: p.search_id,
                    matches: all_views(p.matches@),
                },
            ),
            None => None,
        }),
        notification_event(id, container_id, "fs.searchDone"@, result, done) == (match done {
            Some(p) => Some(
                AppEventView::SearchDone {
                    agent_id: id,
                    search_id: p.search_id,
                    summary: p.summary,
                },
            ),
            None => None,
        }),
        method != "fs.didChange"@ && method != "fs.searchResult"@ && method != "fs.searchDone"@
            ==> notification_event(id, container_id, method, result, done) is None,
{
    reveal_strlit("fs.didChange");
    reveal_strlit("fs.searchResult");
    reveal_strlit("fs.searchDone");
    assert("fs.didChange"@.len() == 12);
    assert("fs.searchResult"@.len() == 15);
    assert("fs.searchDone"@.len() == 13);
}

/// Whether an effect aborts the task of an agent.
pub open spec fn stops(e: EffectView, agent: AgentView) -> bool {
    agent.task_handle matches Some(task) && e == EffectView::AbortTask { task: task.task }
}

/// Whether an effect aborts the task of one of these agents.
pub open spec fn stops_one_of(e: EffectView, agents: Seq<AgentView>) -> bool {
    exists|j: int| 0 <= j < agents.len() && stops(e, #[trigger] agents[j])
}

/// Shutting down goes through the fleet in order: an agent adds its task to what
/// is aborted and its workspace to what is stopped, where it has them, behind those
/// of the agents before it.
pub proof fn law_shutting_down_goes_through_the_fleet(agents: Seq<AgentView>, agent: AgentView)
    ensures
        aborts(agents.push(agent)) == aborts(agents) + (match agent.task_handle {
            Some(task) => seq![EffectView::AbortTask { task: task.task }],
            None => seq![],
        }),
        workspaces_of(agents.push(agent)) == workspaces_of(agents) + (match agent.workspace_folder {
            Some(workspace) => seq![workspace],
            None => seq![],
        }),
        aborts(Seq::<AgentView>::empty()).len() == 0,
        workspaces_of(Seq::<AgentView>::empty()).len() == 0,
{
    assert(agents.push(agent).drop_last() =~= agents);
    match agent.task_handle {
        Some(task) => {
            let e = EffectView::AbortTask { task: task.task };
            assert(aborts(agents).push(e) =~= aborts(agents) + seq![e]);
        },
        None => {
            assert(aborts(agents) =~= aborts(agents) + seq![]);
        },
    }
    match agent.workspace_folder {
        Some(w) => {
            assert(workspaces_of(agents).push(w) =~= workspaces_of(agents) + seq![w]);
        },
        None => {
            assert(workspaces_of(agents) =~= workspaces_of(agents) + seq![]);
        },
    }
}

/// Shutting down aborts exactly the tasks of the agents that have one, and stops
/// the containers of exactly the workspaces of the fleet.
pub proof fn law_shutting_down_stops_every_agent(agents: Seq<AgentView>, i: int)
    requires
        0 <= i < agents.len(),
    ensures
        shut_down(agents[i]) == (AgentView { task_handle: None, prompt_tx: None, ..agents[i] }),
        agents[i].task_handle is Some ==> aborts(agents).contains(
            EffectView::AbortTask { task: (agents[i].task_handle->0).task },
        ),
        agents[i].workspace_folder is Some ==> workspaces_of(agents).contains(
            agents[i].workspace_folder->0,
        ),
        forall|k: int|
            0 <= k < aborts(agents).len() ==> stops_one_of(#[trigger] aborts(agents)[k], agents),
        forall|k: int|
            0 <= k < workspaces_of(agents).len() ==> exists|j: int|
                0 <= j < agents.len() && (#[trigger] agents[j]).workspace_folder == Some(
                    #[trigger] workspaces_of(agents)[k],
                ),
{
    lemma_stopped(agents);
    lemma_stopped_has(agents, i);
}

proof fn lemma_stopped_has(agents: Seq<AgentView>, i: int)
    requires
        0 <= i < agents.len(),
    ensures
        agents[i].task_handle is Some ==> aborts(agents).contains(
            EffectView::AbortTask { task: (agents[i].task_handle->0).task },
        ),
        agents[i].workspace_folder is Some ==> workspaces_of(agents).contains(
            agents[i].workspace_folder->0,
        ),
    decreases agents.len(),
{
    let rest = agents.drop_last();
    if i == agents.len() - 1 {
        if agents[i].task_handle is Some {
            assert(aborts(agents).last() == (EffectView::AbortTask {
                task: (agents[i].task_handle->0).task,
            }));
        }
        if agents[i].workspace_folder is Some {
            assert(workspaces_of(agents).last() == agents[i].workspace_folder->0);
        }
    } else {
        lemma_stopped_has(rest, i);
        assert(rest[i] == agents[i]);
        if agents[i].task_handle is Some {
            let e = EffectView::AbortTask { task: (agents[i].task_handle->0).task };
            let k = choose|k: int| 0 <= k < aborts(rest).len() && aborts(rest)[k] == e;
            assert(aborts(agents)[k] == e);
        }
        if agents[i].workspace_folder is Some {
            let w = agents[i].workspace_folder->0;
            let k = choose|k: int| 0 <= k < workspaces_of(rest).len() && workspaces_of(rest)[k] == w;
            assert(workspaces_of(agents)[k] == w);
        }
    }
}

proof fn lemma_stopped(agents: Seq<AgentView>)
    ensures
        forall|k: int|
            0 <= k < aborts(agents).len() ==> stops_one_of(#[trigger] aborts(agents)[k], agents),
        forall|k: int|
            0 <= k < workspaces_of(agents).len() ==> exists|j: int|
                0 <= j < agents.len() && (#[trigger] agents[j]).workspace_folder == Some(
                    #[trigger] workspaces_of(agents)[k],
                ),
    decreases agents.len(),
{
    if agents.len() > 0 {
        let rest = agents.drop_last();
        lemma_stopped(rest);
        assert forall|k: int| 0 <= k < aborts(agents).len() implies stops_one_of(
            #[trigger] aborts(agents)[k],
            agents,
        ) by {
            if k < aborts(rest).len() {
                assert(aborts(agents)[k] == aborts(rest)[k]);
                let j = choose|j: int|
                    0 <= j < rest.len() && stops(aborts(rest)[k], #[trigger] rest[j]);
                assert(agents[j] == rest[j]);
                assert(stops(aborts(agents)[k], agents[j]));
            } else {
                assert(stops(aborts(agents)[k], agents[agents.len() - 1]));
            }
        }
        assert forall|k: int| 0 <= k < workspaces_of(agents).len() implies exists|j: int|
            0 <= j < agents.len() && (#[trigger] agents[j]).workspace_folder == Some(
                #[trigger] workspaces_of(agents)[k],
            ) by {
            if k < workspaces_of(rest).len() {
                assert(workspaces_of(agents)[k] == workspaces_of(rest)[k]);
                let j = choose|j: int|
                    0 <= j < rest.len() && (#[trigger] rest[j]).workspace_folder == Some(
                        workspaces_of(rest)[k],
                    );
                assert(agents[j] == rest[j]);
            } else {
                assert(agents[agents.len() - 1].workspace_folder is Some);
            }
        }
    }
}

/// The program starts with its first agent selected in the list and with nothing
/// open, nothing typed and nothing waiting. It has the agents, the pairings and
/// the configuration that it was given, and has asked for nothing.
pub proof fn law_the_program_starts_at_the_list(
    config: Config,
    agents: Seq<AgentView>,
    pairings: Set<PairView>,
    acp_log: bool,
    filter: Option<Seq<char>>,
)
    ensures
        ({
            let app = started(config, agents, pairings, acp_log, filter);
            &&& app.screen == (ScreenView::AgentList { selected: 0 })
            &&& app.agents == agents && app.pairings == pairings && app.config == config
            &&& app.acp_log == acp_log && app.acp_log_filter == filter
            &&& !app.should_quit && !app.command_mode && !app.search_mode
            &&& app.permission_pending is None && app.auth_pending is None
            &&& app.status_message is None
            &&& app.input_buffer.len() == 0 && app.command_buffer.len() == 0
                && app.search_query.len() == 0
            &&& app.inbox.len() == 0 && app.effects.len() == 0
            &&& forall|t: u64| !#[trigger] app.mcp_tunnels.contains(t)
            &&& !app.explorer.open && app.explorer.fs is None && app.explorer.selected is None
            &&& app.explorer.pending_open is None && !app.explorer.is_refreshing
            &&& !app.explorer.show_ignored
        }),
{
}

} // verus!
