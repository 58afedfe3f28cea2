//! The event dispatcher of [`App`].
//!
//! The outcome of background work may arrive late. It is applied only where it
//! still belongs: to the workspace, the container and the search that it was
//! asked for.
use crate::agent::{opt_text, AgentView, HistoryEntry, HistoryEntryView, TaskHandle, WorkspaceFs, WorkspaceFsView};
use crate::app::{App, AppView};
use crate::event::{AppEvent, AppEventView, Persisted};
use crate::explorer::{ExplorerView, StatusKind};
use crate::order::all_views;
use crate::protocol::{SearchMatch, SearchMatchView, SearchSummary};
use crate::text::{concat2, same, trim, trimmed};
use crate::types::{Screen, SidePane, SidePaneView};
use vstd::prelude::*;
use vstd::string::*;

verus! {

/// What the pane of a diff shows.
pub open spec fn diff_text(diff: Seq<char>) -> Seq<char> {
    if trimmed(diff).len() == 0 {
        "No changes."@
    } else {
        diff
    }
}

/// What is said when something could not be stored.
pub open spec fn storing_failed(what: Persisted, error: Seq<char>) -> Seq<char> {
    match what {
        Persisted::Layer => "Layer warning: "@ + error,
        Persisted::Workspaces => "Warning: "@ + error,
        Persisted::Pairings => "Failed to save pairings: "@ + error,
    }
}

impl AppView {
    /// Whether the explorer shows this workspace.
    pub open spec fn explores(self, root: Seq<char>) -> bool {
        match self.explorer.fs {
            Some(fs) => fs.root == root,
            None => false,
        }
    }

    /// Whether an agent is backed by this container.
    pub open spec fn runs_in(self, id: Seq<char>, container_id: Seq<char>) -> bool {
        self.knows(id) && match self.agent(id).container {
            Some(c) => c.container_id == container_id,
            None => false,
        }
    }

    /// The state after a status refresh landed. One of another workspace or
    /// with another flag is dropped; a request that waited for it is made.
    pub open spec fn status_ready(
        self,
        root: Seq<char>,
        include_ignored: bool,
        result: Result<Seq<(Seq<char>, StatusKind)>, Seq<char>>,
    ) -> AppView {
        let s = AppView {
            explorer: if self.explores(root) && include_ignored == self.explorer.show_ignored {
                self.explorer.with_status(result)
            } else {
                ExplorerView { is_refreshing: false, ..self.explorer }
            },
            ..self
        };
        if s.explorer.refresh_pending {
            s.refresh_requested()
        } else {
            s
        }
    }

    /// The state after a container-backed filesystem was connected. It is
    /// installed only while its agent is on screen, the explorer is on the same
    /// workspace, and the agent is still backed by the same container.
    pub open spec fn fs_ready(
        self,
        id: Seq<char>,
        container_id: Seq<char>,
        fs: WorkspaceFsView,
    ) -> AppView {
        if self.viewed() == Some(id) && self.explores(fs.root) && self.runs_in(id, container_id) {
            self.explorer_at(Some(fs)).refresh_requested()
        } else {
            self
        }
    }

    /// The state after a filesystem inside a container changed.
    pub open spec fn fs_changed(self, id: Seq<char>, container_id: Seq<char>) -> AppView {
        if self.viewed() == Some(id) && self.runs_in(id, container_id) && self.explorer.open
            && self.explorer.fs is Some {
            AppView {
                explorer: ExplorerView {
                    dirs: Map::empty(),
                    loading: Set::empty(),
                    ..self.explorer
                },
                ..self
            }.refresh_requested()
        } else {
            self
        }
    }

    /// The state with a pane that the user asked for, if its agent and its
    /// workspace are still on screen.
    pub open spec fn pane_ready(
        self,
        id: Seq<char>,
        root: Seq<char>,
        pane: SidePaneView,
    ) -> AppView {
        if self.explores(root) && self.viewed() == Some(id) {
            self.with_pane(Some(pane))
        } else {
            self
        }
    }

    /// Whether the pane shows this search of this agent.
    pub open spec fn shows_search(self, id: Seq<char>, search_id: u64) -> bool {
        self.viewed() == Some(id) && match self.pane() {
            Some(SidePaneView::Search { search_id: shown, .. }) => shown == search_id,
            _ => false,
        }
    }

    /// The state with more hits of a search, if it is the one that is shown.
    pub open spec fn hits_added(
        self,
        id: Seq<char>,
        search_id: u64,
        hits: Seq<SearchMatchView>,
    ) -> AppView {
        match self.pane() {
            Some(
                SidePaneView::Search {
                    query,
                    search_id: shown,
                    matches,
                    selected,
                    scroll,
                    running,
                    summary,
                },
            ) if self.shows_search(id, search_id) => self.with_pane(
                Some(
                    SidePaneView::Search {
                        query,
                        search_id: shown,
                        matches: matches + hits,
                        selected,
                        scroll,
                        running,
                        summary,
                    },
                ),
            ),
            _ => self,
        }
    }

    /// The state with a search that ended, if it is the one that is shown.
    pub open spec fn search_ended(
        self,
        id: Seq<char>,
        search_id: u64,
        done: SearchSummary,
    ) -> AppView {
        match self.pane() {
            Some(
                SidePaneView::Search {
                    query,
                    search_id: shown,
                    matches,
                    selected,
                    scroll,
                    running,
                    summary,
                },
            ) if self.shows_search(id, search_id) => self.with_pane(
                Some(
                    SidePaneView::Search {
                        query,
                        search_id: shown,
                        matches,
                        selected,
                        scroll,
                        running: false,
                        summary: Some(done),
                    },
                ),
            ),
            _ => self,
        }
    }

    /// The state with a branch that was read, if its container is still the
    /// agent's.
    pub open spec fn branch_ready(
        self,
        id: Seq<char>,
        container_id: Seq<char>,
        branch: Option<Seq<char>>,
    ) -> AppView {
        if self.runs_in(id, container_id) {
            self.with_agent(id, AgentView { git_branch: branch, ..self.agent(id) })
        } else {
            self
        }
    }

    /// The state with a task that returned, if it is the agent's.
    pub open spec fn task_finished(self, id: Seq<char>, task: u64) -> AppView {
        if self.knows(id) {
            match self.agent(id).task_handle {
                Some(handle) if handle.task == task => self.with_agent(
                    id,
                    AgentView {
                        task_handle: Some(TaskHandle { task, finished: true }),
                        ..self.agent(id)
                    },
                ),
                _ => self,
            }
        } else {
            self
        }
    }

    /// What an event does, before the explorer is made consistent.
    pub open spec fn reacted(self, event: AppEventView) -> AppView {
        match event {
            AppEventView::Input(key) => self.key_pressed(key),
            AppEventView::Change { path, content } => self.changed(path, content),
            AppEventView::McpShowDiff { agent_id, path, content } => self.tool_pane(
                agent_id,
                SidePaneView::Diff { path, content, scroll: 0 },
            ),
            AppEventView::McpShowFile { agent_id, path, content } => self.tool_pane(
                agent_id,
                SidePaneView::FileView { path, content, scroll: 0 },
            ),
            AppEventView::McpNotify { agent_id, message } => self.log(
                agent_id,
                HistoryEntryView::Info(message),
            ),
            AppEventView::McpSendToWorkspace {
                sender_id,
                sender_name,
                target_id,
                message,
                thread,
            } => self.message_queued(sender_id, sender_name, target_id, message, thread),
            AppEventView::ReconnectAgent { agent_id } => self.connected(agent_id),
            AppEventView::Session(event) => self.session_event(event),
            AppEventView::ExplorerStatusReady { root, include_ignored, result } =>
                self.status_ready(root, include_ignored, result),
            AppEventView::ExplorerFsReady { agent_id, container_id, fs } => self.fs_ready(
                agent_id,
                container_id,
                fs,
            ),
            AppEventView::ExplorerFsChanged { agent_id, container_id } => self.fs_changed(
                agent_id,
                container_id,
            ),
            AppEventView::ExplorerDirReady { root, rel, result } => if self.explores(root) {
                AppView { explorer: self.explorer.with_dir(rel, result), ..self }
            } else {
                self
            },
            AppEventView::ExplorerFileReady { agent_id, root, full_path, result, scroll_to } =>
                match result {
                Some(content) => self.pane_ready(
                    agent_id,
                    root,
                    SidePaneView::FileView { path: full_path, content, scroll: scroll_to },
                ),
                None => self,
            },
            AppEventView::ExplorerDiffReady { agent_id, root, full_path, result } => match result {
                Some(diff) => self.pane_ready(
                    agent_id,
                    root,
                    SidePaneView::Diff { path: full_path, content: diff_text(diff), scroll: 0 },
                ),
                None => self,
            },
            AppEventView::SearchResults { agent_id, search_id, matches } => self.hits_added(
                agent_id,
                search_id,
                matches,
            ),
            AppEventView::SearchDone { agent_id, search_id, summary } => self.search_ended(
                agent_id,
                search_id,
                summary,
            ),
            AppEventView::AgentBranchReady { agent_id, container_id, branch } =>
                self.branch_ready(agent_id, container_id, branch),
            AppEventView::PathCompleted { verb, path } => self.path_completed(verb, path),
            AppEventView::PersistFailed { what, error } => self.say(storing_failed(what, error)),
            AppEventView::TaskFinished { agent_id, task } => self.task_finished(agent_id, task),
            AppEventView::Repaint => self,
        }
    }

    /// What an event does.
    pub open spec fn handled(self, event: AppEventView) -> AppView {
        self.reacted(event).synced()
    }
}

impl App {
    /// Whether the explorer shows this workspace.
    fn is_explored(&self, root: &str) -> (r: bool)
        ensures
            r == self@.explores(root@),
    {
        match &self.explorer.fs {
            Some(fs) => same(fs.root.as_str(), root),
            None => false,
        }
    }

    /// Whether an agent is backed by this container.
    fn is_in_container(&self, id: &str, container_id: &str) -> (r: bool)
        ensures
            r == self@.runs_in(id@, container_id@),
    {
        let k: usize = self.index_of(id);
        if k >= self.agents.len() {
            return false;
        }
        match &self.agents[k].container {
            Some(c) => same(c.container_id.as_str(), container_id),
            None => false,
        }
    }

    /// Apply the git status that was fetched.
    fn handle_status(
        &mut self,
        root: &str,
        include_ignored: bool,
        result: Result<Vec<(String, StatusKind)>, String>,
    )
        ensures
            final(self)@ == old(self)@.status_ready(
                root@,
                include_ignored,
                match result {
                    Ok(v) => Ok(crate::explorer::status_views(v@)),
                    Err(e) => Err(e@),
                },
            ),
    {
        if self.is_explored(root) && include_ignored == self.explorer.show_ignored {
            self.explorer.apply_status(result);
        } else {
            self.explorer.is_refreshing = false;
        }
        if self.explorer.refresh_pending {
            self.request_explorer_refresh();
        }
    }

    /// Install a filesystem that was connected.
    fn handle_fs_ready(&mut self, id: &str, container_id: &str, fs: WorkspaceFs)
        ensures
            final(self)@ == old(self)@.fs_ready(id@, container_id@, fs@),
    {
        if self.is_viewed(id) && self.is_explored(fs.root.as_str()) && self.is_in_container(
            id,
            container_id,
        ) {
            self.explorer.set_fs(Some(fs));
            self.request_explorer_refresh();
        }
    }

    /// React to a change inside a container.
    fn handle_fs_changed(&mut self, id: &str, container_id: &str)
        ensures
            final(self)@ == old(self)@.fs_changed(id@, container_id@),
    {
        if self.is_viewed(id) && self.is_in_container(id, container_id) && self.explorer.open
            && self.explorer.fs.is_some() {
            self.explorer.invalidate_dirs();
            self.request_explorer_refresh();
        }
    }

    /// Show a pane that the user asked for.
    fn handle_pane_ready(&mut self, id: &str, root: &str, pane: SidePane)
        ensures
            final(self)@ == old(self)@.pane_ready(id@, root@, pane@),
    {
        if self.is_explored(root) && self.is_viewed(id) {
            self.set_pane(Some(pane));
        }
    }

    /// Add hits to the search that is shown.
    fn handle_search_results(&mut self, id: &str, search_id: u64, hits: Vec<SearchMatch>)
        ensures
            final(self)@ == old(self)@.hits_added(id@, search_id, all_views(hits@)),
    {
        if !self.is_viewed(id) {
            return;
        }
        let mut hits = hits;
        match &mut self.screen {
            Screen::AgentSession { side_pane, .. } => match side_pane {
                Some(SidePane::Search { search_id: shown, matches, .. }) => {
                    if *shown == search_id {
                        let ghost had = matches@;
                        let ghost more = hits@;
                        matches.append(&mut hits);
                        proof {
                            assert(all_views(matches@) =~= all_views(had) + all_views(more));
                        }
                    }
                },
                _ => {},
            },
            _ => {},
        }
    }

    /// End the search that is shown.
    fn handle_search_done(&mut self, id: &str, search_id: u64, done: SearchSummary)
        ensures
            final(self)@ == old(self)@.search_ended(id@, search_id, done),
    {
        if !self.is_viewed(id) {
            return;
        }
        match &mut self.screen {
            Screen::AgentSession { side_pane, .. } => match side_pane {
                Some(SidePane::Search { search_id: shown, running, summary, .. }) => {
                    if *shown == search_id {
                        *running = false;
                        *summary = Some(done);
                    }
                },
                _ => {},
            },
            _ => {},
        }
    }

    /// Store the branch that was read inside a container.
    fn handle_branch(&mut self, id: &str, container_id: &str, branch: Option<String>)
        ensures
            final(self)@ == old(self)@.branch_ready(id@, container_id@, opt_text(branch)),
    {
        if self.is_in_container(id, container_id) {
            let k: usize = self.index_of(id);
            self.agents[k].git_branch = branch;
            proof {
                assert(self@ =~= old(self)@.branch_ready(id@, container_id@, opt_text(branch)));
            }
        }
    }

    /// Mark an agent's task as returned.
    fn handle_task_finished(&mut self, id: &str, task: u64)
        ensures
            final(self)@ == old(self)@.task_finished(id@, task),
    {
        let k: usize = self.index_of(id);
        if k >= self.agents.len() {
            return;
        }
        match self.agents[k].task_handle {
            Some(handle) => {
                if handle.task == task {
                    self.agents[k].task_handle = Some(TaskHandle { task, finished: true });
                    proof {
                        assert(self@ =~= old(self)@.task_finished(id@, task));
                    }
                }
            },
            None => {},
        }
    }

    /// Say that something could not be stored.
    fn handle_persist_failed(&mut self, what: Persisted, error: &str)
        ensures
            final(self)@ == old(self)@.say(storing_failed(what, error@)),
    {
        match what {
            Persisted::Layer => self.say(concat2("Layer warning: ", error)),
            Persisted::Workspaces => self.say(concat2("Warning: ", error)),
            Persisted::Pairings => self.say(concat2("Failed to save pairings: ", error)),
        }
    }

    /// React to an event, without making the explorer consistent.
    fn react(&mut self, event: AppEvent)
        ensures
            final(self)@ == old(self)@.reacted(event@),
    {
        match event {
            AppEvent::Input(key) => self.handle_key(key),
            AppEvent::Change(change) => self.handle_change(change),
            AppEvent::McpShowDiff { agent_id, path, content } => self.handle_mcp_side_pane(
                agent_id,
                SidePane::Diff { path, content, scroll: 0 },
            ),
            AppEvent::McpShowFile { agent_id, path, content } => self.handle_mcp_side_pane(
                agent_id,
                SidePane::FileView { path, content, scroll: 0 },
            ),
            AppEvent::McpNotify { agent_id, message } => self.log(
                agent_id.as_str(),
                HistoryEntry::Info(message),
            ),
            AppEvent::McpSendToWorkspace { sender_id, sender_name, target_id, message, thread } =>
                self.handle_send_to_workspace(sender_id, sender_name, target_id, message, thread),
            AppEvent::ReconnectAgent { agent_id } => self.ensure_agent_connected(agent_id),
            AppEvent::Session(event) => self.handle_session_event(event),
            AppEvent::ExplorerStatusReady { root, include_ignored, result } => self.handle_status(
                root.as_str(),
                include_ignored,
                result,
            ),
            AppEvent::ExplorerFsReady { agent_id, container_id, fs } => self.handle_fs_ready(
                agent_id.as_str(),
                container_id.as_str(),
                fs,
            ),
            AppEvent::ExplorerFsChanged { agent_id, container_id } => self.handle_fs_changed(
                agent_id.as_str(),
                container_id.as_str(),
            ),
            AppEvent::ExplorerDirReady { root, rel, result } => {
                if self.is_explored(root.as_str()) {
                    self.explorer.apply_dir(rel, result);
                }
            },
            AppEvent::ExplorerFileReady { agent_id, root, full_path, result, scroll_to } => {
                match result {
                    Ok(content) => self.handle_pane_ready(
                        agent_id.as_str(),
                        root.as_str(),
                        SidePane::FileView { path: full_path, content, scroll: scroll_to },
                    ),
                    Err(_) => {},
                }
            },
            AppEvent::ExplorerDiffReady { agent_id, root, full_path, result } => {
                match result {
                    Ok(diff) => {
                        let content = if trim(diff.as_str()).as_str().is_empty() {
                            "No changes.".to_owned()
                        } else {
                            diff
                        };
                        self.handle_pane_ready(
                            agent_id.as_str(),
                            root.as_str(),
                            SidePane::Diff { path: full_path, content, scroll: 0 },
                        );
                    },
                    Err(_) => {},
                }
            },
            AppEvent::SearchResults { agent_id, search_id, matches } => self.handle_search_results(
                agent_id.as_str(),
                search_id,
                matches,
            ),
            AppEvent::SearchDone { agent_id, search_id, summary } => self.handle_search_done(
                agent_id.as_str(),
                search_id,
                summary,
            ),
            AppEvent::AgentBranchReady { agent_id, container_id, branch } => self.handle_branch(
                agent_id.as_str(),
                container_id.as_str(),
                branch,
            ),
            AppEvent::PathCompleted { verb, path } => self.complete_path(verb, path),
            AppEvent::PersistFailed { what, error } => self.handle_persist_failed(
                what,
                error.as_str(),
            ),
            AppEvent::TaskFinished { agent_id, task } => self.handle_task_finished(
                agent_id.as_str(),
                task,
            ),
            AppEvent::Repaint => {},
        }
    }

    /// React to an event.
    pub fn handle(&mut self, event: AppEvent)
        ensures
            final(self)@ == old(self)@.handled(event@),
    {
        self.react(event);
        self.sync_explorer();
    }
}

} // verus!
