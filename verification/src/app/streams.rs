//! Streams that history entries follow, and the end of the program.
use crate::agent::{
    AgentView, HistoryEntry, HistoryEntryView, MessageStatus, MessageStatusView, StreamedText,
    StreamedTextView, ToolCallStatusKind, ToolCallView,
};
use crate::app::{App, AppView};
use crate::effect::{Effect, EffectView};
use crate::event::{AppEvent, AppEventView};
use crate::methods::{FS_DID_CHANGE, FS_SEARCH_DONE, FS_SEARCH_RESULT};
use crate::order::all_views;
use crate::protocol::{SearchDoneParams, SearchResultParams};
use crate::text::{same, views};
use vstd::prelude::*;
use vstd::string::*;

verus! {

// ─── Streams ───────────────────────────────────────────────────────────

/// A streamed text as it now reads, if it follows this stream.
pub open spec fn text_read(
    msg: StreamedTextView,
    stream: u64,
    text: Seq<char>,
    status: MessageStatusView,
) -> StreamedTextView {
    if msg.stream == stream {
        StreamedTextView { stream, text, status }
    } else {
        msg
    }
}

/// An entry as it now reads, if it follows this text stream.
pub open spec fn entry_read(
    entry: HistoryEntryView,
    stream: u64,
    text: Seq<char>,
    status: MessageStatusView,
) -> HistoryEntryView {
    match entry {
        HistoryEntryView::Assistant(m) => HistoryEntryView::Assistant(
            text_read(m, stream, text, status),
        ),
        HistoryEntryView::Thought(m) => HistoryEntryView::Thought(
            text_read(m, stream, text, status),
        ),
        HistoryEntryView::User(m) => HistoryEntryView::User(text_read(m, stream, text, status)),
        _ => entry,
    }
}

/// An entry as it now reads, if it follows this tool call.
pub open spec fn tool_read(
    entry: HistoryEntryView,
    stream: u64,
    title: Seq<char>,
    status: ToolCallStatusKind,
) -> HistoryEntryView {
    match entry {
        HistoryEntryView::Tool(t) if t.stream == stream => HistoryEntryView::Tool(
            ToolCallView { title, status, ..t },
        ),
        _ => entry,
    }
}

/// An agent with each entry of its history replaced.
pub open spec fn with_entries(
    agent: AgentView,
    f: spec_fn(HistoryEntryView) -> HistoryEntryView,
) -> AgentView {
    AgentView { history: agent.history.map_values(f), ..agent }
}

impl AppView {
    /// The state with each entry of each history replaced.
    pub open spec fn with_histories(
        self,
        f: spec_fn(HistoryEntryView) -> HistoryEntryView,
    ) -> AppView {
        AppView { agents: self.agents.map_values(|a: AgentView| with_entries(a, f)), ..self }
    }

    /// The state after a text stream was looked at: the entries that follow it
    /// read as it does, wherever they stand.
    pub open spec fn stream_read(
        self,
        stream: u64,
        text: Seq<char>,
        status: MessageStatusView,
    ) -> AppView {
        self.with_histories(|e: HistoryEntryView| entry_read(e, stream, text, status))
    }

    /// The state after a tool call was looked at.
    pub open spec fn call_read(
        self,
        stream: u64,
        title: Seq<char>,
        status: ToolCallStatusKind,
    ) -> AppView {
        self.with_histories(|e: HistoryEntryView| tool_read(e, stream, title, status))
    }
}

/// Make a streamed text read as its stream does.
fn read_text(msg: &mut StreamedText, stream: u64, text: &str, status: &MessageStatus)
    ensures
        final(msg)@ == text_read(old(msg)@, stream, text@, status@),
{
    if msg.stream == stream {
        msg.text = text.to_owned();
        msg.status = clone_status(status);
    }
}

/// A copy of a status.
fn clone_status(status: &MessageStatus) -> (r: MessageStatus)
    ensures
        r@ == status@,
{
    match status {
        MessageStatus::Streaming => MessageStatus::Streaming,
        MessageStatus::Completed => MessageStatus::Completed,
        MessageStatus::Failed(reason) => MessageStatus::Failed(reason.clone()),
    }
}

/// Make an entry read as its text stream does.
fn read_entry(entry: &mut HistoryEntry, stream: u64, text: &str, status: &MessageStatus)
    ensures
        final(entry)@ == entry_read(old(entry)@, stream, text@, status@),
{
    match entry {
        HistoryEntry::Assistant(m) => read_text(m, stream, text, status),
        HistoryEntry::Thought(m) => read_text(m, stream, text, status),
        HistoryEntry::User(m) => read_text(m, stream, text, status),
        _ => {},
    }
}

/// Make an entry read as its tool call does.
fn read_tool(entry: &mut HistoryEntry, stream: u64, title: &str, status: ToolCallStatusKind)
    ensures
        final(entry)@ == tool_read(old(entry)@, stream, title@, status),
{
    match entry {
        HistoryEntry::Tool(t) => {
            if t.stream == stream {
                t.title = title.to_owned();
                t.status = status;
            }
        },
        _ => {},
    }
}

/// Make a history read as a text stream does.
fn read_history(
    history: &mut Vec<HistoryEntry>,
    stream: u64,
    text: &str,
    status: &MessageStatus,
)
    ensures
        all_views(final(history)@) == all_views(old(history)@).map_values(
            |e: HistoryEntryView| entry_read(e, stream, text@, status@),
        ),
{
    let ghost all = all_views(history@);
    let ghost f = |e: HistoryEntryView| entry_read(e, stream, text@, status@);
    let mut i: usize = 0;
    while i < history.len()
        invariant
            i <= history@.len(),
            all.len() == history@.len(),
            f == (|e: HistoryEntryView| entry_read(e, stream, text@, status@)),
            forall|j: int| 0 <= j < i ==> (#[trigger] history@[j])@ == f(all[j]),
            forall|j: int| i <= j < all.len() ==> (#[trigger] history@[j])@ == all[j],
        decreases history@.len() - i,
    {
        let ghost had = history@;
        read_entry(&mut history[i], stream, text, status);
        proof {
            assert forall|j: int| 0 <= j < all.len() && j != i implies #[trigger] history@[j]
                == had[j] by {}
        }
        i = i + 1;
    }
    proof {
        assert(all_views(history@) =~= all.map_values(f));
    }
}

/// Make a history read as a tool call does.
fn read_calls(
    history: &mut Vec<HistoryEntry>,
    stream: u64,
    title: &str,
    status: ToolCallStatusKind,
)
    ensures
        all_views(final(history)@) == all_views(old(history)@).map_values(
            |e: HistoryEntryView| tool_read(e, stream, title@, status),
        ),
{
    let ghost all = all_views(history@);
    let ghost f = |e: HistoryEntryView| tool_read(e, stream, title@, status);
    let mut i: usize = 0;
    while i < history.len()
        invariant
            i <= history@.len(),
            all.len() == history@.len(),
            f == (|e: HistoryEntryView| tool_read(e, stream, title@, status)),
            forall|j: int| 0 <= j < i ==> (#[trigger] history@[j])@ == f(all[j]),
            forall|j: int| i <= j < all.len() ==> (#[trigger] history@[j])@ == all[j],
        decreases history@.len() - i,
    {
        let ghost had = history@;
        read_tool(&mut history[i], stream, title, status);
        proof {
            assert forall|j: int| 0 <= j < all.len() && j != i implies #[trigger] history@[j]
                == had[j] by {}
        }
        i = i + 1;
    }
    proof {
        assert(all_views(history@) =~= all.map_values(f));
    }
}

impl App {
    /// Make the entries that follow a text stream read as it now does.
    pub fn read_stream(&mut self, stream: u64, text: &str, status: &MessageStatus)
        ensures
            final(self)@ == old(self)@.stream_read(stream, text@, status@),
    {
        let ghost before = self@;
        let ghost all = before.agents;
        let ghost f = |e: HistoryEntryView| entry_read(e, stream, text@, status@);
        let mut i: usize = 0;
        while i < self.agents.len()
            invariant
                i <= self.agents@.len(),
                all.len() == self.agents@.len(),
                f == (|e: HistoryEntryView| entry_read(e, stream, text@, status@)),
                all == before.agents,
                self@ == (AppView { agents: all_views(self.agents@), ..before }),
                forall|j: int| 0 <= j < i ==> (#[trigger] self.agents@[j])@ == with_entries(all[j], f),
                forall|j: int| i <= j < all.len() ==> (#[trigger] self.agents@[j])@ == all[j],
            decreases self.agents@.len() - i,
        {
            let ghost had = self.agents@;
            read_history(&mut self.agents[i].history, stream, text, status);
            proof {
                assert(self.agents@[i as int]@ =~= with_entries(all[i as int], f));
                assert forall|j: int| 0 <= j < all.len() && j != i implies #[trigger] self.agents@[j]
                    == had[j] by {}
            }
            i = i + 1;
        }
        proof {
            assert(all_views(self.agents@) =~= all.map_values(|a: AgentView| with_entries(a, f)));
        }
    }

    /// Make the entry of a tool call read as it now does.
    pub fn read_call(&mut self, stream: u64, title: &str, status: ToolCallStatusKind)
        ensures
            final(self)@ == old(self)@.call_read(stream, title@, status),
    {
        let ghost before = self@;
        let ghost all = before.agents;
        let ghost f = |e: HistoryEntryView| tool_read(e, stream, title@, status);
        let mut i: usize = 0;
        while i < self.agents.len()
            invariant
                i <= self.agents@.len(),
                all.len() == self.agents@.len(),
                f == (|e: HistoryEntryView| tool_read(e, stream, title@, status)),
                all == before.agents,
                self@ == (AppView { agents: all_views(self.agents@), ..before }),
                forall|j: int| 0 <= j < i ==> (#[trigger] self.agents@[j])@ == with_entries(all[j], f),
                forall|j: int| i <= j < all.len() ==> (#[trigger] self.agents@[j])@ == all[j],
            decreases self.agents@.len() - i,
        {
            let ghost had = self.agents@;
            read_calls(&mut self.agents[i].history, stream, title, status);
            proof {
                assert(self.agents@[i as int]@ =~= with_entries(all[i as int], f));
                assert forall|j: int| 0 <= j < all.len() && j != i implies #[trigger] self.agents@[j]
                    == had[j] by {}
            }
            i = i + 1;
        }
        proof {
            assert(all_views(self.agents@) =~= all.map_values(|a: AgentView| with_entries(a, f)));
        }
    }
}

// ─── Notifications of a container's service ────────────────────────────

/// The event of a notification, given what its parameters were read as. Other
/// notifications, and ones whose parameters cannot be read, have none.
pub open spec fn notification_event(
    agent_id: Seq<char>,
    container_id: Seq<char>,
    method: Seq<char>,
    result: Option<SearchResultParams>,
    done: Option<SearchDoneParams>,
) -> Option<AppEventView> {
    if method == FS_DID_CHANGE@ {
        Some(AppEventView::ExplorerFsChanged { agent_id, container_id })
    } else if method == FS_SEARCH_RESULT@ {
        match result {
            Some(p) => Some(
                AppEventView::SearchResults {
                    agent_id,
                    search_id: p.search_id,
                    matches: all_views(p.matches@),
                },
            ),
            None => None,
        }
    } else if method == FS_SEARCH_DONE@ {
        match done {
            Some(p) => Some(
                AppEventView::SearchDone { agent_id, search_id: p.search_id, summary: p.summary },
            ),
            None => None,
        }
    } else {
        None
    }
}

/// Route a notification of the service inside a container into the event loop.
/// `result` and `done` are what its parameters read as for the two methods that
/// have them.
pub fn event_for(
    agent_id: &str,
    container_id: &str,
    method: &str,
    result: Option<SearchResultParams>,
    done: Option<SearchDoneParams>,
) -> (r: Option<AppEvent>)
    ensures
        match r {
            Some(e) => notification_event(agent_id@, container_id@, method@, result, done) == Some(
                e@,
            ),
            None => notification_event(agent_id@, container_id@, method@, result, done) is None,
        },
{
    if same(method, FS_DID_CHANGE) {
        Some(
            AppEvent::ExplorerFsChanged {
                agent_id: agent_id.to_owned(),
                container_id: container_id.to_owned(),
            },
        )
    } else if same(method, FS_SEARCH_RESULT) {
        match result {
            Some(p) => Some(
                AppEvent::SearchResults {
                    agent_id: agent_id.to_owned(),
                    search_id: p.search_id,
                    matches: p.matches,
                },
            ),
            None => None,
        }
    } else if same(method, FS_SEARCH_DONE) {
        match done {
            Some(p) => Some(
                AppEvent::SearchDone {
                    agent_id: agent_id.to_owned(),
                    search_id: p.search_id,
                    summary: p.summary,
                },
            ),
            None => None,
        }
    } else {
        None
    }
}

// ─── Shutting down ─────────────────────────────────────────────────────

/// An agent without its task and its channel.
pub open spec fn shut_down(agent: AgentView) -> AgentView {
    AgentView { task_handle: None, prompt_tx: None, ..agent }
}

/// The tasks of agents, to be aborted.
pub open spec fn aborts(agents: Seq<AgentView>) -> Seq<EffectView>
    decreases agents.len(),
{
    if agents.len() == 0 {
        seq![]
    } else {
        let rest = aborts(agents.drop_last());
        match agents.last().task_handle {
            Some(task) => rest.push(EffectView::AbortTask { task: task.task }),
            None => rest,
        }
    }
}

/// The workspaces of agents.
pub open spec fn workspaces_of(agents: Seq<AgentView>) -> Seq<Seq<char>>
    decreases agents.len(),
{
    if agents.len() == 0 {
        seq![]
    } else {
        let rest = workspaces_of(agents.drop_last());
        match agents.last().workspace_folder {
            Some(ws) => rest.push(ws),
            None => rest,
        }
    }
}

impl App {
    /// Shut down all agents: abort their tasks and forget their channels.
    /// Returns the workspaces whose containers are to be stopped.
    pub fn shutdown_agents(&mut self) -> (r: Vec<String>)
        ensures
            final(self)@ == (AppView {
                agents: old(self)@.agents.map_values(|a: AgentView| shut_down(a)),
                effects: old(self)@.effects + aborts(old(self)@.agents),
                ..old(self)@
            }),
            views(r@) == workspaces_of(old(self)@.agents),
    {
        let ghost before = self@;
        let ghost all = before.agents;
        let mut out: Vec<String> = Vec::new();
        let mut i: usize = 0;
        proof {
            assert(all.take(0) =~= seq![]);
            assert(views(out@) =~= seq![]);
            assert(before.effects + aborts(all.take(0)) =~= before.effects);
        }
        while i < self.agents.len()
            invariant
                i <= self.agents@.len(),
                all.len() == self.agents@.len(),
                all == before.agents,
                self@ == (AppView {
                    agents: all_views(self.agents@),
                    effects: before.effects + aborts(all.take(i as int)),
                    ..before
                }),
                views(out@) == workspaces_of(all.take(i as int)),
                forall|j: int| 0 <= j < i ==> (#[trigger] self.agents@[j])@ == shut_down(all[j]),
                forall|j: int| i <= j < all.len() ==> (#[trigger] self.agents@[j])@ == all[j],
            decreases self.agents@.len() - i,
        {
            let ghost had = self.agents@;
            let ghost said = out@;
            proof {
                assert(all.take(i + 1).drop_last() =~= all.take(i as int));
                assert(all.take(i + 1).last() == all[i as int]);
                assert(self.agents@[i as int]@ == all[i as int]);
            }
            match &self.agents[i].workspace_folder {
                Some(ws) => {
                    out.push(ws.clone());
                    proof {
                        assert(views(out@) =~= views(said).push(all[i as int].workspace_folder->0));
                    }
                },
                None => {},
            }
            let task = self.agents[i].task_handle;
            self.agents[i].task_handle = None;
            self.agents[i].prompt_tx = None;
            match task {
                Some(handle) => {
                    let ghost asked = self.effects@;
                    self.effects.push(Effect::AbortTask { task: handle.task });
                    proof {
                        assert(all_views(self.effects@) =~= all_views(asked).push(
                            EffectView::AbortTask { task: handle.task },
                        ));
                        assert(before.effects + aborts(all.take(i + 1)) =~= (before.effects
                            + aborts(all.take(i as int))).push(
                            EffectView::AbortTask { task: handle.task },
                        ));
                    }
                },
                None => {},
            }
            proof {
                assert(self@.effects =~= before.effects + aborts(all.take(i + 1)));
                assert(self.agents@[i as int]@ =~= shut_down(all[i as int]));
                assert forall|j: int| 0 <= j < all.len() && j != i implies #[trigger] self.agents@[j]
                    == had[j] by {}
                assert(self@ =~= (AppView {
                    agents: all_views(self.agents@),
                    effects: before.effects + aborts(all.take(i + 1)),
                    ..before
                }));
            }
            i = i + 1;
        }
        proof {
            assert(all.take(i as int) =~= all);
            assert(all_views(self.agents@) =~= all.map_values(|a: AgentView| shut_down(a)));
        }
        out
    }
}

} // verus!
