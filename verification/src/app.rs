//! Application state machine.
//!
//! The UI is structured as two screens: an overview of all agents, and an
//! immersive view of a single one. Input handling is dispatched per-screen so
//! a keypress can never silently mutate a hidden buffer.
//!
//! The machine performs nothing itself. What it wants done it appends to
//! [`App::effects`]; outcomes come back as events.
use crate::agent::{opt_text, Agent, AgentView, HistoryEntryView};
use crate::app::actions::{agent_index, find_agent};
use crate::app::inbox::{Inbox, InboxMessageView};
use crate::config::Config;
use crate::effect::{Effect, EffectView};
use crate::event::option_views;
use crate::explorer::{fresh_explorer, ExplorerState, ExplorerView};
use crate::order::all_views;
use crate::pairing::{PairView, PairingStore};
use crate::text::views;
use crate::types::{Screen, ScreenView, SidePaneView};
use std::collections::HashSet;
use vstd::prelude::*;

pub mod actions;
pub mod commands;
pub mod explorer;
pub mod handle;
pub mod inbox;
pub mod input;
pub mod laws;
pub mod search;
pub mod session;
pub mod streams;

verus! {

/// A tool permission request waiting for the user's decision. While it is open
/// it captures all keyboard input.
#[derive(Debug)]
pub struct PendingPermission {
    pub tool_name: String,
    /// Options offered by the agent as `(id, label, kind)`. `kind` is one
    /// of `allow once`/`allow always`/`reject once`/`reject always`.
    pub options: Vec<(String, String, String)>,
    /// The channel that awaits the answer.
    pub reply: u64,
    /// Highlighted option in the popup.
    pub selected: usize,
}

pub struct PendingPermissionView {
    pub tool_name: Seq<char>,
    pub options: Seq<(Seq<char>, Seq<char>, Seq<char>)>,
    pub reply: u64,
    pub selected: usize,
}

impl View for PendingPermission {
    type V = PendingPermissionView;

    open spec fn view(&self) -> PendingPermissionView {
        PendingPermissionView {
            tool_name: self.tool_name@,
            options: option_views(self.options@),
            reply: self.reply,
            selected: self.selected,
        }
    }
}

/// The view of an optional permission request.
pub open spec fn opt_permission(o: Option<PendingPermission>) -> Option<PendingPermissionView> {
    match o {
        Some(p) => Some(p@),
        None => None,
    }
}

/// The view of an optional login.
pub open spec fn opt_auth(o: Option<(String, Vec<String>)>) -> Option<(Seq<char>, Seq<Seq<char>>)> {
    match o {
        Some(a) => Some((a.0@, views(a.1@))),
        None => None,
    }
}

/// The state of the application.
pub struct App {
    pub config: Config,
    pub agents: Vec<Agent>,
    pub screen: Screen,
    pub should_quit: bool,
    /// Text the user is composing in insert mode.
    pub input_buffer: String,
    /// When true, the user is typing a `:` command.
    pub command_mode: bool,
    /// Buffer for the current command being typed.
    pub command_buffer: String,
    /// Ephemeral status message shown in the footer.
    pub status_message: Option<String>,
    /// Set when an agent needs interactive auth: the agent and the command to
    /// run in the terminal.
    pub auth_pending: Option<(String, Vec<String>)>,
    /// Pending tool permission request awaiting user response.
    pub permission_pending: Option<PendingPermission>,
    /// Whether wire messages are logged.
    pub acp_log: bool,
    /// Optional substring of the ids of the agents whose messages are logged.
    pub acp_log_filter: Option<String>,
    /// Tree-view state for the current agent's workspace.
    pub explorer: ExplorerState,
    /// Selected index in the slash-command popover.
    pub slash_selected: usize,
    /// When true, the user is typing a workspace search query.
    pub search_mode: bool,
    /// Buffer for the search query being typed.
    pub search_query: String,
    /// Id of the next search, so that streamed results can be correlated to
    /// the pane that started them.
    pub search_next_id: u64,
    /// Messages between workspaces that await approval.
    pub inbox: Inbox,
    /// Which workspaces may message each other.
    pub pairings: PairingStore,
    /// The open MCP tunnels.
    pub mcp_tunnels: HashSet<u64>,
    /// Number of the next agent channel.
    pub next_channel: u64,
    /// What is to be done.
    pub effects: Vec<Effect>,
}

#[verifier::ext_equal]
pub struct AppView {
    pub config: Config,
    pub agents: Seq<AgentView>,
    pub screen: ScreenView,
    pub should_quit: bool,
    pub input_buffer: Seq<char>,
    pub command_mode: bool,
    pub command_buffer: Seq<char>,
    pub status_message: Option<Seq<char>>,
    pub auth_pending: Option<(Seq<char>, Seq<Seq<char>>)>,
    pub permission_pending: Option<PendingPermissionView>,
    pub acp_log: bool,
    pub acp_log_filter: Option<Seq<char>>,
    pub explorer: ExplorerView,
    pub slash_selected: usize,
    pub search_mode: bool,
    pub search_query: Seq<char>,
    pub search_next_id: u64,
    pub inbox: Seq<InboxMessageView>,
    pub pairings: Set<PairView>,
    pub mcp_tunnels: Set<u64>,
    pub next_channel: u64,
    pub effects: Seq<EffectView>,
}

impl View for App {
    type V = AppView;

    open spec fn view(&self) -> AppView {
        AppView {
            config: self.config,
            agents: all_views(self.agents@),
            screen: self.screen@,
            should_quit: self.should_quit,
            input_buffer: self.input_buffer@,
            command_mode: self.command_mode,
            command_buffer: self.command_buffer@,
            status_message: opt_text(self.status_message),
            auth_pending: opt_auth(self.auth_pending),
            permission_pending: opt_permission(self.permission_pending),
            acp_log: self.acp_log,
            acp_log_filter: opt_text(self.acp_log_filter),
            explorer: self.explorer@,
            slash_selected: self.slash_selected,
            search_mode: self.search_mode,
            search_query: self.search_query@,
            search_next_id: self.search_next_id,
            inbox: self.inbox@,
            pairings: self.pairings@,
            mcp_tunnels: self.mcp_tunnels@,
            next_channel: self.next_channel,
            effects: all_views(self.effects@),
        }
    }
}

/// The application at its start.
pub open spec fn started(
    config: Config,
    agents: Seq<AgentView>,
    pairings: Set<PairView>,
    acp_log: bool,
    acp_log_filter: Option<Seq<char>>,
) -> AppView {
    AppView {
        config,
        agents,
        screen: ScreenView::AgentList { selected: 0 },
        should_quit: false,
        input_buffer: seq![],
        command_mode: false,
        command_buffer: seq![],
        status_message: None,
        auth_pending: None,
        permission_pending: None,
        acp_log,
        acp_log_filter,
        explorer: fresh_explorer(),
        slash_selected: 0,
        search_mode: false,
        search_query: seq![],
        search_next_id: 0,
        inbox: seq![],
        pairings,
        mcp_tunnels: Set::empty(),
        next_channel: 0,
        effects: seq![],
    }
}

impl AppView {
    /// The state with a status message.
    pub open spec fn say(self, message: Seq<char>) -> AppView {
        AppView { status_message: Some(message), ..self }
    }

    /// The state with one more thing to be done.
    pub open spec fn emit(self, effect: EffectView) -> AppView {
        AppView { effects: self.effects.push(effect), ..self }
    }

    /// Index of an agent, or the number of agents.
    pub open spec fn index(self, id: Seq<char>) -> nat {
        agent_index(self.agents, id)
    }

    /// Whether there is an agent with this id.
    pub open spec fn knows(self, id: Seq<char>) -> bool {
        self.index(id) < self.agents.len()
    }

    /// The agent with this id.
    pub open spec fn agent(self, id: Seq<char>) -> AgentView {
        self.agents[self.index(id) as int]
    }

    /// The state with the agent of this id replaced.
    pub open spec fn with_agent(self, id: Seq<char>, agent: AgentView) -> AppView {
        AppView { agents: self.agents.update(self.index(id) as int, agent), ..self }
    }

    /// The state with one more entry in an agent's history, if there is such
    /// an agent.
    pub open spec fn log(self, id: Seq<char>, entry: HistoryEntryView) -> AppView {
        if self.knows(id) {
            self.with_agent(id, self.agent(id).with_entry(entry))
        } else {
            self
        }
    }

    /// The agent that is being viewed.
    pub open spec fn viewed(self) -> Option<Seq<char>> {
        match self.screen {
            ScreenView::AgentSession { agent_id, .. } => Some(agent_id),
            _ => None,
        }
    }

    /// The state with another side pane in the session.
    pub open spec fn with_pane(self, pane: Option<SidePaneView>) -> AppView {
        match self.screen {
            ScreenView::AgentSession { agent_id, focus, side_pane, scroll, input_mode } => AppView {
                screen: ScreenView::AgentSession {
                    agent_id,
                    focus,
                    side_pane: pane,
                    scroll,
                    input_mode,
                },
                ..self
            },
            _ => self,
        }
    }

    /// The side pane of the session.
    pub open spec fn pane(self) -> Option<SidePaneView> {
        match self.screen {
            ScreenView::AgentSession { side_pane, .. } => side_pane,
            _ => None,
        }
    }
}

impl App {
    /// The application at its start, without logging and without pairings.
    pub fn new(config: Config, agents: Vec<Agent>) -> (r: App)
        ensures
            r@ == started(config, all_views(agents@), Set::empty(), false, None),
    {
        App::with_acp_log(config, agents, PairingStore::new(), false, None)
    }

    /// The application at its start.
    pub fn with_acp_log(
        config: Config,
        agents: Vec<Agent>,
        pairings: PairingStore,
        acp_log: bool,
        acp_log_filter: Option<String>,
    ) -> (r: App)
        ensures
            r@ == started(
                config,
                all_views(agents@),
                pairings@,
                acp_log,
                opt_text(acp_log_filter),
            ),
    {
        let r = App {
            config,
            agents,
            screen: Screen::AgentList { selected: 0 },
            should_quit: false,
            input_buffer: String::new(),
            command_mode: false,
            command_buffer: String::new(),
            status_message: None,
            auth_pending: None,
            permission_pending: None,
            acp_log,
            acp_log_filter,
            explorer: ExplorerState::new(),
            slash_selected: 0,
            search_mode: false,
            search_query: String::new(),
            search_next_id: 0,
            inbox: Inbox::new(),
            pairings,
            mcp_tunnels: HashSet::new(),
            next_channel: 0,
            effects: Vec::new(),
        };
        proof {
            assert(r@ =~= started(
                config,
                all_views(agents@),
                pairings@,
                acp_log,
                opt_text(acp_log_filter),
            ));
        }
        r
    }

    /// Take what is to be done.
    pub fn take_effects(&mut self) -> (r: Vec<Effect>)
        ensures
            all_views(r@) == old(self)@.effects,
            final(self)@ == (AppView { effects: seq![], ..old(self)@ }),
    {
        let mut out: Vec<Effect> = Vec::new();
        std::mem::swap(&mut out, &mut self.effects);
        proof {
            assert(self@ =~= (AppView { effects: seq![], ..old(self)@ }));
        }
        out
    }

    /// Show a status message.
    pub(crate) fn say(&mut self, message: String)
        ensures
            final(self)@ == old(self)@.say(message@),
    {
        self.status_message = Some(message);
    }

    /// Ask for something to be done.
    pub(crate) fn emit(&mut self, effect: Effect)
        ensures
            final(self)@ == old(self)@.emit(effect@),
    {
        self.effects.push(effect);
        proof {
            assert(self@ =~= old(self)@.emit(effect@));
        }
    }

    /// Index of an agent, or the number of agents.
    pub(crate) fn index_of(&self, id: &str) -> (k: usize)
        ensures
            k == self@.index(id@),
            k < self.agents@.len() <==> self@.knows(id@),
            self@.agents.len() == self.agents@.len(),
            self@.knows(id@) ==> self@.agent(id@) == self.agents@[k as int]@,
            self@.knows(id@) ==> self@.agent(id@).id == id@,
    {
        find_agent(&self.agents, id)
    }

    /// Append an entry to an agent's history, if there is such an agent.
    pub(crate) fn log(&mut self, id: &str, entry: crate::agent::HistoryEntry)
        ensures
            final(self)@ == old(self)@.log(id@, entry@),
    {
        let k: usize = self.index_of(id);
        if k < self.agents.len() {
            self.agents[k].push_entry(entry);
            proof {
                assert(self@ =~= old(self)@.log(id@, entry@));
            }
        }
    }

    /// The agent that is being viewed.
    pub fn viewed_agent_id(&self) -> (r: Option<String>)
        ensures
            opt_text(r) == self@.viewed(),
    {
        match &self.screen {
            Screen::AgentSession { agent_id, .. } => Some(agent_id.clone()),
            _ => None,
        }
    }

    /// Whether this agent is being viewed.
    pub(crate) fn is_viewed(&self, id: &str) -> (r: bool)
        ensures
            r == (self@.viewed() == Some(id@)),
    {
        match &self.screen {
            Screen::AgentSession { agent_id, .. } => crate::text::same(agent_id.as_str(), id),
            _ => false,
        }
    }
}

} // verus!
