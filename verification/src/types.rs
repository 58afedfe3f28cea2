//! Screens and panes.
use crate::agent::{clone_commands, AvailableCommand, AvailableCommandView};
use crate::order::all_views;
use crate::protocol::{SearchMatch, SearchMatchView, SearchSummary};
use vstd::prelude::*;

verus! {

/// What the screen shows.
#[derive(Debug)]
pub enum Screen {
    /// All agents.
    AgentList { selected: usize },
    /// A single agent.
    AgentSession {
        agent_id: String,
        focus: SessionFocus,
        side_pane: Option<SidePane>,
        scroll: usize,
        /// When true, the user is typing a message to send to the agent.
        input_mode: bool,
    },
}

pub enum ScreenView {
    AgentList { selected: usize },
    AgentSession {
        agent_id: Seq<char>,
        focus: SessionFocus,
        side_pane: Option<SidePaneView>,
        scroll: usize,
        input_mode: bool,
    },
}

/// The view of an optional side pane.
pub open spec fn opt_pane(o: Option<SidePane>) -> Option<SidePaneView> {
    match o {
        Some(p) => Some(p@),
        None => None,
    }
}

impl View for Screen {
    type V = ScreenView;

    open spec fn view(&self) -> ScreenView {
        match self {
            Screen::AgentList { selected } => ScreenView::AgentList { selected: *selected },
            Screen::AgentSession { agent_id, focus, side_pane, scroll, input_mode } =>
                ScreenView::AgentSession {
                agent_id: agent_id@,
                focus: *focus,
                side_pane: opt_pane(*side_pane),
                scroll: *scroll,
                input_mode: *input_mode,
            },
        }
    }
}

/// The pane that keys go to.
#[derive(Debug, Clone, Copy, PartialEq, Eq, Structural)]
pub enum SessionFocus {
    Conversation,
    SidePane,
    Explorer,
}

/// The pane beside the conversation.
#[derive(Debug)]
pub enum SidePane {
    /// Auto-opened diff of a file that just changed. May be replaced whenever a
    /// fresh change event arrives.
    Diff { path: String, content: String, scroll: u16 },
    /// A file the user explicitly opened. Unlike [`SidePane::Diff`], this is
    /// not replaced by background change events.
    FileView { path: String, content: String, scroll: u16 },
    /// Browsable list of slash commands the active agent advertised.
    Commands { commands: Vec<AvailableCommand>, scroll: u16 },
    /// Streaming content-search results. `selected` is the highlighted result
    /// row; `running` is true until the terminal summary lands.
    Search {
        query: String,
        search_id: u64,
        matches: Vec<SearchMatch>,
        selected: usize,
        scroll: u16,
        running: bool,
        summary: Option<SearchSummary>,
    },
}

#[verifier::ext_equal]
pub enum SidePaneView {
    Diff { path: Seq<char>, content: Seq<char>, scroll: u16 },
    FileView { path: Seq<char>, content: Seq<char>, scroll: u16 },
    Commands { commands: Seq<AvailableCommandView>, scroll: u16 },
    Search {
        query: Seq<char>,
        search_id: u64,
        matches: Seq<SearchMatchView>,
        selected: usize,
        scroll: u16,
        running: bool,
        summary: Option<SearchSummary>,
    },
}

impl View for SidePane {
    type V = SidePaneView;

    open spec fn view(&self) -> SidePaneView {
        match self {
            SidePane::Diff { path, content, scroll } => SidePaneView::Diff {
                path: path@,
                content: content@,
                scroll: *scroll,
            },
            SidePane::FileView { path, content, scroll } => SidePaneView::FileView {
                path: path@,
                content: content@,
                scroll: *scroll,
            },
            SidePane::Commands { commands, scroll } => SidePaneView::Commands {
                commands: all_views(commands@),
                scroll: *scroll,
            },
            SidePane::Search { query, search_id, matches, selected, scroll, running, summary } =>
                SidePaneView::Search {
                query: query@,
                search_id: *search_id,
                matches: all_views(matches@),
                selected: *selected,
                scroll: *scroll,
                running: *running,
                summary: *summary,
            },
        }
    }
}

impl Clone for SidePane {
    fn clone(&self) -> (r: SidePane)
        ensures
            r@ == self@,
    {
        match self {
            SidePane::Diff { path, content, scroll } => SidePane::Diff {
                path: path.clone(),
                content: content.clone(),
                scroll: *scroll,
            },
            SidePane::FileView { path, content, scroll } => SidePane::FileView {
                path: path.clone(),
                content: content.clone(),
                scroll: *scroll,
            },
            SidePane::Commands { commands, scroll } => SidePane::Commands {
                commands: clone_commands(commands),
                scroll: *scroll,
            },
            SidePane::Search { query, search_id, matches, selected, scroll, running, summary } =>
                SidePane::Search {
                query: query.clone(),
                search_id: *search_id,
                matches: clone_matches(matches),
                selected: *selected,
                scroll: *scroll,
                running: *running,
                summary: *summary,
            },
        }
    }
}

/// Copies of all matches, in order.
fn clone_matches(v: &Vec<SearchMatch>) -> (r: Vec<SearchMatch>)
    ensures
        all_views(r@) == all_views(v@),
{
    let mut out: Vec<SearchMatch> = Vec::new();
    let mut i: usize = 0;
    while i < v.len()
        invariant
            i <= v@.len(),
            all_views(out@) == all_views(v@).take(i as int),
        decreases v@.len() - i,
    {
        let ghost had = out@;
        out.push(v[i].clone());
        proof {
            assert(all_views(out@) =~= all_views(had).push(v@[i as int]@));
            assert(all_views(v@).take(i + 1) =~= all_views(v@).take(i as int).push(v@[i as int]@));
        }
        i = i + 1;
    }
    proof {
        assert(all_views(v@).take(i as int) =~= all_views(v@));
    }
    out
}

/// A copy of an optional side pane.
pub fn clone_pane(o: &Option<SidePane>) -> (r: Option<SidePane>)
    ensures
        opt_pane(r) == opt_pane(*o),
{
    match o {
        Some(p) => Some(p.clone()),
        None => None,
    }
}

impl SidePaneView {
    /// The pane's scroll offset.
    pub open spec fn offset(self) -> u16 {
        match self {
            SidePaneView::Diff { scroll, .. } => scroll,
            SidePaneView::FileView { scroll, .. } => scroll,
            SidePaneView::Commands { scroll, .. } => scroll,
            SidePaneView::Search { scroll, .. } => scroll,
        }
    }

    /// The pane at another scroll offset.
    pub open spec fn at_offset(self, to: u16) -> SidePaneView {
        match self {
            SidePaneView::Diff { path, content, scroll } => SidePaneView::Diff {
                path,
                content,
                scroll: to,
            },
            SidePaneView::FileView { path, content, scroll } => SidePaneView::FileView {
                path,
                content,
                scroll: to,
            },
            SidePaneView::Commands { commands, scroll } => SidePaneView::Commands {
                commands,
                scroll: to,
            },
            SidePaneView::Search { query, search_id, matches, selected, scroll, running, summary } =>
                SidePaneView::Search {
                query,
                search_id,
                matches,
                selected,
                scroll: to,
                running,
                summary,
            },
        }
    }
}

impl SidePane {
    /// Mutable handle to the pane's scroll offset, for key handlers.
    pub fn scroll_mut(&mut self) -> (r: &mut u16)
        ensures
            *r == old(self)@.offset(),
            final(self)@ == old(self)@.at_offset(*final(r)),
    {
        match self {
            SidePane::Diff { scroll, .. } => scroll,
            SidePane::FileView { scroll, .. } => scroll,
            SidePane::Commands { scroll, .. } => scroll,
            SidePane::Search { scroll, .. } => scroll,
        }
    }

    /// Whether a background change event is allowed to replace this pane
    /// with an auto-diff. Only the auto-managed [`SidePane::Diff`] yields;
    /// user-opened panes keep their place.
    pub fn yields_to_auto_diff(&self) -> (r: bool)
        ensures
            r == self@ is Diff,
    {
        match self {
            SidePane::Diff { .. } => true,
            _ => false,
        }
    }
}

} // verus!
