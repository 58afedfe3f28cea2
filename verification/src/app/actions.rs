//! What each action does on each screen.
use crate::agent::{Agent, AgentView};
use crate::config::Action;
use crate::explorer::{ExplorerState, ExplorerView};
use crate::order::all_views;
use crate::text::same;
use crate::types::{
    clone_pane, opt_pane, Screen, ScreenView, SessionFocus, SidePane, SidePaneView,
};
use vstd::prelude::*;

verus! {

/// Index of the first agent with the given id, or the number of agents.
pub open spec fn agent_index(agents: Seq<AgentView>, id: Seq<char>) -> nat
    decreases agents.len(),
{
    if agents.len() == 0 || agents[0].id == id {
        0
    } else {
        1 + agent_index(agents.drop_first(), id)
    }
}

pub proof fn lemma_agent_index(agents: Seq<AgentView>, id: Seq<char>)
    ensures
        agent_index(agents, id) <= agents.len(),
        agent_index(agents, id) < agents.len() ==> agents[agent_index(agents, id) as int].id == id,
        forall|i: int| 0 <= i < agent_index(agents, id) ==> (#[trigger] agents[i]).id != id,
    decreases agents.len(),
{
    if agents.len() > 0 && agents[0].id != id {
        let t = agents.drop_first();
        lemma_agent_index(t, id);
        assert forall|i: int| 0 <= i < agent_index(agents, id) implies (#[trigger] agents[i]).id
            != id by {
            if i > 0 {
                assert(t[i - 1] == agents[i]);
            }
        }
    }
}

proof fn lemma_agent_index_is(agents: Seq<AgentView>, id: Seq<char>, k: int)
    requires
        0 <= k <= agents.len(),
        k < agents.len() ==> agents[k].id == id,
        forall|i: int| 0 <= i < k ==> (#[trigger] agents[i]).id != id,
    ensures
        agent_index(agents, id) == k,
{
    lemma_agent_index(agents, id);
}

/// Replacing an agent by one with the same id moves no agent.
pub proof fn lemma_update_keeps_index(agents: Seq<AgentView>, k: int, agent: AgentView, id: Seq<char>)
    requires
        0 <= k < agents.len(),
        agent.id == agents[k].id,
    ensures
        agent_index(agents.update(k, agent), id) == agent_index(agents, id),
{
    lemma_agent_index(agents, id);
    let n = agent_index(agents, id) as int;
    let t = agents.update(k, agent);
    assert forall|i: int| 0 <= i < n implies (#[trigger] t[i]).id != id by {
        assert(agents[i].id != id);
    }
    lemma_agent_index_is(t, id, n);
}

/// Index of the first agent with the given id, or the number of agents.
pub fn find_agent(agents: &Vec<Agent>, id: &str) -> (k: usize)
    ensures
        k == agent_index(all_views(agents@), id@),
        k <= agents@.len(),
        k < agents@.len() ==> agents@[k as int]@.id == id@,
{
    let mut i: usize = 0;
    while i < agents.len() && !same(agents[i].id.as_str(), id)
        invariant
            i <= agents@.len(),
            forall|j: int| 0 <= j < i ==> (#[trigger] all_views(agents@)[j]).id != id@,
        decreases agents@.len() - i,
    {
        proof {
            assert(all_views(agents@)[i as int].id != id@);
        }
        i = i + 1;
    }
    proof {
        if i < agents@.len() {
            assert(all_views(agents@)[i as int].id == id@);
        }
        lemma_agent_index_is(all_views(agents@), id@, i as int);
    }
    i
}

/// A session screen as it is entered.
pub open spec fn entered(agent_id: Seq<char>) -> ScreenView {
    ScreenView::AgentSession {
        agent_id,
        focus: SessionFocus::Conversation,
        side_pane: None,
        scroll: 0,
        input_mode: false,
    }
}

/// The session screen of an agent as it is entered.
pub fn enter_session(agent_id: String) -> (r: Screen)
    ensures
        r@ == entered(agent_id@),
{
    Screen::AgentSession {
        agent_id,
        focus: SessionFocus::Conversation,
        side_pane: None,
        scroll: 0,
        input_mode: false,
    }
}

/// One step forward in a ring of `n`.
pub open spec fn step_forward(at: usize, n: nat) -> usize {
    ((at + 1) % n as int) as usize
}

/// One step back in a ring of `n`.
pub open spec fn step_back(at: usize, n: nat) -> usize {
    if at == 0 {
        (n - 1) as usize
    } else {
        (at - 1) as usize
    }
}

/// One step forward in a ring of `n`.
pub fn wrap_next(at: usize, n: usize) -> (r: usize)
    requires
        n > 0,
    ensures
        r == step_forward(at, n as nat),
        r < n,
{
    let m: usize = at % n;
    proof {
        vstd::arithmetic::div_mod::lemma_add_mod_noop(at as int, 1, n as int);
        vstd::arithmetic::div_mod::lemma_mod_bound(at as int, n as int);
        if n > 1 {
            vstd::arithmetic::div_mod::lemma_small_mod(1, n as nat);
        }
        if m + 1 < n {
            vstd::arithmetic::div_mod::lemma_small_mod((m + 1) as nat, n as nat);
        } else {
            vstd::arithmetic::div_mod::lemma_mod_self_0(n as int);
        }
    }
    if m + 1 == n {
        0
    } else {
        m + 1
    }
}

/// One step back in a ring of `n`.
pub fn wrap_prev(at: usize, n: usize) -> (r: usize)
    requires
        n > 0,
    ensures
        r == step_back(at, n as nat),
{
    if at == 0 {
        n - 1
    } else {
        at - 1
    }
}

/// What an action does on the list: the selection, whether the program quits,
/// and the screen to go to.
pub open spec fn list_action(
    action: Action,
    selected: usize,
    agents: Seq<AgentView>,
    quit: bool,
) -> (usize, bool, Option<ScreenView>) {
    match action {
        Action::Quit => (selected, true, None),
        Action::Down if agents.len() > 0 => (step_forward(selected, agents.len()), quit, None),
        Action::Up if agents.len() > 0 => (step_back(selected, agents.len()), quit, None),
        Action::Activate if selected < agents.len() => (
            selected,
            quit,
            Some(entered(agents[selected as int].id)),
        ),
        _ => (selected, quit, None),
    }
}

/// Perform an action on the list of agents.
pub fn handle_list_action(
    action: Action,
    selected: &mut usize,
    agents: &Vec<Agent>,
    should_quit: &mut bool,
) -> (r: Option<Screen>)
    ensures
        ({
            let (to, quit, next) = list_action(
                action,
                *old(selected),
                all_views(agents@),
                *old(should_quit),
            );
            *final(selected) == to && *final(should_quit) == quit && opt_screen(r) == next
        }),
{
    match action {
        Action::Quit => {
            *should_quit = true;
            None
        },
        Action::Down => {
            if agents.len() > 0 {
                *selected = wrap_next(*selected, agents.len());
            }
            None
        },
        Action::Up => {
            if agents.len() > 0 {
                *selected = wrap_prev(*selected, agents.len());
            }
            None
        },
        Action::Activate => {
            if *selected < agents.len() {
                Some(enter_session(agents[*selected].id.clone()))
            } else {
                None
            }
        },
        _ => None,
    }
}

/// The view of an optional screen.
pub open spec fn opt_screen(o: Option<Screen>) -> Option<ScreenView> {
    match o {
        Some(s) => Some(s@),
        None => None,
    }
}

/// What the actions of a session work on.
#[verifier::ext_equal]
pub struct PanesView {
    pub focus: SessionFocus,
    pub side_pane: Option<SidePaneView>,
    pub scroll: usize,
    pub explorer: ExplorerView,
}

/// Whether a pane is showing.
pub open spec fn is_visible(pane: SessionFocus, explorer_open: bool, side_pane_open: bool) -> bool {
    match pane {
        SessionFocus::Conversation => true,
        SessionFocus::Explorer => explorer_open,
        SessionFocus::SidePane => side_pane_open,
    }
}

/// The pane after `pane` in the cycle conversation, explorer, side pane.
pub open spec fn cycle(pane: SessionFocus) -> SessionFocus {
    match pane {
        SessionFocus::Conversation => SessionFocus::Explorer,
        SessionFocus::Explorer => SessionFocus::SidePane,
        SessionFocus::SidePane => SessionFocus::Conversation,
    }
}

/// The next pane of the cycle that is showing.
pub open spec fn focus_after(
    current: SessionFocus,
    explorer_open: bool,
    side_pane_open: bool,
) -> SessionFocus {
    let one = cycle(current);
    let two = cycle(one);
    if is_visible(one, explorer_open, side_pane_open) {
        one
    } else if is_visible(two, explorer_open, side_pane_open) {
        two
    } else {
        SessionFocus::Conversation
    }
}

/// The pane `n` further on in the cycle.
pub open spec fn cycled(pane: SessionFocus, n: nat) -> SessionFocus
    decreases n,
{
    if n == 0 {
        pane
    } else {
        cycle(cycled(pane, (n - 1) as nat))
    }
}

/// The pane that has the focus once it moved on `n` times.
pub open spec fn focus_after_moves(
    current: SessionFocus,
    explorer_open: bool,
    side_pane_open: bool,
    n: nat,
) -> SessionFocus
    decreases n,
{
    if n == 0 {
        current
    } else {
        focus_after(
            focus_after_moves(current, explorer_open, side_pane_open, (n - 1) as nat),
            explorer_open,
            side_pane_open,
        )
    }
}

/// How many panes are showing.
pub open spec fn visible_panes(explorer_open: bool, side_pane_open: bool) -> nat {
    let explorer: nat = if explorer_open {
        1
    } else {
        0
    };
    let side_pane: nat = if side_pane_open {
        1
    } else {
        0
    };
    1 + explorer + side_pane
}

/// Tab cycle through visible panes. Skips panes that aren't currently
/// showing so the user never lands on an invisible focus target.
pub fn next_focus(
    current: SessionFocus,
    explorer_open: bool,
    side_pane_open: bool,
) -> (r: SessionFocus)
    ensures
        r == focus_after(current, explorer_open, side_pane_open),
        is_visible(r, explorer_open, side_pane_open),
{
    match current {
        SessionFocus::Conversation => {
            if explorer_open {
                SessionFocus::Explorer
            } else if side_pane_open {
                SessionFocus::SidePane
            } else {
                SessionFocus::Conversation
            }
        },
        SessionFocus::Explorer => {
            if side_pane_open {
                SessionFocus::SidePane
            } else {
                SessionFocus::Conversation
            }
        },
        SessionFocus::SidePane => SessionFocus::Conversation,
    }
}

/// The pane one row further down: a search moves its highlight, the others
/// scroll.
pub open spec fn pane_down(pane: SidePaneView) -> SidePaneView {
    match pane {
        SidePaneView::Search { query, search_id, matches, selected, scroll, running, summary } =>
            if matches.len() > 0 {
            SidePaneView::Search {
                query,
                search_id,
                matches,
                selected: if selected + 1 <= matches.len() - 1 {
                    (selected + 1) as usize
                } else {
                    (matches.len() - 1) as usize
                },
                scroll,
                running,
                summary,
            }
        } else {
            pane
        },
        _ => pane.at_offset(
            if pane.offset() < u16::MAX {
                (pane.offset() + 1) as u16
            } else {
                u16::MAX
            },
        ),
    }
}

/// The pane one row further up.
pub open spec fn pane_up(pane: SidePaneView) -> SidePaneView {
    match pane {
        SidePaneView::Search { query, search_id, matches, selected, scroll, running, summary } =>
            SidePaneView::Search {
            query,
            search_id,
            matches,
            selected: if selected > 0 {
                (selected - 1) as usize
            } else {
                0
            },
            scroll,
            running,
            summary,
        },
        _ => pane.at_offset(
            if pane.offset() > 0 {
                (pane.offset() - 1) as u16
            } else {
                0
            },
        ),
    }
}

/// One line further down in the conversation. At the follow-bottom mark it
/// stays there.
pub open spec fn scroll_down(scroll: usize) -> usize {
    if scroll < usize::MAX {
        (scroll + 1) as usize
    } else {
        usize::MAX
    }
}

/// One line further up in the conversation. While it follows the bottom, that
/// is one line above the line at the top of the viewport.
pub open spec fn scroll_up(scroll: usize, top: usize) -> usize {
    let from = if scroll == usize::MAX {
        top
    } else {
        scroll
    };
    if from > 0 {
        (from - 1) as usize
    } else {
        0
    }
}

/// The line at the top of an agent's viewport.
pub open spec fn top_line(agents: Seq<AgentView>, id: Seq<char>) -> usize {
    let k = agent_index(agents, id) as int;
    if k < agents.len() {
        agents[k].last_effective_top
    } else {
        0
    }
}

/// The explorer asked to open a search's highlighted hit.
pub open spec fn hit_opened(explorer: ExplorerView, pane: Option<SidePaneView>) -> ExplorerView {
    match pane {
        Some(SidePaneView::Search { matches, selected, .. }) if selected < matches.len() =>
            ExplorerView {
            pending_open: Some(matches[selected as int].path),
            pending_open_line: Some(matches[selected as int].line),
            ..explorer
        },
        _ => explorer,
    }
}

/// What an action does while the explorer has the focus.
pub open spec fn explorer_action(action: Action, p: PanesView) -> PanesView {
    match action {
        Action::ToggleExplorer => PanesView {
            explorer: ExplorerView { open: false, ..p.explorer },
            focus: SessionFocus::Conversation,
            ..p
        },
        Action::TogglePane => PanesView {
            focus: focus_after(p.focus, p.explorer.open, p.side_pane is Some),
            ..p
        },
        Action::Back => PanesView { focus: SessionFocus::Conversation, ..p },
        Action::Down => PanesView { explorer: p.explorer.cursor_moved(1), ..p },
        Action::Up => PanesView { explorer: p.explorer.cursor_moved(-1), ..p },
        Action::Activate => match p.explorer.selected_row() {
            None => p,
            Some(row) => if row.is_dir {
                PanesView { explorer: p.explorer.dir_toggled(), ..p }
            } else {
                PanesView {
                    explorer: ExplorerView { pending_open: Some(row.path), ..p.explorer },
                    ..p
                }
            },
        },
        _ => p,
    }
}

/// What an action does in a session: the panes, and the screen to go to.
pub open spec fn session_action(
    action: Action,
    agent_id: Seq<char>,
    p: PanesView,
    agents: Seq<AgentView>,
) -> (PanesView, Option<ScreenView>) {
    if p.focus == SessionFocus::Explorer {
        (explorer_action(action, p), None)
    } else {
        match action {
            Action::Back => {
                let k = agent_index(agents, agent_id);
                (
                    p,
                    Some(
                        ScreenView::AgentList {
                            selected: if k < agents.len() {
                                k as usize
                            } else {
                                0
                            },
                        },
                    ),
                )
            },
            Action::Insert => (
                p,
                Some(
                    ScreenView::AgentSession {
                        agent_id,
                        focus: SessionFocus::Conversation,
                        side_pane: p.side_pane,
                        scroll: p.scroll,
                        input_mode: true,
                    },
                ),
            ),
            Action::DismissPane => if p.side_pane is Some {
                (PanesView { side_pane: None, focus: SessionFocus::Conversation, ..p }, None)
            } else {
                (p, None)
            },
            Action::TogglePane => (
                PanesView {
                    focus: focus_after(p.focus, p.explorer.open, p.side_pane is Some),
                    ..p
                },
                None,
            ),
            Action::ToggleExplorer => (
                PanesView {
                    explorer: ExplorerView { open: !p.explorer.open, ..p.explorer },
                    focus: if !p.explorer.open {
                        SessionFocus::Explorer
                    } else {
                        p.focus
                    },
                    ..p
                },
                None,
            ),
            Action::Down => if p.focus == SessionFocus::SidePane && p.side_pane is Some {
                (PanesView { side_pane: Some(pane_down(p.side_pane->0)), ..p }, None)
            } else {
                (PanesView { scroll: scroll_down(p.scroll), ..p }, None)
            },
            Action::Up => if p.focus == SessionFocus::SidePane && p.side_pane is Some {
                (PanesView { side_pane: Some(pane_up(p.side_pane->0)), ..p }, None)
            } else {
                (
                    PanesView { scroll: scroll_up(p.scroll, top_line(agents, agent_id)), ..p },
                    None,
                )
            },
            Action::FollowBottom => (PanesView { scroll: usize::MAX, ..p }, None),
            Action::Activate => if p.focus == SessionFocus::SidePane {
                (PanesView { explorer: hit_opened(p.explorer, p.side_pane), ..p }, None)
            } else {
                (p, None)
            },
            _ => (p, None),
        }
    }
}

/// Perform an action while the explorer has the focus: arrows navigate the
/// tree, Enter expands directories and opens files, Back returns to the
/// conversation without closing the explorer.
pub fn handle_explorer_action(
    action: Action,
    focus: &mut SessionFocus,
    side_pane: &Option<SidePane>,
    explorer: &mut ExplorerState,
)
    ensures
        ({
            let before = PanesView {
                focus: *old(focus),
                side_pane: opt_pane(*side_pane),
                scroll: 0,
                explorer: old(explorer)@,
            };
            let after = explorer_action(action, before);
            *final(focus) == after.focus && final(explorer)@ == after.explorer
        }),
{
    match action {
        Action::ToggleExplorer => {
            explorer.open = false;
            *focus = SessionFocus::Conversation;
        },
        Action::TogglePane => {
            *focus = next_focus(*focus, explorer.open, side_pane.is_some());
        },
        Action::Back => {
            *focus = SessionFocus::Conversation;
        },
        Action::Down => {
            explorer.move_cursor(1);
        },
        Action::Up => {
            explorer.move_cursor(-1);
        },
        Action::Activate => {
            match explorer.selected_entry() {
                None => {},
                Some(entry) => {
                    if entry.is_dir {
                        explorer.toggle_selected_dir();
                    } else {
                        explorer.pending_open = Some(entry.path);
                    }
                },
            }
        },
        _ => {},
    }
}

/// Move one row further down in a pane.
fn move_down(pane: &mut SidePane)
    ensures
        final(pane)@ == pane_down(old(pane)@),
{
    match pane {
        SidePane::Search { matches, selected, .. } => {
            if matches.len() > 0 {
                let last: usize = matches.len() - 1;
                if *selected < last {
                    *selected = *selected + 1;
                } else {
                    *selected = last;
                }
            }
        },
        _ => {
            let s = pane.scroll_mut();
            if *s < u16::MAX {
                *s = *s + 1;
            }
        },
    }
}

/// Move one row further up in a pane.
fn move_up(pane: &mut SidePane)
    ensures
        final(pane)@ == pane_up(old(pane)@),
{
    match pane {
        SidePane::Search { selected, .. } => {
            if *selected > 0 {
                *selected = *selected - 1;
            }
        },
        _ => {
            let s = pane.scroll_mut();
            if *s > 0 {
                *s = *s - 1;
            }
        },
    }
}

/// Perform an action in a session.
pub fn handle_session_action(
    action: Action,
    agent_id: &str,
    focus: &mut SessionFocus,
    side_pane: &mut Option<SidePane>,
    scroll: &mut usize,
    agents: &Vec<Agent>,
    explorer: &mut ExplorerState,
) -> (r: Option<Screen>)
    ensures
        ({
            let before = PanesView {
                focus: *old(focus),
                side_pane: opt_pane(*old(side_pane)),
                scroll: *old(scroll),
                explorer: old(explorer)@,
            };
            let (after, next) = session_action(action, agent_id@, before, all_views(agents@));
            &&& *final(focus) == after.focus
            &&& opt_pane(*final(side_pane)) == after.side_pane
            &&& *final(scroll) == after.scroll
            &&& final(explorer)@ == after.explorer
            &&& opt_screen(r) == next
        }),
{
    if *focus == SessionFocus::Explorer {
        handle_explorer_action(action, focus, side_pane, explorer);
        return None;
    }
    match action {
        Action::Back => {
            let k: usize = find_agent(agents, agent_id);
            let selected: usize = if k < agents.len() {
                k
            } else {
                0
            };
            Some(Screen::AgentList { selected })
        },
        Action::Insert => Some(
            Screen::AgentSession {
                agent_id: agent_id.to_owned(),
                focus: SessionFocus::Conversation,
                side_pane: clone_pane(side_pane),
                scroll: *scroll,
                input_mode: true,
            },
        ),
        Action::DismissPane => {
            if side_pane.is_some() {
                *side_pane = None;
                *focus = SessionFocus::Conversation;
            }
            None
        },
        Action::TogglePane => {
            *focus = next_focus(*focus, explorer.open, side_pane.is_some());
            None
        },
        Action::ToggleExplorer => {
            explorer.open = !explorer.open;
            if explorer.open {
                *focus = SessionFocus::Explorer;
            }
            None
        },
        Action::Down => {
            if *focus == SessionFocus::SidePane {
                match side_pane {
                    Some(pane) => {
                        move_down(pane);
                        return None;
                    },
                    None => {},
                }
            }
            if *scroll < usize::MAX {
                *scroll = *scroll + 1;
            }
            None
        },
        Action::Up => {
            if *focus == SessionFocus::SidePane {
                match side_pane {
                    Some(pane) => {
                        move_up(pane);
                        return None;
                    },
                    None => {},
                }
            }
            let from: usize = if *scroll == usize::MAX {
                let k: usize = find_agent(agents, agent_id);
                if k < agents.len() {
                    agents[k].last_effective_top
                } else {
                    0
                }
            } else {
                *scroll
            };
            *scroll = if from > 0 {
                from - 1
            } else {
                0
            };
            None
        },
        Action::FollowBottom => {
            *scroll = usize::MAX;
            None
        },
        Action::Activate => {
            if *focus == SessionFocus::SidePane {
                match side_pane {
                    Some(SidePane::Search { matches, selected, .. }) => {
                        if *selected < matches.len() {
                            explorer.pending_open = Some(matches[*selected].path.clone());
                            explorer.pending_open_line = Some(matches[*selected].line);
                        }
                    },
                    _ => {},
                }
            }
            None
        },
        _ => None,
    }
}

} // verus!
