//! What holds of the state machine as a whole.
use crate::agent::{AgentStatus, AgentView, WorkspaceFsView};
use crate::app::actions::{
    agent_index, cycled, entered, focus_after, focus_after_moves, is_visible, lemma_agent_index,
    lemma_update_keeps_index, list_action, session_action, top_line, visible_panes, PanesView,
};
use crate::app::commands::{opened_agent, rebuilding};
use crate::app::explorer::line_offset;
use crate::app::inbox::framed;
use crate::app::AppView;
use crate::config::Action;
use crate::effect::EffectView;
use crate::event::{AppEventView, SessionEventView};
use crate::explorer::{ExplorerView, StatusKind};
use crate::keybind::{KeyCode, KeyEvent};
use crate::pairing::{linked, PairView};
use crate::protocol::{SearchMatchView, SearchSummary};
use crate::text::occurs;
use crate::types::{ScreenView, SessionFocus, SidePaneView};
use crate::workspace::agent_id_for;
use vstd::prelude::*;

pub mod asking;
pub mod files;
pub mod keys;
pub mod messages;
pub mod moves;
pub mod orders;
pub mod outcomes;
pub mod sessions;
pub mod streams;

verus! {

// ─── Keys ──────────────────────────────────────────────────────────────

/// While the permission popup is open, no key reaches anything behind it: only
/// the request itself can change, and be answered.
pub proof fn law_the_permission_popup_owns_the_keyboard(app: AppView, key: KeyEvent)
    requires
        app.permission_pending is Some,
    ensures
        ({
            let after = app.key_pressed(key);
            after == AppView {
                permission_pending: after.permission_pending,
                status_message: None,
                effects: after.effects,
                ..app
            }
        }),
{
}

/// A permission request is answered exactly once: a key either leaves it open
/// and answers nothing, or closes it and gives one answer.
pub proof fn law_a_permission_is_answered_once(app: AppView, key: KeyEvent)
    requires
        app.permission_pending is Some,
    ensures
        ({
            let after = app.key_pressed(key);
            match after.permission_pending {
                Some(perm) => after.effects == app.effects && perm.reply
                    == app.permission_pending->0.reply && perm.options
                    == app.permission_pending->0.options,
                None => after.effects.len() == app.effects.len() + 1 && after.effects.drop_last()
                    == app.effects && (after.effects.last() matches EffectView::ReplyPermission {
                    reply,
                    ..
                } && reply == app.permission_pending->0.reply),
            }
        }),
{
    let after = app.key_pressed(key);
    if after.permission_pending is None {
        assert(after.effects.drop_last() =~= app.effects);
    }
}

/// An answer to a permission request is one of the options that were offered,
/// or none.
pub proof fn law_an_answer_was_offered(app: AppView, choice: Option<nat>)
    requires
        app.permission_pending is Some,
    ensures
        match app.permission_resolved(choice).effects.last() {
            EffectView::ReplyPermission { option_id: Some(id), .. } => exists|i: int|
                0 <= i < app.permission_pending->0.options.len() && (
                #[trigger] app.permission_pending->0.options[i]).0 == id,
            EffectView::ReplyPermission { option_id: None, .. } => true,
            _ => false,
        },
{
    match choice {
        Some(i) if i < app.permission_pending->0.options.len() => {
            assert(app.permission_pending->0.options[i as int].0
                == app.permission_pending->0.options[i as int].0);
        },
        _ => {},
    }
}

/// While a message waits for approval, no key reaches the message being typed,
/// the command line, the search prompt or the screen.
pub proof fn law_the_inbox_modal_owns_the_keyboard(app: AppView, key: KeyEvent)
    requires
        app.permission_pending is None,
        app.inbox.len() > 0,
    ensures
        ({
            let after = app.key_pressed(key);
            &&& after.input_buffer == app.input_buffer
            &&& after.command_mode == app.command_mode && after.command_buffer
                == app.command_buffer
            &&& after.search_mode == app.search_mode && after.search_query == app.search_query
            &&& after.screen == app.screen
            &&& after.explorer == app.explorer
            &&& after.should_quit == app.should_quit
        }),
{
}

/// While the search prompt is open, no key reaches the message being typed, the
/// command line or the agents.
pub proof fn law_the_search_prompt_owns_the_keyboard(app: AppView, key: KeyEvent)
    requires
        app.permission_pending is None,
        app.inbox.len() == 0,
        !app.command_mode,
        app.search_mode,
    ensures
        ({
            let after = app.key_pressed(key);
            &&& after.input_buffer == app.input_buffer
            &&& after.command_mode == app.command_mode && after.command_buffer
                == app.command_buffer
            &&& after.agents == app.agents
            &&& after.should_quit == app.should_quit
        }),
{
}

/// While a message is typed, no key is taken for an action: the screen stays
/// on its agent, nothing quits, and no other buffer changes.
pub proof fn law_typing_is_not_taken_for_actions(app: AppView, key: KeyEvent)
    requires
        app.permission_pending is None,
        app.inbox.len() == 0,
        !app.command_mode,
        !app.search_mode,
        app.composing(),
    ensures
        ({
            let after = app.key_pressed(key);
            &&& after.viewed() == app.viewed()
            &&& after.should_quit == app.should_quit
            &&& after.command_mode == app.command_mode && after.command_buffer
                == app.command_buffer
            &&& after.search_mode == app.search_mode && after.search_query == app.search_query
            &&& after.explorer == app.explorer
        }),
{
}

/// Whether the buffers are the same.
pub open spec fn same_buffers(a: AppView, b: AppView) -> bool {
    a.input_buffer == b.input_buffer && a.command_buffer == b.command_buffer && a.search_query
        == b.search_query
}

proof fn lemma_buffers_connected(a: AppView, id: Seq<char>)
    ensures
        same_buffers(a, a.connected(id)),
{
    if a.knows(id) {
        let s = a.explorer_on(a.agent(id));
        assert(same_buffers(a, s));
        assert(same_buffers(s, s.agent_started(id)));
    }
}

proof fn lemma_buffers_opened(a: AppView, path: Seq<char>)
    ensures
        same_buffers(a, a.workspace_opened(path)),
{
    let id = agent_id_for(path);
    if a.knows(id) {
        lemma_buffers_connected(AppView { screen: entered(id), ..a }, id);
    } else {
        let s = AppView { agents: a.agents.push(opened_agent(path)), ..a };
        let e = EffectView::GenerateLayer { workspace: path };
        let f = EffectView::SaveWorkspaces { entries: crate::workspace::entries_of(s.agents) };
        lemma_buffers_connected(AppView { screen: entered(id), ..s.emit(e).emit(f) }, id);
    }
}

proof fn lemma_buffers_executed(a: AppView, cmd: Seq<char>)
    ensures
        same_buffers(a, a.executed(cmd)),
{
    let (verb, rest) = crate::app::commands::parsed_command(crate::text::trimmed(cmd));
    lemma_buffers_opened(a, rest);
    assert(same_buffers(a, a.workspace_closed()));
    assert(same_buffers(a, a.container_rebuilt()));
    assert(same_buffers(a, a.commands_opened()));
    assert(same_buffers(a, a.peer_connected(rest)));
    assert(same_buffers(a, a.peer_disconnected(rest)));
    assert(same_buffers(a, a.connections_shown()));
}

proof fn lemma_buffers_acted(a: AppView, action: Action)
    requires
        action != Action::Command,
    ensures
        same_buffers(a, a.acted(action)),
{
    let (s, next) = a.dispatched(action);
    assert(same_buffers(a, s));
    let t = s.gone_to(next);
    match next {
        Some(screen) => match screen {
            ScreenView::AgentSession { agent_id, .. } => {
                lemma_buffers_connected(AppView { screen, ..s }, agent_id);
            },
            _ => {},
        },
        None => {},
    }
    assert(same_buffers(s, t));
    let u = t.lost_search_cancelled(a.running_search());
    assert(same_buffers(t, u));
    assert(same_buffers(u, u.refresh_requested()));
}

/// A key press never changes a buffer that is hidden: the message changes only
/// while it is typed or when the key starts typing it, the command line only
/// while it is open or when the key opens it, and so the search query.
pub proof fn law_a_key_reaches_no_hidden_buffer(app: AppView, key: KeyEvent)
    ensures
        ({
            let after = app.key_pressed(key);
            &&& after.input_buffer != app.input_buffer ==> app.composing() || after.composing()
            &&& after.command_buffer != app.command_buffer ==> app.command_mode
                || after.command_mode
            &&& after.search_query != app.search_query ==> app.search_mode || after.search_mode
        }),
{
    let s = AppView { status_message: None, ..app };
    let after = app.key_pressed(key);
    if s.permission_pending is Some {
        assert(same_buffers(s, s.permission_key(key.code)));
    } else if s.inbox.len() > 0 {
        assert(same_buffers(s, s.inbox_resolved(true)));
        assert(same_buffers(s, s.inbox_resolved(false)));
        assert(same_buffers(s, s.inbox_key(key.code)));
    } else if s.command_mode {
        let t = AppView { command_mode: false, command_buffer: seq![], ..s }.emit(
            EffectView::ResetCompleter,
        );
        lemma_buffers_executed(t, s.command_buffer);
        assert(after == s.command_key(key.code));
        assert(after.input_buffer == s.input_buffer && after.search_query == s.search_query);
    } else if s.search_mode {
        let t = AppView { search_mode: false, search_query: seq![], ..s };
        assert(same_buffers(t, t.search_launched(s.search_query)));
        assert(after == s.search_key(key.code));
        assert(after.input_buffer == s.input_buffer && after.command_buffer == s.command_buffer);
    } else if s.composing() {
        assert(after == s.input_key(key, s.viewed()->0));
        assert(after.command_buffer == s.command_buffer && after.search_query == s.search_query);
    } else {
        match s.config.bindings.first_action(key, 0) {
            Some(action) => {
                if action != Action::Command {
                    lemma_buffers_acted(s, action);
                }
            },
            None => {
                assert(after == s.unbound_key(key));
            },
        }
    }
}

/// A key press dismisses the status message: what it does depends on nothing
/// that the message said.
pub proof fn law_a_key_dismisses_the_status_message(app: AppView, key: KeyEvent)
    ensures
        app.key_pressed(key) == (AppView { status_message: None, ..app }).key_pressed(key),
{
    assert((AppView { status_message: None, ..(AppView { status_message: None, ..app }) })
        == (AppView { status_message: None, ..app }));
}

/// What is typed on the command line is the command, and Esc forgets it.
pub proof fn law_the_command_line_takes_text(app: AppView, key: KeyEvent, c: char)
    requires
        app.permission_pending is None,
        app.inbox.len() == 0,
        app.command_mode,
    ensures
        key.code == KeyCode::Char(c) ==> app.key_pressed(key).command_buffer
            == app.command_buffer.push(c) && app.key_pressed(key).command_mode,
        key.code == KeyCode::Esc ==> app.key_pressed(key).command_buffer == Seq::<char>::empty()
            && !app.key_pressed(key).command_mode,
        key.code == KeyCode::Esc || key.code == KeyCode::Char(c) ==> app.key_pressed(key).agents
            == app.agents && app.key_pressed(key).screen == app.screen
            && app.key_pressed(key).input_buffer == app.input_buffer,
{
}

/// Sending a message empties the buffer, leaves insert mode, and gives the
/// agent the text as it was typed.
pub proof fn law_enter_sends_what_was_typed(app: AppView, id: Seq<char>)
    requires
        app.viewed() == Some(id),
        app.knows(id),
        app.input_buffer.len() > 0,
    ensures
        ({
            let after = app.message_sent(id);
            &&& after.input_buffer.len() == 0
            &&& !after.composing()
            &&& after.effects == app.effects.push(
                EffectView::SendPrompt {
                    agent_id: id,
                    channel: app.agent(id).prompt_tx,
                    text: app.input_buffer,
                },
            )
        }),
{
}

/// An empty message is not sent.
pub proof fn law_an_empty_message_is_not_sent(app: AppView, id: Seq<char>)
    requires
        app.input_buffer.len() == 0,
    ensures
        app.message_sent(id).effects == app.effects,
        app.message_sent(id).agents == app.agents,
{
}

// ─── Screens ───────────────────────────────────────────────────────────

/// Quitting is an action of the list: in a session it does nothing.
pub proof fn law_quit_only_quits_from_the_list(app: AppView)
    ensures
        app.viewed() is None ==> app.acted(Action::Quit).should_quit,
        app.viewed() is Some ==> app.acted(Action::Quit).should_quit == app.should_quit
            && app.acted(Action::Quit).viewed() == app.viewed(),
{
    match app.screen {
        ScreenView::AgentList { selected } => {},
        ScreenView::AgentSession { agent_id, focus, side_pane, scroll, input_mode } => {
            let panes = PanesView { focus, side_pane, scroll, explorer: app.explorer };
            let (after, next) = session_action(Action::Quit, agent_id, panes, app.agents);
            assert(next is None);
            assert(after.side_pane == side_pane);
        },
    }
}

/// Going back selects the agent that was viewed.
pub proof fn law_back_selects_the_agent_that_was_viewed(
    agents: Seq<AgentView>,
    id: Seq<char>,
    panes: PanesView,
)
    requires
        panes.focus != SessionFocus::Explorer,
        agent_index(agents, id) < agents.len() <= usize::MAX,
    ensures
        match session_action(Action::Back, id, panes, agents).1 {
            Some(ScreenView::AgentList { selected }) => selected < agents.len()
                && agents[selected as int].id == id,
            _ => false,
        },
{
    lemma_agent_index(agents, id);
}

/// Entering the agent that is selected and going back returns to it.
pub proof fn law_entering_and_going_back_returns(
    agents: Seq<AgentView>,
    selected: usize,
    panes: PanesView,
    quit: bool,
)
    requires
        selected < agents.len() <= usize::MAX,
        panes.focus != SessionFocus::Explorer,
        forall|i: int, j: int|
            0 <= i < j < agents.len() ==> (#[trigger] agents[i]).id != (#[trigger] agents[j]).id,
    ensures
        list_action(Action::Activate, selected, agents, quit).2 == Some(
            entered(agents[selected as int].id),
        ),
        session_action(Action::Back, agents[selected as int].id, panes, agents).1 == Some(
            ScreenView::AgentList { selected },
        ),
{
    let id = agents[selected as int].id;
    lemma_agent_index(agents, id);
    let k = agent_index(agents, id) as int;
    if k == agents.len() {
        assert(agents[selected as int].id != id);
    } else if k < selected {
        assert(agents[k].id != agents[selected as int].id);
    } else if selected < k {
        assert(agents[selected as int].id != id);
    }
}

/// Scrolling up leaves follow-bottom mode: it starts from the row that was at
/// the top. Following again undoes it.
pub proof fn law_scrolling_up_leaves_follow_bottom(
    agents: Seq<AgentView>,
    id: Seq<char>,
    panes: PanesView,
)
    requires
        panes.focus == SessionFocus::Conversation,
        panes.scroll == usize::MAX,
        top_line(agents, id) < usize::MAX,
    ensures
        ({
            let up = session_action(Action::Up, id, panes, agents).0;
            &&& up.scroll < usize::MAX
            &&& up.scroll <= top_line(agents, id)
            &&& top_line(agents, id) > 0 ==> up.scroll + 1 == top_line(agents, id)
            &&& session_action(Action::FollowBottom, id, up, agents).0.scroll == usize::MAX
        }),
{
}

/// What the runtime reports never moves the screen: the conversation stays
/// where the user scrolled it to, and a pane that the user opened stays open.
pub proof fn law_session_events_keep_the_screen(app: AppView, event: SessionEventView)
    ensures
        app.session_event(event).screen == app.screen,
        app.session_event(event).input_buffer == app.input_buffer,
        app.session_event(event).command_buffer == app.command_buffer,
        app.session_event(event).search_query == app.search_query,
{
}

/// A file that changes in the background never replaces a pane that the user
/// opened.
pub proof fn law_changes_spare_what_the_user_opened(
    app: AppView,
    path: Seq<char>,
    content: Option<Seq<char>>,
)
    requires
        app.pane() is Some,
        !(app.pane()->0 is Diff),
    ensures
        app.changed(path, content).pane() == app.pane(),
        app.changed(path, content).screen == app.screen,
{
}

/// Moving the focus on goes to the next pane of the cycle that is showing: the
/// pane that gets the focus shows, and none that shows lies between.
pub proof fn law_the_focus_skips_hidden_panes(
    current: SessionFocus,
    explorer_open: bool,
    side_pane_open: bool,
)
    ensures
        is_visible(
            focus_after(current, explorer_open, side_pane_open),
            explorer_open,
            side_pane_open,
        ),
        exists|k: nat|
            1 <= k <= 3 && #[trigger] cycled(current, k) == focus_after(
                current,
                explorer_open,
                side_pane_open,
            ) && forall|j: nat|
                1 <= j < k ==> !is_visible(
                    #[trigger] cycled(current, j),
                    explorer_open,
                    side_pane_open,
                ),
{
    reveal_with_fuel(cycled, 4);
    let k: nat = if is_visible(cycled(current, 1), explorer_open, side_pane_open) {
        1
    } else if is_visible(cycled(current, 2), explorer_open, side_pane_open) {
        2
    } else {
        3
    };
    assert(cycled(current, k) == focus_after(current, explorer_open, side_pane_open));
    assert forall|j: nat| 1 <= j < k implies !is_visible(
        #[trigger] cycled(current, j),
        explorer_open,
        side_pane_open,
    ) by {
        assert(j == 1 || j == 2);
    }
}

/// From a pane that shows, the focus comes round: moved on as many times as
/// there are panes showing, it visits each of them once and ends where it was.
pub proof fn law_the_focus_comes_round(
    current: SessionFocus,
    explorer_open: bool,
    side_pane_open: bool,
    pane: SessionFocus,
)
    requires
        is_visible(current, explorer_open, side_pane_open),
        is_visible(pane, explorer_open, side_pane_open),
    ensures
        focus_after_moves(
            current,
            explorer_open,
            side_pane_open,
            visible_panes(explorer_open, side_pane_open),
        ) == current,
        exists|i: nat|
            1 <= i <= visible_panes(explorer_open, side_pane_open) && #[trigger] focus_after_moves(
                current,
                explorer_open,
                side_pane_open,
                i,
            ) == pane,
        forall|i: nat, j: nat|
            1 <= i < j <= visible_panes(explorer_open, side_pane_open)
                ==> #[trigger] focus_after_moves(current, explorer_open, side_pane_open, i)
                != #[trigger] focus_after_moves(current, explorer_open, side_pane_open, j),
{
    reveal_with_fuel(focus_after_moves, 4);
    let n = visible_panes(explorer_open, side_pane_open);
    let one = focus_after_moves(current, explorer_open, side_pane_open, 1);
    let two = focus_after_moves(current, explorer_open, side_pane_open, 2);
    let three = focus_after_moves(current, explorer_open, side_pane_open, 3);
    assert(one == pane || (n >= 2 && two == pane) || (n >= 3 && three == pane));
    assert forall|i: nat, j: nat| 1 <= i < j <= n implies #[trigger] focus_after_moves(
        current,
        explorer_open,
        side_pane_open,
        i,
    ) != #[trigger] focus_after_moves(current, explorer_open, side_pane_open, j) by {
        assert((i == 1 && (j == 2 || j == 3)) || (i == 2 && j == 3));
    }
}

// ─── Late outcomes ─────────────────────────────────────────────────────

/// What was read of another workspace than the one that is shown changes
/// nothing.
pub proof fn law_outcomes_of_another_workspace_are_dropped(
    app: AppView,
    id: Seq<char>,
    root: Seq<char>,
    rel: Seq<char>,
    listing: Option<Seq<crate::explorer::DirEntryView>>,
    text: Option<Seq<char>>,
    scroll_to: u16,
)
    requires
        !app.explores(root),
    ensures
        app.reacted(AppEventView::ExplorerDirReady { root, rel, result: listing }) == app,
        app.reacted(
            AppEventView::ExplorerFileReady {
                agent_id: id,
                root,
                full_path: rel,
                result: text,
                scroll_to,
            },
        ) == app,
        app.reacted(
            AppEventView::ExplorerDiffReady { agent_id: id, root, full_path: rel, result: text },
        ) == app,
{
}

/// A status of another workspace, or one that was read with another flag, shows
/// nothing of what it read: it only ends the refresh.
pub proof fn law_a_stale_status_shows_nothing(
    app: AppView,
    root: Seq<char>,
    include_ignored: bool,
    result: Result<Seq<(Seq<char>, StatusKind)>, Seq<char>>,
)
    requires
        !app.explores(root) || include_ignored != app.explorer.show_ignored,
    ensures
        ({
            let after = app.status_ready(root, include_ignored, result);
            &&& after.explorer.status == app.explorer.status
            &&& after.explorer.dir_status == app.explorer.dir_status
            &&& after.explorer.last_error == app.explorer.last_error
            &&& !app.explorer.refresh_pending ==> !after.explorer.is_refreshing
        }),
{
}

/// What was read of another container than the agent's changes nothing.
pub proof fn law_outcomes_of_another_container_are_dropped(
    app: AppView,
    id: Seq<char>,
    container_id: Seq<char>,
    fs: WorkspaceFsView,
    branch: Option<Seq<char>>,
)
    requires
        !app.runs_in(id, container_id),
    ensures
        app.reacted(AppEventView::ExplorerFsReady { agent_id: id, container_id, fs }) == app,
        app.reacted(AppEventView::ExplorerFsChanged { agent_id: id, container_id }) == app,
        app.reacted(AppEventView::AgentBranchReady { agent_id: id, container_id, branch }) == app,
{
}

/// Hits and the end of another search than the one that is shown change
/// nothing.
pub proof fn law_outcomes_of_another_search_are_dropped(
    app: AppView,
    id: Seq<char>,
    search_id: u64,
    hits: Seq<SearchMatchView>,
    summary: SearchSummary,
)
    requires
        !app.shows_search(id, search_id),
    ensures
        app.reacted(AppEventView::SearchResults { agent_id: id, search_id, matches: hits }) == app,
        app.reacted(AppEventView::SearchDone { agent_id: id, search_id, summary }) == app,
{
}

/// Hits are shown in the order in which they come, and the selection stays.
pub proof fn law_hits_are_shown_in_order(
    app: AppView,
    id: Seq<char>,
    search_id: u64,
    first: Seq<SearchMatchView>,
    second: Seq<SearchMatchView>,
)
    ensures
        app.hits_added(id, search_id, first).hits_added(id, search_id, second) == app.hits_added(
            id,
            search_id,
            first + second,
        ),
{
    match app.pane() {
        Some(SidePaneView::Search { matches, .. }) => {
            assert(matches + first + second =~= matches + (first + second));
        },
        _ => {},
    }
}

/// A rebuild forgets the container: nothing shows its files any more, and
/// whatever is still read of it is dropped.
pub proof fn law_a_rebuild_drops_what_the_old_container_reports(
    app: AppView,
    id: Seq<char>,
    container_id: Seq<char>,
    fs: WorkspaceFsView,
    branch: Option<Seq<char>>,
)
    requires
        app.viewed() == Some(id),
        app.knows(id),
        app.agent(id).workspace_folder is Some,
    ensures
        ({
            let after = app.container_rebuilt();
            &&& after.knows(id)
            &&& after.agent(id).container is None
            &&& after.agent(id).explorer_fs is None
            &&& after.explorer.fs is Some ==> after.explorer.fs->0.remote is None
            &&& !after.runs_in(id, container_id)
            &&& after.reacted(AppEventView::ExplorerFsReady { agent_id: id, container_id, fs })
                == after
            &&& after.reacted(
                AppEventView::AgentBranchReady { agent_id: id, container_id, branch },
            ) == after
        }),
{
    let k = app.index(id) as int;
    lemma_agent_index(app.agents, id);
    lemma_update_keeps_index(app.agents, k, rebuilding(app.agent(id)), id);
    let after = app.container_rebuilt();
    assert(after.agents == app.agents.update(k, rebuilding(app.agent(id))));
    law_outcomes_of_another_container_are_dropped(after, id, container_id, fs, branch);
}

/// A rebuild invalidates the session, for the next start too: the agent has no
/// session any more, and that is what is stored last for its workspace.
pub proof fn law_a_rebuild_forgets_the_session(app: AppView, id: Seq<char>)
    requires
        app.viewed() == Some(id),
        app.knows(id),
        app.agent(id).workspace_folder is Some,
    ensures
        app.container_rebuilt().knows(id),
        app.container_rebuilt().agent(id).session_id is None,
        app.container_rebuilt().effects.last() == (EffectView::SaveState {
            workspace: app.agent(id).workspace_folder->0,
            session_id: None,
        }),
        app.container_rebuilt().effects.len() > app.effects.len(),
        app.container_rebuilt().effects.take(app.effects.len() as int) == app.effects,
{
    let k = app.index(id) as int;
    lemma_agent_index(app.agents, id);
    lemma_update_keeps_index(app.agents, k, rebuilding(app.agent(id)), id);
    let after = app.container_rebuilt();
    assert(after.agents == app.agents.update(k, rebuilding(app.agent(id))));
    assert(after.effects.take(app.effects.len() as int) =~= app.effects);
}

// ─── Refreshing ────────────────────────────────────────────────────────

/// Refreshes coalesce: however often one is asked for while one is in flight,
/// one is in flight and one waits.
pub proof fn law_refreshes_coalesce(app: AppView)
    requires
        app.explorer.open,
        app.explorer.fs is Some,
    ensures
        ({
            let once = app.refresh_requested();
            let twice = once.refresh_requested();
            &&& once.explorer.is_refreshing
            &&& twice.effects == once.effects
            &&& twice.explorer.refresh_pending
            &&& twice.refresh_requested() == twice
        }),
{
}

/// A refresh that waited is asked for once, as soon as the one in flight has
/// landed.
pub proof fn law_a_waiting_refresh_follows(
    app: AppView,
    root: Seq<char>,
    include_ignored: bool,
    result: Result<Seq<(Seq<char>, StatusKind)>, Seq<char>>,
)
    requires
        app.explorer.open,
        app.explorer.fs is Some,
        app.explorer.refresh_pending,
    ensures
        ({
            let after = app.status_ready(root, include_ignored, result);
            &&& after.explorer.is_refreshing
            &&& !after.explorer.refresh_pending
            &&& after.effects == app.effects.push(
                EffectView::RefreshStatus {
                    fs: app.explorer.fs->0,
                    include_ignored: app.explorer.show_ignored,
                },
            )
        }),
{
}

// ─── Searching ─────────────────────────────────────────────────────────

/// A search that is running when its pane goes is stopped.
pub proof fn law_a_search_whose_pane_is_gone_is_stopped(app: AppView, id: u64)
    requires
        app.running_search() != Some(id),
        app.explorer.fs is Some,
    ensures
        app.lost_search_cancelled(Some(id)).effects == app.effects.push(
            EffectView::CancelSearch { fs: app.explorer.fs->0, search_id: id },
        ),
{
}

/// A search that is launched is the one that runs, and it is a new one.
pub proof fn law_a_launched_search_runs(app: AppView, query: Seq<char>)
    requires
        app.viewed() is Some,
        app.explorer.fs is Some,
        app.explorer.fs->0.remote is Some,
        crate::text::trimmed(query).len() > 0,
    ensures
        app.search_launched(query).running_search() == Some(app.search_next_id),
        app.search_launched(query).search_next_id != app.search_next_id,
{
}

/// When a search replaces one that still runs, that one is stopped first.
pub proof fn law_a_replaced_search_is_stopped(app: AppView, query: Seq<char>, id: u64)
    requires
        app.running_search() == Some(id),
        app.explorer.fs is Some,
        app.explorer.fs->0.remote is Some,
        crate::text::trimmed(query).len() > 0,
    ensures
        app.search_launched(query).effects.len() == app.effects.len() + 2,
        app.search_launched(query).effects[app.effects.len() as int] == (EffectView::CancelSearch {
            fs: app.explorer.fs->0,
            search_id: id,
        }),
{
}

/// A search result opens with the line of the match at the top, up to the last
/// line that a preview can be scrolled to.
pub proof fn law_a_hit_opens_at_its_line(app: AppView, rel: Seq<char>, line: u64)
    requires
        app.explorer.fs is Some,
        app.viewed() is Some,
        1 <= line <= 65536,
    ensures
        match app.file_requested(rel, line_offset(line)).effects.last() {
            EffectView::ReadFile { rel: wanted, scroll_to, .. } => wanted == rel && scroll_to == line
                - 1,
            _ => false,
        },
{
}

// ─── Messages between workspaces ───────────────────────────────────────

/// A message between workspaces reaches nobody before the user approves it:
/// when it comes it only waits, and rejecting it only discards it.
pub proof fn law_messages_wait_for_approval(
    app: AppView,
    sender: Seq<char>,
    name: Seq<char>,
    target: Seq<char>,
    body: Seq<char>,
    thread: Seq<char>,
)
    ensures
        app.message_queued(sender, name, target, body, thread).agents == app.agents,
        app.message_queued(sender, name, target, body, thread).effects == app.effects,
        app.inbox_resolved(false).agents == app.agents,
        app.inbox_resolved(false).effects == app.effects,
        app.inbox.len() > 0 ==> app.inbox_resolved(false).inbox == app.inbox.drop_first(),
{
}

/// An approved message is given to its target, and to nobody else.
pub proof fn law_an_approved_message_reaches_its_target_alone(app: AppView, other: int)
    requires
        app.inbox.len() > 0,
        app.knows(app.inbox[0].target_id),
        0 <= other < app.agents.len(),
        other != app.index(app.inbox[0].target_id),
    ensures
        ({
            let msg = app.inbox[0];
            let after = app.inbox_resolved(true);
            &&& after.effects == app.effects.push(
                EffectView::SendPrompt {
                    agent_id: msg.target_id,
                    channel: app.agent(msg.target_id).prompt_tx,
                    text: framed(msg),
                },
            )
            &&& after.agents[other] == app.agents[other]
            &&& after.inbox == app.inbox.drop_first()
        }),
{
}

/// Messages are shown in the order in which they come: one that is queued goes
/// behind those that wait.
pub proof fn law_messages_are_shown_in_order(
    app: AppView,
    sender: Seq<char>,
    name: Seq<char>,
    target: Seq<char>,
    body: Seq<char>,
    thread: Seq<char>,
)
    requires
        app.knows(target),
    ensures
        ({
            let after = app.message_queued(sender, name, target, body, thread);
            &&& after.inbox.len() == app.inbox.len() + 1
            &&& after.inbox.drop_last() == app.inbox
            &&& after.inbox.last().body == body
            &&& after.inbox.last().thread == thread
        }),
{
    let after = app.message_queued(sender, name, target, body, thread);
    assert(after.inbox.drop_last() =~= app.inbox);
}

// ─── Workspaces ────────────────────────────────────────────────────────

/// Whether no two agents share an id.
pub open spec fn distinct_ids(agents: Seq<AgentView>) -> bool {
    forall|i: int, j: int|
        0 <= i < j < agents.len() ==> (#[trigger] agents[i]).id != (#[trigger] agents[j]).id
}

/// Making an agent the one that is worked with keeps all ids.
proof fn lemma_connected_keeps_ids(app: AppView, id: Seq<char>)
    ensures
        app.connected(id).agents.len() == app.agents.len(),
        forall|i: int|
            0 <= i < app.agents.len() ==> (#[trigger] app.connected(id).agents[i]).id
                == app.agents[i].id,
{
    if app.knows(id) {
        let s = app.explorer_on(app.agent(id));
        assert(s.agents == app.agents);
        lemma_agent_index(app.agents, id);
        let agent = AppView::without_finished_task(s.agent(id));
        let k = app.index(id) as int;
        lemma_update_keeps_index(app.agents, k, agent, id);
    }
}

/// A workspace that is opened twice has one agent: the second time its session
/// is entered again.
pub proof fn law_opening_a_workspace_twice_keeps_one_agent(app: AppView, path: Seq<char>)
    ensures
        app.workspace_opened(path).knows(agent_id_for(path)),
        app.workspace_opened(path).workspace_opened(path).agents.len()
            == app.workspace_opened(path).agents.len(),
{
    let id = agent_id_for(path);
    let once = app.workspace_opened(path);
    lemma_opened_is_known(app, path);
    lemma_connected_keeps_ids(AppView { screen: entered(id), ..once }, id);
}

/// The agent of an opened workspace is there.
proof fn lemma_opened_is_known(app: AppView, path: Seq<char>)
    ensures
        app.workspace_opened(path).knows(agent_id_for(path)),
{
    let id = agent_id_for(path);
    let base = if app.knows(id) {
        app
    } else {
        AppView { agents: app.agents.push(opened_agent(path)), ..app }
    };
    let entering = AppView { screen: entered(id), effects: app.workspace_opened(path).effects, ..base };
    lemma_agent_index(base.agents, id);
    assert(base.knows(id)) by {
        if !app.knows(id) {
            lemma_agent_index(app.agents, id);
            assert(base.agents[app.agents.len() as int].id == id);
        }
    }
    let k = agent_index(base.agents, id) as int;
    let after = app.workspace_opened(path);
    lemma_opened_ids(app, path);
    lemma_agent_index(after.agents, id);
    assert(after.agents[k].id == id);
}

/// The ids of the agents after a workspace was opened.
proof fn lemma_opened_ids(app: AppView, path: Seq<char>)
    ensures
        ({
            let id = agent_id_for(path);
            let base = if app.knows(id) {
                app.agents
            } else {
                app.agents.push(opened_agent(path))
            };
            let after = app.workspace_opened(path);
            &&& after.agents.len() == base.len()
            &&& forall|i: int|
                0 <= i < base.len() ==> (#[trigger] after.agents[i]).id == base[i].id
        }),
{
    let id = agent_id_for(path);
    if app.knows(id) {
        lemma_connected_keeps_ids(AppView { screen: entered(id), ..app }, id);
    } else {
        let s = AppView { agents: app.agents.push(opened_agent(path)), ..app };
        let t = s.emit(EffectView::GenerateLayer { workspace: path }).emit(
            EffectView::SaveWorkspaces { entries: crate::workspace::entries_of(s.agents) },
        );
        lemma_connected_keeps_ids(AppView { screen: entered(id), ..t }, id);
    }
}

/// Opening a workspace never gives two agents the same id.
pub proof fn law_opening_keeps_ids_distinct(app: AppView, path: Seq<char>)
    requires
        distinct_ids(app.agents),
    ensures
        distinct_ids(app.workspace_opened(path).agents),
{
    let id = agent_id_for(path);
    lemma_opened_ids(app, path);
    lemma_agent_index(app.agents, id);
    let after = app.workspace_opened(path).agents;
    assert forall|i: int, j: int| 0 <= i < j < after.len() implies (#[trigger] after[i]).id != (
    #[trigger] after[j]).id by {
        if j == app.agents.len() {
            assert(app.agents[i].id != id);
        }
    }
}

/// Closing a workspace removes its agent and no other.
pub proof fn law_closing_removes_the_viewed_agent(app: AppView, id: Seq<char>, other: AgentView)
    requires
        app.viewed() == Some(id),
    ensures
        !app.workspace_closed().knows(id),
        other.id != id ==> app.agents.contains(other) == app.workspace_closed().agents.contains(
            other,
        ),
        app.workspace_closed().viewed() is None,
{
    let keep = |a: AgentView| a.id != id;
    let after = app.workspace_closed();
    assert(after.agents == app.agents.filter(keep));
    app.agents.filter_lemma(keep);
    lemma_agent_index(after.agents, id);
    if after.knows(id) {
        let k = after.index(id) as int;
        assert(keep(after.agents[k]));
    }
    if other.id != id {
        if app.agents.contains(other) {
            let i = choose|i: int| 0 <= i < app.agents.len() && app.agents[i] == other;
            assert(keep(app.agents[i]));
            assert(after.agents.contains(app.agents[i]));
        }
        if after.agents.contains(other) {
            app.agents.lemma_filter_contains_rev(keep, other);
        }
    }
}

/// An agent that is connected or connecting is not started again.
pub proof fn law_an_agent_is_started_once(app: AppView, id: Seq<char>)
    requires
        app.knows(id),
    ensures
        app.agent_started(id).agent_started(id).effects == app.agent_started(id).effects,
        app.agent_started(id).agent_started(id).next_channel == app.agent_started(id).next_channel,
{
    let k = app.index(id) as int;
    lemma_agent_index(app.agents, id);
    let agent = AppView::without_finished_task(app.agent(id));
    lemma_update_keeps_index(app.agents, k, agent, id);
    let s = app.with_agent(id, agent);
    let once = app.agent_started(id);
    lemma_update_keeps_index(s.agents, k, once.agents[k], id);
}

/// The wire messages of an agent that is started are logged exactly when a log
/// was asked for and the filter, if there is one, occurs in the agent's id.
pub proof fn law_only_matching_agents_are_logged(app: AppView, id: Seq<char>)
    requires
        app.knows(id),
        app.agent_started(id).effects.len() > app.effects.len(),
    ensures
        app.agent_started(id).effects.last() matches EffectView::StartAgent { agent_id, log, .. }
            && agent_id == id && log == (app.acp_log && match app.acp_log_filter {
            Some(pattern) => occurs(pattern, id),
            None => true,
        }),
{
    lemma_agent_index(app.agents, id);
}

/// A session is resumed: when an agent whose session was opened is started
/// again after it ended, it is asked for that session.
pub proof fn law_a_session_is_resumed(app: AppView, id: Seq<char>, session: Seq<char>)
    requires
        app.knows(id),
        app.agent(id).acp_command.len() > 0,
    ensures
        ({
            let ended = app.session_connected(id, Some(session)).exited(id);
            let again = ended.agent_started(id);
            &&& again.effects.len() == ended.effects.len() + 1
            &&& again.effects.last() matches EffectView::StartAgent {
                agent_id,
                session_id,
                ..
            } && agent_id == id && session_id == Some(session)
        }),
{
    let k = app.index(id) as int;
    lemma_agent_index(app.agents, id);
    let opened = AgentView {
        status: AgentStatus::Idle,
        session_id: Some(session),
        ..app.agent(id)
    }.with_info("ACP session connected."@);
    lemma_update_keeps_index(app.agents, k, opened, id);
    let s = app.session_connected(id, Some(session));
    assert(s.agents == app.agents.update(k, opened));
    let ended = AgentView {
        status: AgentStatus::Stopped,
        prompt_tx: None,
        task_handle: None,
        explorer_fs: None,
        ..opened
    };
    lemma_update_keeps_index(s.agents, k, ended, id);
    let t = s.exited(id);
    assert(t.agents == s.agents.update(k, ended));
    assert(t.agent(id) == ended);
}

/// What follows a stream is updated in place: no entry comes or goes, and those
/// that follow another stay as they are.
pub proof fn law_a_stream_is_read_in_place(
    app: AppView,
    stream: u64,
    text: Seq<char>,
    status: crate::agent::MessageStatusView,
    agent: int,
    entry: int,
)
    requires
        0 <= agent < app.agents.len(),
        0 <= entry < app.agents[agent].history.len(),
    ensures
        ({
            let before = app.agents[agent].history;
            let after = app.stream_read(stream, text, status).agents[agent].history;
            &&& after.len() == before.len()
            &&& match before[entry] {
                crate::agent::HistoryEntryView::Assistant(m) => m.stream == stream
                    || after[entry] == before[entry],
                crate::agent::HistoryEntryView::Thought(m) => m.stream == stream || after[entry]
                    == before[entry],
                crate::agent::HistoryEntryView::User(m) => m.stream == stream || after[entry]
                    == before[entry],
                _ => after[entry] == before[entry],
            }
        }),
{
}

/// Making the explorer consistent a second time asks for nothing more.
pub proof fn law_syncing_twice_asks_once(app: AppView)
    ensures
        app.synced().synced().effects == app.synced().effects,
{
    let once = app.synced();
    if app.explorer.open {
        let s = app.pending_opened();
        crate::explorer::laws::law_a_listing_is_asked_for_once(s.explorer);
        match s.explorer.fs {
            Some(fs) if fs.remote is Some => {
                let again = once.pending_opened();
                assert(again.explorer == once.explorer);
                assert(once.explorer.missing().len() == 0);
                let none = once.explorer.missing().map_values(
                    |rel: Seq<char>| EffectView::ListDir { fs, rel },
                );
                assert(once.effects + none =~= once.effects);
            },
            _ => {},
        }
    }
}

// ─── Every step ────────────────────────────────────────────────────────

/// Whether a step keeps what every step keeps: what was asked for is still
/// asked for, the configuration is the same, and no two agents share an id if
/// none did before.
pub open spec fn keeps(before: AppView, after: AppView) -> bool {
    &&& before.effects.len() <= after.effects.len()
    &&& after.effects.take(before.effects.len() as int) == before.effects
    &&& after.config == before.config
    &&& distinct_ids(before.agents) ==> distinct_ids(after.agents)
}

/// Steps that keep it keep it together.
proof fn lemma_keeps_trans(a: AppView, b: AppView, c: AppView)
    requires
        keeps(a, b),
        keeps(b, c),
    ensures
        keeps(a, c),
{
    assert(c.effects.take(a.effects.len() as int) =~= b.effects.take(a.effects.len() as int));
}

/// A step that asks for nothing and touches no agent.
proof fn lemma_keeps_quiet(a: AppView, b: AppView)
    requires
        b.effects == a.effects,
        b.config == a.config,
        b.agents == a.agents,
    ensures
        keeps(a, b),
{
    assert(b.effects.take(a.effects.len() as int) =~= a.effects);
}

/// A step that asks for things and touches no agent.
proof fn lemma_keeps_asking(a: AppView, b: AppView)
    requires
        a.effects.len() <= b.effects.len(),
        forall|i: int| 0 <= i < a.effects.len() ==> #[trigger] b.effects[i] == a.effects[i],
        b.config == a.config,
        b.agents == a.agents,
    ensures
        keeps(a, b),
{
    assert(b.effects.take(a.effects.len() as int) =~= a.effects);
}

proof fn lemma_keeps_emit(a: AppView, e: EffectView)
    ensures
        keeps(a, a.emit(e)),
{
    assert(a.emit(e).effects.take(a.effects.len() as int) =~= a.effects);
}

/// Changing an agent keeps it, as long as its id stays.
proof fn lemma_keeps_agent(a: AppView, id: Seq<char>, agent: AgentView)
    requires
        a.knows(id),
        agent.id == id,
    ensures
        keeps(a, a.with_agent(id, agent)),
        a.with_agent(id, agent).knows(id),
        a.with_agent(id, agent).agent(id) == agent,
        a.with_agent(id, agent).index(id) == a.index(id),
{
    let b = a.with_agent(id, agent);
    let k = a.index(id) as int;
    lemma_agent_index(a.agents, id);
    lemma_update_keeps_index(a.agents, k, agent, id);
    assert(b.effects.take(a.effects.len() as int) =~= a.effects);
    assert forall|i: int, j: int|
        distinct_ids(a.agents) && 0 <= i < j < b.agents.len() implies (#[trigger] b.agents[i]).id
        != (#[trigger] b.agents[j]).id by {
        assert(a.agents[i].id != a.agents[j].id);
    }
}

proof fn lemma_keeps_log(a: AppView, id: Seq<char>, entry: crate::agent::HistoryEntryView)
    ensures
        keeps(a, a.log(id, entry)),
{
    if a.knows(id) {
        lemma_agent_index(a.agents, id);
        lemma_keeps_agent(a, id, a.agent(id).with_entry(entry));
    } else {
        lemma_keeps_quiet(a, a);
    }
}

proof fn lemma_keeps_refresh(a: AppView)
    ensures
        keeps(a, a.refresh_requested()),
        a.refresh_requested().agents == a.agents,
        a.refresh_requested().screen == a.screen,
{
    let b = a.refresh_requested();
    if b.effects.len() > a.effects.len() {
        lemma_keeps_asking(a, b);
    } else {
        lemma_keeps_quiet(a, b);
    }
}

proof fn lemma_keeps_explorer_on(a: AppView, agent: AgentView)
    ensures
        keeps(a, a.explorer_on(agent)),
        a.explorer_on(agent).agents == a.agents,
        a.explorer_on(agent).next_channel == a.next_channel,
{
    if a.shows_remote(agent) {
        lemma_keeps_quiet(a, a);
    } else {
        match agent.explorer_fs {
            Some(fs) => {
                let s = a.explorer_at(Some(fs));
                lemma_keeps_quiet(a, s);
                lemma_keeps_refresh(s);
                lemma_keeps_trans(a, s, s.refresh_requested());
            },
            None => {
                let s = a.explorer_at(crate::app::session::local_fs(agent.workspace_folder));
                lemma_keeps_quiet(a, s);
                lemma_keeps_refresh(s);
                lemma_keeps_trans(a, s, s.refresh_requested());
                match (agent.container, agent.workspace_folder) {
                    (Some(container), Some(workspace)) => {
                        let e = EffectView::ConnectService {
                            agent_id: agent.id,
                            container,
                            workspace,
                        };
                        lemma_keeps_emit(s, e);
                        lemma_keeps_emit(s.refresh_requested(), e);
                        lemma_keeps_trans(a, s, s.emit(e));
                        lemma_keeps_trans(
                            a,
                            s.refresh_requested(),
                            s.refresh_requested().emit(e),
                        );
                    },
                    _ => {},
                }
            },
        }
    }
}

proof fn lemma_keeps_started(a: AppView, id: Seq<char>)
    requires
        a.knows(id),
    ensures
        keeps(a, a.agent_started(id)),
{
    lemma_agent_index(a.agents, id);
    let agent = AppView::without_finished_task(a.agent(id));
    let s = a.with_agent(id, agent);
    lemma_keeps_agent(a, id, agent);
    let b = a.agent_started(id);
    if !(agent.prompt_tx is Some || agent.task_handle is Some || agent.acp_command.len() == 0) {
        let e = EffectView::StartAgent {
            agent_id: agent.id,
            command: agent.acp_command,
            workspace: agent.workspace_folder,
            session_id: agent.session_id,
            log: a.logs(agent.id),
            channel: a.next_channel,
        };
        let t = AppView { next_channel: b.next_channel, ..s };
        lemma_keeps_quiet(s, t);
        lemma_keeps_emit(t, e);
        let started = b.agents[a.index(id) as int];
        lemma_keeps_agent(t.emit(e), id, started);
        lemma_keeps_trans(a, s, t);
        lemma_keeps_trans(a, t, t.emit(e));
        lemma_keeps_trans(a, t.emit(e), b);
    }
}

proof fn lemma_keeps_connected(a: AppView, id: Seq<char>)
    ensures
        keeps(a, a.connected(id)),
{
    if a.knows(id) {
        let s = a.explorer_on(a.agent(id));
        lemma_keeps_explorer_on(a, a.agent(id));
        lemma_keeps_started(s, id);
        lemma_keeps_trans(a, s, s.agent_started(id));
    } else {
        lemma_keeps_quiet(a, a);
    }
}

proof fn lemma_keeps_prompted(a: AppView, id: Seq<char>, text: Seq<char>)
    ensures
        keeps(a, a.prompted(id, text)),
{
    if a.knows(id) {
        lemma_agent_index(a.agents, id);
        let agent = a.agent(id).with_entry(crate::agent::HistoryEntryView::Prompt(text));
        let s = a.with_agent(id, agent);
        lemma_keeps_agent(a, id, agent);
        let e = EffectView::SendPrompt { agent_id: id, channel: a.agent(id).prompt_tx, text };
        lemma_keeps_emit(s, e);
        lemma_keeps_trans(a, s, s.emit(e));
    } else {
        lemma_keeps_quiet(a, a);
    }
}

proof fn lemma_keeps_opened(a: AppView, path: Seq<char>)
    ensures
        keeps(a, a.workspace_opened(path)),
{
    let id = agent_id_for(path);
    let b = a.workspace_opened(path);
    if a.knows(id) {
        let s = AppView { screen: entered(id), ..a };
        lemma_keeps_quiet(a, s);
        lemma_keeps_connected(s, id);
        lemma_keeps_trans(a, s, b);
    } else {
        let s = AppView { agents: a.agents.push(opened_agent(path)), ..a };
        let e = EffectView::GenerateLayer { workspace: path };
        let f = EffectView::SaveWorkspaces { entries: crate::workspace::entries_of(s.agents) };
        let t = AppView { screen: entered(id), ..s.emit(e).emit(f) };
        lemma_keeps_connected(t, id);
        assert(b.effects.take(t.effects.len() as int) == t.effects);
        assert(b.effects.take(a.effects.len() as int) =~= t.effects.take(a.effects.len() as int));
        assert(t.effects.take(a.effects.len() as int) =~= a.effects);
        if distinct_ids(a.agents) {
            law_opening_keeps_ids_distinct(a, path);
        }
    }
}

proof fn lemma_keeps_closed(a: AppView)
    ensures
        keeps(a, a.workspace_closed()),
{
    match a.viewed() {
        None => {
            lemma_keeps_quiet(a, a.workspace_closed());
        },
        Some(id) => {
            let b = a.workspace_closed();
            assert(b.effects.take(a.effects.len() as int) =~= a.effects);
            if distinct_ids(a.agents) {
                lemma_filter_keeps_ids_distinct(a.agents, id);
            }
        },
    }
}

/// Agents that are left over have distinct ids if all had.
proof fn lemma_filter_keeps_ids_distinct(agents: Seq<AgentView>, id: Seq<char>)
    requires
        distinct_ids(agents),
    ensures
        distinct_ids(agents.filter(|a: AgentView| a.id != id)),
    decreases agents.len(),
{
    let keep = |a: AgentView| a.id != id;
    reveal(Seq::filter);
    if agents.len() > 0 {
        let rest = agents.drop_last();
        assert(distinct_ids(rest)) by {
            assert forall|i: int, j: int| 0 <= i < j < rest.len() implies (#[trigger] rest[i]).id
                != (#[trigger] rest[j]).id by {
                assert(agents[i].id != agents[j].id);
            }
        }
        lemma_filter_keeps_ids_distinct(rest, id);
        let kept = rest.filter(keep);
        let all = agents.filter(keep);
        if keep(agents.last()) {
            assert(all == kept.push(agents.last()));
            assert forall|i: int, j: int| 0 <= i < j < all.len() implies (#[trigger] all[i]).id != (
            #[trigger] all[j]).id by {
                if j == kept.len() {
                    assert(kept.contains(kept[i]));
                    rest.lemma_filter_contains_rev(keep, kept[i]);
                    let k = choose|k: int| 0 <= k < rest.len() && rest[k] == kept[i];
                    assert(agents[k].id != agents[agents.len() - 1].id);
                }
            }
        }
    }
}

proof fn lemma_keeps_rebuilt(a: AppView)
    ensures
        keeps(a, a.container_rebuilt()),
{
    let b = a.container_rebuilt();
    match a.viewed() {
        Some(id) if a.knows(id) && a.agent(id).workspace_folder is Some => {
            lemma_agent_index(a.agents, id);
            let s = match a.agent(id).task_handle {
                Some(task) => a.emit(EffectView::AbortTask { task: task.task }),
                None => a,
            };
            match a.agent(id).task_handle {
                Some(task) => lemma_keeps_emit(a, EffectView::AbortTask { task: task.task }),
                None => lemma_keeps_quiet(a, a),
            }
            let t = s.with_agent(id, rebuilding(a.agent(id)));
            lemma_keeps_agent(s, id, rebuilding(a.agent(id)));
            lemma_keeps_trans(a, s, t);
            lemma_keeps_asking(t, b);
            lemma_keeps_trans(a, t, b);
        },
        _ => {
            lemma_keeps_quiet(a, b);
        },
    }
}

proof fn lemma_keeps_pairs(a: AppView, query: Seq<char>)
    ensures
        keeps(a, a.peer_connected(query)),
        keeps(a, a.peer_disconnected(query)),
        keeps(a, a.connections_shown()),
        keeps(a, a.commands_opened()),
{
    let b = a.peer_connected(query);
    if b.effects.len() > a.effects.len() {
        lemma_keeps_asking(a, b);
    } else {
        lemma_keeps_quiet(a, b);
    }
    let c = a.peer_disconnected(query);
    if c.effects.len() > a.effects.len() {
        lemma_keeps_asking(a, c);
    } else {
        lemma_keeps_quiet(a, c);
    }
    lemma_keeps_quiet(a, a.connections_shown());
    lemma_keeps_quiet(a, a.commands_opened());
}

proof fn lemma_keeps_executed(a: AppView, cmd: Seq<char>)
    ensures
        keeps(a, a.executed(cmd)),
{
    let line = crate::text::trimmed(cmd);
    let (verb, rest) = crate::app::commands::parsed_command(line);
    let b = a.executed(cmd);
    lemma_keeps_opened(a, rest);
    lemma_keeps_closed(a);
    lemma_keeps_rebuilt(a);
    lemma_keeps_pairs(a, rest);
    if b != a.workspace_opened(rest) && b != a.workspace_closed() && b != a.container_rebuilt() && b
        != a.commands_opened() && b != a.peer_connected(rest) && b != a.peer_disconnected(rest) && b
        != a.connections_shown() {
        lemma_keeps_quiet(a, b);
    }
}

proof fn lemma_keeps_launched(a: AppView, query: Seq<char>)
    ensures
        keeps(a, a.search_launched(query)),
{
    let b = a.search_launched(query);
    if b.effects.len() == a.effects.len() {
        lemma_keeps_quiet(a, b);
    } else {
        lemma_keeps_asking(a, b);
    }
}

proof fn lemma_keeps_inbox(a: AppView, approve: bool)
    ensures
        keeps(a, a.inbox_resolved(approve)),
{
    let b = a.inbox_resolved(approve);
    if a.inbox.len() > 0 && approve {
        let msg = a.inbox[0];
        let s = AppView { inbox: a.inbox.drop_first(), ..a };
        lemma_keeps_quiet(a, s);
        lemma_keeps_prompted(s, msg.target_id, framed(msg));
        let t = s.prompted(msg.target_id, framed(msg));
        lemma_keeps_trans(a, s, t);
        if s.knows(msg.target_id) {
            lemma_keeps_quiet(t, b);
            lemma_keeps_trans(a, t, b);
        } else {
            lemma_keeps_quiet(a, b);
        }
    } else {
        lemma_keeps_quiet(a, b);
    }
}

proof fn lemma_keeps_command_key(a: AppView, code: KeyCode)
    ensures
        keeps(a, a.command_key(code)),
{
    let b = a.command_key(code);
    if code == KeyCode::Enter {
        let s = AppView { command_mode: false, command_buffer: seq![], ..a };
        let t = s.emit(EffectView::ResetCompleter);
        lemma_keeps_quiet(a, s);
        lemma_keeps_emit(s, EffectView::ResetCompleter);
        lemma_keeps_trans(a, s, t);
        lemma_keeps_executed(t, a.command_buffer);
        lemma_keeps_trans(a, t, b);
    } else if b.effects.len() > a.effects.len() {
        lemma_keeps_asking(a, b);
    } else {
        lemma_keeps_quiet(a, b);
    }
}

proof fn lemma_keeps_input_key(a: AppView, key: KeyEvent, id: Seq<char>)
    ensures
        keeps(a, a.input_key(key, id)),
{
    let b = a.input_key(key, id);
    if key.code == KeyCode::Enter && !key.modifiers.alt && !key.modifiers.shift {
        let s = a.typed(seq![]);
        lemma_keeps_quiet(a, s);
        let t = s.prompted(id, a.input_buffer);
        lemma_keeps_prompted(s, id, a.input_buffer);
        lemma_keeps_trans(a, s, t);
        if a.input_buffer.len() > 0 {
            lemma_keeps_quiet(t, b);
            lemma_keeps_trans(a, t, b);
        } else {
            lemma_keeps_quiet(a, b);
        }
    } else {
        lemma_keeps_quiet(a, b);
    }
}

proof fn lemma_keeps_unbound(a: AppView, key: KeyEvent)
    ensures
        keeps(a, a.unbound_key(key)),
{
    let b = a.unbound_key(key);
    let r = AppView {
        explorer: ExplorerView { dirs: Map::empty(), loading: Set::empty(), ..a.explorer },
        ..a
    };
    let d = AppView {
        explorer: ExplorerView { show_ignored: !a.explorer.show_ignored, ..a.explorer },
        ..a
    };
    lemma_keeps_quiet(a, r);
    lemma_keeps_refresh(r);
    lemma_keeps_trans(a, r, r.refresh_requested());
    lemma_keeps_quiet(a, d);
    lemma_keeps_refresh(d);
    lemma_keeps_trans(a, d, d.refresh_requested());
    if b != r.refresh_requested() && b != d.refresh_requested() {
        if b.effects.len() > a.effects.len() {
            lemma_keeps_asking(a, b);
        } else {
            lemma_keeps_quiet(a, b);
        }
    }
}

proof fn lemma_keeps_acted(a: AppView, action: Action)
    ensures
        keeps(a, a.acted(action)),
{
    let b = a.acted(action);
    if action == Action::Command {
        lemma_keeps_quiet(a, b);
    } else {
        let (s, next) = a.dispatched(action);
        lemma_keeps_quiet(a, s);
        let t = s.gone_to(next);
        match next {
            None => {
                lemma_keeps_quiet(s, t);
            },
            Some(screen) => {
                let at = AppView { screen, ..s };
                lemma_keeps_quiet(s, at);
                match screen {
                    ScreenView::AgentSession { agent_id, .. } => {
                        lemma_keeps_connected(at, agent_id);
                        lemma_keeps_trans(s, at, t);
                    },
                    _ => {},
                }
            },
        }
        lemma_keeps_trans(a, s, t);
        let u = t.lost_search_cancelled(a.running_search());
        if u.effects.len() > t.effects.len() {
            lemma_keeps_asking(t, u);
        } else {
            lemma_keeps_quiet(t, u);
        }
        lemma_keeps_trans(a, t, u);
        lemma_keeps_refresh(u);
        lemma_keeps_trans(a, u, u.refresh_requested());
    }
}

proof fn lemma_keeps_key(a: AppView, key: KeyEvent)
    ensures
        keeps(a, a.key_pressed(key)),
{
    let s = AppView { status_message: None, ..a };
    lemma_keeps_quiet(a, s);
    let b = a.key_pressed(key);
    if s.permission_pending is Some {
        if b.effects.len() > a.effects.len() {
            lemma_keeps_asking(s, b);
        } else {
            lemma_keeps_quiet(s, b);
        }
    } else if s.inbox.len() > 0 {
        lemma_keeps_inbox(s, true);
        lemma_keeps_inbox(s, false);
        if b != s.inbox_resolved(true) && b != s.inbox_resolved(false) {
            lemma_keeps_quiet(s, b);
        }
    } else if s.command_mode {
        lemma_keeps_command_key(s, key.code);
    } else if s.search_mode {
        if key.code == KeyCode::Enter {
            let t = AppView { search_mode: false, search_query: seq![], ..s };
            lemma_keeps_quiet(s, t);
            lemma_keeps_launched(t, s.search_query);
            lemma_keeps_trans(s, t, b);
        } else {
            lemma_keeps_quiet(s, b);
        }
    } else if s.composing() {
        lemma_keeps_input_key(s, key, s.viewed()->0);
    } else {
        match s.config.bindings.first_action(key, 0) {
            Some(action) => lemma_keeps_acted(s, action),
            None => lemma_keeps_unbound(s, key),
        }
    }
    lemma_keeps_trans(a, s, b);
}

proof fn lemma_keeps_session(a: AppView, event: SessionEventView)
    ensures
        keeps(a, a.session_event(event)),
{
    let b = a.session_event(event);
    let id = match event {
        SessionEventView::Output { agent_id, .. } => agent_id,
        SessionEventView::ContainerReady { agent_id, .. } => agent_id,
        SessionEventView::Exited { agent_id } => agent_id,
        SessionEventView::Error { agent_id, .. } => agent_id,
        SessionEventView::Connected { agent_id, .. } => agent_id,
        SessionEventView::AuthRequired { agent_id, .. } => agent_id,
        SessionEventView::PermissionRequest { agent_id, .. } => agent_id,
        SessionEventView::AssistantMessage { agent_id, .. } => agent_id,
        SessionEventView::Thought { agent_id, .. } => agent_id,
        SessionEventView::UserMessage { agent_id, .. } => agent_id,
        SessionEventView::ToolCall { agent_id, .. } => agent_id,
        SessionEventView::AvailableCommands { agent_id, .. } => agent_id,
        SessionEventView::ExplorerFs { agent_id, .. } => agent_id,
        _ => seq![],
    };
    lemma_agent_index(a.agents, id);
    // What the event does to the agent comes first, what it asks for last.
    let s = AppView { agents: b.agents, ..a };
    if a.knows(id) {
        let k = a.index(id) as int;
        assert(b.agents =~= a.agents.update(k, b.agents[k]) || b.agents == a.agents);
        assert(b.agents[k].id == id);
        if b.agents == a.agents {
            lemma_keeps_quiet(a, s);
        } else {
            lemma_keeps_agent(a, id, b.agents[k]);
            assert(s == a.with_agent(id, b.agents[k]));
        }
    } else {
        assert(b.agents == a.agents);
        lemma_keeps_quiet(a, s);
    }
    lemma_keeps_asking(s, b);
    lemma_keeps_trans(a, s, b);
}

proof fn lemma_keeps_synced(a: AppView)
    ensures
        keeps(a, a.synced()),
{
    if a.explorer.open {
        let s = a.pending_opened();
        if s.effects.len() > a.effects.len() {
            lemma_keeps_asking(a, s);
        } else {
            lemma_keeps_quiet(a, s);
        }
        let b = s.dirs_requested();
        match s.explorer.fs {
            Some(fs) if fs.remote is Some => {
                lemma_keeps_asking(s, b);
            },
            _ => lemma_keeps_quiet(s, b),
        }
        lemma_keeps_trans(a, s, b);
    } else {
        lemma_keeps_quiet(a, a);
    }
}

proof fn lemma_keeps_outcomes(a: AppView, event: AppEventView)
    requires
        !(event is Input),
        !(event is Session),
    ensures
        keeps(a, a.reacted(event)),
{
    let b = a.reacted(event);
    match event {
        AppEventView::Change { path, content } => {
            let s = AppView { screen: b.screen, ..a };
            lemma_keeps_quiet(a, s);
            lemma_keeps_refresh(s);
            lemma_keeps_trans(a, s, s.refresh_requested());
        },
        AppEventView::McpShowDiff { .. } => {
            let s = AppView { screen: b.screen, ..a };
            lemma_keeps_quiet(a, s);
            lemma_keeps_refresh(s);
            lemma_keeps_trans(a, s, s.refresh_requested());
        },
        AppEventView::McpShowFile { .. } => {
            let s = AppView { screen: b.screen, ..a };
            lemma_keeps_quiet(a, s);
            lemma_keeps_refresh(s);
            lemma_keeps_trans(a, s, s.refresh_requested());
        },
        AppEventView::McpNotify { agent_id, message } => lemma_keeps_log(
            a,
            agent_id,
            crate::agent::HistoryEntryView::Info(message),
        ),
        AppEventView::ReconnectAgent { agent_id } => lemma_keeps_connected(a, agent_id),
        AppEventView::ExplorerStatusReady { root, include_ignored, result } => {
            let s = AppView {
                explorer: if a.explores(root) && include_ignored == a.explorer.show_ignored {
                    a.explorer.with_status(result)
                } else {
                    ExplorerView { is_refreshing: false, ..a.explorer }
                },
                ..a
            };
            lemma_keeps_quiet(a, s);
            lemma_keeps_refresh(s);
            lemma_keeps_trans(a, s, s.refresh_requested());
        },
        AppEventView::ExplorerFsReady { agent_id, container_id, fs } => {
            let s = a.explorer_at(Some(fs));
            lemma_keeps_quiet(a, a);
            lemma_keeps_quiet(a, s);
            lemma_keeps_refresh(s);
            lemma_keeps_trans(a, s, s.refresh_requested());
        },
        AppEventView::ExplorerFsChanged { agent_id, container_id } => {
            let s = AppView {
                explorer: ExplorerView { dirs: Map::empty(), loading: Set::empty(), ..a.explorer },
                ..a
            };
            lemma_keeps_quiet(a, a);
            lemma_keeps_quiet(a, s);
            lemma_keeps_refresh(s);
            lemma_keeps_trans(a, s, s.refresh_requested());
        },
        AppEventView::AgentBranchReady { agent_id, container_id, branch } => {
            lemma_keeps_quiet(a, a);
            if a.runs_in(agent_id, container_id) {
                lemma_agent_index(a.agents, agent_id);
                lemma_keeps_agent(
                    a,
                    agent_id,
                    AgentView { git_branch: branch, ..a.agent(agent_id) },
                );
            }
        },
        AppEventView::TaskFinished { agent_id, task } => {
            lemma_keeps_quiet(a, a);
            if a.knows(agent_id) {
                lemma_agent_index(a.agents, agent_id);
                lemma_keeps_agent(
                    a,
                    agent_id,
                    AgentView {
                        task_handle: Some(crate::agent::TaskHandle { task, finished: true }),
                        ..a.agent(agent_id)
                    },
                );
            }
        },
        _ => {
            lemma_keeps_quiet(a, b);
        },
    }
}

/// Whatever happens, what was asked for stays asked for, the configuration
/// stays, and agents that had ids of their own still have.
pub proof fn law_every_event_keeps_what_was_asked_for(app: AppView, event: AppEventView)
    ensures
        keeps(app, app.handled(event)),
{
    let s = app.reacted(event);
    match event {
        AppEventView::Input(key) => lemma_keeps_key(app, key),
        AppEventView::Session(e) => lemma_keeps_session(app, e),
        _ => lemma_keeps_outcomes(app, event),
    }
    lemma_keeps_synced(s);
    lemma_keeps_trans(app, s, s.synced());
}

// ─── Who speaks for the user ───────────────────────────────────────────

/// Whether an effect speaks for the user: it sends a prompt to an agent or
/// answers a permission request.
pub open spec fn speaks(e: EffectView) -> bool {
    e is SendPrompt || e is ReplyPermission
}

/// Whether a step asks for nothing that speaks for the user.
pub open spec fn is_silent(before: AppView, after: AppView) -> bool {
    forall|i: int|
        before.effects.len() <= i < after.effects.len() ==> !speaks(#[trigger] after.effects[i])
}

/// Silent steps are silent together.
proof fn lemma_silent_trans(a: AppView, b: AppView, c: AppView)
    requires
        is_silent(a, b),
        is_silent(b, c),
        keeps(b, c),
    ensures
        is_silent(a, c),
{
    assert forall|i: int| a.effects.len() <= i < c.effects.len() implies !speaks(
        #[trigger] c.effects[i],
    ) by {
        if i < b.effects.len() {
            assert(c.effects.take(b.effects.len() as int)[i] == b.effects[i]);
        }
    }
}

proof fn lemma_silent_refresh(a: AppView)
    ensures
        is_silent(a, a.refresh_requested()),
{
}

proof fn lemma_silent_connected(a: AppView, id: Seq<char>)
    ensures
        is_silent(a, a.connected(id)),
{
    if a.knows(id) {
        let agent = a.agent(id);
        let s = a.explorer_on(agent);
        lemma_keeps_explorer_on(a, agent);
        if !a.shows_remote(agent) {
            match agent.explorer_fs {
                Some(fs) => lemma_silent_refresh(a.explorer_at(Some(fs))),
                None => {
                    let at = a.explorer_at(crate::app::session::local_fs(agent.workspace_folder));
                    lemma_silent_refresh(at);
                },
            }
        }
        assert(is_silent(a, s));
        lemma_keeps_started(s, id);
        assert(is_silent(s, s.agent_started(id)));
        lemma_silent_trans(a, s, s.agent_started(id));
    }
}

proof fn lemma_silent_synced(a: AppView)
    ensures
        is_silent(a, a.synced()),
{
    if a.explorer.open {
        let s = a.pending_opened();
        let b = s.dirs_requested();
        assert(is_silent(a, s));
        match s.explorer.fs {
            Some(fs) if fs.remote is Some => {
                let asked = s.explorer.missing().map_values(
                    |rel: Seq<char>| EffectView::ListDir { fs, rel },
                );
                assert forall|i: int| s.effects.len() <= i < b.effects.len() implies !speaks(
                    #[trigger] b.effects[i],
                ) by {
                    assert(b.effects[i] == asked[i - s.effects.len()]);
                }
                lemma_keeps_asking(s, b);
            },
            _ => lemma_keeps_quiet(s, b),
        }
        lemma_silent_trans(a, s, b);
    }
}

/// Only a key press speaks for the user: whatever else happens, no agent is
/// prompted and no permission request is answered.
pub proof fn law_only_keys_speak_for_the_user(app: AppView, event: AppEventView)
    requires
        !(event is Input),
    ensures
        is_silent(app, app.handled(event)),
{
    let s = app.reacted(event);
    match event {
        AppEventView::ReconnectAgent { agent_id } => lemma_silent_connected(app, agent_id),
        AppEventView::ExplorerFsReady { agent_id, container_id, fs } => {
            lemma_silent_refresh(app.explorer_at(Some(fs)));
        },
        _ => {},
    }
    assert(is_silent(app, s));
    lemma_silent_synced(s);
    lemma_keeps_synced(s);
    lemma_silent_trans(app, s, s.synced());
}

/// What connecting asks for and disconnecting undoes: the pairings are as they
/// were.
pub proof fn law_disconnecting_undoes_connecting(
    pairs: Set<PairView>,
    a: Seq<char>,
    b: Seq<char>,
)
    requires
        !linked(pairs, a, b),
        a != b,
    ensures
        pairs.insert(crate::pairing::ordered_pair(a, b)).remove(crate::pairing::ordered_pair(a, b))
            == pairs,
{
    assert(pairs.insert(crate::pairing::ordered_pair(a, b)).remove(
        crate::pairing::ordered_pair(a, b),
    ) =~= pairs);
}

} // verus!
