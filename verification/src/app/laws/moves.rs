//! What actions do: moving in the list, in a session and in its panes.
use crate::agent::{AgentView, WorkspaceFsView};
use crate::app::actions::{focus_after, lemma_agent_index, lemma_update_keeps_index};
use crate::app::laws::asking::{asks, law_a_refresh_asks_for_the_shown_workspace, refresh_of};
use crate::app::laws::keys::lemma_ring;
use crate::app::AppView;
use crate::config::Action;
use crate::effect::EffectView;
use crate::event::AppEventView;
use crate::explorer::ExplorerView;
use crate::keybind::KeyEvent;
use crate::types::{ScreenView, SessionFocus, SidePaneView};
use vstd::prelude::*;

verus! {

/// A key that is bound to an action performs it wherever nothing else has the
/// keyboard.
pub proof fn law_a_bound_key_performs_its_action(app: AppView, key: KeyEvent, action: Action)
    requires
        app.permission_pending is None,
        app.inbox.len() == 0,
        !app.command_mode,
        !app.search_mode,
        !app.composing(),
        app.config.bindings.first_action(key, 0) == Some(action),
    ensures
        app.key_pressed(key) == (AppView { status_message: None, ..app }).acted(action),
{
}

/// The action that opens the command line opens it empty, on every screen, and
/// does nothing else.
pub proof fn law_the_command_line_opens_empty(app: AppView)
    ensures
        app.acted(Action::Command) == (AppView {
            command_mode: true,
            command_buffer: Seq::empty(),
            ..app
        }),
{
}

// ─── The list ──────────────────────────────────────────────────────────

/// In the list, Down and Up move the selection by one and round at the ends,
/// quitting quits, and nothing else happens. Actions of a session do nothing
/// there.
pub proof fn law_the_list_is_moved_through(app: AppView, at: usize, action: Action)
    requires
        app.screen == (ScreenView::AgentList { selected: at }),
        at < app.agents.len() <= usize::MAX,
    ensures
        app.acted(Action::Down) == (AppView {
            screen: ScreenView::AgentList {
                selected: (if at + 1 == app.agents.len() {
                    0
                } else {
                    at + 1
                }) as usize,
            },
            ..app
        }),
        app.acted(Action::Up) == (AppView {
            screen: ScreenView::AgentList {
                selected: (if at == 0 {
                    app.agents.len() - 1
                } else {
                    at - 1
                }) as usize,
            },
            ..app
        }),
        app.acted(Action::Quit) == (AppView { should_quit: true, ..app }),
        action == Action::Left || action == Action::Right || action == Action::Back || action
            == Action::TogglePane || action == Action::DismissPane || action == Action::Insert
            || action == Action::FollowBottom ==> app.acted(action) == app,
{
    lemma_ring(at, app.agents.len());
}

/// Activating the selected agent enters its session, at its conversation and
/// without a pane, and connects it.
pub proof fn law_activating_enters_the_selected_session(app: AppView, at: usize)
    requires
        app.screen == (ScreenView::AgentList { selected: at }),
        at < app.agents.len(),
    ensures
        ({
            let id = app.agents[at as int].id;
            let entered = AppView {
                screen: ScreenView::AgentSession {
                    agent_id: id,
                    focus: SessionFocus::Conversation,
                    side_pane: None,
                    scroll: 0,
                    input_mode: false,
                },
                ..app
            };
            &&& app.acted(Action::Activate) == entered.connected(id)
            &&& app.acted(Action::Activate).viewed() == Some(id)
        }),
{
    let id = app.agents[at as int].id;
    let entered = AppView {
        screen: ScreenView::AgentSession {
            agent_id: id,
            focus: SessionFocus::Conversation,
            side_pane: None,
            scroll: 0,
            input_mode: false,
        },
        ..app
    };
    lemma_connected_screen(entered, id);
}

/// Connecting an agent stays on the screen.
pub(crate) proof fn lemma_connected_screen(app: AppView, id: Seq<char>)
    ensures
        app.connected(id).screen == app.screen,
{
    if app.knows(id) {
        let s = app.explorer_on(app.agent(id));
        assert(s.screen == app.screen);
        assert(s.agent_started(id).screen == s.screen);
    }
}

// ─── A session ─────────────────────────────────────────────────────────

/// What stopping the search of a pane that is gone asks for.
pub open spec fn stops_search(app: AppView) -> Seq<EffectView> {
    match (app.pane(), app.explorer.fs) {
        (Some(SidePaneView::Search { search_id, running, .. }), Some(fs)) if running => seq![
            EffectView::CancelSearch { fs, search_id },
        ],
        _ => seq![],
    }
}

/// Going back from a session shows the list, with the agent that was viewed
/// selected, and stops a search that still ran. All else stays as it is.
pub proof fn law_back_shows_the_list(app: AppView, id: Seq<char>)
    requires
        app.viewed() == Some(id),
        app.screen matches ScreenView::AgentSession { focus, .. } && focus
            != SessionFocus::Explorer,
        app.knows(id),
        app.agents.len() <= usize::MAX,
    ensures
        ({
            let after = app.acted(Action::Back);
            &&& after.screen matches ScreenView::AgentList { selected } && selected
                < app.agents.len() && app.agents[selected as int].id == id
            &&& after == AppView {
                screen: after.screen,
                effects: app.effects + stops_search(app),
                ..app
            }
        }),
{
    lemma_agent_index(app.agents, id);
    let after = app.acted(Action::Back);
    assert(after.effects =~= app.effects + stops_search(app));
}

/// Starting to type keeps the pane and the scroll position, and gives the
/// conversation the focus.
pub proof fn law_insert_starts_a_message(app: AppView, id: Seq<char>)
    requires
        app.viewed() == Some(id),
        app.screen matches ScreenView::AgentSession { focus, .. } && focus
            != SessionFocus::Explorer,
    ensures
        ({
            let after = app.acted(Action::Insert);
            &&& app.screen matches ScreenView::AgentSession { side_pane, scroll, .. }
                && after.screen == (ScreenView::AgentSession {
                agent_id: id,
                focus: SessionFocus::Conversation,
                side_pane,
                scroll,
                input_mode: true,
            })
            &&& after == (AppView { screen: after.screen, ..app }).connected(id)
            &&& after.input_buffer == app.input_buffer
        }),
{
    let after = app.acted(Action::Insert);
    match app.screen {
        ScreenView::AgentSession { agent_id, focus, side_pane, scroll, input_mode } => {
            let typing = ScreenView::AgentSession {
                agent_id: id,
                focus: SessionFocus::Conversation,
                side_pane,
                scroll,
                input_mode: true,
            };
            let s = AppView { screen: typing, ..app };
            lemma_connected_screen(s, id);
            if app.knows(id) {
                let t = s.explorer_on(s.agent(id));
                assert(t.input_buffer == s.input_buffer);
                assert(t.agent_started(id).input_buffer == t.input_buffer);
            }
            let (d, next) = app.dispatched(Action::Insert);
            assert(next == Some(typing));
            assert(d == app) by {
                assert(d.screen == app.screen);
                assert(d.explorer == app.explorer);
            }
            assert(s.connected(id).running_search() == app.running_search());
        },
        _ => {},
    }
}

/// A session's screen with other panes.
pub open spec fn session_with(
    screen: ScreenView,
    to: SessionFocus,
    pane: Option<SidePaneView>,
    at: usize,
) -> ScreenView {
    match screen {
        ScreenView::AgentSession { agent_id, input_mode, .. } => ScreenView::AgentSession {
            agent_id,
            focus: to,
            side_pane: pane,
            scroll: at,
            input_mode,
        },
        _ => screen,
    }
}

/// Dismissing the side pane closes it, gives the conversation the focus and
/// stops a search that still ran; without a pane it does nothing.
pub proof fn law_dismissing_closes_the_pane(app: AppView)
    requires
        app.screen matches ScreenView::AgentSession { focus, .. } && focus
            != SessionFocus::Explorer,
    ensures
        ({
            let after = app.acted(Action::DismissPane);
            &&& app.pane() is Some ==> (app.screen matches ScreenView::AgentSession { scroll, .. }
                && after == AppView {
                screen: session_with(app.screen, SessionFocus::Conversation, None, scroll),
                effects: app.effects + stops_search(app),
                ..app
            })
            &&& app.pane() is None ==> after == app
        }),
{
    let after = app.acted(Action::DismissPane);
    assert(after.effects =~= app.effects + stops_search(app));
}

/// Moving the focus changes nothing else.
pub proof fn law_moving_the_focus_changes_nothing_else(app: AppView)
    requires
        app.viewed() is Some,
    ensures
        app.screen matches ScreenView::AgentSession { focus, side_pane, scroll, .. } && app.acted(
            Action::TogglePane,
        ) == (AppView {
            screen: session_with(
                app.screen,
                focus_after(focus, app.explorer.open, side_pane is Some),
                side_pane,
                scroll,
            ),
            ..app
        }),
{
}

/// The focus goes from the conversation to the explorer, from there to the side
/// pane and from there back, and passes over what does not show.
pub proof fn law_the_focus_goes_to_the_explorer_and_then_the_side_pane(explorer: bool, pane: bool)
    ensures
        focus_after(SessionFocus::Conversation, explorer, pane) == (if explorer {
            SessionFocus::Explorer
        } else if pane {
            SessionFocus::SidePane
        } else {
            SessionFocus::Conversation
        }),
        focus_after(SessionFocus::Explorer, explorer, pane) == (if pane {
            SessionFocus::SidePane
        } else {
            SessionFocus::Conversation
        }),
        focus_after(SessionFocus::SidePane, explorer, pane) == SessionFocus::Conversation,
{
}

/// An action that means nothing where the focus is does nothing.
pub proof fn law_an_action_without_a_meaning_does_nothing(app: AppView, action: Action)
    requires
        app.screen matches ScreenView::AgentSession { focus, .. } && match action {
            Action::Quit => true,
            Action::Left => true,
            Action::Right => true,
            Action::Activate => focus == SessionFocus::Conversation,
            Action::Insert => focus == SessionFocus::Explorer,
            Action::DismissPane => focus == SessionFocus::Explorer,
            Action::FollowBottom => focus == SessionFocus::Explorer,
            _ => false,
        },
    ensures
        app.acted(action) == app,
{
}

/// In the conversation, Down and Up scroll by one line. Where the bottom is
/// followed, Up starts from the line that was at the top, and Down stays.
/// Following again goes to the bottom. Nothing else changes.
pub proof fn law_the_conversation_scrolls_by_lines(app: AppView, id: Seq<char>)
    requires
        app.viewed() == Some(id),
        app.screen matches ScreenView::AgentSession { focus, .. } && focus
            == SessionFocus::Conversation,
        app.knows(id),
    ensures
        app.screen matches ScreenView::AgentSession { focus, side_pane, scroll, .. } && {
            let top = if scroll == usize::MAX {
                app.agent(id).last_effective_top
            } else {
                scroll
            };
            &&& app.acted(Action::Down) == AppView {
                screen: session_with(
                    app.screen,
                    focus,
                    side_pane,
                    (if scroll == usize::MAX {
                        scroll as int
                    } else {
                        scroll + 1
                    }) as usize,
                ),
                ..app
            }
            &&& app.acted(Action::Up) == AppView {
                screen: session_with(
                    app.screen,
                    focus,
                    side_pane,
                    (if top == 0 {
                        0
                    } else {
                        top - 1
                    }) as usize,
                ),
                ..app
            }
            &&& app.acted(Action::FollowBottom) == AppView {
                screen: session_with(app.screen, focus, side_pane, usize::MAX),
                ..app
            }
        },
{
}

/// In a side pane of text, Down and Up scroll it by one line, and stop at its
/// first line and at the last position that there is. What it shows stays.
pub proof fn law_a_pane_of_text_scrolls_by_lines(app: AppView, pane: SidePaneView)
    requires
        app.pane() == Some(pane),
        !(pane is Search),
        app.screen matches ScreenView::AgentSession { focus, .. } && focus
            == SessionFocus::SidePane,
    ensures
        ({
            let down = app.acted(Action::Down);
            let up = app.acted(Action::Up);
            let at = scroll_of(pane);
            &&& down.pane() matches Some(p) && same_contents(pane, p) && scroll_of(p) == (if at
                == u16::MAX {
                at as int
            } else {
                at + 1
            })
            &&& up.pane() matches Some(p) && same_contents(pane, p) && scroll_of(p) == (if at == 0 {
                0
            } else {
                at - 1
            })
            &&& app.screen matches ScreenView::AgentSession { scroll, .. } && down == AppView {
                screen: session_with(app.screen, SessionFocus::SidePane, down.pane(), scroll),
                ..app
            } && up == AppView {
                screen: session_with(app.screen, SessionFocus::SidePane, up.pane(), scroll),
                ..app
            }
        }),
{
}

/// Where a pane is scrolled to.
pub open spec fn scroll_of(pane: SidePaneView) -> u16 {
    match pane {
        SidePaneView::Diff { scroll, .. } => scroll,
        SidePaneView::FileView { scroll, .. } => scroll,
        SidePaneView::Commands { scroll, .. } => scroll,
        SidePaneView::Search { scroll, .. } => scroll,
    }
}

/// Whether two panes show the same.
pub open spec fn same_contents(a: SidePaneView, b: SidePaneView) -> bool {
    match (a, b) {
        (
            SidePaneView::Diff { path, content, .. },
            SidePaneView::Diff { path: p, content: c, .. },
        ) => path == p && content == c,
        (
            SidePaneView::FileView { path, content, .. },
            SidePaneView::FileView { path: p, content: c, .. },
        ) => path == p && content == c,
        (
            SidePaneView::Commands { commands, .. },
            SidePaneView::Commands { commands: c, .. },
        ) => commands == c,
        _ => false,
    }
}

/// In the hits of a search, Down and Up move the highlight by one and stop at the
/// ends, and activating the highlighted hit asks for its file at its line.
pub proof fn law_the_hits_of_a_search_are_moved_through(app: AppView, pane: SidePaneView)
    requires
        app.pane() == Some(pane),
        app.screen matches ScreenView::AgentSession { focus, .. } && focus
            == SessionFocus::SidePane,
        pane matches SidePaneView::Search { matches, selected, .. } && selected < matches.len()
            <= usize::MAX,
    ensures
        pane matches SidePaneView::Search {
            query,
            search_id,
            matches,
            selected,
            scroll,
            running,
            summary,
        } && {
            let down = app.acted(Action::Down).pane();
            let up = app.acted(Action::Up).pane();
            let opened = app.acted(Action::Activate);
            &&& down == Some(
                SidePaneView::Search {
                    query,
                    search_id,
                    matches,
                    selected: (if selected + 1 == matches.len() {
                        selected as int
                    } else {
                        selected + 1
                    }) as usize,
                    scroll,
                    running,
                    summary,
                },
            )
            &&& up == Some(
                SidePaneView::Search {
                    query,
                    search_id,
                    matches,
                    selected: (if selected == 0 {
                        0
                    } else {
                        selected - 1
                    }) as usize,
                    scroll,
                    running,
                    summary,
                },
            )
            &&& opened == AppView {
                explorer: ExplorerView {
                    pending_open: Some(matches[selected as int].path),
                    pending_open_line: Some(matches[selected as int].line),
                    ..app.explorer
                },
                ..app
            }
        },
{
}

// ─── The explorer of a session ─────────────────────────────────────────

/// Toggling the explorer opens it where it was closed, with the focus and with
/// its git status refreshed, and closes it where it was open. Closing it from
/// within gives the conversation the focus.
pub proof fn law_the_explorer_is_toggled(app: AppView)
    requires
        app.viewed() is Some,
    ensures
        app.screen matches ScreenView::AgentSession { focus, side_pane, scroll, .. } && {
            let after = app.acted(Action::ToggleExplorer);
            let opens = !app.explorer.open && focus != SessionFocus::Explorer;
            let to = if opens {
                SessionFocus::Explorer
            } else if focus == SessionFocus::Explorer {
                SessionFocus::Conversation
            } else {
                focus
            };
            let toggled = ExplorerView { open: opens, ..app.explorer };
            &&& after.explorer.open == opens
            &&& after.explorer == ExplorerView {
                is_refreshing: after.explorer.is_refreshing,
                refresh_pending: after.explorer.refresh_pending,
                ..toggled
            }
            &&& asks(app, after, refresh_of(toggled))
            &&& after == AppView {
                screen: session_with(app.screen, to, side_pane, scroll),
                explorer: after.explorer,
                effects: after.effects,
                ..app
            }
        },
{
    match app.screen {
        ScreenView::AgentSession { agent_id, focus, side_pane, scroll, input_mode } => {
            let opens = !app.explorer.open && focus != SessionFocus::Explorer;
            let to = if opens {
                SessionFocus::Explorer
            } else if focus == SessionFocus::Explorer {
                SessionFocus::Conversation
            } else {
                focus
            };
            let s = AppView {
                screen: session_with(app.screen, to, side_pane, scroll),
                explorer: ExplorerView { open: opens, ..app.explorer },
                ..app
            };
            law_a_refresh_asks_for_the_shown_workspace(s);
            let (d, next) = app.dispatched(Action::ToggleExplorer);
            assert(next is None);
            assert(d == s);
            assert(d.running_search() == app.running_search());
        },
        _ => {},
    }
}

/// While the explorer has the focus, activating a directory expands it if it was
/// collapsed and collapses it if it was expanded, activating a file asks for that
/// file, and going back gives the conversation the focus. The screen stays on its
/// agent.
pub proof fn law_the_tree_is_worked_in(app: AppView)
    requires
        app.screen matches ScreenView::AgentSession { focus, .. } && focus
            == SessionFocus::Explorer,
    ensures
        ({
            let opened = app.acted(Action::Activate);
            match app.explorer.selected_row() {
                None => opened == app,
                Some(row) => if row.is_dir {
                    &&& opened == AppView {
                        explorer: ExplorerView {
                            expanded: opened.explorer.expanded,
                            ..app.explorer
                        },
                        ..app
                    }
                    &&& opened.explorer.expanded.contains(row.path)
                        == !app.explorer.expanded.contains(row.path)
                    &&& forall|d: Seq<char>|
                        d != row.path ==> #[trigger] opened.explorer.expanded.contains(d)
                            == app.explorer.expanded.contains(d)
                } else {
                    opened == AppView {
                        explorer: ExplorerView { pending_open: Some(row.path), ..app.explorer },
                        ..app
                    }
                },
            }
        }),
        app.screen matches ScreenView::AgentSession { side_pane, scroll, .. } && app.acted(
            Action::Back,
        ) == (AppView {
            screen: session_with(app.screen, SessionFocus::Conversation, side_pane, scroll),
            ..app
        }),
{
}

/// While the explorer has the focus, Down and Up select the next and the previous
/// row, and stop at the last and the first.
pub proof fn law_the_rows_are_moved_through(app: AppView, at: int)
    requires
        app.screen matches ScreenView::AgentSession { focus, .. } && focus
            == SessionFocus::Explorer,
        0 <= at < app.explorer.rows().len(),
        app.explorer.selected == Some(app.explorer.rows()[at].path),
        forall|i: int| 0 <= i < at ==> (#[trigger] app.explorer.rows()[i]).path
            != app.explorer.rows()[at].path,
    ensures
        ({
            let rows = app.explorer.rows();
            &&& app.acted(Action::Down) == AppView {
                explorer: ExplorerView {
                    selected: Some(
                        rows[if at + 1 == rows.len() {
                            at
                        } else {
                            at + 1
                        }].path,
                    ),
                    ..app.explorer
                },
                ..app
            }
            &&& app.acted(Action::Up) == AppView {
                explorer: ExplorerView {
                    selected: Some(
                        rows[if at == 0 {
                            at
                        } else {
                            at - 1
                        }].path,
                    ),
                    ..app.explorer
                },
                ..app
            }
        }),
{
    let rows = app.explorer.rows();
    lemma_first_row(rows, at);
}

proof fn lemma_first_row(rows: Seq<crate::explorer::EntryRowView>, at: int)
    requires
        0 <= at < rows.len(),
        forall|i: int| 0 <= i < at ==> (#[trigger] rows[i]).path != rows[at].path,
    ensures
        crate::explorer::row_index(rows, rows[at].path) == at,
    decreases rows.len(),
{
    if at > 0 {
        let rest = rows.drop_first();
        assert(rows[0].path != rows[at].path);
        assert(rest[at - 1] == rows[at]);
        assert forall|i: int| 0 <= i < at - 1 implies (#[trigger] rest[i]).path
            != rest[at - 1].path by {
            assert(rest[i] == rows[i + 1]);
        }
        lemma_first_row(rest, at - 1);
    }
}

/// Connecting an agent that is not in the fleet does nothing.
pub proof fn law_an_unknown_agent_is_not_connected(app: AppView, id: Seq<char>)
    requires
        !app.knows(id),
    ensures
        app.connected(id) == app,
        app.reacted(AppEventView::ReconnectAgent { agent_id: id }) == app,
{
}

/// Making an agent the one that is worked with shows its workspace: the files
/// inside its container once they were delivered, and otherwise the host's. While
/// only the host's are there, the service inside a container that is up is asked
/// for.
pub proof fn law_connecting_shows_the_agents_workspace(app: AppView, id: Seq<char>)
    requires
        app.knows(id),
    ensures
        ({
            let agent = app.agent(id);
            let after = app.connected(id);
            let inside = match (app.explorer.fs, agent.workspace_folder) {
                (Some(fs), Some(root)) => fs.remote is Some && fs.root == root,
                _ => false,
            };
            &&& app.reacted(AppEventView::ReconnectAgent { agent_id: id }) == after
            &&& after.explorer.open == app.explorer.open
            &&& inside ==> after.explorer == app.explorer
            &&& !inside && agent.explorer_fs is Some ==> after.explorer.fs == agent.explorer_fs
            &&& !inside && agent.explorer_fs is None ==> after.explorer.fs == (match agent.workspace_folder {
                Some(root) => Some(WorkspaceFsView { root, remote: None }),
                None => None,
            })
            &&& (!inside && agent.explorer_fs is None && agent.container is Some
                && agent.workspace_folder is Some) ==> after.effects.contains(
                EffectView::ConnectService {
                    agent_id: id,
                    container: agent.container->0,
                    workspace: agent.workspace_folder->0,
                },
            )
            &&& after == AppView {
                agents: after.agents,
                explorer: after.explorer,
                next_channel: after.next_channel,
                effects: after.effects,
                ..app
            }
        }),
{
    lemma_agent_index(app.agents, id);
    let agent = app.agent(id);
    let s = app.explorer_on(agent);
    let after = app.connected(id);
    assert(after.explorer == s.explorer);
    if !app.shows_remote(agent) && agent.explorer_fs is None && agent.container is Some
        && agent.workspace_folder is Some {
        let wanted = EffectView::ConnectService {
            agent_id: id,
            container: agent.container->0,
            workspace: agent.workspace_folder->0,
        };
        assert(s.effects.last() == wanted);
        let n = s.effects.len() - 1;
        assert(after.effects[n] == s.effects[n]);
        assert(after.effects[n] == wanted);
    }
}

/// Connecting an agent asks first for the git status of what the open explorer
/// then shows, wherever it shows other files than before.
pub proof fn law_connecting_reads_the_status_of_what_is_shown(
    app: AppView,
    id: Seq<char>,
    fs: WorkspaceFsView,
)
    requires
        app.knows(id),
        app.explorer.open,
        !app.explorer.is_refreshing,
        app.connected(id).explorer.fs == Some(fs),
        match app.explorer.fs {
            None => true,
            Some(was) => was.root != fs.root,
        },
    ensures
        ({
            let n = app.effects.len() as int;
            let after = app.connected(id);
            &&& after.effects.len() > n
            &&& after.effects[n] == (EffectView::RefreshStatus {
                fs,
                include_ignored: app.explorer.show_ignored,
            })
            &&& after.explorer.is_refreshing
        }),
{
    let agent = app.agent(id);
    let s = app.explorer_on(agent);
    let after = app.connected(id);
    assert(after.explorer == s.explorer);
    assert(!app.shows_remote(agent));
    let n = app.effects.len() as int;
    let asked = EffectView::RefreshStatus { fs, include_ignored: app.explorer.show_ignored };
    match agent.explorer_fs {
        Some(f) => {
            let t = app.explorer_at(Some(f));
            assert(t.refresh_requested().effects == app.effects.push(asked));
        },
        None => {
            let t = app.explorer_at(crate::app::session::local_fs(agent.workspace_folder));
            assert(t.explorer.fs == Some(fs));
            assert(t.explorer.status.is_empty());
            assert(t.refresh_requested().effects == app.effects.push(asked));
        },
    }
    assert(s.effects.len() > n && s.effects[n] == asked);
    assert(after.effects[n] == s.effects[n]);
}

/// Whether an agent can be started: it has a command, and is neither connected nor
/// has a task that still runs.
pub open spec fn is_startable(agent: AgentView) -> bool {
    &&& agent.acp_command.len() > 0
    &&& agent.prompt_tx is None
    &&& agent.task_handle is None || (agent.task_handle->0).finished
}

/// Connecting an agent asks for nothing but this, in this order: the git status of
/// what is then shown, the service inside its container while only the host's
/// files are shown, and its start if it can be started. An agent whose files inside
/// the container are shown already is only started.
pub proof fn law_connecting_asks_for_what_is_needed(app: AppView, id: Seq<char>)
    requires
        app.knows(id),
    ensures
        ({
            let agent = app.agent(id);
            let after = app.connected(id);
            let n = app.effects.len() as int;
            let inside = match (app.explorer.fs, agent.workspace_folder) {
                (Some(fs), Some(root)) => fs.remote is Some && fs.root == root,
                _ => false,
            };
            let serves = !inside && agent.explorer_fs is None && agent.container is Some
                && agent.workspace_folder is Some;
            &&& after.effects.take(n) == app.effects
            &&& forall|i: int|
                n <= i < after.effects.len() ==> ((#[trigger] after.effects[i]) is RefreshStatus
                    ==> !inside && i == n) && (after.effects[i] is ConnectService ==> serves) && (
                after.effects[i] is StartAgent ==> is_startable(agent) && i == after.effects.len()
                    - 1) && (after.effects[i] is RefreshStatus || after.effects[i]
                    is ConnectService || after.effects[i] is StartAgent)
            &&& is_startable(agent) ==> after.effects.len() > n && after.effects.last()
                is StartAgent
            &&& after.effects.len() <= n + 3
        }),
{
    lemma_agent_index(app.agents, id);
    let agent = app.agent(id);
    let n = app.effects.len() as int;
    let s = app.explorer_on(agent);
    crate::app::laws::lemma_keeps_explorer_on(app, agent);
    let after = app.connected(id);
    let k = app.index(id) as int;
    lemma_update_keeps_index(
        app.agents,
        k,
        AgentView { task_handle: None, ..agent },
        id,
    );
    assert(app.agents.update(k, agent) =~= app.agents);
    assert(s.effects.len() <= n + 2);
    assert(after.effects == s.effects || after.effects == s.effects.push(after.effects.last()));
    assert(after.effects.take(n) =~= s.effects.take(n));
}

} // verus!
