//! What tools show, and what comes of work that was asked for.
use crate::agent::{AgentView, HistoryEntryView, WorkspaceFsView};
use crate::app::laws::asking::{
    asks, changes_agent, law_a_refresh_asks_for_the_shown_workspace, lemma_asks_none,
    lemma_handled, only_asks, refresh_of, same_files,
};
use crate::app::AppView;
use crate::effect::EffectView;
use crate::event::{AppEventView, Persisted};
use crate::explorer::{dir_aggregates, status_map, DirEntryView, ExplorerView, StatusKind};
use crate::protocol::{SearchMatchView, SearchSummary};
use crate::text::trimmed;
use crate::types::{ScreenView, SessionFocus, SidePaneView};
use vstd::prelude::*;

verus! {

// ─── What a tool shows ─────────────────────────────────────────────────

/// Whether an agent's session shows `pane` after a tool of that agent opened
/// it. A session that was on screen keeps its focus, its scroll position and
/// its mode; another one is entered at its conversation.
pub open spec fn shows_tool_pane(
    app: AppView,
    after: AppView,
    id: Seq<char>,
    pane: SidePaneView,
) -> bool {
    &&& match (app.screen, after.screen) {
        (
            ScreenView::AgentSession { agent_id, focus, scroll, input_mode, .. },
            ScreenView::AgentSession {
                agent_id: to,
                focus: to_focus,
                side_pane: to_pane,
                scroll: to_scroll,
                input_mode: to_mode,
            },
        ) if agent_id == id => to == id && to_pane == Some(pane) && to_focus == focus && to_scroll
            == scroll && to_mode == input_mode,
        (
            _,
            ScreenView::AgentSession {
                agent_id: to,
                focus: to_focus,
                side_pane: to_pane,
                scroll: to_scroll,
                input_mode: to_mode,
            },
        ) => to == id && to_pane == Some(pane) && to_focus == SessionFocus::Conversation
            && to_scroll == 0 && !to_mode,
        _ => false,
    }
    &&& after == AppView {
        screen: after.screen,
        explorer: after.explorer,
        effects: after.effects,
        ..app
    }
    &&& same_files(app.explorer, after.explorer)
    &&& asks(app, after, refresh_of(app.explorer))
}

/// After an agent showed a file, its session is viewed, and the side pane is a
/// file view with the path and the content that were given, each in its place,
/// from its top.
pub proof fn law_a_shown_file_is_in_the_side_pane(
    app: AppView,
    id: Seq<char>,
    path: Seq<char>,
    content: Seq<char>,
)
    ensures
        ({
            let after = app.handled(AppEventView::McpShowFile { agent_id: id, path, content });
            &&& after.viewed() == Some(id)
            &&& after.pane() matches Some(SidePaneView::FileView { path: p, content: c, scroll })
                && p == path && c == content && scroll == 0
            &&& shows_tool_pane(
                app,
                after,
                id,
                SidePaneView::FileView { path, content, scroll: 0 },
            )
        }),
{
    let e = AppEventView::McpShowFile { agent_id: id, path, content };
    lemma_tool_pane(app, e, id, SidePaneView::FileView { path, content, scroll: 0 });
}

/// After an agent showed a diff, its session is viewed, and the side pane is a
/// diff with the path and the content that were given, each in its place, from
/// its top.
pub proof fn law_a_shown_diff_is_in_the_side_pane(
    app: AppView,
    id: Seq<char>,
    path: Seq<char>,
    content: Seq<char>,
)
    ensures
        ({
            let after = app.handled(AppEventView::McpShowDiff { agent_id: id, path, content });
            &&& after.viewed() == Some(id)
            &&& after.pane() matches Some(SidePaneView::Diff { path: p, content: c, scroll })
                && p == path && c == content && scroll == 0
            &&& shows_tool_pane(app, after, id, SidePaneView::Diff { path, content, scroll: 0 })
        }),
{
    let e = AppEventView::McpShowDiff { agent_id: id, path, content };
    lemma_tool_pane(app, e, id, SidePaneView::Diff { path, content, scroll: 0 });
}

proof fn lemma_tool_pane(app: AppView, e: AppEventView, id: Seq<char>, pane: SidePaneView)
    requires
        app.reacted(e) == app.tool_pane(id, pane),
    ensures
        shows_tool_pane(app, app.handled(e), id, pane),
{
    let s = if app.viewed() == Some(id) {
        app.with_pane(Some(pane))
    } else {
        AppView {
            screen: ScreenView::AgentSession {
                agent_id: id,
                focus: SessionFocus::Conversation,
                side_pane: Some(pane),
                scroll: 0,
                input_mode: false,
            },
            ..app
        }
    };
    law_a_refresh_asks_for_the_shown_workspace(s);
    let r = app.reacted(e);
    assert(r == s.refresh_requested());
    assert(s.effects == app.effects);
    assert(r.explorer.open == app.explorer.open);
    assert(asks(app, r, refresh_of(app.explorer)));
    lemma_handled(app, e, refresh_of(app.explorer));
}

/// What an agent notifies of is the last line of its own history, as it was
/// given. A notification of an agent that is not in the fleet is dropped.
pub proof fn law_a_notification_is_its_agents_last_line(
    app: AppView,
    id: Seq<char>,
    message: Seq<char>,
)
    ensures
        ({
            let after = app.handled(AppEventView::McpNotify { agent_id: id, message });
            if app.knows(id) {
                changes_agent(
                    app,
                    after,
                    id,
                    AgentView {
                        history: app.agent(id).history.push(HistoryEntryView::Info(message)),
                        ..app.agent(id)
                    },
                    seq![],
                )
            } else {
                only_asks(app, after, seq![])
            }
        }),
{
    let e = AppEventView::McpNotify { agent_id: id, message };
    lemma_asks_none(app, app.reacted(e));
    lemma_handled(app, e, seq![]);
}

// ─── What was read ─────────────────────────────────────────────────────

/// Whether only the side pane changed, to `pane`.
pub open spec fn changes_pane(app: AppView, after: AppView, pane: SidePaneView) -> bool {
    &&& match (app.screen, after.screen) {
        (
            ScreenView::AgentSession { agent_id, focus, scroll, input_mode, .. },
            ScreenView::AgentSession {
                agent_id: to,
                focus: to_focus,
                side_pane: to_pane,
                scroll: to_scroll,
                input_mode: to_mode,
            },
        ) => to == agent_id && to_pane == Some(pane) && to_focus == focus && to_scroll == scroll
            && to_mode == input_mode,
        _ => false,
    }
    &&& only_asks(AppView { screen: after.screen, ..app }, after, seq![])
}

/// A file that was read is shown with its path, its content and the line that
/// was asked for, as long as its agent and its workspace are still on screen. It
/// is dropped otherwise, and so is a read that failed.
pub proof fn law_a_file_that_was_read_is_shown(
    app: AppView,
    id: Seq<char>,
    root: Seq<char>,
    full_path: Seq<char>,
    result: Option<Seq<char>>,
    scroll_to: u16,
)
    ensures
        ({
            let after = app.handled(
                AppEventView::ExplorerFileReady {
                    agent_id: id,
                    root,
                    full_path,
                    result,
                    scroll_to,
                },
            );
            match (result, app.explorer.fs) {
                (Some(content), Some(fs)) if fs.root == root && app.viewed() == Some(id) =>
                    changes_pane(
                    app,
                    after,
                    SidePaneView::FileView { path: full_path, content, scroll: scroll_to },
                ),
                _ => only_asks(app, after, seq![]),
            }
        }),
{
    let e = AppEventView::ExplorerFileReady { agent_id: id, root, full_path, result, scroll_to };
    lemma_asks_none(app, app.reacted(e));
    lemma_handled(app, e, seq![]);
}

/// A diff that was read is shown with its path and as it is, from its top, as
/// long as its agent and its workspace are still on screen; where it holds
/// nothing the pane says so.
pub proof fn law_a_diff_that_was_read_is_shown(
    app: AppView,
    id: Seq<char>,
    root: Seq<char>,
    full_path: Seq<char>,
    result: Option<Seq<char>>,
)
    ensures
        ({
            let after = app.handled(
                AppEventView::ExplorerDiffReady { agent_id: id, root, full_path, result },
            );
            match (result, app.explorer.fs) {
                (Some(diff), Some(fs)) if fs.root == root && app.viewed() == Some(id) => {
                    &&& trimmed(diff).len() > 0 ==> changes_pane(
                        app,
                        after,
                        SidePaneView::Diff { path: full_path, content: diff, scroll: 0 },
                    )
                    &&& trimmed(diff).len() == 0 ==> changes_pane(
                        app,
                        after,
                        SidePaneView::Diff { path: full_path, content: "No changes."@, scroll: 0 },
                    )
                },
                _ => only_asks(app, after, seq![]),
            }
        }),
{
    let e = AppEventView::ExplorerDiffReady { agent_id: id, root, full_path, result };
    lemma_asks_none(app, app.reacted(e));
    lemma_handled(app, e, seq![]);
}

/// A file that changed on disk is shown as a diff from its top where no pane or
/// a diff is shown, and never in place of a pane that the user opened. Its path
/// and its content are those of the change; one whose content is unknown is
/// empty. The git status is refreshed.
pub proof fn law_a_change_is_shown_where_nothing_else_is(
    app: AppView,
    path: Seq<char>,
    content: Option<Seq<char>>,
)
    ensures
        ({
            let after = app.handled(AppEventView::Change { path, content });
            let free = match app.pane() {
                None => true,
                Some(pane) => pane is Diff,
            };
            &&& app.viewed() is Some && free ==> after.pane() == Some(
                SidePaneView::Diff {
                    path,
                    content: match content {
                        Some(text) => text,
                        None => Seq::<char>::empty(),
                    },
                    scroll: 0,
                },
            )
            &&& app.viewed() is None || !free ==> after.screen == app.screen
            &&& after.viewed() == app.viewed()
            &&& after == AppView {
                screen: after.screen,
                explorer: after.explorer,
                effects: after.effects,
                ..app
            }
            &&& same_files(app.explorer, after.explorer)
            &&& asks(app, after, refresh_of(app.explorer))
        }),
{
    let e = AppEventView::Change { path, content };
    let r = app.reacted(e);
    let s = AppView { screen: r.screen, ..app };
    law_a_refresh_asks_for_the_shown_workspace(s);
    assert(r == s.refresh_requested());
    assert(asks(app, r, refresh_of(app.explorer)));
    lemma_handled(app, e, refresh_of(app.explorer));
}

// ─── Searches ──────────────────────────────────────────────────────────

/// The hits and the end of the search that is shown reach its pane: hits go
/// behind those that are there, and the end stops it with its summary. All else
/// of the pane stays. What belongs to another search or another agent is
/// dropped.
pub proof fn law_a_shown_search_gets_its_hits_and_its_end(
    app: AppView,
    id: Seq<char>,
    search_id: u64,
    hits: Seq<SearchMatchView>,
    done: SearchSummary,
)
    ensures
        ({
            let more = app.handled(
                AppEventView::SearchResults { agent_id: id, search_id, matches: hits },
            );
            let ended = app.handled(
                AppEventView::SearchDone { agent_id: id, search_id, summary: done },
            );
            match app.pane() {
                Some(
                    SidePaneView::Search {
                        query,
                        search_id: shown,
                        matches,
                        selected,
                        scroll,
                        running,
                        summary,
                    },
                ) if app.viewed() == Some(id) && shown == search_id => {
                    &&& changes_pane(
                        app,
                        more,
                        SidePaneView::Search {
                            query,
                            search_id,
                            matches: matches + hits,
                            selected,
                            scroll,
                            running,
                            summary,
                        },
                    )
                    &&& changes_pane(
                        app,
                        ended,
                        SidePaneView::Search {
                            query,
                            search_id,
                            matches,
                            selected,
                            scroll,
                            running: false,
                            summary: Some(done),
                        },
                    )
                },
                _ => only_asks(app, more, seq![]) && only_asks(app, ended, seq![]),
            }
        }),
{
    let more = AppEventView::SearchResults { agent_id: id, search_id, matches: hits };
    lemma_asks_none(app, app.reacted(more));
    lemma_handled(app, more, seq![]);
    let ended = AppEventView::SearchDone { agent_id: id, search_id, summary: done };
    lemma_asks_none(app, app.reacted(ended));
    lemma_handled(app, ended, seq![]);
}

/// A launched search asks the service for the query without the blanks around
/// it, as literal text, whatever the case, and for at most 2000 hits, under an
/// id of its own. Its pane shows that query, has the focus, and holds nothing
/// yet.
pub proof fn law_a_search_asks_for_what_was_typed(app: AppView, query: Seq<char>)
    requires
        app.explorer.fs is Some,
        app.explorer.fs->0.remote is Some,
        trimmed(query).len() > 0,
    ensures
        ({
            let after = app.search_launched(query);
            &&& after.effects.len() > app.effects.len()
            &&& after.effects.last() matches EffectView::StartSearch { fs, agent_id, params }
                && fs == app.explorer.fs->0 && agent_id == app.viewed() && params.query == trimmed(
                query,
            ) && !params.is_regex && !params.case_sensitive && params.max_results == Some(2000u64)
                && params.search_id == app.search_next_id
            &&& app.viewed() is Some ==> (after.screen matches ScreenView::AgentSession {
                agent_id,
                focus,
                side_pane,
                scroll,
                input_mode,
            } && Some(agent_id) == app.viewed() && focus == SessionFocus::SidePane && (side_pane
                matches Some(
                SidePaneView::Search {
                    query: shown,
                    search_id,
                    matches,
                    selected,
                    scroll: top,
                    running,
                    summary,
                },
            ) && shown == trimmed(query) && search_id == app.search_next_id && matches.len() == 0
                && selected == 0 && top == 0 && running && summary is None))
            &&& app.search_next_id < u64::MAX ==> after.search_next_id == app.search_next_id + 1
            &&& after == AppView {
                screen: after.screen,
                search_next_id: after.search_next_id,
                effects: after.effects,
                ..app
            }
        }),
{
}

/// Enter at the search prompt launches the search for what was typed, and closes
/// the prompt.
pub proof fn law_enter_launches_the_search(app: AppView, key: crate::keybind::KeyEvent)
    requires
        key.code == crate::keybind::KeyCode::Enter,
        app.permission_pending is None,
        app.inbox.len() == 0,
        !app.command_mode,
        app.search_mode,
        app.explorer.fs is Some,
        app.explorer.fs->0.remote is Some,
        trimmed(app.search_query).len() > 0,
    ensures
        ({
            let after = app.key_pressed(key);
            &&& !after.search_mode && after.search_query.len() == 0
            &&& after.effects.last() matches EffectView::StartSearch { params, .. } && params.query
                == trimmed(app.search_query) && params.max_results == Some(2000u64)
                && !params.is_regex && !params.case_sensitive
            &&& after.effects.len() == app.effects.len() + 1 || (after.effects.len()
                == app.effects.len() + 2 && after.effects[app.effects.len() as int] is CancelSearch)
        }),
{
}

/// A search that cannot be made asks for nothing: one for blanks or without a
/// workspace does nothing, and one of a workspace on the host says why.
pub proof fn law_a_search_that_cannot_be_made_asks_for_nothing(app: AppView, query: Seq<char>)
    ensures
        trimmed(query).len() == 0 || app.explorer.fs is None ==> app.search_launched(query) == app,
        trimmed(query).len() > 0 && app.explorer.fs is Some && app.explorer.fs->0.remote is None
            ==> app.search_launched(query) == (AppView {
            status_message: Some("Search needs a container-backed workspace"@),
            ..app
        }),
{
}

/// Launching a search stops the one that still runs, by its own id and before
/// the new one starts; one that has ended is left alone.
pub proof fn law_a_running_search_is_stopped_first(app: AppView, query: Seq<char>)
    requires
        app.explorer.fs is Some,
        app.explorer.fs->0.remote is Some,
        trimmed(query).len() > 0,
    ensures
        ({
            let after = app.search_launched(query);
            match app.pane() {
                Some(SidePaneView::Search { search_id, running, .. }) if running =>
                    after.effects.drop_last() == app.effects.push(
                    EffectView::CancelSearch { fs: app.explorer.fs->0, search_id },
                ),
                _ => after.effects.drop_last() == app.effects,
            }
        }),
{
    let after = app.search_launched(query);
    match app.running_search() {
        Some(prev) => {
            let stopped = app.search_cancelled(prev);
            assert(after.effects.drop_last() =~= stopped.effects);
        },
        None => {
            assert(after.effects.drop_last() =~= app.effects);
        },
    }
}

// ─── The tree ──────────────────────────────────────────────────────────

/// A git status that was read is that of the tree, if it is of the workspace
/// shown and was read with the same flag; otherwise only the wait for it ends. A
/// refresh that waited is then made.
pub proof fn law_a_status_belongs_to_its_workspace(
    app: AppView,
    root: Seq<char>,
    include_ignored: bool,
    result: Result<Seq<(Seq<char>, StatusKind)>, Seq<char>>,
)
    ensures
        ({
            let after = app.reacted(
                AppEventView::ExplorerStatusReady { root, include_ignored, result },
            );
            let meant = match app.explorer.fs {
                Some(fs) => fs.root == root && include_ignored == app.explorer.show_ignored,
                None => false,
            };
            &&& after == AppView { explorer: after.explorer, effects: after.effects, ..app }
            &&& !meant ==> after.explorer.status == app.explorer.status && after.explorer.dir_status
                == app.explorer.dir_status && after.explorer.last_error == app.explorer.last_error
            &&& meant && result is Ok ==> after.explorer.last_error is None
                && after.explorer.status == status_map(result->Ok_0)
                && after.explorer.dir_status == dir_aggregates(status_map(result->Ok_0))
            &&& meant && result is Err ==> after.explorer.status.is_empty()
                && after.explorer.dir_status.is_empty() && after.explorer.last_error == Some(
                result->Err_0,
            )
            &&& after.explorer.fs == app.explorer.fs && after.explorer.open == app.explorer.open
                && after.explorer.show_ignored == app.explorer.show_ignored
                && after.explorer.selected == app.explorer.selected && after.explorer.expanded
                == app.explorer.expanded && after.explorer.dirs == app.explorer.dirs
            &&& match app.explorer.fs {
                Some(fs) if app.explorer.refresh_pending && app.explorer.open => {
                    &&& after.effects == app.effects.push(
                        EffectView::RefreshStatus {
                            fs,
                            include_ignored: app.explorer.show_ignored,
                        },
                    )
                    &&& after.explorer.is_refreshing && !after.explorer.refresh_pending
                },
                _ => after.effects == app.effects && !after.explorer.is_refreshing,
            }
        }),
{
}

/// A listing that was read is the listing of its directory, as it was read, if
/// the explorer still shows its workspace; a failed one can be asked for again.
/// No other listing changes.
pub proof fn law_a_listing_belongs_to_its_directory(
    app: AppView,
    root: Seq<char>,
    rel: Seq<char>,
    result: Option<Seq<DirEntryView>>,
)
    ensures
        ({
            let after = app.reacted(AppEventView::ExplorerDirReady { root, rel, result });
            let meant = match app.explorer.fs {
                Some(fs) => fs.root == root,
                None => false,
            };
            &&& !meant ==> after == app
            &&& meant ==> {
                &&& after == AppView { explorer: after.explorer, ..app }
                &&& after.explorer == ExplorerView {
                    dirs: after.explorer.dirs,
                    loading: after.explorer.loading,
                    ..app.explorer
                }
                &&& !after.explorer.loading.contains(rel)
                &&& forall|d: Seq<char>| #[trigger]
                    after.explorer.loading.contains(d) <==> d != rel
                        && app.explorer.loading.contains(d)
                &&& result is None ==> after.explorer.dirs == app.explorer.dirs
                &&& result is Some ==> after.explorer.dirs.contains_key(rel)
                    && after.explorer.dirs[rel] == result->0 && after.explorer.dirs.remove(rel)
                    == app.explorer.dirs.remove(rel)
            }
        }),
{
    let after = app.reacted(AppEventView::ExplorerDirReady { root, rel, result });
    if result is Some {
        assert(app.explorer.dirs.insert(rel, result->0).remove(rel) =~= app.explorer.dirs.remove(
            rel,
        ));
    }
}

/// Files inside a container are shown in place of the host's only while their
/// agent is on screen, the explorer is on the same workspace, and the agent still
/// runs in the container that they belong to.
pub proof fn law_files_inside_a_container_are_shown_where_they_belong(
    app: AppView,
    id: Seq<char>,
    container_id: Seq<char>,
    fs: WorkspaceFsView,
)
    ensures
        ({
            let after = app.handled(
                AppEventView::ExplorerFsReady { agent_id: id, container_id, fs },
            );
            let belongs = app.viewed() == Some(id) && (app.explorer.fs matches Some(shown)
                && shown.root == fs.root) && app.knows(id) && (app.agent(id).container matches Some(
                container,
            ) && container.container_id == container_id);
            &&& belongs ==> after.explorer.fs == Some(fs) && after.explorer.status
                == app.explorer.status && after.explorer.selected == app.explorer.selected
                && after.explorer.expanded == app.explorer.expanded && asks(
                app,
                after,
                refresh_of(ExplorerView { fs: Some(fs), ..app.explorer }),
            ) && after == AppView { explorer: after.explorer, effects: after.effects, ..app }
            &&& !belongs ==> only_asks(app, after, seq![])
        }),
{
    let e = AppEventView::ExplorerFsReady { agent_id: id, container_id, fs };
    let r = app.reacted(e);
    let belongs = app.viewed() == Some(id) && (app.explorer.fs matches Some(shown) && shown.root
        == fs.root) && app.knows(id) && (app.agent(id).container matches Some(container)
        && container.container_id == container_id);
    if belongs {
        let s = app.explorer_at(Some(fs));
        law_a_refresh_asks_for_the_shown_workspace(s);
        assert(r == s.refresh_requested());
        assert(refresh_of(s.explorer) == refresh_of(ExplorerView { fs: Some(fs), ..app.explorer }));
        assert(asks(app, r, refresh_of(s.explorer)));
        lemma_handled(app, e, refresh_of(s.explorer));
    } else {
        assert(r == app);
        lemma_asks_none(app, r);
        lemma_handled(app, e, seq![]);
    }
}

/// When files inside a container change, an open tree of that container is read
/// anew: what was listed is forgotten and the git status is refreshed. Any other
/// tree stays as it is.
pub proof fn law_changed_files_are_read_anew(
    app: AppView,
    id: Seq<char>,
    container_id: Seq<char>,
)
    ensures
        ({
            let after = app.reacted(
                AppEventView::ExplorerFsChanged { agent_id: id, container_id },
            );
            let shown = app.viewed() == Some(id) && app.knows(id) && (app.agent(id).container
                matches Some(container) && container.container_id == container_id)
                && app.explorer.open && app.explorer.fs is Some;
            &&& !shown ==> after == app
            &&& shown ==> after.explorer.dirs.is_empty() && after.explorer.loading.is_empty()
                && after.explorer == ExplorerView {
                dirs: after.explorer.dirs,
                loading: after.explorer.loading,
                is_refreshing: true,
                refresh_pending: app.explorer.is_refreshing,
                ..app.explorer
            } && asks(app, after, refresh_of(app.explorer)) && after == AppView {
                explorer: after.explorer,
                effects: after.effects,
                ..app
            }
        }),
{
    let r = app.reacted(AppEventView::ExplorerFsChanged { agent_id: id, container_id });
    let shown = app.viewed() == Some(id) && app.knows(id) && (app.agent(id).container matches Some(
        container,
    ) && container.container_id == container_id) && app.explorer.open && app.explorer.fs is Some;
    if shown {
        let s = AppView {
            explorer: ExplorerView { dirs: Map::empty(), loading: Set::empty(), ..app.explorer },
            ..app
        };
        law_a_refresh_asks_for_the_shown_workspace(s);
        assert(r == s.refresh_requested());
        assert(refresh_of(s.explorer) == refresh_of(app.explorer));
    }
}

// ─── What is said ──────────────────────────────────────────────────────

/// What could not be stored is said, with the reason, and nothing else happens.
pub proof fn law_what_could_not_be_stored_is_said(app: AppView, error: Seq<char>)
    ensures
        app.reacted(AppEventView::PersistFailed { what: Persisted::Layer, error }) == (AppView {
            status_message: Some("Layer warning: "@ + error),
            ..app
        }),
        app.reacted(AppEventView::PersistFailed { what: Persisted::Workspaces, error }) == (
        AppView { status_message: Some("Warning: "@ + error), ..app }),
        app.reacted(AppEventView::PersistFailed { what: Persisted::Pairings, error }) == (
        AppView { status_message: Some("Failed to save pairings: "@ + error), ..app }),
{
}

/// A path that was completed becomes the argument of the command being typed, and
/// changes nothing once none is; an event that only repaints changes nothing.
pub proof fn law_a_completed_path_becomes_the_argument(
    app: AppView,
    verb: Seq<char>,
    path: Option<Seq<char>>,
)
    ensures
        app.command_mode && path is Some ==> app.reacted(
            AppEventView::PathCompleted { verb, path },
        ) == (AppView { command_buffer: verb + " "@ + path->0, ..app }),
        !app.command_mode || path is None ==> app.reacted(
            AppEventView::PathCompleted { verb, path },
        ) == app,
        app.reacted(AppEventView::Repaint) == app,
{
}

} // verus!
