//! What holds of the application as a whole, on concrete values.
use fleet_commander::agent::{
    Agent, AgentStatus, HistoryEntry, MessageStatus, StreamedText, TaskHandle, ToolCall,
    ToolCallStatusKind, WorkspaceFs,
};
use fleet_commander::app::actions::{next_focus, wrap_next, wrap_prev};
use fleet_commander::app::commands::container_removed;
use fleet_commander::app::explorer::{mark_truncation, preview_text};
use fleet_commander::app::inbox::{Inbox, InboxMessage};
use fleet_commander::app::input::split_command_and_path;
use fleet_commander::app::streams::event_for;
use fleet_commander::app::{App, PendingPermission};
use fleet_commander::cli::{Cli, Command, Start};
use fleet_commander::config::Config;
use fleet_commander::effect::Effect;
use fleet_commander::event::{AppEvent, ChangeEvent, Persisted, SessionEvent};
use fleet_commander::explorer::StatusKind;
use fleet_commander::keybind::{KeyCode, KeyEvent, KeyModifiers};
use fleet_commander::methods;
use fleet_commander::order::stable_sort;
use fleet_commander::protocol::{
    SearchDoneParams, SearchMatch, SearchResultParams, SearchSummary,
};
use fleet_commander::types::{Screen, SessionFocus, SidePane};

fn key(code: KeyCode) -> KeyEvent {
    KeyEvent::new(code, KeyModifiers::none())
}

fn press(app: &mut App, code: KeyCode) {
    app.handle(AppEvent::Input(key(code)));
}

fn type_text(app: &mut App, text: &str) {
    for c in text.chars() {
        press(app, KeyCode::Char(c));
    }
}

fn app_with(ids: &[&str]) -> App {
    let agents = ids.iter().map(|id| Agent::new((*id).into(), (*id).to_uppercase())).collect();
    App::new(Config::default(), agents)
}

fn in_session(app: &mut App, id: &str) {
    app.screen = Screen::AgentSession {
        agent_id: id.into(),
        focus: SessionFocus::Conversation,
        side_pane: None,
        scroll: usize::MAX,
        input_mode: false,
    };
}

fn session(ids: &[&str]) -> App {
    let mut app = app_with(ids);
    in_session(&mut app, ids[0]);
    app
}

/// An app in a session whose workspace the explorer shows.
fn exploring(workspace: &str) -> App {
    let agent = Agent::new("a".into(), "A".into()).with_workspace(workspace.into());
    let mut app = App::new(Config::default(), vec![agent]);
    press(&mut app, KeyCode::Enter);
    let ctrl_e = KeyEvent::new(KeyCode::Char('e'), KeyModifiers::control());
    app.handle(AppEvent::Input(ctrl_e));
    assert!(app.explorer.open);
    app
}

fn permission() -> PendingPermission {
    PendingPermission {
        tool_name: "rm".into(),
        options: vec![
            ("r".into(), "Reject".into(), "reject once".into()),
            ("a".into(), "Allow".into(), "allow once".into()),
        ],
        reply: 9,
        selected: 0,
    }
}

fn answers(app: &App) -> Vec<Option<String>> {
    app.effects
        .iter()
        .filter_map(|e| match e {
            Effect::ReplyPermission { reply: 9, option_id } => Some(option_id.clone()),
            _ => None,
        })
        .collect()
}

fn message(body: &str) -> InboxMessage {
    InboxMessage {
        sender_id: "a".into(),
        sender_name: "a".into(),
        target_id: "b".into(),
        target_name: "B".into(),
        body: body.into(),
        thread: "xw-1".into(),
    }
}

fn hit(path: &str) -> SearchMatch {
    SearchMatch { path: path.into(), line: 4, column: 1, text: "x".into() }
}

fn search_pane(app: &mut App, search_id: u64) {
    if let Screen::AgentSession { side_pane, .. } = &mut app.screen {
        *side_pane = Some(SidePane::Search {
            query: "x".into(),
            search_id,
            matches: Vec::new(),
            selected: 0,
            scroll: 0,
            running: true,
            summary: None,
        });
    }
}

fn input_mode(app: &App) -> bool {
    matches!(app.screen, Screen::AgentSession { input_mode: true, .. })
}

// ─── Who gets a key ────────────────────────────────────────────────────

#[test]
fn the_permission_popup_owns_the_keyboard() {
    let mut app = session(&["a"]);
    press(&mut app, KeyCode::Char('i'));
    app.permission_pending = Some(permission());
    type_text(&mut app, "zq:/");
    assert_eq!(app.input_buffer, "");
    assert!(app.permission_pending.is_some());
    assert!(!app.command_mode && !app.search_mode && !app.should_quit);
}

#[test]
fn a_permission_is_answered_once() {
    let mut app = session(&["a"]);
    app.permission_pending = Some(permission());
    press(&mut app, KeyCode::Down);
    assert!(answers(&app).is_empty());
    press(&mut app, KeyCode::Enter);
    assert_eq!(answers(&app), vec![Some("a".to_string())]);
    assert!(app.permission_pending.is_none());
    press(&mut app, KeyCode::Enter);
    assert_eq!(answers(&app).len(), 1);
}

#[test]
fn an_answer_was_offered() {
    let mut app = session(&["a"]);
    app.permission_pending = Some(permission());
    app.resolve_permission(Some(7));
    assert_eq!(answers(&app), vec![None]);
    app.permission_pending = Some(permission());
    app.resolve_permission(Some(0));
    assert_eq!(answers(&app), vec![None, Some("r".to_string())]);
}

#[test]
fn y_allows_and_n_rejects() {
    let mut app = session(&["a"]);
    app.permission_pending = Some(permission());
    press(&mut app, KeyCode::Char('y'));
    assert_eq!(answers(&app), vec![Some("a".to_string())]);
    app.permission_pending = Some(permission());
    press(&mut app, KeyCode::Char('n'));
    assert_eq!(answers(&app), vec![Some("a".to_string()), None]);
}

#[test]
fn the_inbox_modal_owns_the_keyboard() {
    let mut app = app_with(&["a", "b"]);
    app.inbox.push(message("hi"));
    type_text(&mut app, "jq:");
    assert!(matches!(app.screen, Screen::AgentList { selected: 0 }));
    assert!(!app.should_quit && !app.command_mode);
    assert_eq!(app.inbox.len(), 1);
}

#[test]
fn the_search_prompt_owns_the_keyboard() {
    let mut app = session(&["a"]);
    app.search_mode = true;
    type_text(&mut app, "q:i");
    assert_eq!(app.search_query, "q:i");
    assert!(!app.should_quit && !app.command_mode && !input_mode(&app));
}

#[test]
fn typing_is_not_taken_for_actions() {
    let mut app = session(&["a"]);
    press(&mut app, KeyCode::Char('i'));
    type_text(&mut app, "q:d/G");
    assert_eq!(app.input_buffer, "q:d/G");
    assert!(input_mode(&app) && !app.should_quit && !app.command_mode && !app.search_mode);
}

#[test]
fn a_key_reaches_no_hidden_buffer() {
    let mut app = app_with(&["a", "b"]);
    app.input_buffer = "draft".into();
    type_text(&mut app, "jk");
    assert_eq!(app.input_buffer, "draft");
    type_text(&mut app, ":xy");
    assert_eq!(app.input_buffer, "draft");
    assert_eq!(app.command_buffer, "xy");
    assert_eq!(app.search_query, "");
}

#[test]
fn a_key_dismisses_the_status_message() {
    let mut app = app_with(&["a", "b"]);
    app.status_message = Some("old news".into());
    press(&mut app, KeyCode::Char('j'));
    assert_eq!(app.status_message, None);
    assert!(matches!(app.screen, Screen::AgentList { selected: 1 }));
}

#[test]
fn the_command_line_takes_text() {
    let mut app = app_with(&["a"]);
    type_text(&mut app, ":quit");
    assert!(app.command_mode);
    assert_eq!(app.command_buffer, "quit");
    press(&mut app, KeyCode::Backspace);
    assert_eq!(app.command_buffer, "qui");
    press(&mut app, KeyCode::Esc);
    assert!(!app.command_mode && app.command_buffer.is_empty());
}

// ─── Messages to agents ────────────────────────────────────────────────

#[test]
fn enter_sends_what_was_typed() {
    let mut app = session(&["a"]);
    app.agents[0].prompt_tx = Some(3);
    press(&mut app, KeyCode::Char('i'));
    type_text(&mut app, "do it");
    press(&mut app, KeyCode::Enter);
    assert_eq!(app.input_buffer, "");
    assert!(!input_mode(&app));
    assert!(matches!(&app.agents[0].history[0], HistoryEntry::Prompt(t) if t == "do it"));
    assert!(app.effects.iter().any(|e| matches!(e,
        Effect::SendPrompt { agent_id, channel: Some(3), text } if agent_id == "a" && text == "do it")));
}

#[test]
fn an_empty_message_is_not_sent() {
    let mut app = session(&["a"]);
    press(&mut app, KeyCode::Char('i'));
    app.take_effects();
    press(&mut app, KeyCode::Enter);
    assert!(app.agents[0].history.is_empty());
    assert!(!app.effects.iter().any(|e| matches!(e, Effect::SendPrompt { .. })));
}

// ─── Moving about ──────────────────────────────────────────────────────

#[test]
fn quit_only_quits_from_the_list() {
    let mut app = session(&["a"]);
    press(&mut app, KeyCode::Char('q'));
    assert!(!app.should_quit);
    press(&mut app, KeyCode::Esc);
    press(&mut app, KeyCode::Char('q'));
    assert!(app.should_quit);
}

#[test]
fn back_selects_the_agent_that_was_viewed() {
    let mut app = session(&["a", "b", "c"]);
    in_session(&mut app, "c");
    press(&mut app, KeyCode::Esc);
    assert!(matches!(app.screen, Screen::AgentList { selected: 2 }));
}

#[test]
fn entering_and_going_back_returns() {
    let mut app = app_with(&["a", "b"]);
    press(&mut app, KeyCode::Char('j'));
    press(&mut app, KeyCode::Enter);
    assert_eq!(app.viewed_agent_id().as_deref(), Some("b"));
    press(&mut app, KeyCode::Esc);
    assert!(matches!(app.screen, Screen::AgentList { selected: 1 }));
}

#[test]
fn the_selection_wraps_around() {
    assert_eq!(wrap_next(2, 3), 0);
    assert_eq!(wrap_next(0, 3), 1);
    assert_eq!(wrap_prev(0, 3), 2);
    assert_eq!(wrap_prev(2, 3), 1);
}

#[test]
fn scrolling_up_leaves_follow_bottom() {
    let mut app = session(&["a"]);
    app.agents[0].last_effective_top = 12;
    press(&mut app, KeyCode::Up);
    assert!(matches!(app.screen, Screen::AgentSession { scroll: 11, .. }));
    let shift_g = KeyEvent::new(KeyCode::Char('G'), KeyModifiers::shift());
    app.handle(AppEvent::Input(shift_g));
    assert!(matches!(app.screen, Screen::AgentSession { scroll: usize::MAX, .. }));
}

#[test]
fn session_events_keep_the_screen() {
    let mut app = session(&["a"]);
    search_pane(&mut app, 5);
    app.handle(AppEvent::Session(SessionEvent::Output {
        agent_id: "a".into(),
        line: "log".into(),
    }));
    app.handle(AppEvent::Session(SessionEvent::Exited { agent_id: "a".into(), code: Some(1) }));
    assert!(matches!(
        &app.screen,
        Screen::AgentSession { side_pane: Some(SidePane::Search { search_id: 5, .. }), scroll: usize::MAX, .. }
    ));
}

#[test]
fn changes_spare_what_the_user_opened() {
    let mut app = session(&["a"]);
    search_pane(&mut app, 5);
    app.handle(AppEvent::Change(ChangeEvent { path: "/x".into(), content: Some("y".into()) }));
    assert!(matches!(
        &app.screen,
        Screen::AgentSession { side_pane: Some(SidePane::Search { .. }), .. }
    ));
}

// ─── Outcomes that come late ───────────────────────────────────────────

#[test]
fn outcomes_of_another_workspace_are_dropped() {
    let mut app = exploring("/w");
    app.handle(AppEvent::ExplorerFileReady {
        agent_id: "a".into(),
        root: "/other".into(),
        full_path: "/other/f".into(),
        result: Ok("text".into()),
        scroll_to: 0,
    });
    assert!(matches!(&app.screen, Screen::AgentSession { side_pane: None, .. }));
    app.handle(AppEvent::ExplorerFileReady {
        agent_id: "a".into(),
        root: "/w".into(),
        full_path: "/w/f".into(),
        result: Ok("text".into()),
        scroll_to: 3,
    });
    assert!(matches!(
        &app.screen,
        Screen::AgentSession { side_pane: Some(SidePane::FileView { scroll: 3, .. }), .. }
    ));
}

#[test]
fn a_stale_status_shows_nothing() {
    let mut app = exploring("/w");
    let status = vec![("f".to_string(), StatusKind::Modified)];
    app.handle(AppEvent::ExplorerStatusReady {
        root: "/other".into(),
        include_ignored: false,
        result: Ok(status.clone()),
    });
    assert!(app.explorer.status.get("f").is_none());
    app.handle(AppEvent::ExplorerStatusReady {
        root: "/w".into(),
        include_ignored: app.explorer.show_ignored,
        result: Ok(status),
    });
    assert_eq!(app.explorer.status.get("f"), Some(&StatusKind::Modified));
}

#[test]
fn refreshes_coalesce_and_a_waiting_one_follows() {
    let mut app = exploring("/w");
    assert!(app.explorer.is_refreshing);
    app.take_effects();
    app.request_explorer_refresh();
    app.request_explorer_refresh();
    assert!(app.explorer.refresh_pending);
    assert!(!app.effects.iter().any(|e| matches!(e, Effect::RefreshStatus { .. })));
    let include_ignored = app.explorer.show_ignored;
    app.handle(AppEvent::ExplorerStatusReady {
        root: "/w".into(),
        include_ignored,
        result: Ok(Vec::new()),
    });
    let asked = app.effects.iter().filter(|e| matches!(e, Effect::RefreshStatus { .. })).count();
    assert_eq!(asked, 1);
    assert!(app.explorer.is_refreshing && !app.explorer.refresh_pending);
}

#[test]
fn a_rebuild_drops_what_the_old_container_reports() {
    let mut app = exploring("/w");
    app.handle(AppEvent::Session(SessionEvent::ContainerReady {
        agent_id: "a".into(),
        container_id: "old".into(),
        remote_user: "u".into(),
        remote_workspace_folder: "/workspaces/w".into(),
    }));
    app.rebuild_current_container();
    assert!(app.agents[0].container.is_none());
    app.handle(AppEvent::AgentBranchReady {
        agent_id: "a".into(),
        container_id: "old".into(),
        branch: Some("main".into()),
    });
    assert_eq!(app.agents[0].git_branch, None);
}

#[test]
fn a_rebuild_forgets_the_session() {
    let mut app = exploring("/w");
    app.handle(AppEvent::Session(SessionEvent::Connected {
        agent_id: "a".into(),
        session_id: Some("old".into()),
    }));
    assert_eq!(app.agents[0].session_id.as_deref(), Some("old"));
    app.take_effects();
    app.rebuild_current_container();
    assert_eq!(app.agents[0].session_id, None);
    let effects = app.take_effects();
    assert!(effects.iter().any(|e| matches!(e, Effect::RemoveContainer { .. })));
    assert!(matches!(
        effects.last(),
        Some(Effect::SaveState { workspace, session_id: None }) if workspace == "/w"
    ));
}

#[test]
fn a_removed_container_is_reported_before_the_agent_reconnects() {
    let mut app = app_with(&[]);
    app.open_workspace("/home/me/repo");
    app.handle(AppEvent::Session(SessionEvent::Connected {
        agent_id: "copilot-repo".into(),
        session_id: Some("old".into()),
    }));
    app.handle(AppEvent::Session(SessionEvent::ContainerReady {
        agent_id: "copilot-repo".into(),
        container_id: "c".into(),
        remote_user: "u".into(),
        remote_workspace_folder: "/workspaces/repo".into(),
    }));
    app.handle(AppEvent::Session(SessionEvent::ExplorerFs {
        agent_id: "copilot-repo".into(),
        container_id: "c".into(),
        fs: WorkspaceFs { root: "/home/me/repo".into(), remote: Some(1) },
    }));
    assert!(app.agents[0].explorer_fs.is_some());
    app.rebuild_current_container();
    app.take_effects();
    for event in container_removed("copilot-repo", Some("in use".into())) {
        app.handle(event);
    }
    let lines: Vec<String> = app.agents[0].history.iter().map(|h| format!("{h:?}")).collect();
    assert!(lines.iter().any(|l| l.contains("[warn] Failed to remove container: in use")));
    assert!(lines.iter().any(|l| l.contains("Container removed. Reconnecting...")));
    // The agent starts anew: the old session is not resumed, and nothing shows
    // the files of the old container.
    assert_eq!(starts(&app), vec![None]);
    assert!(!app.explorer.fs.as_ref().unwrap().is_remote());
    let quiet = container_removed("a", None);
    assert_eq!(quiet.len(), 2);
    assert!(matches!(&quiet[1], AppEvent::ReconnectAgent { agent_id } if agent_id == "a"));
}

#[test]
fn the_focus_comes_round() {
    let (conversation, explorer, side_pane) =
        (SessionFocus::Conversation, SessionFocus::Explorer, SessionFocus::SidePane);
    assert_eq!(next_focus(conversation, true, true), explorer);
    assert_eq!(next_focus(explorer, true, true), side_pane);
    assert_eq!(next_focus(side_pane, true, true), conversation);
    assert_eq!(next_focus(conversation, false, true), side_pane);
    assert_eq!(next_focus(explorer, true, false), conversation);
    assert_eq!(next_focus(conversation, false, false), conversation);
}

// ─── Searches ──────────────────────────────────────────────────────────

#[test]
fn hits_are_shown_in_order_and_those_of_another_search_are_dropped() {
    let mut app = session(&["a"]);
    search_pane(&mut app, 5);
    for (id, path) in [(5, "one"), (4, "no"), (5, "two")] {
        app.handle(AppEvent::SearchResults {
            agent_id: "a".into(),
            search_id: id,
            matches: vec![hit(path)],
        });
    }
    match &app.screen {
        Screen::AgentSession { side_pane: Some(SidePane::Search { matches, .. }), .. } => {
            let paths: Vec<&str> = matches.iter().map(|m| m.path.as_str()).collect();
            assert_eq!(paths, vec!["one", "two"]);
        }
        other => panic!("expected a search pane, got {other:?}"),
    }
}

#[test]
fn a_launched_search_runs_and_a_replaced_one_is_stopped() {
    let mut app = exploring("/w");
    app.explorer.fs = Some(WorkspaceFs { root: "/w".into(), remote: Some(1) });
    app.agents[0].explorer_fs = Some(WorkspaceFs { root: "/w".into(), remote: Some(1) });
    press(&mut app, KeyCode::Char('/'));
    assert!(app.search_mode);
    type_text(&mut app, "needle");
    press(&mut app, KeyCode::Enter);
    let first = app.running_search_id().expect("a search runs");
    assert!(app.effects.iter().any(|e| matches!(e,
        Effect::StartSearch { params, .. } if params.search_id == first && params.query == "needle")));
    if let Screen::AgentSession { focus, .. } = &mut app.screen {
        *focus = SessionFocus::Explorer;
    }
    press(&mut app, KeyCode::Char('/'));
    type_text(&mut app, "other");
    press(&mut app, KeyCode::Enter);
    let second = app.running_search_id().expect("another search runs");
    assert_ne!(first, second);
    assert!(app.effects.iter().any(
        |e| matches!(e, Effect::CancelSearch { search_id, .. } if *search_id == first)
    ));
}

#[test]
fn a_search_whose_pane_is_gone_is_stopped() {
    let mut app = exploring("/w");
    app.explorer.fs = Some(WorkspaceFs { root: "/w".into(), remote: Some(1) });
    app.agents[0].explorer_fs = Some(WorkspaceFs { root: "/w".into(), remote: Some(1) });
    search_pane(&mut app, 5);
    if let Screen::AgentSession { focus, .. } = &mut app.screen {
        *focus = SessionFocus::SidePane;
    }
    app.take_effects();
    press(&mut app, KeyCode::Char('d'));
    assert!(matches!(&app.screen, Screen::AgentSession { side_pane: None, .. }));
    assert!(app.effects.iter().any(|e| matches!(e, Effect::CancelSearch { search_id: 5, .. })));
}

// ─── Messages between workspaces ───────────────────────────────────────

#[test]
fn messages_wait_for_approval_in_the_order_they_come() {
    let mut app = app_with(&["a", "b"]);
    for text in ["first", "second"] {
        app.handle(AppEvent::McpSendToWorkspace {
            sender_id: "a".into(),
            sender_name: "a".into(),
            target_id: "b".into(),
            message: text.into(),
            thread: "xw-1".into(),
        });
    }
    assert_eq!(app.inbox.len(), 2);
    assert!(app.agents[1].history.is_empty());
    assert!(!app.effects.iter().any(|e| matches!(e, Effect::SendPrompt { .. })));
    assert_eq!(app.inbox.front().unwrap().body, "first");
    app.resolve_inbox(false);
    assert_eq!(app.inbox.front().unwrap().body, "second");
    assert!(!app.effects.iter().any(|e| matches!(e, Effect::SendPrompt { .. })));
}

#[test]
fn only_keys_speak_for_the_user() {
    let mut app = exploring("/w");
    app.agents[0].prompt_tx = Some(1);
    app.permission_pending = Some(permission());
    app.take_effects();
    app.handle(AppEvent::McpNotify { agent_id: "a".into(), message: "y".into() });
    app.handle(AppEvent::McpSendToWorkspace {
        sender_id: "b".into(),
        sender_name: "b".into(),
        target_id: "a".into(),
        message: "run this".into(),
        thread: "xw-1".into(),
    });
    app.handle(AppEvent::ReconnectAgent { agent_id: "a".into() });
    app.handle(AppEvent::Change(ChangeEvent { path: "/w/f".into(), content: None }));
    app.handle(AppEvent::Session(SessionEvent::Output { agent_id: "a".into(), line: "y".into() }));
    app.handle(AppEvent::Repaint);
    assert!(!app.effects.iter().any(
        |e| matches!(e, Effect::SendPrompt { .. } | Effect::ReplyPermission { .. })
    ));
    assert!(app.permission_pending.is_some());
}

#[test]
fn an_approved_message_reaches_its_target_alone() {
    let mut app = app_with(&["a", "b"]);
    app.agents[1].prompt_tx = Some(2);
    app.inbox.push(message("please look"));
    press(&mut app, KeyCode::Char('y'));
    let prompts: Vec<&str> = app
        .effects
        .iter()
        .filter_map(|e| match e {
            Effect::SendPrompt { agent_id, text, .. } => {
                assert!(text.contains("please look"));
                Some(agent_id.as_str())
            }
            _ => None,
        })
        .collect();
    assert_eq!(prompts, vec!["b"]);
    assert!(app.agents[0].history.is_empty());
    assert!(app.inbox.is_empty());
}

#[test]
fn the_inbox_is_first_in_first_out() {
    let mut inbox = Inbox::new();
    inbox.push(message("one"));
    inbox.push(message("two"));
    assert_eq!(inbox.pop().unwrap().body, "one");
    assert_eq!(inbox.pop().unwrap().body, "two");
    assert!(inbox.pop().is_none());
}

// ─── Workspaces ────────────────────────────────────────────────────────

#[test]
fn opening_a_workspace_twice_keeps_one_agent() {
    let mut app = app_with(&[]);
    app.open_workspace("/home/me/repo");
    assert_eq!(app.agents.len(), 1);
    assert_eq!(app.agents[0].id, "copilot-repo");
    press(&mut app, KeyCode::Esc);
    app.open_workspace("/home/me/repo");
    assert_eq!(app.agents.len(), 1);
    assert_eq!(app.viewed_agent_id().as_deref(), Some("copilot-repo"));
}

#[test]
fn closing_removes_the_viewed_agent() {
    let mut app = session(&["a", "b", "c"]);
    in_session(&mut app, "b");
    type_text(&mut app, ":close");
    press(&mut app, KeyCode::Enter);
    let ids: Vec<&str> = app.agents.iter().map(|a| a.id.as_str()).collect();
    assert_eq!(ids, vec!["a", "c"]);
    assert!(app.effects.iter().any(|e| matches!(e, Effect::SaveWorkspaces { .. })));
}

#[test]
fn pairings_are_stored_in_order() {
    let mut app = session(&["m", "z", "a"]);
    for (id, peer) in [("m", "z"), ("m", "a"), ("z", "a"), ("a", "z")] {
        in_session(&mut app, id);
        type_text(&mut app, &format!(":connect {peer}"));
        press(&mut app, KeyCode::Enter);
    }
    let stored: Vec<Vec<(String, String)>> = app
        .effects
        .iter()
        .filter_map(|e| match e {
            Effect::SavePairings { pairs } => Some(pairs.clone()),
            _ => None,
        })
        .collect();
    assert_eq!(stored.len(), 3);
    let last: Vec<(&str, &str)> =
        stored[2].iter().map(|(a, b)| (a.as_str(), b.as_str())).collect();
    assert_eq!(last, vec![("a", "m"), ("a", "z"), ("m", "z")]);
}

#[test]
fn a_hit_opens_at_its_line() {
    for (line, row) in [(1, 0), (42, 41), (65536, 65535), (100_000, 65535)] {
        let mut app = exploring("/w");
        app.explorer.fs = Some(WorkspaceFs { root: "/w".into(), remote: Some(1) });
        search_pane(&mut app, 5);
        if let Screen::AgentSession { focus, .. } = &mut app.screen {
            *focus = SessionFocus::SidePane;
        }
        app.handle(AppEvent::SearchResults {
            agent_id: "a".into(),
            search_id: 5,
            matches: vec![SearchMatch { line, ..hit("f") }],
        });
        press(&mut app, KeyCode::Enter);
        assert!(app.effects.iter().any(
            |e| matches!(e, Effect::ReadFile { rel, scroll_to, .. } if rel == "f" && *scroll_to == row)
        ));
    }
}

#[test]
fn disconnecting_undoes_connecting() {
    let mut app = session(&["a", "b"]);
    let before = app.pairings.save();
    type_text(&mut app, ":connect b");
    press(&mut app, KeyCode::Enter);
    assert!(app.pairings.is_connected("a", "b"));
    type_text(&mut app, ":disconnect b");
    press(&mut app, KeyCode::Enter);
    assert_eq!(app.pairings.save(), before);
    let saves = app.effects.iter().filter(|e| matches!(e, Effect::SavePairings { .. })).count();
    assert_eq!(saves, 2);
}

#[test]
fn a_peer_must_be_named_without_doubt() {
    let mut app = session(&["a", "web-one", "web-two"]);
    type_text(&mut app, ":connect web");
    press(&mut app, KeyCode::Enter);
    assert!(app.status_message.as_deref().unwrap().starts_with("Ambiguous — matches: "));
    type_text(&mut app, ":connect WEB-ONE");
    press(&mut app, KeyCode::Enter);
    assert!(app.pairings.is_connected("a", "web-one"));
}

#[test]
fn an_unknown_command_is_reported() {
    let mut app = app_with(&["a"]);
    type_text(&mut app, ":frobnicate");
    press(&mut app, KeyCode::Enter);
    assert!(app.status_message.as_deref().unwrap().contains("frobnicate"));
    type_text(&mut app, ":q");
    press(&mut app, KeyCode::Enter);
    assert!(app.should_quit);
}

#[test]
fn a_failed_store_is_reported() {
    let mut app = app_with(&["a"]);
    app.handle(AppEvent::PersistFailed { what: Persisted::Pairings, error: "disk full".into() });
    assert!(app.status_message.as_deref().unwrap().contains("disk full"));
}

// ─── Sessions ──────────────────────────────────────────────────────────

fn starts(app: &App) -> Vec<Option<String>> {
    app.effects
        .iter()
        .filter_map(|e| match e {
            Effect::StartAgent { session_id, .. } => Some(session_id.clone()),
            _ => None,
        })
        .collect()
}

#[test]
fn an_agent_is_started_once() {
    let mut app = app_with(&[]);
    app.open_workspace("/home/me/repo");
    let n = starts(&app).len();
    assert_eq!(n, 1);
    app.ensure_agent_connected("copilot-repo".into());
    assert_eq!(starts(&app).len(), n);
}

#[test]
fn a_session_is_resumed() {
    let mut app = app_with(&[]);
    app.open_workspace("/home/me/repo");
    app.handle(AppEvent::Session(SessionEvent::Connected {
        agent_id: "copilot-repo".into(),
        session_id: Some("s-1".into()),
    }));
    assert_eq!(app.agents[0].status, AgentStatus::Idle);
    app.handle(AppEvent::Session(SessionEvent::Exited {
        agent_id: "copilot-repo".into(),
        code: None,
    }));
    app.take_effects();
    if let Some(TaskHandle { task, .. }) = app.agents[0].task_handle {
        app.handle(AppEvent::TaskFinished { agent_id: "copilot-repo".into(), task });
    }
    app.ensure_agent_connected("copilot-repo".into());
    assert_eq!(starts(&app), vec![Some("s-1".to_string())]);
}

#[test]
fn only_matching_agents_are_logged() {
    for (on, filter, expected) in [
        (true, None, true),
        (true, Some("rep"), true),
        (true, Some("other"), false),
        (false, None, false),
    ] {
        let mut app = app_with(&[]);
        app.acp_log = on;
        app.acp_log_filter = filter.map(|f| f.to_string());
        app.open_workspace("/home/me/repo");
        assert!(app.effects.iter().any(
            |e| matches!(e, Effect::StartAgent { log, .. } if *log == expected)
        ));
    }
}

#[test]
fn a_stream_is_read_in_place() {
    let mut app = session(&["a"]);
    for (stream, text) in [(1, "one"), (2, "two")] {
        app.handle(AppEvent::Session(SessionEvent::AssistantMessage {
            agent_id: "a".into(),
            message: StreamedText { stream, text: text.into(), status: MessageStatus::Streaming },
        }));
    }
    app.read_stream(1, "one more", &MessageStatus::Completed);
    assert_eq!(app.agents[0].history.len(), 2);
    assert!(matches!(&app.agents[0].history[0], HistoryEntry::Assistant(m)
        if m.text == "one more" && matches!(m.status, MessageStatus::Completed)));
    assert!(matches!(&app.agents[0].history[1], HistoryEntry::Assistant(m)
        if m.text == "two" && matches!(m.status, MessageStatus::Streaming)));
}

#[test]
fn a_tool_call_is_read_in_place() {
    let mut app = session(&["a"]);
    app.handle(AppEvent::Session(SessionEvent::ToolCall {
        agent_id: "a".into(),
        call: ToolCall {
            id: "t".into(),
            stream: 4,
            title: "".into(),
            status: ToolCallStatusKind::Pending,
        },
    }));
    app.read_call(4, "run", ToolCallStatusKind::Failed);
    assert!(matches!(&app.agents[0].history[0], HistoryEntry::Tool(c)
        if c.title == "run" && c.status == ToolCallStatusKind::Failed));
}

#[test]
fn shutting_down_aborts_every_task() {
    let agent = Agent::new("a".into(), "A".into()).with_workspace("/w".into());
    let mut app = App::new(Config::default(), vec![agent, Agent::new("b".into(), "B".into())]);
    app.agents[0].task_handle = Some(TaskHandle { task: 11, finished: false });
    app.agents[1].task_handle = Some(TaskHandle { task: 12, finished: false });
    assert_eq!(app.shutdown_agents(), vec!["/w"]);
    let aborted: Vec<u64> = app
        .effects
        .iter()
        .filter_map(|e| match e {
            Effect::AbortTask { task } => Some(*task),
            _ => None,
        })
        .collect();
    assert_eq!(aborted, vec![11, 12]);
}

// ─── Pieces ────────────────────────────────────────────────────────────

#[test]
fn notifications_become_events() {
    let change = event_for("a", "c", methods::FS_DID_CHANGE, None, None);
    assert!(matches!(change, Some(AppEvent::ExplorerFsChanged { agent_id, container_id })
        if agent_id == "a" && container_id == "c"));
    let hits = SearchResultParams { search_id: 3, matches: vec![hit("f")] };
    let found = event_for("a", "c", methods::FS_SEARCH_RESULT, Some(hits), None);
    assert!(matches!(found, Some(AppEvent::SearchResults { search_id: 3, matches, .. })
        if matches.len() == 1 && matches[0].path == "f"));
    let summary = SearchSummary { count: 1, truncated: true, cancelled: false };
    let done = SearchDoneParams { search_id: 3, summary };
    let ended = event_for("a", "c", methods::FS_SEARCH_DONE, None, Some(done));
    assert!(matches!(ended, Some(AppEvent::SearchDone { search_id: 3, summary, .. })
        if summary.count == 1 && summary.truncated));
    assert!(event_for("a", "c", "other", None, None).is_none());
}

#[test]
fn a_preview_is_text_whatever_the_bytes() {
    assert_eq!(preview_text(b"plain", false), "plain");
    let lossy = preview_text(b"a\xffb", false);
    assert_eq!(lossy, "a\u{fffd}b");
    assert_eq!(
        preview_text(b"plain", true),
        "plain\n\n… [truncated preview — file larger than 256 KiB]"
    );
    assert_eq!(mark_truncation("x".into(), false), "x");
}

#[test]
fn a_command_line_splits_into_verb_and_path() {
    assert_eq!(
        split_command_and_path("open ~/src"),
        ("open".to_string(), "~/src".to_string())
    );
}

#[test]
fn sorting_keeps_the_order_of_equals() {
    let sorted = stable_sort(vec!["b".to_string(), "a".to_string(), "b".to_string()]);
    assert_eq!(sorted, vec!["a", "b", "b"]);
}

#[test]
fn the_command_line_decides_what_to_run() {
    let run = Cli { command: None, acp_log: Some("l".into()), acp_log_filter: None };
    assert!(matches!(run.start(), Start::Tui { acp_log, acp_log_filter: None }
        if acp_log.as_deref() == Some("l")));
    let command = Some(Command::Init { path: "/p".into() });
    let init = Cli { command, acp_log: None, acp_log_filter: None };
    assert!(matches!(init.start(), Start::Init(path) if path == "/p"));
}
