//! What the screens show.
//!
//! The scenes are drawn on a test terminal, so that a test sees the cells that a
//! user would see.
use fleet_commander::agent::{
    Agent, AvailableCommand, HistoryEntry, MessageStatus, StreamedText, ToolCall,
    ToolCallStatusKind, WorkspaceFs,
};
use fleet_commander::app::inbox::InboxMessage;
use fleet_commander::app::{App, PendingPermission};
use fleet_commander::config::Config;
use fleet_commander::explorer::{DirEntry, ExplorerState, StatusKind};
use fleet_commander::protocol::{SearchMatch, SearchSummary};
use fleet_commander::types::{Screen, SessionFocus, SidePane};
use fleet_commander::ui::agent_session::Prepared;
use fleet_commander::ui::conversation::{self, markup_source_of};
use fleet_commander::ui::explorer::Markers;
use fleet_commander::ui::input_box::{
    self, caret_position, compute_height, plain_lines_of, wrapped_row_count,
};
use fleet_commander::ui::keys_footer::session_hint;
use fleet_commander::ui::permission_popup;
use fleet_commander::ui::scene::{
    popup_width_of, Area, Border, Hue, Look, Scene, StyledLine, Widget,
};
use fleet_commander::ui::slash_popover::{self, completion_for, extract_prefix, filter};
use ratatui::backend::TestBackend;
use ratatui::layout::{Alignment, Position, Rect};
use ratatui::style::{Color, Modifier, Style};
use ratatui::text::{Line, Span};
use ratatui::widgets::{
    Block, Clear, List, ListItem, ListState, Paragraph, Scrollbar, ScrollbarOrientation,
    ScrollbarState, Wrap,
};
use ratatui::{Frame, Terminal};

// ─── Drawing ───────────────────────────────────────────────────────────

fn color(hue: Hue) -> Color {
    match hue {
        Hue::Black => Color::Black,
        Hue::Red => Color::Red,
        Hue::Green => Color::Green,
        Hue::Yellow => Color::Yellow,
        Hue::Blue => Color::Blue,
        Hue::Magenta => Color::Magenta,
        Hue::Cyan => Color::Cyan,
        Hue::Gray => Color::Gray,
        Hue::DarkGray => Color::DarkGray,
        Hue::LightBlue => Color::LightBlue,
        Hue::White => Color::White,
    }
}

fn style(look: Look) -> Style {
    let mut s = Style::default();
    if let Some(hue) = look.fg {
        s = s.fg(color(hue));
    }
    if let Some(hue) = look.bg {
        s = s.bg(color(hue));
    }
    if look.bold {
        s = s.add_modifier(Modifier::BOLD);
    }
    if look.italic {
        s = s.add_modifier(Modifier::ITALIC);
    }
    if look.reversed {
        s = s.add_modifier(Modifier::REVERSED);
    }
    s
}

fn line(l: &StyledLine) -> Line<'static> {
    let spans: Vec<Span> =
        l.pieces.iter().map(|p| Span::styled(p.text.clone(), style(p.look))).collect();
    Line::from(spans)
}

fn rect(a: Area) -> Rect {
    Rect { x: a.x, y: a.y, width: a.width, height: a.height }
}

fn block(b: &Border) -> Block<'static> {
    let side = if b.centered { Alignment::Center } else { Alignment::Left };
    let mut block = Block::bordered().border_style(style(b.look)).title_alignment(side);
    if !b.title.is_empty() {
        block = block.title(b.title.clone());
    }
    block
}

fn draw_widget(frame: &mut Frame, widget: &Widget) {
    match widget {
        Widget::Text { area, lines, look, wrap, scroll, centered, border } => {
            let text: Vec<Line> = lines.iter().map(line).collect();
            let side = if *centered { Alignment::Center } else { Alignment::Left };
            let mut p = Paragraph::new(text)
                .style(style(*look))
                .scroll((*scroll, 0))
                .alignment(side);
            if *wrap {
                p = p.wrap(Wrap { trim: false });
            }
            if let Some(b) = border {
                p = p.block(block(b));
            }
            frame.render_widget(p, rect(*area));
        }
        Widget::List { area, items, selected, highlight, symbol, border } => {
            let items: Vec<ListItem> = items.iter().map(|l| ListItem::new(line(l))).collect();
            let mut list = List::new(items)
                .highlight_style(style(*highlight))
                .highlight_symbol(symbol.as_str());
            if let Some(b) = border {
                list = list.block(block(b));
            }
            let mut state = ListState::default();
            state.select(*selected);
            frame.render_stateful_widget(list, rect(*area), &mut state);
        }
        Widget::Frame { area, border } => frame.render_widget(block(border), rect(*area)),
        Widget::Clear { area } => frame.render_widget(Clear, rect(*area)),
        Widget::Scrollbar { area, look, range, position } => {
            let mut state = ScrollbarState::new(*range).position(*position);
            let bar = Scrollbar::new(ScrollbarOrientation::VerticalRight)
                .style(style(*look))
                .begin_symbol(None)
                .end_symbol(None);
            frame.render_stateful_widget(bar, rect(*area), &mut state);
        }
        Widget::Cursor { x, y } => frame.set_cursor_position(Position { x: *x, y: *y }),
    }
}

fn draw_scene(scene: &Scene, cols: u16, rows: u16) -> String {
    let mut terminal = Terminal::new(TestBackend::new(cols, rows)).unwrap();
    terminal
        .draw(|f| {
            for w in &scene.widgets {
                draw_widget(f, w);
            }
        })
        .unwrap();
    let buffer = terminal.backend().buffer();
    let (cols, rows) = (buffer.area.width, buffer.area.height);
    let mut out = String::new();
    for y in 0..rows {
        for x in 0..cols {
            out.push_str(buffer[(x, y)].symbol());
        }
        out.push('\n');
    }
    out
}

fn markers() -> Markers {
    Markers {
        modified: "M".into(),
        added: "A".into(),
        deleted: "D".into(),
        renamed: "R".into(),
        untracked: "?".into(),
        ignored: "!".into(),
        conflicted: "U".into(),
    }
}

fn prepared_for(app: &App) -> Prepared {
    let content = match &app.screen {
        Screen::AgentSession { side_pane: Some(SidePane::Diff { content, .. }), .. }
        | Screen::AgentSession { side_pane: Some(SidePane::FileView { content, .. }), .. } => {
            plain_lines_of(content)
        }
        _ => Vec::new(),
    };
    Prepared {
        branches: app.agents.iter().map(|_| None).collect(),
        rich: Vec::new(),
        content,
        markers: markers(),
    }
}

fn render_prepared(app: &mut App, prepared: &Prepared, cols: u16, rows: u16) -> String {
    let area = Area { x: 0, y: 0, width: cols, height: rows };
    let scene = fleet_commander::ui::render(app, area, prepared);
    draw_scene(&scene, cols, rows)
}

fn render_to_string(app: &mut App, cols: u16, rows: u16) -> String {
    let prepared = prepared_for(app);
    render_prepared(app, &prepared, cols, rows)
}

fn agents() -> Vec<Agent> {
    vec![
        Agent::new("a1".into(), "First".into()),
        Agent::new("a2".into(), "Second".into()),
    ]
}

fn test_app() -> App {
    App::new(Config::default(), agents())
}

// ─── Agent list ────────────────────────────────────────────────────────────

#[test]
fn renders_each_agent() {
    let mut app = test_app();
    let text = render_to_string(&mut app, 60, 12);
    assert!(text.contains("Agents"));
    assert!(text.contains("First"));
    assert!(text.contains("Second"));
}

#[test]
fn marks_the_currently_selected_agent_with_an_arrow() {
    let mut app = test_app();
    let text = render_to_string(&mut app, 60, 12);
    let first_row = text
        .lines()
        .find(|l| l.contains("First"))
        .expect("first agent row");
    assert!(
        first_row.contains('▶'),
        "selection marker missing on first row: {first_row}"
    );
    let second_row = text
        .lines()
        .find(|l| l.contains("Second"))
        .expect("second agent row");
    assert!(
        !second_row.contains('▶'),
        "selection marker leaked onto second row: {second_row}"
    );
}

#[test]
fn shows_status_label_next_to_agent_name() {
    let mut app = test_app();
    let text = render_to_string(&mut app, 60, 12);
    // Default agent status is `Idle` and labels render as `[idle]`.
    assert!(text.contains("[idle]"), "status label missing:\n{text}");
}

#[test]
fn footer_advertises_open_command_and_quit() {
    let mut app = test_app();
    let text = render_to_string(&mut app, 80, 12);
    assert!(text.contains(":open <path>"), "open hint missing:\n{text}");
    assert!(text.contains("q quit"), "quit hint missing:\n{text}");
}

#[test]
fn shows_git_branch_when_workspace_is_repo() {
    let agents = vec![
        Agent::new("a1".into(), "First".into()).with_workspace("/repo".into()),
        Agent::new("a2".into(), "Second".into()),
    ];
    let mut app = App::new(Config::default(), agents);
    let mut prepared = prepared_for(&app);
    prepared.branches[0] = Some("topic/widgets".into());
    let text = render_prepared(&mut app, &prepared, 80, 12);
    assert!(
        text.contains("⎇ topic/widgets"),
        "branch missing from agent list:\n{text}"
    );
}

// ─── Inbox ─────────────────────────────────────────────────────────────────

fn msg() -> InboxMessage {
    InboxMessage {
        sender_id: "copilot-feature".into(),
        sender_name: "feature".into(),
        target_id: "a2".into(),
        target_name: "Second".into(),
        body: "please update the changelog".into(),
        thread: "xw-1".into(),
    }
}

#[test]
fn renders_sender_target_and_body() {
    let mut app = test_app();
    app.inbox.push(msg());
    let text = render_to_string(&mut app, 80, 24);
    assert!(text.contains("feature"), "missing sender:\n{text}");
    assert!(text.contains("Second"), "missing target:\n{text}");
    assert!(
        text.contains("please update the changelog"),
        "missing body:\n{text}"
    );
    assert!(text.contains("approve"), "missing hint:\n{text}");
}

#[test]
fn shows_queue_count_when_multiple_pending() {
    let mut app = test_app();
    app.inbox.push(msg());
    app.inbox.push(msg());
    app.inbox.push(msg());
    let text = render_to_string(&mut app, 80, 24);
    assert!(text.contains("1 of 3"), "missing queue count:\n{text}");
}

// ─── Input box ─────────────────────────────────────────────────────────────

#[test]
fn height_floor_is_three_rows() {
    assert_eq!(compute_height("", 40, 12), 3);
    assert_eq!(compute_height("hi", 40, 12), 3);
}

#[test]
fn height_grows_with_newlines() {
    assert_eq!(compute_height("a\nb\nc", 40, 12), 5);
}

#[test]
fn height_grows_with_wrapped_long_line() {
    let long = "x".repeat(25);
    assert_eq!(compute_height(&long, 10, 12), 5);
}

#[test]
fn height_is_capped_at_max() {
    let huge = "line\n".repeat(50);
    assert_eq!(compute_height(&huge, 40, 8), 8);
}

#[test]
fn caret_position_tracks_newlines_and_wrap() {
    assert_eq!(caret_position("hello", 20), (0, 5));
    assert_eq!(caret_position("a\nb", 20), (1, 1));
    let s = "x".repeat(11);
    assert_eq!(caret_position(&s, 10), (1, 1));
}

#[test]
fn renders_multi_line_content_with_footer_hint() {
    let mut app = test_app();
    app.screen = Screen::AgentSession {
        agent_id: "a1".into(),
        focus: SessionFocus::Conversation,
        side_pane: None,
        scroll: 0,
        input_mode: true,
    };
    app.input_buffer = "first line\nsecond line".into();
    let text = render_to_string(&mut app, 60, 20);
    assert!(text.contains("first line"), "first line missing:\n{text}");
    assert!(text.contains("second line"), "second line missing:\n{text}");
    assert!(
        text.contains("Alt/Shift+Enter newline"),
        "footer hint missing:\n{text}"
    );
}

#[test]
fn buffer_taller_than_box_keeps_tail_visible() {
    // When the buffer overflows the (capped) input-box height, the
    // box should scroll so the most recent rows — and therefore the
    // caret — stay in view.
    let mut app = test_app();
    app.screen = Screen::AgentSession {
        agent_id: "a1".into(),
        focus: SessionFocus::Conversation,
        side_pane: None,
        scroll: 0,
        input_mode: true,
    };
    // 30 lines into a 12-row tall terminal; max_rows=clamp(12/3,3,12)=4.
    let body: String = (0..30).map(|i| format!("row{i}\n")).collect();
    app.input_buffer = body;
    let text = render_to_string(&mut app, 80, 12);
    // The freshest rows must appear; the oldest must have scrolled off.
    assert!(text.contains("row29"), "tail missing:\n{text}");
    assert!(!text.contains("row0\n"), "head leaked:\n{text}");
}

// ─── Footer ────────────────────────────────────────────────────────────────

#[test]
fn input_mode_hint_mentions_newline_modifier() {
    let hint = session_hint(true, false, false);
    assert!(hint.contains("Alt/Shift+Enter newline"));
    assert!(hint.contains("Enter send"));
}

#[test]
fn following_mode_omits_follow_hint() {
    assert!(!session_hint(false, false, true).contains("G follow"));
    assert!(session_hint(false, false, false).contains("G follow"));
}

#[test]
fn side_pane_hints_mention_tab_and_dismiss() {
    let with_side = session_hint(false, true, false);
    assert!(
        with_side.contains("Tab"),
        "Tab focus toggle missing: {with_side}"
    );
    assert!(
        with_side.contains("d dismiss"),
        "dismiss missing: {with_side}"
    );
    // Without a side pane those affordances should disappear.
    let no_side = session_hint(false, false, false);
    assert!(!no_side.contains("Tab"));
    assert!(!no_side.contains("dismiss"));
}

#[test]
fn input_mode_overrides_other_dimensions() {
    // input_mode should produce the same hint regardless of side
    // pane / follow state — those bindings aren't reachable from
    // inside the input box.
    let a = session_hint(true, false, false);
    let b = session_hint(true, true, true);
    assert_eq!(a, b);
}

// ─── Bottom row ────────────────────────────────────────────────────────────

fn bottom_row(text: &str) -> String {
    text.lines()
        .rfind(|l| !l.is_empty())
        .unwrap_or("")
        .to_string()
}

#[test]
fn command_mode_renders_prompt_on_bottom_row() {
    let mut app = test_app();
    app.command_mode = true;
    app.command_buffer = "open foo".into();
    let text = render_to_string(&mut app, 40, 8);
    assert!(
        bottom_row(&text).contains(":open foo"),
        "command prompt missing from bottom row:\n{text}"
    );
}

#[test]
fn status_message_renders_on_bottom_row_when_not_in_command_mode() {
    let mut app = test_app();
    app.status_message = Some("did the thing".into());
    let text = render_to_string(&mut app, 40, 8);
    assert!(
        bottom_row(&text).contains("did the thing"),
        "status text missing from bottom row:\n{text}"
    );
}

#[test]
fn command_mode_takes_precedence_over_status_message() {
    let mut app = test_app();
    app.command_mode = true;
    app.command_buffer = "live".into();
    app.status_message = Some("stale".into());
    let text = render_to_string(&mut app, 40, 8);
    let bottom = bottom_row(&text);
    assert!(bottom.contains(":live"), "command bar missing: {bottom}");
    assert!(!bottom.contains("stale"), "status leaked through: {bottom}");
}

#[test]
fn search_mode_renders_query_on_bottom_row() {
    let mut app = test_app();
    app.search_mode = true;
    app.search_query = "needle".into();
    let text = render_to_string(&mut app, 40, 8);
    assert!(
        bottom_row(&text).contains("/needle"),
        "search prompt missing from bottom row:\n{text}"
    );
}

#[test]
fn command_mode_takes_precedence_over_search_mode() {
    let mut app = test_app();
    app.command_mode = true;
    app.command_buffer = "live".into();
    app.search_mode = true;
    app.search_query = "stale".into();
    let text = render_to_string(&mut app, 40, 8);
    let bottom = bottom_row(&text);
    assert!(bottom.contains(":live"), "command bar missing: {bottom}");
    assert!(
        !bottom.contains("/stale"),
        "search leaked through: {bottom}"
    );
}

#[test]
fn no_overlay_when_nothing_pending() {
    // Sanity: when none of the three are set we don't accidentally
    // wipe the footer's bottom border row.
    let mut app = test_app();
    let text = render_to_string(&mut app, 40, 8);
    let bottom = bottom_row(&text);
    // The Keys footer's bottom border row is all `─` and corners.
    assert!(
        bottom.contains('─') || bottom.contains('└') || bottom.contains('┘'),
        "expected border row, got: {bottom}"
    );
}

// ─── Permission popup ──────────────────────────────────────────────────────

#[test]
fn popup_shows_tool_name_and_all_options() {
    let mut app = test_app();
    app.permission_pending = Some(pending(
        "write_file",
        vec![
            ("a1", "Allow once", "allow once"),
            ("a2", "Allow always", "allow always"),
            ("r1", "Reject", "reject once"),
        ],
        0,
    ));
    let text = render_to_string(&mut app, 80, 20);
    assert!(
        text.contains("Permission required"),
        "title missing:\n{text}"
    );
    assert!(text.contains("write_file"), "tool missing:\n{text}");
    assert!(text.contains("Allow once"), "opt1 missing:\n{text}");
    assert!(text.contains("Allow always"), "opt2 missing:\n{text}");
    assert!(text.contains("Reject"), "opt3 missing:\n{text}");
}

#[test]
fn popup_renders_key_hint() {
    let mut app = test_app();
    app.permission_pending = Some(pending("rm", vec![("a", "Allow", "allow once")], 0));
    let text = render_to_string(&mut app, 80, 20);
    assert!(text.contains("Enter confirm"), "hint missing:\n{text}");
}

#[test]
fn the_popover_fits_above_the_input() {
    let command = AvailableCommand { name: "help".into(), description: "d".into(), hint: None };
    let found = vec![&command, &command];
    let at = |y: u16| {
        let mut scene = Scene::new();
        let input = Area { x: 0, y, width: 40, height: 3 };
        let painted = slash_popover::render(&mut scene, input, &found, 0);
        assert_eq!(scene.widgets.is_empty(), painted.is_none());
        painted
    };
    assert_eq!(at(20), Some(Area { x: 0, y: 16, width: 40, height: 4 }));
    assert_eq!(at(4), Some(Area { x: 0, y: 1, width: 40, height: 3 }));
    assert_eq!(at(3), None);
    assert_eq!(at(0), None);
}

#[test]
fn the_permission_popup_stays_in_its_area() {
    for (width, height) in [(80, 20), (80, 4), (30, 3), (10, 2), (1, 1), (0, 0)] {
        let area = Area { x: 3, y: 2, width, height };
        let mut scene = Scene::new();
        let options = vec![("a", "Allow", "allow once"), ("r", "Reject", "reject once")];
        permission_popup::render(&mut scene, area, &pending("rm", options, 0));
        for widget in &scene.widgets {
            let part = match widget {
                Widget::Clear { area } => area,
                Widget::Frame { area, .. } => area,
                Widget::Text { area, .. } => area,
                Widget::List { area, .. } => area,
                other => panic!("unexpected {other:?}"),
            };
            assert!(part.x >= 3 && part.x + part.width <= 3 + width, "{part:?}");
            assert!(part.y >= 2 && part.y + part.height <= 2 + height, "{part:?}");
        }
        let popup = match &scene.widgets[0] {
            Widget::Clear { area } => *area,
            other => panic!("unexpected {other:?}"),
        };
        assert_eq!(popup.height, height.min(7));
    }
}

fn top_of(text: String, width: u16) -> usize {
    let area = Area { x: 0, y: 0, width, height: 4 };
    let mut agent = Agent::new("a".into(), "A".into());
    agent.info(text);
    let mut scene = Scene::new();
    conversation::render(&mut scene, area, Some(&agent), &vec![None], usize::MAX, false)
}

#[test]
fn a_very_wide_conversation_is_counted() {
    // Two rows of the conversation are in view.
    assert_eq!(top_of("x".repeat(70_000), 65535), 0);
    assert_eq!(top_of("x".repeat(4 * 65533), 65535), 2);
    assert_eq!(top_of("漢".repeat(16_000), 30_002), 0);
    // 70000 columns in rows of 16383 are five rows.
    assert_eq!(top_of("é".repeat(70_000), 65535), 3);
}

#[test]
fn scroll_positions_do_not_start_again() {
    let rows = "a\n".repeat(70_000);
    assert_eq!(top_of(rows.clone(), 80), 69_998);
    let area = Area { x: 0, y: 0, width: 80, height: 4 };
    let mut agent = Agent::new("a".into(), "A".into());
    agent.info(rows.clone());
    let mut scene = Scene::new();
    conversation::render(&mut scene, area, Some(&agent), &vec![None], usize::MAX, false);
    input_box::render(&mut scene, area, &rows);
    let scrolls: Vec<u16> = scene
        .widgets
        .iter()
        .filter_map(|w| match w {
            Widget::Text { scroll, .. } => Some(*scroll),
            _ => None,
        })
        .collect();
    assert_eq!(scrolls, vec![65535, 65535]);
}

/// The panes of a session, from left to right.
fn panes(width: u16, explorer: bool) -> Vec<Area> {
    let mut app = test_app();
    app.screen = Screen::AgentSession {
        agent_id: "a1".into(),
        focus: SessionFocus::Conversation,
        side_pane: Some(SidePane::Diff { path: "f".into(), content: "x".into(), scroll: 0 }),
        scroll: usize::MAX,
        input_mode: false,
    };
    app.explorer.open = explorer;
    let area = Area { x: 5, y: 0, width, height: 20 };
    let prepared = prepared_for(&app);
    let scene = fleet_commander::ui::render(&mut app, area, &prepared);
    let mut found: Vec<Area> = Vec::new();
    for widget in &scene.widgets {
        let part = match widget {
            Widget::Frame { area, .. } => *area,
            Widget::Text { area, .. } => *area,
            _ => continue,
        };
        if part.y == 3 && part.height == 14 && !found.contains(&part) {
            found.push(part);
        }
    }
    found.sort_by_key(|a| a.x);
    found
}

#[test]
fn panes_stand_side_by_side() {
    for width in (31..=260).chain([999, 4_321, 16_385]) {
        let two = panes(width, false);
        assert_eq!(two.len(), 2, "{width}");
        assert_eq!((two[0].x, two[0].x + two[0].width), (5, two[1].x));
        assert_eq!(two[1].x + two[1].width, 5 + width);
        let (got, share) = (two[0].width as i32 * 100, width as i32 * 55);
        assert!((got - share).abs() <= 100, "{width}: {two:?}");

        let three = panes(width, true);
        assert_eq!(three.len(), 3, "{width}");
        assert_eq!((three[0].x, three[0].width), (5, 30));
        assert_eq!(three[1].x, 35);
        assert_eq!(three[2].x, three[1].x + three[1].width);
        assert_eq!(three[2].x + three[2].width, 5 + width);
        assert!(three[1].width as u32 * 100 <= width as u32 * 55 + 100, "{width}: {three:?}");
        assert!(three[2].width as u32 * 100 <= width as u32 * 45 + 100, "{width}: {three:?}");
    }
}

#[test]
fn the_caret_is_on_the_last_row_and_rows_add_up() {
    for (a, b) in [("", ""), ("abc", "de\n"), ("one two three", "\n\nxyz"), ("abcd", "efgh")] {
        for width in [0, 1, 2, 4, 7] {
            assert_eq!(caret_position(a, width).0 + 1, wrapped_row_count(a, width));
            if width > 0 {
                assert_eq!(
                    wrapped_row_count(&format!("{a}\n{b}"), width),
                    wrapped_row_count(a, width) + wrapped_row_count(b, width)
                );
            }
        }
    }
}

fn pending(tool: &str, options: Vec<(&str, &str, &str)>, selected: usize) -> PendingPermission {
    PendingPermission {
        tool_name: tool.into(),
        options: options
            .into_iter()
            .map(|(a, b, c)| (a.into(), b.into(), c.into()))
            .collect(),
        reply: 1,
        selected,
    }
}

// ─── Session header ────────────────────────────────────────────────────────

fn header_app(workspace: Option<&str>) -> App {
    let mut a1 = Agent::new("a1".into(), "First".into());
    if let Some(ws) = workspace {
        a1 = a1.with_workspace(ws.into());
    }
    let mut app = App::new(Config::default(), vec![a1]);
    app.screen = Screen::AgentSession {
        agent_id: "a1".into(),
        focus: SessionFocus::Conversation,
        side_pane: None,
        scroll: 0,
        input_mode: false,
    };
    app
}

#[test]
fn shows_git_branch() {
    let mut app = header_app(Some("/repo"));
    let mut prepared = prepared_for(&app);
    prepared.branches[0] = Some("main".into());
    let text = render_prepared(&mut app, &prepared, 90, 20);
    assert!(text.contains("⎇ main"), "branch missing:\n{text}");
}

#[test]
fn omits_branch_outside_git_repo() {
    let mut app = header_app(Some("/plain"));
    let text = render_to_string(&mut app, 90, 20);
    assert!(!text.contains("⎇"), "branch glyph leaked:\n{text}");
}

// ─── Slash commands ────────────────────────────────────────────────────────

fn cmd(name: &str, hint: Option<&str>) -> AvailableCommand {
    AvailableCommand {
        name: name.into(),
        description: format!("describe {name}"),
        hint: hint.map(str::to_string),
    }
}

#[test]
fn extract_prefix_returns_none_for_non_slash() {
    assert_eq!(extract_prefix(""), None);
    assert_eq!(extract_prefix("hello"), None);
    assert_eq!(extract_prefix(" /not-a-command"), None);
}

#[test]
fn extract_prefix_returns_text_after_slash() {
    assert_eq!(extract_prefix("/"), Some(""));
    assert_eq!(extract_prefix("/mo"), Some("mo"));
    assert_eq!(extract_prefix("/model"), Some("model"));
}

#[test]
fn extract_prefix_closes_on_whitespace_after_name() {
    // Once an argument is being typed, the popover should close so
    // it doesn't get in the way.
    assert_eq!(extract_prefix("/cwd "), None);
    assert_eq!(extract_prefix("/cwd /tmp"), None);
    assert_eq!(extract_prefix("/cmd\nline2"), None);
}

#[test]
fn filter_is_case_insensitive_and_prefix_only() {
    let cs = vec![
        cmd("model", None),
        cmd("memory", None),
        cmd("mcp", None),
        cmd("plan", None),
    ];
    let m = filter(&cs, "me");
    assert_eq!(m.len(), 1);
    assert_eq!(m[0].name, "memory");
    let m = filter(&cs, "M");
    assert_eq!(m.len(), 3);
    // Stable alphabetical order regardless of input order.
    assert_eq!(m[0].name, "mcp");
    assert_eq!(m[1].name, "memory");
    assert_eq!(m[2].name, "model");
}

#[test]
fn filter_empty_prefix_returns_all() {
    let cs = vec![cmd("z", None), cmd("a", None)];
    let m = filter(&cs, "");
    assert_eq!(m.len(), 2);
    assert_eq!(m[0].name, "a");
}

#[test]
fn completion_for_appends_trailing_space() {
    assert_eq!(completion_for("model"), "/model ");
}

// ─── Explorer ──────────────────────────────────────────────────────────────

fn render_state(state: &ExplorerState, cols: u16, rows: u16) -> String {
    let area = Area { x: 0, y: 0, width: cols, height: rows };
    let mut scene = Scene::new();
    scene.draw(fleet_commander::ui::explorer::render(area, state, &markers(), true));
    draw_scene(&scene, cols, rows)
}

fn fixture() -> ExplorerState {
    let mut state = ExplorerState::default();
    state.set_fs(Some(WorkspaceFs::local("/work".into())));
    state.apply_dir(
        "".into(),
        Ok(vec![
            DirEntry { name: "README.md".into(), is_dir: false },
            DirEntry { name: "src".into(), is_dir: true },
        ]),
    );
    state.apply_dir("src".into(), Ok(vec![DirEntry { name: "lib.rs".into(), is_dir: false }]));
    state
}

#[test]
fn empty_state_renders_just_the_block() {
    let state = ExplorerState::default();
    let text = render_state(&state, 30, 8);
    assert!(text.contains("Explorer:"));
}

#[test]
fn lists_top_level_entries_with_directory_chevron() {
    let state = fixture();
    let text = render_state(&state, 40, 8);
    assert!(text.contains("README.md"), "README missing:\n{text}");
    assert!(text.contains("src"), "src dir missing:\n{text}");
    // Directories use ▶ when collapsed.
    assert!(text.contains("▶"), "chevron missing:\n{text}");
}

#[test]
fn expanding_a_directory_reveals_children_indented() {
    let mut state = fixture();
    state.expanded.insert("src".into());
    let text = render_state(&state, 40, 8);
    assert!(text.contains("lib.rs"), "child missing:\n{text}");
    // Child should appear AFTER "src" — basic ordering check.
    let src_idx = text.find("src").unwrap();
    let lib_idx = text.find("lib.rs").unwrap();
    assert!(lib_idx > src_idx);
}

#[test]
fn renders_status_markers_in_root_when_repo_dirty() {
    let mut state = fixture();
    state
        .status
        .insert("README.md".into(), StatusKind::Modified);
    let text = render_state(&state, 40, 8);
    // The 'M' marker should be present somewhere on the README line.
    let line = text
        .lines()
        .find(|l| l.contains("README.md"))
        .expect("README line missing");
    assert!(line.contains('M'), "marker missing on README line: {line}");
}

// ─── Session screen ────────────────────────────────────────────────────────

#[test]
fn without_side_pane_does_not_show_diff_pane() {
    let mut app = test_app();
    app.screen = Screen::AgentSession {
        agent_id: "a1".into(),
        focus: SessionFocus::Conversation,
        side_pane: None,
        scroll: 0,
        input_mode: false,
    };
    let text = render_to_string(&mut app, 80, 16);
    assert!(text.contains("Conversation"));
    assert!(!text.contains("Diff:"), "diff pane should be hidden");
}

#[test]
fn with_diff_side_pane_renders_diff_title() {
    let mut app = test_app();
    app.screen = Screen::AgentSession {
        agent_id: "a1".into(),
        focus: SessionFocus::Conversation,
        side_pane: Some(SidePane::Diff {
            path: "foo.rs".into(),
            content: "fn main() {}\n".into(),
            scroll: 0,
        }),
        scroll: 0,
        input_mode: false,
    };
    let text = render_to_string(&mut app, 100, 16);
    assert!(text.contains("Diff:"));
    assert!(text.contains("foo.rs"));
    assert!(text.contains("Conversation"));
}

#[test]
fn slash_input_renders_command_popover() {
    // When the buffer starts with `/`, the popover lists the agent's
    // advertised commands so the user can pick one. Commands not
    // matching the typed prefix are filtered out.
    let mut app = test_app();
    if let Some(agent) = app.agents.iter_mut().find(|a| a.id == "a1") {
        agent.available_commands = vec![
            AvailableCommand {
                name: "model".into(),
                description: "Select AI model".into(),
                hint: Some("model".into()),
            },
            AvailableCommand {
                name: "memory".into(),
                description: "Show memory status".into(),
                hint: None,
            },
            AvailableCommand {
                name: "plan".into(),
                description: "Create a plan".into(),
                hint: None,
            },
        ];
    }
    app.screen = Screen::AgentSession {
        agent_id: "a1".into(),
        focus: SessionFocus::Conversation,
        side_pane: None,
        scroll: 0,
        input_mode: true,
    };
    app.input_buffer = "/me".into();
    let text = render_to_string(&mut app, 100, 24);
    assert!(text.contains("Commands"), "popover missing:\n{text}");
    assert!(text.contains("/memory"), "matching cmd missing:\n{text}");
    assert!(text.contains("Show memory status"));
    assert!(!text.contains("/plan"), "non-matching cmd leaked:\n{text}");
}

#[test]
fn slash_popover_hidden_when_no_slash_or_argument_started() {
    let mut app = test_app();
    if let Some(agent) = app.agents.iter_mut().find(|a| a.id == "a1") {
        agent.available_commands = vec![AvailableCommand {
            name: "model".into(),
            description: "Select AI model".into(),
            hint: None,
        }];
    }
    app.screen = Screen::AgentSession {
        agent_id: "a1".into(),
        focus: SessionFocus::Conversation,
        side_pane: None,
        scroll: 0,
        input_mode: true,
    };
    // No leading slash → no popover.
    app.input_buffer = "hello".into();
    assert!(!render_to_string(&mut app, 100, 24).contains("Commands"));
    // Slash but already typed an argument → popover closed.
    app.input_buffer = "/model gpt-5".into();
    assert!(!render_to_string(&mut app, 100, 24).contains("Commands"));
}

#[test]
fn input_mode_inserts_message_box_above_footer() {
    let mut app = test_app();
    app.screen = Screen::AgentSession {
        agent_id: "a1".into(),
        focus: SessionFocus::Conversation,
        side_pane: None,
        scroll: 0,
        input_mode: true,
    };
    app.input_buffer = "draft".into();
    let text = render_to_string(&mut app, 80, 16);
    assert!(text.contains("Message"), "Message box missing:\n{text}");
    assert!(text.contains("draft"), "buffer content missing:\n{text}");
    // Footer must still be present below the input box.
    assert!(text.contains("Enter send"), "footer hint missing:\n{text}");
}

#[test]
fn input_box_height_grows_for_multi_line_buffer() {
    // With a single-line buffer the input box is 3 rows; with a
    // 5-line buffer it must grow to fit (capped at area.height/3).
    let mut app = test_app();
    app.screen = Screen::AgentSession {
        agent_id: "a1".into(),
        focus: SessionFocus::Conversation,
        side_pane: None,
        scroll: 0,
        input_mode: true,
    };
    app.input_buffer = "a\nb\nc\nd\ne".into();
    let text = render_to_string(&mut app, 80, 30);
    // All 5 lines must be visible inside the box.
    for letter in ["a", "b", "c", "d", "e"] {
        assert!(text.contains(letter), "missing '{letter}':\n{text}");
    }
}

#[test]
fn explorer_pane_appears_when_open() {
    let mut app = test_app();
    app.screen = Screen::AgentSession {
        agent_id: "a1".into(),
        focus: SessionFocus::Conversation,
        side_pane: None,
        scroll: 0,
        input_mode: false,
    };
    app.explorer.open = true;
    let text = render_to_string(&mut app, 100, 16);
    assert!(
        text.contains("Explorer:"),
        "explorer title missing:\n{text}"
    );
    assert!(text.contains("Conversation"));
}

#[test]
fn explorer_hidden_when_closed() {
    let mut app = test_app_in_session(SessionFocus::Conversation);
    let text = render_to_string(&mut app, 100, 16);
    assert!(!text.contains("Explorer:"));
}

fn test_app_in_session(focus: SessionFocus) -> App {
    let mut app = test_app();
    app.screen = Screen::AgentSession {
        agent_id: "a1".into(),
        focus,
        side_pane: None,
        scroll: 0,
        input_mode: false,
    };
    app
}

// ─── Conversation ──────────────────────────────────────────────────────────

/// Build an app whose first agent is parked in a session screen so
/// the conversation renderer is the target of any frame draw.
fn app_in_session_with(history: Vec<HistoryEntry>) -> App {
    let mut app = test_app();
    if let Some(agent) = app.agents.iter_mut().find(|a| a.id == "a1") {
        agent.history = history;
    }
    app.screen = Screen::AgentSession {
        agent_id: "a1".into(),
        focus: SessionFocus::Conversation,
        side_pane: None,
        scroll: usize::MAX,
        input_mode: false,
    };
    app
}

fn streamed(initial: &str, status: MessageStatus) -> StreamedText {
    StreamedText { stream: 1, text: initial.into(), status }
}

fn assistant(initial: &str, status: MessageStatus) -> HistoryEntry {
    HistoryEntry::Assistant(streamed(initial, status))
}

fn thought(initial: &str, status: MessageStatus) -> HistoryEntry {
    HistoryEntry::Thought(streamed(initial, status))
}

fn user(initial: &str) -> HistoryEntry {
    HistoryEntry::User(streamed(initial, MessageStatus::Completed))
}

fn tool(title: &str, status: ToolCallStatusKind) -> HistoryEntry {
    HistoryEntry::Tool(ToolCall { id: "tc1".into(), stream: 2, title: title.into(), status })
}

#[test]
fn empty_conversation_shows_placeholder() {
    let mut app = app_in_session_with(Vec::new());
    let text = render_to_string(&mut app, 60, 12);
    assert!(
        text.contains("(no messages yet)"),
        "placeholder missing:\n{text}"
    );
}

#[test]
fn info_and_error_entries_render_plain_text() {
    let mut app = app_in_session_with(vec![
        HistoryEntry::Info("hello".into()),
        HistoryEntry::Error("kaboom".into()),
    ]);
    let text = render_to_string(&mut app, 60, 12);
    assert!(text.contains("hello"));
    assert!(text.contains("kaboom"));
}

#[test]
fn prompt_entry_has_caret_prefix() {
    let mut app = app_in_session_with(vec![HistoryEntry::Prompt("hi".into())]);
    let text = render_to_string(&mut app, 60, 12);
    assert!(text.contains("> hi"), "expected caret prefix:\n{text}");
}

#[test]
fn streaming_assistant_shows_cursor() {
    let entry = assistant("streaming…", MessageStatus::Streaming);
    let mut app = app_in_session_with(vec![entry]);
    let text = render_to_string(&mut app, 60, 12);
    assert!(text.contains("streaming"));
    assert!(text.contains("▊"), "expected streaming cursor:\n{text}");
}

#[test]
fn completed_assistant_renders_without_cursor() {
    let entry = assistant("done.", MessageStatus::Completed);
    let mut app = app_in_session_with(vec![entry]);
    let text = render_to_string(&mut app, 60, 12);
    assert!(text.contains("done."));
    assert!(!text.contains("▊"));
}

#[test]
fn completed_assistant_renders_markdown_heading() {
    let entry = assistant("# Heading\nbody", MessageStatus::Completed);
    let mut app = app_in_session_with(vec![entry]);
    let text = render_to_string(&mut app, 80, 12);
    assert!(text.contains("Heading"));
}

#[test]
fn streaming_assistant_does_not_run_markdown_pipeline() {
    let entry = assistant("# Heading", MessageStatus::Streaming);
    let mut app = app_in_session_with(vec![entry]);
    let text = render_to_string(&mut app, 80, 12);
    assert!(
        text.contains("# Heading"),
        "streaming should print verbatim:\n{text}"
    );
}

#[test]
fn streaming_thought_collapses_to_preview() {
    let entry = thought("partial reasoning…", MessageStatus::Streaming);
    let mut app = app_in_session_with(vec![entry]);
    let text = render_to_string(&mut app, 60, 12);
    assert!(text.contains("partial reasoning"));
    assert!(text.contains("…"), "preview ellipsis missing:\n{text}");
}

#[test]
fn completed_thought_renders_full_body() {
    let entry = thought("all of the reasoning", MessageStatus::Completed);
    let mut app = app_in_session_with(vec![entry]);
    let text = render_to_string(&mut app, 80, 12);
    assert!(text.contains("all of the reasoning"));
}

#[test]
fn user_message_uses_caret_prefix() {
    let entry = user("hello");
    let mut app = app_in_session_with(vec![entry]);
    let text = render_to_string(&mut app, 60, 12);
    assert!(text.contains("> hello"));
}

#[test]
fn tool_call_marker_reflects_status_transitions() {
    let entry = tool("doing-thing", ToolCallStatusKind::InProgress);
    let mut app = app_in_session_with(vec![entry]);
    let text = render_to_string(&mut app, 60, 12);
    assert!(text.contains("⏳"));
    assert!(text.contains("doing-thing"));

    app.read_call(2, "doing-thing", ToolCallStatusKind::Completed);
    let text = render_to_string(&mut app, 60, 12);
    assert!(text.contains("✓"));
}

#[test]
fn failed_tool_call_uses_cross_marker() {
    let entry = tool("oops", ToolCallStatusKind::Failed);
    let mut app = app_in_session_with(vec![entry]);
    let text = render_to_string(&mut app, 60, 12);
    assert!(text.contains("✗"));
}

#[test]
fn empty_tool_title_falls_back_to_placeholder() {
    let entry = tool("", ToolCallStatusKind::Completed);
    let mut app = app_in_session_with(vec![entry]);
    let text = render_to_string(&mut app, 60, 12);
    assert!(text.contains("(tool)"), "fallback missing:\n{text}");
}

#[test]
fn mixed_history_renders_in_order() {
    let a = assistant("hi", MessageStatus::Completed);
    let history = vec![
        HistoryEntry::Prompt("question".into()),
        a,
        user("follow-up"),
    ];
    let mut app = app_in_session_with(history);
    let text = render_to_string(&mut app, 60, 12);
    let q = text.find("question").expect("prompt present");
    let h = text.find("hi").expect("assistant present");
    let f = text.find("follow-up").expect("user present");
    assert!(q < h && h < f, "out of order:\n{text}");
}

fn many_info_entries(n: usize) -> Vec<HistoryEntry> {
    (0..n)
        .map(|i| HistoryEntry::Info(format!("entry {i}")))
        .collect()
}

fn render_with_scroll(app: &mut App, scroll: usize, cols: u16, rows: u16) -> String {
    if let Screen::AgentSession { scroll: s, .. } = &mut app.screen {
        *s = scroll;
    }
    render_to_string(app, cols, rows)
}

#[test]
fn follow_bottom_shows_most_recent_entries_when_overflowing() {
    let mut app = app_in_session_with(many_info_entries(50));
    let text = render_with_scroll(&mut app, usize::MAX, 60, 10);
    assert!(text.contains("entry 49"), "newest missing:\n{text}");
    assert!(!text.contains("entry 0\n"), "oldest leaked:\n{text}");
}

#[test]
fn scroll_at_zero_shows_oldest_entries() {
    let mut app = app_in_session_with(many_info_entries(50));
    let text = render_with_scroll(&mut app, 0, 60, 10);
    assert!(text.contains("entry 0"), "oldest missing:\n{text}");
    assert!(!text.contains("entry 49"), "newest leaked:\n{text}");
}

#[test]
fn scroll_clamps_when_set_past_end() {
    // A scroll value far beyond the actual content length should clamp
    // to the bottom, not produce a blank pane.
    let mut app = app_in_session_with(many_info_entries(50));
    let text = render_with_scroll(&mut app, 9_999, 60, 10);
    assert!(
        text.contains("entry 49"),
        "out-of-range scroll must clamp to bottom:\n{text}"
    );
}

#[test]
fn scrollbar_appears_when_content_overflows_viewport() {
    let mut app = app_in_session_with(many_info_entries(50));
    let text = render_with_scroll(&mut app, usize::MAX, 60, 10);
    assert!(
        text.contains('█') || text.contains('▆') || text.contains('▼') || text.contains('▲'),
        "expected scrollbar glyph:\n{text}"
    );
}

#[test]
fn scrollbar_hidden_when_content_fits_in_viewport() {
    let mut app = app_in_session_with(many_info_entries(3));
    let text = render_with_scroll(&mut app, 0, 60, 12);
    // Scrollbar glyphs from ratatui's default thumb/track.
    assert!(
        !text.contains('█') && !text.contains('▆'),
        "scrollbar leaked when content fits:\n{text}"
    );
}

#[test]
fn manual_scroll_position_persists_when_new_entries_arrive() {
    // Build a history that overflows the viewport, then scroll to
    // an arbitrary position (not follow-bottom). After appending
    // more entries the user's chosen line should still be at the
    // top of the viewport.
    let mut app = app_in_session_with(many_info_entries(30));
    let baseline = render_with_scroll(&mut app, 5, 60, 8);
    // Add one more entry.
    if let Some(agent) = app.agents.iter_mut().find(|a| a.id == "a1") {
        agent.history.push(HistoryEntry::Info("entry 30".into()));
    }
    let after = render_with_scroll(&mut app, 5, 60, 8);
    // The viewport's top line should still be the one anchored by
    // scroll=5 — i.e. the topmost visible row in both renderings
    // shows the same "entry N" string.
    let top_baseline = baseline.lines().nth(2).unwrap_or("");
    let top_after = after.lines().nth(2).unwrap_or("");
    assert_eq!(top_baseline, top_after);
}

#[test]
fn single_long_line_wraps_and_counts_toward_total_rows() {
    // A single Info entry whose body is much wider than the
    // viewport should still drive the scrollbar.
    let long = "y".repeat(200);
    let mut app = app_in_session_with(vec![HistoryEntry::Info(long)]);
    let text = render_with_scroll(&mut app, usize::MAX, 30, 8);
    assert!(
        text.contains('█') || text.contains('▆'),
        "scrollbar missing for wrapped single line:\n{text}"
    );
}

#[test]
fn follow_bottom_with_wrapped_lines_shows_tail() {
    // Build entries whose body wraps onto several visual rows. In
    // follow-bottom mode the very last entry must still be visible.
    let history: Vec<HistoryEntry> = (0..30)
        .map(|i| HistoryEntry::Info(format!("entry{i}-{}", "z".repeat(120))))
        .collect();
    let mut app = app_in_session_with(history);
    // 16 rows total leaves the conversation pane ~10 inner rows,
    // enough to hold the last entry's wrapped body.
    let text = render_with_scroll(&mut app, usize::MAX, 30, 16);
    assert!(
        text.contains("entry29"),
        "newest wrapped entry missing in follow-bottom:\n{text}"
    );
}

#[test]
fn last_effective_top_is_recorded_on_each_render() {
    let mut app = app_in_session_with(many_info_entries(50));
    // Follow-bottom should anchor at max_scroll (>0 with 50 lines
    // in a small viewport).
    render_with_scroll(&mut app, usize::MAX, 60, 8);
    let agent = app.agents.iter().find(|a| a.id == "a1").unwrap();
    let top_following = agent.last_effective_top;
    assert!(
        top_following > 0,
        "follow-bottom should anchor below 0 with overflowing content"
    );

    // Scroll explicitly to 5 — anchor should now reflect that.
    render_with_scroll(&mut app, 5, 60, 8);
    let agent = app.agents.iter().find(|a| a.id == "a1").unwrap();
    assert_eq!(agent.last_effective_top, 5);
}

// ─── Side pane ─────────────────────────────────────────────────────────────

fn app_with_side_pane(pane: SidePane, focus: SessionFocus) -> App {
    let mut app = test_app();
    app.screen = Screen::AgentSession {
        agent_id: "a1".into(),
        focus,
        side_pane: Some(pane),
        scroll: 0,
        input_mode: false,
    };
    app
}

#[test]
fn file_view_renders_file_title_and_content() {
    let pane = SidePane::FileView {
        path: "src/main.rs".into(),
        content: "fn greet() {}\n".into(),
        scroll: 0,
    };
    let mut app = app_with_side_pane(pane, SessionFocus::SidePane);
    let text = render_to_string(&mut app, 100, 12);
    assert!(text.contains("File:"), "File title missing:\n{text}");
    assert!(text.contains("src/main.rs"), "path missing:\n{text}");
    assert!(text.contains("fn greet()"), "body missing:\n{text}");
}

#[test]
fn file_view_scroll_offset_hides_top_lines() {
    // With a scroll offset the first lines should drop out of view.
    let content = (0..30)
        .map(|i| format!("line{i}"))
        .collect::<Vec<_>>()
        .join("\n");
    let unscrolled = SidePane::FileView {
        path: "f.txt".into(),
        content: content.clone(),
        scroll: 0,
    };
    let mut app = app_with_side_pane(unscrolled, SessionFocus::SidePane);
    assert!(render_to_string(&mut app, 100, 12).contains("line0"));

    let scrolled = SidePane::FileView {
        path: "f.txt".into(),
        content,
        scroll: 10,
    };
    let mut app = app_with_side_pane(scrolled, SessionFocus::SidePane);
    let text = render_to_string(&mut app, 100, 12);
    assert!(!text.contains("line0\n") && !text.contains("line0 "));
    assert!(
        text.contains("line10"),
        "expected scrolled content:\n{text}"
    );
}

#[test]
fn diff_renders_path_in_title_and_content_in_body() {
    let pane = SidePane::Diff {
        path: "src/lib.rs".into(),
        content: "fn answer() -> i32 { 42 }\n".into(),
        scroll: 0,
    };
    let mut app = app_with_side_pane(pane, SessionFocus::SidePane);
    let text = render_to_string(&mut app, 100, 12);
    assert!(text.contains("Diff:"), "Diff title missing:\n{text}");
    assert!(text.contains("src/lib.rs"), "path missing:\n{text}");
    assert!(text.contains("fn answer()"), "body missing:\n{text}");
}

#[test]
fn long_diff_lines_wrap_inside_pane() {
    // Single long line should wrap within the side pane width
    // rather than being truncated to one row.
    let long = "x".repeat(80);
    let pane = SidePane::Diff {
        path: "wide.txt".into(),
        content: long,
        scroll: 0,
    };
    let mut app = app_with_side_pane(pane, SessionFocus::SidePane);
    // Side pane gets 45% of 80 cols = ~36 cols. A 80-char line must
    // wrap onto multiple rows; both halves should still be present.
    let text = render_to_string(&mut app, 80, 12);
    let x_count = text.chars().filter(|&c| c == 'x').count();
    assert!(
        x_count >= 80,
        "expected wrapped content (>=80 'x'): {x_count}"
    );
}

#[test]
fn commands_pane_lists_each_command_with_description() {
    let pane = SidePane::Commands {
        commands: vec![
            AvailableCommand {
                name: "model".into(),
                description: "Select AI model to use".into(),
                hint: Some("model".into()),
            },
            AvailableCommand {
                name: "session".into(),
                description: "View and manage sessions".into(),
                hint: Some("info|rename".into()),
            },
        ],
        scroll: 0,
    };
    let mut app = app_with_side_pane(pane, SessionFocus::SidePane);
    let text = render_to_string(&mut app, 100, 16);
    assert!(text.contains("Commands"), "title missing:\n{text}");
    assert!(text.contains("/model"), "model missing:\n{text}");
    assert!(
        text.contains("Select AI model"),
        "model desc missing:\n{text}"
    );
    assert!(text.contains("/session"), "session missing:\n{text}");
    assert!(
        text.contains("View and manage"),
        "session desc missing:\n{text}"
    );
}

fn search_match(
    path: &str,
    line: u64,
    text: &str,
) -> SearchMatch {
    SearchMatch {
        path: path.into(),
        line,
        column: 1,
        text: text.into(),
    }
}

#[test]
fn search_pane_shows_query_and_matches() {
    let pane = SidePane::Search {
        query: "needle".into(),
        search_id: 0,
        matches: vec![
            search_match("src/a.rs", 12, "let needle = 1;"),
            search_match("src/b.rs", 3, "// needle here"),
        ],
        selected: 0,
        scroll: 0,
        running: false,
        summary: Some(SearchSummary {
            count: 2,
            truncated: false,
            cancelled: false,
        }),
    };
    let mut app = app_with_side_pane(pane, SessionFocus::SidePane);
    let text = render_to_string(&mut app, 100, 12);
    assert!(text.contains("Search: needle"), "title missing:\n{text}");
    assert!(text.contains("2 matches"), "summary missing:\n{text}");
    assert!(text.contains("src/a.rs:12"), "hit path missing:\n{text}");
    assert!(
        text.contains("let needle = 1;"),
        "hit text missing:\n{text}"
    );
}

#[test]
fn search_pane_shows_searching_while_running() {
    let pane = SidePane::Search {
        query: "foo".into(),
        search_id: 0,
        matches: vec![],
        selected: 0,
        scroll: 0,
        running: true,
        summary: None,
    };
    let mut app = app_with_side_pane(pane, SessionFocus::SidePane);
    let text = render_to_string(&mut app, 100, 12);
    assert!(text.contains("searching"), "running hint missing:\n{text}");
}

#[test]
fn search_pane_reports_no_matches() {
    let pane = SidePane::Search {
        query: "zzz".into(),
        search_id: 0,
        matches: vec![],
        selected: 0,
        scroll: 0,
        running: false,
        summary: Some(SearchSummary {
            count: 0,
            truncated: false,
            cancelled: false,
        }),
    };
    let mut app = app_with_side_pane(pane, SessionFocus::SidePane);
    let text = render_to_string(&mut app, 100, 12);
    assert!(text.contains("No matches"), "empty hint missing:\n{text}");
}

// ─── Sizes and texts ────────────────────────────────────────────────────

#[test]
fn a_popup_takes_three_fifths_of_the_width() {
    for width in 0..=u16::MAX {
        let expected = ((width as f32 * 0.6) as u16).clamp(20.min(width), width);
        assert_eq!(popup_width_of(width), expected, "at width {width}");
    }
}

#[test]
fn an_area_has_an_inside_and_a_middle() {
    let area = Area { x: 2, y: 3, width: 20, height: 10 };
    assert_eq!(area.inner(), Area { x: 3, y: 4, width: 18, height: 8 });
    assert_eq!(area.centered(10, 4), Area { x: 7, y: 6, width: 10, height: 4 });
    assert_eq!(area.rows(9, 1), Area { x: 2, y: 12, width: 20, height: 1 });
    let none = Area { x: 0, y: 0, width: 0, height: 0 };
    assert_eq!(none.inner(), none);
}

#[test]
fn rows_of_a_wrapped_text() {
    assert_eq!(wrapped_row_count("", 10), 1);
    assert_eq!(wrapped_row_count("abc", 0), 1);
    assert_eq!(wrapped_row_count("0123456789", 10), 1);
    assert_eq!(wrapped_row_count("01234567890", 10), 2);
    assert_eq!(wrapped_row_count("a\n\nb", 10), 3);
    assert_eq!(caret_position("", 10), (0, 0));
    assert_eq!(caret_position("abc", 0), (0, 0));
}

#[test]
fn json_is_put_into_a_fence() {
    assert_eq!(markup_source_of("{}", true), "```json\n{}\n```");
    assert_eq!(markup_source_of("# hi", false), "# hi");
}

#[test]
fn the_footer_names_the_keys_of_each_state() {
    assert_eq!(
        session_hint(false, true, false),
        "Esc back  Tab switch focus  d dismiss pane  i input  C-e explorer  ↑/↓ scroll  G follow"
    );
    assert_eq!(session_hint(false, false, true), "Esc back  i input  C-e explorer  ↑/↓ scroll");
}

#[test]
fn the_parts_of_a_session_share_the_screen() {
    let mut app = header_app(None);
    let prepared = prepared_for(&app);
    let area = Area { x: 0, y: 0, width: 80, height: 24 };
    let scene = fleet_commander::ui::render(&mut app, area, &prepared);
    let areas: Vec<Area> = scene
        .widgets
        .iter()
        .filter_map(|w| match w {
            Widget::Text { area, .. } => Some(*area),
            _ => None,
        })
        .collect();
    // Three rows for the title bar, three for the footer, and the rest between.
    assert!(areas.contains(&Area { x: 0, y: 0, width: 80, height: 3 }));
    assert!(areas.contains(&Area { x: 0, y: 3, width: 80, height: 18 }));
    assert!(areas.contains(&Area { x: 0, y: 21, width: 80, height: 3 }));
}

#[test]
fn rendered_messages_replace_their_text() {
    let entry = assistant("# Heading", MessageStatus::Completed);
    let mut app = app_in_session_with(vec![entry]);
    let mut prepared = prepared_for(&app);
    prepared.rich = vec![Some(plain_lines_of("Heading, set in bold"))];
    let text = render_prepared(&mut app, &prepared, 80, 12);
    assert!(text.contains("Heading, set in bold"), "rendering missing:\n{text}");
    assert!(!text.contains("# Heading"), "source leaked:\n{text}");
}

#[test]
fn a_failed_message_says_so() {
    let entry = assistant("half", MessageStatus::Failed("gone".into()));
    let mut app = app_in_session_with(vec![entry]);
    let text = render_to_string(&mut app, 60, 12);
    assert!(text.contains("half") && text.contains("[message failed]"), "mark missing:\n{text}");
}

#[test]
fn the_caret_stays_in_the_input_box() {
    let mut app = header_app(None);
    if let Screen::AgentSession { input_mode, .. } = &mut app.screen {
        *input_mode = true;
    }
    app.input_buffer = "ab\ncd".into();
    let prepared = prepared_for(&app);
    let area = Area { x: 0, y: 0, width: 40, height: 30 };
    let scene = fleet_commander::ui::render(&mut app, area, &prepared);
    let at = scene.widgets.iter().find_map(|w| match w {
        Widget::Cursor { x, y } => Some((*x, *y)),
        _ => None,
    });
    // The box has two rows of text above the three rows of the footer.
    assert_eq!(at, Some((3, 25)));
}

#[test]
fn a_completed_command_closes_the_popover() {
    let done = completion_for("model");
    assert_eq!(extract_prefix(&done), None);
}

#[test]
fn case_is_ignored_beyond_ascii() {
    let cs = vec![AvailableCommand { name: "Äpfel".into(), description: "".into(), hint: None }];
    assert_eq!(filter(&cs, "äp").len(), 1);
}

#[test]
fn a_thought_is_previewed() {
    let entry = thought(&"t".repeat(200), MessageStatus::Streaming);
    let mut app = app_in_session_with(vec![entry]);
    let text = render_to_string(&mut app, 120, 12);
    assert!(text.contains(&format!("{}…", "t".repeat(80))), "preview missing:\n{text}");
    assert!(!text.contains(&"t".repeat(81)), "preview too long:\n{text}");
}

fn area_of(widget: &Widget) -> Option<Area> {
    match widget {
        Widget::Text { area, .. } | Widget::List { area, .. } | Widget::Frame { area, .. } => {
            Some(*area)
        }
        _ => None,
    }
}

#[test]
fn the_parts_fit_at_every_size() {
    let sizes = [0u16, 1, 2, 3, 5, 6, 7, 9, 20, 33, 80, 200, u16::MAX];
    for width in sizes {
        for height in sizes {
            for (explorer, composing) in [(false, false), (true, false), (true, true)] {
                let mut app = header_app(None);
                app.explorer.open = explorer;
                if let Screen::AgentSession { input_mode, side_pane, .. } = &mut app.screen {
                    *input_mode = composing;
                    *side_pane = Some(SidePane::Commands { commands: Vec::new(), scroll: 0 });
                }
                let prepared = prepared_for(&app);
                let whole = Area { x: 0, y: 0, width, height };
                let scene = fleet_commander::ui::render(&mut app, whole, &prepared);
                let areas: Vec<Area> = scene.widgets.iter().filter_map(area_of).collect();
                for a in &areas {
                    assert!(a.x as u32 + a.width as u32 <= width as u32, "{a:?} in {whole:?}");
                    assert!(a.y as u32 + a.height as u32 <= height as u32, "{a:?} in {whole:?}");
                }
                if !composing && height >= 6 {
                    assert_eq!(areas[0], Area { x: 0, y: 0, width, height: 3 });
                    let footer = areas.last().unwrap();
                    assert_eq!(*footer, Area { x: 0, y: height - 3, width, height: 3 });
                }
            }
        }
    }
}

#[test]
fn the_parts_fit_at_the_far_corner() {
    let mut app = header_app(None);
    let prepared = prepared_for(&app);
    let whole = Area { x: u16::MAX - 10, y: u16::MAX - 10, width: 40, height: 40 };
    let scene = fleet_commander::ui::render(&mut app, whole, &prepared);
    for a in scene.widgets.iter().filter_map(area_of) {
        assert!(a.x >= whole.x && a.y >= whole.y);
        assert!(a.x as u32 + a.width as u32 <= whole.x as u32 + 40);
        assert!(a.y as u32 + a.height as u32 <= whole.y as u32 + 40);
    }
}
