//! What the user sees.
use crate::agent::{
    AgentStatus, AgentView, AvailableCommandView, HistoryEntryView, StreamedTextView,
    ToolCallStatusKind, ToolCallView,
};
use crate::app::inbox::InboxMessageView;
use crate::app::{AppView, PendingPermissionView};
use crate::explorer::{selection, EntryRowView, ExplorerView, StatusKind};
use crate::order::sort_of;
use crate::protocol::{SearchMatchView, SearchSummary};
use crate::text::{decimal, has_prefix, lines, trim_end, trimmed};
use crate::types::{ScreenView, SessionFocus, SidePaneView};
use crate::ui::agent_list::{agent_item, list_screen};
use crate::ui::agent_session::{session_panes, session_rows, session_screen, PreparedView};
use crate::ui::conversation::{conversation_lines, entry_lines};
use crate::ui::explorer::{entry_item, explorer_pane, MarkersView};
use crate::ui::inbox_popup::inbox_popup;
use crate::ui::overlay::overlay_of;
use crate::ui::permission_popup::permission_popup;
use crate::ui::scene::{Area, Hue, Look, PieceView, Space, WidgetView};
use crate::ui::side_pane::side_pane;
use crate::ui::slash_popover::popover;
use crate::ui::{on_top, screen_of};
use vstd::prelude::*;

verus! {

/// Plain text.
pub open spec fn unstyled() -> Look {
    Look { fg: None, bg: None, bold: false, italic: false, reversed: false }
}

/// Text in a colour.
pub open spec fn coloured(hue: Hue) -> Look {
    Look { fg: Some(hue), bg: None, bold: false, italic: false, reversed: false }
}

/// Bold text in a colour.
pub open spec fn bold(hue: Hue) -> Look {
    Look { fg: Some(hue), bg: None, bold: true, italic: false, reversed: false }
}

/// A line of one piece.
pub open spec fn says(line: Seq<PieceView>, text: Seq<char>, look: Look) -> bool {
    line.len() == 1 && line[0].text == text && line[0].look == look
}

/// The title of a widget with a border.
pub open spec fn title_of(widget: WidgetView) -> Option<Seq<char>> {
    match widget {
        WidgetView::Text { border: Some(b), .. } => Some(b.title),
        WidgetView::List { border: Some(b), .. } => Some(b.title),
        WidgetView::Frame { border, .. } => Some(border.title),
        _ => None,
    }
}

// ─── The list of agents ────────────────────────────────────────────────

/// The word that stands for a status, and its colour.
pub open spec fn status_shown(status: AgentStatus) -> (Seq<char>, Hue) {
    match status {
        AgentStatus::Idle => ("idle"@, Hue::Gray),
        AgentStatus::Running => ("running"@, Hue::Green),
        AgentStatus::Stopped => ("stopped"@, Hue::DarkGray),
        AgentStatus::Error => ("error"@, Hue::Red),
    }
}

/// The list shows each agent in its place, with its name, the word for its
/// status in its colour and its branch, and highlights the selected one.
pub proof fn law_the_list_shows_each_agent(
    rows: Seq<Area>,
    agents: Seq<AgentView>,
    branches: Seq<Option<Seq<char>>>,
    selected: usize,
    i: int,
)
    requires
        0 <= i < agents.len(),
    ensures
        list_screen(rows, agents, branches, selected)[0] matches WidgetView::List {
            area,
            items,
            selected: highlighted,
            ..
        } && {
            let (word, hue) = status_shown(agents[i].status);
            let item = items[i];
            &&& area == rows[0]
            &&& items.len() == agents.len()
            &&& highlighted == Some(selected)
            &&& has_prefix(item[0].text, " "@ + agents[i].name)
            &&& item[1].text == "["@ + word + "]"@ && item[1].look == coloured(hue)
            &&& i < branches.len() && branches[i] is Some ==> item.len() == 4 && item[3].text
                == "⎇ "@ + branches[i]->0
            &&& i >= branches.len() || branches[i] is None ==> item.len() == 2
        },
{
    let agent = agents[i];
    let name = " "@ + agent.name;
    let item = agent_item(agent, crate::ui::agent_list::branch_at(branches, i));
    let pad = crate::ui::style::blanks(crate::ui::style::lacking(agent.name.len(), 20));
    assert(item[0].text == " "@ + (agent.name + pad) + " "@);
    assert(item[0].text.take(name.len() as int) =~= name);
}

// ─── The conversation ──────────────────────────────────────────────────

/// The lines of a text, each behind a prefix and in one look.
pub open spec fn shows_text(
    shown: Seq<Seq<PieceView>>,
    text: Seq<char>,
    prefix: Seq<char>,
    look: Look,
) -> bool {
    &&& shown.len() == lines(text).len()
    &&& forall|i: int|
        0 <= i < shown.len() ==> says(#[trigger] shown[i], prefix + lines(text)[i], look)
}

/// Each kind of entry can be told from the others: lines of output are plain,
/// errors are red, and what the user said is bold and behind a mark. Their text is
/// shown in full, line by line.
pub proof fn law_entries_are_shown_by_their_kind(
    text: Seq<char>,
    msg: StreamedTextView,
    rich: Option<Seq<Seq<PieceView>>>,
)
    ensures
        shows_text(entry_lines(HistoryEntryView::Info(text), rich), text, seq![], unstyled()),
        shows_text(entry_lines(HistoryEntryView::Error(text), rich), text, seq![], coloured(Hue::Red)),
        shows_text(entry_lines(HistoryEntryView::Prompt(text), rich), text, "> "@, bold(Hue::Cyan)),
        shows_text(entry_lines(HistoryEntryView::User(msg), rich), msg.text, "> "@, bold(Hue::Cyan)),
{
}

/// A message that streams is shown as it comes, in green and with a cursor behind
/// it; a complete one is shown rendered where it is marked up and plain otherwise;
/// and one that failed says so at its end.
pub proof fn law_a_message_is_shown_by_its_status(
    msg: StreamedTextView,
    rich: Option<Seq<Seq<PieceView>>>,
)
    ensures
        ({
            let shown = entry_lines(HistoryEntryView::Assistant(msg), rich);
            let n = shown.len() - 1;
            &&& msg.status is Streaming ==> shown.len() > 0 && says(
                shown[n],
                "▊"@,
                coloured(Hue::Green),
            ) && (msg.text.len() > 0 ==> shows_text(
                shown.take(n),
                msg.text,
                seq![],
                coloured(Hue::Green),
            )) && (msg.text.len() == 0 ==> n == 0)
            &&& msg.status is Completed && msg.text.len() > 0 && rich is None ==> shows_text(
                shown,
                msg.text,
                seq![],
                unstyled(),
            )
            &&& msg.status is Completed && msg.text.len() > 0 && rich is Some ==> shown == rich->0
            &&& msg.status is Failed && msg.text.len() > 0 ==> shown.len() > 0 && says(
                shown[n],
                "[message failed]"@,
                coloured(Hue::Red),
            ) && (rich is Some ==> shown.take(n) == rich->0) && (rich is None ==> shows_text(
                shown.take(n),
                msg.text,
                seq![],
                unstyled(),
            ))
            &&& !(msg.status is Streaming) && msg.text.len() == 0 ==> shown.len() == 0
        }),
{
    let shown = entry_lines(HistoryEntryView::Assistant(msg), rich);
    let n = shown.len() - 1;
    if msg.text.len() > 0 {
        let green = crate::ui::conversation::body_lines(msg.text, seq![], coloured(Hue::Green));
        let plain = crate::ui::conversation::body_lines(msg.text, seq![], unstyled());
        if msg.status is Streaming {
            assert(shown.take(n) =~= green);
        } else if msg.status is Failed {
            match rich {
                Some(r) => assert(shown.take(n) =~= r),
                None => assert(shown.take(n) =~= plain),
            }
        } else {
            match rich {
                Some(r) => assert(shown =~= r),
                None => assert(shown =~= plain),
            }
        }
    }
}

/// A tool call takes one line: the mark and the colour of how far it has come,
/// and its title, or a stand-in for one without.
pub proof fn law_a_tool_call_shows_how_far_it_has_come(
    call: ToolCallView,
    rich: Option<Seq<Seq<PieceView>>>,
)
    ensures
        ({
            let shown = entry_lines(HistoryEntryView::Tool(call), rich);
            let (mark, hue) = match call.status {
                ToolCallStatusKind::Pending => ("⏳"@, Hue::Yellow),
                ToolCallStatusKind::InProgress => ("⏳"@, Hue::Yellow),
                ToolCallStatusKind::Completed => ("✓"@, Hue::Green),
                ToolCallStatusKind::Failed => ("✗"@, Hue::Red),
            };
            let title = if call.title.len() == 0 {
                "(tool)"@
            } else {
                call.title
            };
            &&& shown.len() == 1
            &&& says(shown[0], mark + " "@ + title, coloured(hue))
        }),
{
}

/// A thought that streams is previewed by its first 80 characters; a complete one
/// is shown without the blanks around it, unless it is blank.
pub proof fn law_a_thought_is_shown_behind_its_mark(
    msg: StreamedTextView,
    rich: Option<Seq<Seq<PieceView>>>,
)
    ensures
        ({
            let shown = entry_lines(HistoryEntryView::Thought(msg), rich);
            let look = Look {
                fg: Some(Hue::DarkGray),
                bg: None,
                bold: false,
                italic: true,
                reversed: false,
            };
            &&& msg.status is Streaming && msg.text.len() <= 80 ==> shown.len() == 1 && says(
                shown[0],
                "💭 "@ + msg.text + "…"@,
                look,
            )
            &&& msg.status is Streaming && msg.text.len() > 80 ==> shown.len() == 1 && says(
                shown[0],
                "💭 "@ + msg.text.take(80) + "…"@,
                look,
            )
            &&& !(msg.status is Streaming) && trimmed(msg.text).len() > 0 ==> shown.len() == 1
                && says(shown[0], "💭 "@ + trimmed(msg.text), look)
            &&& !(msg.status is Streaming) && trimmed(msg.text).len() == 0 ==> shown.len() == 0
        }),
{
}

/// A conversation without messages says so, and one with messages shows the last
/// entry at its end.
pub proof fn law_the_last_entry_is_shown_last(
    agent: AgentView,
    rich: Seq<Option<Seq<Seq<PieceView>>>>,
)
    ensures
        ({
            let shown = conversation_lines(Some(agent), rich);
            &&& agent.history.len() == 0 ==> shown.len() == 1 && says(
                shown[0],
                "(no messages yet)"@,
                coloured(Hue::DarkGray),
            )
            &&& agent.history.len() > 0 ==> {
                let k = agent.history.len() - 1;
                let last = entry_lines(
                    agent.history[k],
                    if k < rich.len() {
                        rich[k]
                    } else {
                        None
                    },
                );
                &&& shown.len() >= last.len()
                &&& shown.skip(shown.len() - last.len()) == last
            }
        }),
{
    let shown = conversation_lines(Some(agent), rich);
    if agent.history.len() > 0 {
        let k = agent.history.len() - 1;
        let last = entry_lines(
            agent.history[k],
            if k < rich.len() {
                rich[k]
            } else {
                None
            },
        );
        let first = crate::ui::conversation::history_lines(agent.history.drop_last(), rich);
        assert(shown == first + last);
        assert(shown.skip(shown.len() - last.len()) =~= last);
    }
}

// ─── The side pane ─────────────────────────────────────────────────────

/// The side pane names what it shows in its title, at the position that it is
/// scrolled to: a file or a diff by its path with its highlighted text, and the
/// border shows whether it has the focus.
pub proof fn law_the_side_pane_names_what_it_shows(
    area: Area,
    path: Seq<char>,
    content: Seq<char>,
    at: u16,
    highlighted: Seq<Seq<PieceView>>,
    focused: bool,
)
    ensures
        ({
            let file = side_pane(
                area,
                SidePaneView::FileView { path, content, scroll: at },
                highlighted,
                focused,
            );
            let diff = side_pane(
                area,
                SidePaneView::Diff { path, content, scroll: at },
                highlighted,
                focused,
            );
            let look = coloured(
                if focused {
                    Hue::Yellow
                } else {
                    Hue::DarkGray
                },
            );
            &&& file matches WidgetView::Text { area: a, lines: l, scroll, wrap, border: Some(b), .. }
                && a == area && l == highlighted && scroll == at && wrap && b.title == " File: "@
                + path + " "@ && b.look == look
            &&& diff matches WidgetView::Text { area: a, lines: l, scroll, wrap, border: Some(b), .. }
                && a == area && l == highlighted && scroll == at && wrap && b.title == " Diff: "@
                + path + " "@ && b.look == look
        }),
{
}

/// The pane of a search shows one line for each hit, with its path, its line
/// number and its text without the blanks at its end, and tells the highlighted
/// one from the others. Its title has the query and how the search is doing.
pub proof fn law_the_search_pane_shows_each_hit(
    area: Area,
    query: Seq<char>,
    search_id: u64,
    matches: Seq<SearchMatchView>,
    selected: usize,
    at: u16,
    running: bool,
    summary: Option<SearchSummary>,
    focused: bool,
    i: int,
)
    ensures
        ({
            let pane = side_pane(
                area,
                SidePaneView::Search {
                    query,
                    search_id,
                    matches,
                    selected,
                    scroll: at,
                    running,
                    summary,
                },
                seq![],
                focused,
            );
            let doing = if running {
                " — searching…"@
            } else {
                match summary {
                    None => seq![],
                    Some(s) => if s.cancelled {
                        " — cancelled"@
                    } else if s.truncated {
                        " ("@ + decimal(s.count as nat) + " matches, truncated)"@
                    } else {
                        " ("@ + decimal(s.count as nat) + " matches)"@
                    },
                }
            };
            &&& title_of(pane) == Some(" Search: "@ + query + doing + " "@)
            &&& pane matches WidgetView::Text { lines: l, scroll, wrap, .. } && scroll == at
                && !wrap && (matches.len() > 0 ==> l.len() == matches.len()) && (matches.len() == 0
                ==> l.len() == 1 && says(
                l[0],
                if running {
                    "Searching…"@
                } else {
                    "No matches."@
                },
                coloured(Hue::DarkGray),
            )) && (0 <= i < matches.len() ==> {
                &&& l[i].len() == 3
                &&& l[i][0].text == matches[i].path + ":"@ + decimal(matches[i].line as nat)
                &&& l[i][1].text == "  "@
                &&& l[i][2].text == trim_end(matches[i].text)
                &&& (l[i][2].look.bg == Some(Hue::Cyan)) == (i == selected)
            })
        }),
{
}

/// The pane of slash commands shows two lines for each command, by name: its name
/// as it is typed with what it takes, and what it does.
pub proof fn law_the_commands_pane_shows_each_command(
    area: Area,
    commands: Seq<AvailableCommandView>,
    at: u16,
    focused: bool,
    i: int,
)
    requires
        0 <= i < sort_of(commands).len(),
    ensures
        ({
            let pane = side_pane(
                area,
                SidePaneView::Commands { commands, scroll: at },
                seq![],
                focused,
            );
            let c = sort_of(commands)[i];
            &&& title_of(pane) == Some(" Commands ("@ + decimal(commands.len()) + ") "@)
            &&& pane matches WidgetView::Text { lines: l, scroll, .. } && scroll == at && l.len()
                == 2 * sort_of(commands).len() && l[2 * i][0].text == "/"@ + c.name && (c.hint
                is Some ==> l[2 * i].len() == 2 && l[2 * i][1].text == " <"@ + c.hint->0 + ">"@)
                && (c.hint is None ==> l[2 * i].len() == 1) && l[2 * i + 1].last().text
                == c.description
        }),
{
    lemma_command_lines(sort_of(commands), i);
}

proof fn lemma_command_lines(commands: Seq<AvailableCommandView>, i: int)
    requires
        0 <= i < commands.len(),
    ensures
        ({
            let l = crate::ui::side_pane::command_lines(commands);
            &&& l.len() == 2 * commands.len()
            &&& l[2 * i] == crate::ui::side_pane::command_head(commands[i])
            &&& l[2 * i + 1] == crate::ui::side_pane::command_body(commands[i])
        }),
    decreases commands.len(),
{
    let rest = commands.drop_last();
    if i < rest.len() {
        lemma_command_lines(rest, i);
        assert(rest[i] == commands[i]);
    } else if rest.len() > 0 {
        lemma_command_lines(rest, 0);
    } else {
        assert(crate::ui::side_pane::command_lines(rest).len() == 0);
    }
}

// ─── Popups ────────────────────────────────────────────────────────────

/// The permission popup asks about the tool by its name, and shows each option in
/// its place with its number from one and its label, green where it allows and
/// red where it does not. The highlighted option is the one that Enter chooses.
pub proof fn law_the_permission_popup_shows_the_request(
    area: Area,
    perm: PendingPermissionView,
    i: int,
)
    requires
        0 <= i < perm.options.len(),
        perm.selected < perm.options.len(),
    ensures
        ({
            let popup = permission_popup(area, perm);
            &&& popup.len() == 5
            &&& title_of(popup[1]) == Some(" 🔐 Permission required "@)
            &&& popup[2] matches WidgetView::Text { lines: l, .. } && l.len() == 1 && l[0].len()
                == 3 && l[0][0].text == "Allow "@ && l[0][1].text == perm.tool_name && l[0][2].text
                == "?"@
            &&& popup[3] matches WidgetView::List { items, selected, .. } && items.len()
                == perm.options.len() && selected == Some(perm.selected) && items[i].len() == 2
                && items[i][0].text == " "@ + decimal((i + 1) as nat) + ". "@ && items[i][1].text
                == perm.options[i].1 && items[i][1].look == coloured(
                if has_prefix(perm.options[i].2, "allow"@) {
                    Hue::Green
                } else {
                    Hue::Red
                },
            )
            &&& popup[4] matches WidgetView::Text { lines: l, .. } && l.len() == 1 && says(
                l[0],
                "↑/↓ select · Enter confirm · 1-9 quick pick · Esc reject"@,
                coloured(Hue::DarkGray),
            )
        }),
{
}

/// The inbox popup shows from whom the front message comes and to whom it goes,
/// its text, how many wait, and the keys.
pub proof fn law_the_inbox_popup_shows_the_message(
    area: Area,
    msg: InboxMessageView,
    remaining: nat,
)
    ensures
        ({
            let popup = inbox_popup(area, msg, remaining);
            &&& popup.len() == 5
            &&& remaining > 1 ==> title_of(popup[1]) == Some(
                " 📨 Incoming message (1 of "@ + decimal(remaining) + ") "@,
            )
            &&& remaining <= 1 ==> title_of(popup[1]) == Some(" 📨 Incoming message "@)
            &&& popup[2] matches WidgetView::Text { lines: l, .. } && l.len() == 1 && l[0].len()
                == 3 && l[0][0].text == msg.sender_name && l[0][1].text == " → "@ && l[0][2].text
                == msg.target_name
            &&& popup[3] matches WidgetView::Text { lines: l, .. } && l.len() == lines(msg.body).len()
                && forall|i: int|
                0 <= i < l.len() ==> says(#[trigger] l[i], lines(msg.body)[i], unstyled())
            &&& popup[4] matches WidgetView::Text { lines: l, .. } && l.len() == 1 && says(
                l[0],
                "Enter/y approve & deliver · Esc/n reject"@,
                coloured(Hue::DarkGray),
            )
        }),
{
}

/// The popover shows each command that matches, in order, by its name as it is
/// typed, what it takes and what it does.
pub proof fn law_the_popover_shows_each_match(
    input: Area,
    found: Seq<AvailableCommandView>,
    selected: usize,
    i: int,
)
    requires
        0 <= i < found.len(),
        selected < found.len(),
        popover(input, found, selected).len() > 0,
    ensures
        popover(input, found, selected)[1] matches WidgetView::List {
            items,
            selected: highlighted,
            border: Some(b),
            ..
        } && items.len() == found.len() && highlighted == Some(selected) && b.title
            == " Commands ("@ + decimal(found.len()) + ") "@ && items[i].len() == 3
            && items[i][0].text == "/"@ + found[i].name && (found[i].hint is Some
            ==> items[i][1].text == " <"@ + found[i].hint->0 + ">"@) && (found[i].hint is None
            ==> items[i][1].text.len() == 0) && items[i][2].text == " — "@ + found[i].description,
{
}

/// The bottom row shows the command line behind a colon, or else the search
/// prompt behind a slash, or else the status message as it is; with none of them
/// there is no such row.
pub proof fn law_the_bottom_row_shows_what_is_typed(app: AppView, area: Area)
    ensures
        ({
            let row = overlay_of(app, area);
            let text = if app.command_mode {
                Some(":"@ + app.command_buffer)
            } else if app.search_mode {
                Some("/"@ + app.search_query)
            } else {
                app.status_message
            };
            match text {
                None => row is None,
                Some(t) => row matches Some(WidgetView::Text { area: a, lines: l, .. }) && l.len()
                    == 1 && l[0].len() == 1 && l[0][0].text == t && a.height == 1 && a.width
                    == area.width && a.x == area.x && (area.height > 0 && area.y + area.height
                    <= u16::MAX ==> a.y == area.y + area.height - 1),
            }
        }),
{
}

/// What is drawn on top is drawn in this order: the bottom row, the message that
/// waits in front, and above everything else the permission request.
pub proof fn law_the_permission_request_is_on_top(app: AppView, area: Area)
    requires
        app.permission_pending is Some,
    ensures
        ({
            let top = on_top(app, area);
            let popup = permission_popup(area, app.permission_pending->0);
            &&& top.len() >= popup.len()
            &&& top.skip(top.len() - popup.len()) == popup
            &&& app.inbox.len() > 0 ==> {
                let message = inbox_popup(area, app.inbox[0], app.inbox.len());
                let below = top.take(top.len() - popup.len());
                &&& below.len() >= message.len()
                &&& below.skip(below.len() - message.len()) == message
            }
        }),
{
    let top = on_top(app, area);
    let popup = permission_popup(area, app.permission_pending->0);
    let bar = match overlay_of(app, area) {
        Some(b) => seq![b],
        None => seq![],
    };
    let message = if app.inbox.len() > 0 {
        inbox_popup(area, app.inbox[0], app.inbox.len())
    } else {
        seq![]
    };
    let below = bar + message;
    assert(top == below + popup);
    assert(top.skip(top.len() - popup.len()) =~= popup);
    assert(top.take(top.len() - popup.len()) =~= below);
    assert(below.skip(below.len() - message.len()) =~= message);
}

// ─── The explorer ──────────────────────────────────────────────────────

/// The colour of a kind of status.
pub open spec fn status_colour(kind: StatusKind) -> Hue {
    match kind {
        StatusKind::Modified => Hue::Yellow,
        StatusKind::Added => Hue::Green,
        StatusKind::Deleted => Hue::Red,
        StatusKind::Renamed => Hue::Blue,
        StatusKind::Untracked => Hue::Cyan,
        StatusKind::Ignored => Hue::DarkGray,
        StatusKind::Conflicted => Hue::Magenta,
    }
}

/// Each row of the explorer is indented by its depth, shows whether it is an open
/// or a closed directory, its status by its marker and its colour, and its name.
pub proof fn law_a_row_shows_its_entry(entry: EntryRowView, markers: MarkersView)
    ensures
        ({
            let item = entry_item(entry, markers);
            &&& item.len() == 4
            &&& item[0].text.len() == 2 * entry.depth && forall|i: int|
                0 <= i < item[0].text.len() ==> #[trigger] item[0].text[i] == ' '
            &&& item[1].text == (if !entry.is_dir {
                "  "@
            } else if entry.expanded {
                "▼ "@
            } else {
                "▶ "@
            })
            &&& item[3].text == entry.name
            &&& entry.status is None ==> item[2].text == "   "@ && item[2].look == unstyled()
            &&& entry.status is Some ==> item[2].look == coloured(status_colour(entry.status->0))
            &&& entry.status == Some(StatusKind::Modified) && markers.modified.len() >= 2
                ==> item[2].text == markers.modified + " "@
            &&& entry.status == Some(StatusKind::Added) && markers.added.len() >= 2 ==> item[2].text
                == markers.added + " "@
            &&& entry.status == Some(StatusKind::Deleted) && markers.deleted.len() >= 2
                ==> item[2].text == markers.deleted + " "@
            &&& entry.status == Some(StatusKind::Renamed) && markers.renamed.len() >= 2
                ==> item[2].text == markers.renamed + " "@
            &&& entry.status == Some(StatusKind::Untracked) && markers.untracked.len() >= 2
                ==> item[2].text == markers.untracked + " "@
            &&& entry.status == Some(StatusKind::Ignored) && markers.ignored.len() >= 2
                ==> item[2].text == markers.ignored + " "@
            &&& entry.status == Some(StatusKind::Conflicted) && markers.conflicted.len() >= 2
                ==> item[2].text == markers.conflicted + " "@
        }),
{
    match entry.status {
        Some(kind) => {
            let mark = markers.of(kind);
            if mark.len() >= 2 {
                let none = crate::ui::style::blanks(0);
                assert(none + mark =~= mark);
            }
        },
        None => {},
    }
}

/// The explorer shows its rows in order, highlights the selected one and is named
/// after its workspace.
pub proof fn law_the_explorer_shows_its_rows(
    area: Area,
    state: ExplorerView,
    markers: MarkersView,
    focused: bool,
    i: int,
)
    requires
        state.fs is Some,
        0 <= i < state.rows().len(),
    ensures
        explorer_pane(area, state, markers, focused) matches WidgetView::List {
            area: a,
            items,
            selected,
            border: Some(b),
            ..
        } && a == area && items.len() == state.rows().len() && items[i] == entry_item(
            state.rows()[i],
            markers,
        ) && selected == Some(selection(state.rows(), state.selected) as usize) && b.title
            == " Explorer: "@ + crate::workspace::dir_label(state.fs->0.root) + " "@ && b.look
            == coloured(
            if focused {
                Hue::Yellow
            } else {
                Hue::DarkGray
            },
        ),
{
}

// ─── The screens ───────────────────────────────────────────────────────

/// The title of a session names its agent with its status and its branch, and an
/// agent that is gone by its id.
pub proof fn law_a_session_is_titled_by_its_agent(
    app: AppView,
    id: Seq<char>,
    prepared: PreparedView,
    rows: Seq<Area>,
    columns: Seq<Area>,
)
    ensures
        session_screen(app, id, prepared, rows, columns)[0] matches WidgetView::Text {
            area,
            lines: l,
            ..
        } && {
            &&& area == rows[0] && l.len() == 1 && l[0].len() == 1
            &&& !app.knows(id) ==> l[0][0].text == " "@ + id + " "@
            &&& app.knows(id) ==> {
                let (word, hue) = status_shown(app.agent(id).status);
                let k = app.index(id) as int;
                let branch = if k < prepared.branches.len() {
                    prepared.branches[k]
                } else {
                    None
                };
                l[0][0].text == " "@ + app.agent(id).name + " ["@ + word + "]"@ + (match branch {
                    Some(b) => " ⎇ "@ + b + " "@,
                    None => seq![],
                }) + " "@
            }
        },
{
}

/// A session shows the panes that are there, from left to right: the explorer if
/// it is open, the conversation, and the side pane if there is one. Exactly the
/// pane that has the focus is marked.
pub proof fn law_a_session_shows_its_panes(
    app: AppView,
    id: Seq<char>,
    prepared: PreparedView,
    columns: Seq<Area>,
)
    ensures
        ({
            let shown = session_panes(app, id, prepared, columns);
            let focus = match app.screen {
                ScreenView::AgentSession { focus, .. } => focus,
                _ => SessionFocus::Conversation,
            };
            &&& app.explorer.open ==> shown[0] == explorer_pane(
                columns[0],
                app.explorer,
                prepared.markers,
                focus == SessionFocus::Explorer,
            )
            &&& app.pane() is Some ==> shown.last() == side_pane(
                columns[if app.explorer.open {
                    2
                } else {
                    1
                }],
                app.pane()->0,
                prepared.content,
                focus == SessionFocus::SidePane,
            )
            &&& ({
                let k = if app.explorer.open {
                    1int
                } else {
                    0
                };
                shown[k] matches WidgetView::Text { area, lines: l, border: Some(b), wrap, .. }
                    && area == columns[k] && b.title == " Conversation "@ && wrap && b.look
                    == coloured(
                    if focus == SessionFocus::Conversation || (focus == SessionFocus::SidePane
                        && app.pane() is None) {
                        Hue::Yellow
                    } else {
                        Hue::DarkGray
                    },
                ) && l == conversation_lines(
                    if app.knows(id) {
                        Some(app.agent(id))
                    } else {
                        None
                    },
                    prepared.rich,
                )
            })
        }),
{
}

/// The rows of a session: the title, the panes and the keys, and the box of the
/// message while one is typed.
pub proof fn law_the_message_box_is_there_while_typing(app: AppView, area: Area)
    ensures
        ({
            let rows = session_rows(app, area);
            &&& rows[0] == Space::Length(3) && rows[1] == Space::Min(0) && rows.last()
                == Space::Length(3)
            &&& app.composing() ==> rows.len() == 4
            &&& !app.composing() ==> rows.len() == 3
        }),
{
}

/// The screen that is drawn is the one that the user is on.
pub proof fn law_the_screen_drawn_is_the_one_viewed(
    app: AppView,
    prepared: PreparedView,
    rows: Seq<Area>,
    columns: Seq<Area>,
)
    ensures
        match app.screen {
            ScreenView::AgentList { selected } => screen_of(app, prepared, rows, columns)
                == list_screen(rows, app.agents, prepared.branches, selected),
            ScreenView::AgentSession { agent_id, .. } => screen_of(app, prepared, rows, columns)
                == session_screen(app, agent_id, prepared, rows, columns),
        },
{
}

/// The bar at the foot of each screen names the keys that work there.
pub proof fn law_the_footer_names_the_keys(
    rows: Seq<Area>,
    agents: Seq<AgentView>,
    branches: Seq<Option<Seq<char>>>,
    selected: usize,
    area: Area,
    hint: Seq<char>,
)
    ensures
        list_screen(rows, agents, branches, selected).len() == 2,
        list_screen(rows, agents, branches, selected)[1] == crate::ui::keys_footer::footer(
            rows[1],
            "↑/k  ↓/j  Enter open  :open <path>  q quit"@,
        ),
        crate::ui::keys_footer::footer(area, hint) matches WidgetView::Text { area: a, lines: l, .. }
            && a == area && l.len() == 1 && says(l[0], hint, unstyled()),
        title_of(crate::ui::keys_footer::footer(area, hint)) == Some(" Keys "@),
        crate::ui::keys_footer::hint_text(true, false, false) == crate::ui::keys_footer::hint_text(
            true,
            true,
            true,
        ),
        crate::ui::keys_footer::hint_text(true, true, true)
            == "Enter send  Alt/Shift+Enter newline  / commands  Tab complete  Esc cancel"@,
        crate::ui::keys_footer::hint_text(false, true, true)
            == "Esc back  Tab switch focus  d dismiss pane  i input  C-e explorer  ↑/↓ scroll"@,
        crate::ui::keys_footer::hint_text(false, true, false)
            == "Esc back  Tab switch focus  d dismiss pane  i input  C-e explorer  ↑/↓ scroll  G follow"@,
        crate::ui::keys_footer::hint_text(false, false, true)
            == "Esc back  i input  C-e explorer  ↑/↓ scroll"@,
        crate::ui::keys_footer::hint_text(false, false, false)
            == "Esc back  i input  C-e explorer  ↑/↓ scroll  G follow"@,
{
}

/// A session's footer is the hint for what the user is doing: typing or not, with
/// or without a side pane, following the bottom or not.
pub proof fn law_a_sessions_footer_fits_what_the_user_does(
    app: AppView,
    id: Seq<char>,
    prepared: PreparedView,
    rows: Seq<Area>,
    columns: Seq<Area>,
)
    requires
        app.screen matches ScreenView::AgentSession { input_mode, .. } && !input_mode,
    ensures
        app.screen matches ScreenView::AgentSession { scroll, side_pane, .. } && session_screen(
            app,
            id,
            prepared,
            rows,
            columns,
        ).last() == crate::ui::keys_footer::footer(
            rows[2],
            crate::ui::keys_footer::hint_text(false, side_pane is Some, scroll == usize::MAX),
        ),
{
}

/// A name in the list is followed by blanks up to 20 columns, so that what stands
/// behind it is in line.
pub proof fn law_names_are_in_line(agent: AgentView, branch: Option<Seq<char>>)
    ensures
        ({
            let text = agent_item(agent, branch)[0].text;
            let n = if agent.name.len() < 20 {
                20
            } else {
                agent.name.len()
            };
            &&& text.len() == n + 2
            &&& forall|i: int|
                1 + agent.name.len() <= i < text.len() ==> #[trigger] text[i] == ' '
        }),
{
    reveal_strlit(" ");
}

/// A popup is three fifths as wide as the screen, but at least 20 columns where
/// there are as many.
pub proof fn law_a_popup_is_three_fifths_wide(width: u16)
    ensures
        ({
            let w = crate::ui::scene::popup_width(width);
            &&& width >= 35 ==> w == width as int * 3 / 5
            &&& 20 <= width < 34 ==> w == 20
            &&& width < 20 ==> w == width
        }),
{
}

/// The row that ended up at the top of a conversation is remembered for its agent,
/// for no other, and nothing else changes with a drawing.
pub proof fn law_a_drawing_remembers_the_top_row(
    app: AppView,
    prepared: PreparedView,
    columns: Seq<Area>,
    id: Seq<char>,
)
    requires
        app.viewed() == Some(id),
        app.knows(id),
    ensures
        ({
            let after = crate::ui::after_drawing(app, prepared, columns);
            let area = columns[if app.explorer.open {
                1
            } else {
                0
            }];
            let shown = conversation_lines(Some(app.agent(id)), prepared.rich);
            let total = crate::ui::conversation::rows_in(area, shown);
            let inner = if area.height < 2 {
                0
            } else {
                area.height - 2
            };
            let range = if total > inner {
                total - inner
            } else {
                0
            };
            &&& app.screen matches ScreenView::AgentSession { scroll, .. } && after.agents
                == app.agents.update(
                app.index(id) as int,
                AgentView {
                    last_effective_top: (if scroll < range {
                        scroll as int
                    } else {
                        range
                    }) as usize,
                    ..app.agent(id)
                },
            )
            &&& after == AppView { agents: after.agents, ..app }
        }),
{
}

/// A message that is JSON is shown as a fenced block of JSON, and any other as it
/// is.
pub proof fn law_json_is_shown_in_a_fence(body: Seq<char>)
    ensures
        crate::ui::conversation::markup_source(body, true) == "```json\n"@ + body + "\n```"@,
        crate::ui::conversation::markup_source(body, false) == body,
{
}

/// The box of the message shows the text that is typed, line by line and under its
/// title.
pub proof fn law_the_message_box_shows_what_is_typed(area: Area, buffer: Seq<char>)
    ensures
        crate::ui::input_box::input_box(area, buffer) matches WidgetView::Text {
            area: a,
            lines: l,
            wrap,
            border: Some(b),
            ..
        } && a == area && wrap && b.title == " Message "@ && l.len() == lines(buffer).len()
            && forall|i: int|
            0 <= i < l.len() ==> says(#[trigger] l[i], lines(buffer)[i], unstyled()),
{
}

/// The box of the message is as tall as its text needs, from three rows to a third
/// of the screen and never more than twelve.
pub proof fn law_the_message_box_grows_with_its_text(app: AppView, area: Area)
    ensures
        ({
            let h = crate::ui::agent_session::input_height(app, area);
            let needed = crate::ui::input_box::row_count(
                app.input_buffer,
                crate::ui::agent_session::input_columns(area),
            ) + 2;
            &&& 3 <= h <= 12
            &&& area.height >= 9 ==> h <= area.height / 3
            &&& h < needed ==> h == 12 || h == 3 || h == area.height as int / 3
            &&& h > needed ==> h == 3
        }),
{
}

/// A border takes one cell on each side, and what is in the middle of an area has
/// as much room on the one side as on the other, within a cell.
pub proof fn law_a_border_takes_one_cell_and_a_popup_is_centred(
    area: Area,
    width: u16,
    height: u16,
)
    requires
        area.x + area.width <= u16::MAX,
        area.y + area.height <= u16::MAX,
        width <= area.width,
        height <= area.height,
    ensures
        area.width >= 2 && area.height >= 2 ==> area.inside() == (Area {
            x: (area.x + 1) as u16,
            y: (area.y + 1) as u16,
            width: (area.width - 2) as u16,
            height: (area.height - 2) as u16,
        }),
        ({
            let m = area.middle(width, height);
            let left = m.x - area.x;
            let right = area.width - width - left;
            let above = m.y - area.y;
            let under = area.height - height - above;
            &&& m.width == width && m.height == height
            &&& 0 <= right - left <= 1
            &&& 0 <= under - above <= 1
        }),
{
}

/// While a message is typed, its box, its cursor and the popover of the commands
/// that match are drawn last of the session, in the row of the box.
pub proof fn law_a_session_shows_the_message_box(
    app: AppView,
    id: Seq<char>,
    prepared: PreparedView,
    rows: Seq<Area>,
    columns: Seq<Area>,
)
    requires
        app.composing(),
    ensures
        ({
            let scene = session_screen(app, id, prepared, rows, columns);
            let input = seq![
                crate::ui::input_box::input_box(rows[2], app.input_buffer),
                crate::ui::input_box::input_cursor(rows[2], app.input_buffer),
            ] + (match app.slash_matches(id) {
                Some(found) => popover(rows[2], found, app.slash_selected),
                None => seq![],
            });
            &&& scene.len() >= input.len()
            &&& scene.skip(scene.len() - input.len()) == input
        }),
{
    let scene = session_screen(app, id, prepared, rows, columns);
    let input = crate::ui::agent_session::session_input(app, id, rows[2]);
    assert(scene.skip(scene.len() - input.len()) =~= input);
}

/// What is drawn is the screen that the user is on, laid out in the area, and on
/// top of it what stands on top of every screen. A drawing of the list changes
/// nothing.
pub proof fn law_a_drawing_is_the_screen_and_what_is_on_top(
    app: AppView,
    area: Area,
    prepared: PreparedView,
    scene: Seq<WidgetView>,
    after: AppView,
)
    requires
        crate::ui::draws(app, area, prepared, scene, after),
    ensures
        ({
            let top = on_top(app, area);
            &&& scene.len() > top.len()
            &&& scene.skip(scene.len() - top.len()) == top
            &&& app.viewed() is None ==> after == app && scene.len() == top.len() + 2 && title_of(
                scene[0],
            ) == Some(" Agents "@)
            &&& app.viewed() is Some ==> scene[0] is Text
            &&& after == AppView { agents: after.agents, ..app }
        }),
{
    let top = on_top(app, area);
    let (rows, columns) = choose|rows: Seq<Area>, columns: Seq<Area>|
        #[trigger] crate::ui::lays_out(app, area, rows, columns) && scene == screen_of(
            app,
            prepared,
            rows,
            columns,
        ) + top && after == crate::ui::after_drawing(app, prepared, columns);
    let screen = screen_of(app, prepared, rows, columns);
    assert(scene.skip(scene.len() - top.len()) =~= top);
    assert(scene[0] == screen[0]);
}

/// A line takes as many rows as it needs and no more, an empty one takes one, and
/// the caret stands behind the last character, on the last row.
pub proof fn law_a_line_takes_the_rows_it_needs(line: Seq<char>, width: nat)
    requires
        width > 0,
        !line.contains('\n'),
    ensures
        ({
            let rows = crate::ui::input_box::row_count(line, width) as int;
            let (row, column) = crate::ui::input_box::caret(line, width);
            &&& rows >= 1
            &&& line.len() <= rows * width
            &&& rows > 1 ==> (rows - 1) * width < line.len()
            &&& row == rows - 1
            &&& column == line.len() - (rows - 1) * width
        }),
{
    assert forall|i: int| 0 <= i < line.len() implies line[i] != '\n' by {
        assert(line.contains(line[i]));
    }
    crate::text::lemma_position_is(line, '\n', line.len() as int);
    let one = seq![line];
    assert(crate::text::split(line, '\n') =~= one);
    assert(one.drop_last() =~= Seq::<Seq<char>>::empty());
    reveal_with_fuel(crate::ui::input_box::stacked, 2);
    let n = line.len() as int;
    let w = width as int;
    if n > 0 {
        let q = (n - 1) / w;
        vstd::arithmetic::div_mod::lemma_fundamental_div_mod(n - 1, w);
        vstd::arithmetic::div_mod::lemma_mod_bound(n - 1, w);
        assert(q >= 0) by {
            vstd::arithmetic::div_mod::lemma_div_pos_is_pos(n - 1, w);
        }
        assert((q + 1) * w == w * q + w) by (nonlinear_arith);
        assert(q * w == w * q) by (nonlinear_arith);
    } else {
        assert(1 * w == w) by (nonlinear_arith);
        assert(0 * w == 0) by (nonlinear_arith);
    }
}

/// The popover shows up to eight commands at once, directly above the box, where
/// there is room for them.
pub proof fn law_the_popover_shows_up_to_eight_commands(input: Area, found: nat)
    requires
        found > 0,
        input.y >= 11,
    ensures
        ({
            let rows = if found < 8 {
                found + 2
            } else {
                10
            };
            crate::ui::slash_popover::popover_area(input, found) == Some(
                Area { y: (input.y - rows) as u16, height: rows as u16, ..input },
            )
        }),
{
}

/// The inbox popup takes a third of the screen's rows, but at least six where there
/// are as many, and the permission popup takes a row for each option and five more.
pub proof fn law_popups_are_as_tall_as_they_need(area: Area, options: nat)
    ensures
        area.height >= 18 ==> crate::ui::inbox_popup::inbox_area(area).height == area.height as int
            / 3,
        6 <= area.height < 18 ==> crate::ui::inbox_popup::inbox_area(area).height == 6,
        area.height < 6 ==> crate::ui::inbox_popup::inbox_area(area).height == area.height,
        options + 5 <= area.height ==> crate::ui::permission_popup::permission_area(
            area,
            options,
        ).height == options + 5,
        options + 5 > area.height ==> crate::ui::permission_popup::permission_area(
            area,
            options,
        ).height == area.height,
{
}

} // verus!
