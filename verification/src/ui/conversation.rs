//! Scrollable conversation pane on the agent-session screen.
use crate::agent::{
    Agent, AgentView, HistoryEntry, HistoryEntryView, MessageStatus, StreamedText, StreamedTextView,
    ToolCall, ToolCallStatusKind, ToolCallView,
};
use crate::order::all_views;
use crate::text::{chars_of, concat2, concat3, lines, lines_of, text_of, trim, trimmed, views};
use crate::ui::scene::{
    all_tame, bordered, can_wrap, copy_lines, in_hue, less, line_count, one_piece, plain_look,
    scroll_to, scroll_to_row, texts, wrapped_rows, Area, Border, Hue, Look, PieceView, Scene,
    StyledLine, Widget, WidgetView, MAX_WRAP_WIDTH,
};
use crate::ui::style::{border_look, border_style};
use vstd::prelude::*;
use vstd::string::*;

verus! {

/// A message's text as lines in one look, each behind a prefix.
pub open spec fn body_lines(text: Seq<char>, prefix: Seq<char>, look: Look) -> Seq<Seq<PieceView>> {
    lines(text).map_values(|l: Seq<char>| one_piece(prefix + l, look))
}

/// The look of what the user said.
pub open spec fn user_look() -> Look {
    Look { bold: true, ..in_hue(Hue::Cyan) }
}

/// The look of what an agent thinks.
pub open spec fn thought_look() -> Look {
    Look { italic: true, ..in_hue(Hue::DarkGray) }
}

/// What shows that more text is coming.
pub open spec fn stream_cursor() -> Seq<Seq<PieceView>> {
    seq![one_piece("▊"@, in_hue(Hue::Green))]
}

/// The lines of a message from the agent. While it streams it is shown as it
/// comes, with a cursor; when it is complete it is shown rendered, if it is
/// marked up.
pub open spec fn assistant_lines(
    msg: StreamedTextView,
    rich: Option<Seq<Seq<PieceView>>>,
) -> Seq<Seq<PieceView>> {
    let streaming = msg.status is Streaming;
    if msg.text.len() == 0 {
        if streaming {
            stream_cursor()
        } else {
            seq![]
        }
    } else if streaming {
        body_lines(msg.text, seq![], in_hue(Hue::Green)) + stream_cursor()
    } else {
        (match rich {
            Some(rendered) => rendered,
            None => body_lines(msg.text, seq![], plain_look()),
        }) + (if msg.status is Failed {
            seq![one_piece("[message failed]"@, in_hue(Hue::Red))]
        } else {
            seq![]
        })
    }
}

/// The first characters of a text.
pub open spec fn opening(text: Seq<char>, n: int) -> Seq<char> {
    if text.len() <= n {
        text
    } else {
        text.take(n)
    }
}

/// The lines of a thought: a preview while it streams, all of it when it is
/// complete, unless it is blank.
pub open spec fn thought_lines(msg: StreamedTextView) -> Seq<Seq<PieceView>> {
    if msg.status is Streaming {
        seq![one_piece("💭 "@ + opening(msg.text, 80) + "…"@, thought_look())]
    } else if trimmed(msg.text).len() == 0 {
        seq![]
    } else {
        seq![one_piece("💭 "@ + trimmed(msg.text), thought_look())]
    }
}

/// What shows how far a tool call has come, and in which colour.
pub open spec fn tool_marker(status: ToolCallStatusKind) -> (Seq<char>, Hue) {
    match status {
        ToolCallStatusKind::Pending => ("⏳"@, Hue::Yellow),
        ToolCallStatusKind::InProgress => ("⏳"@, Hue::Yellow),
        ToolCallStatusKind::Completed => ("✓"@, Hue::Green),
        ToolCallStatusKind::Failed => ("✗"@, Hue::Red),
    }
}

/// The lines of a tool call.
pub open spec fn tool_lines(call: ToolCallView) -> Seq<Seq<PieceView>> {
    let (marker, hue) = tool_marker(call.status);
    let title = if call.title.len() == 0 {
        "(tool)"@
    } else {
        call.title
    };
    seq![one_piece(marker + " "@ + title, in_hue(hue))]
}

/// The lines of a history entry. `rich` is what a marked-up message is rendered
/// to.
pub open spec fn entry_lines(
    entry: HistoryEntryView,
    rich: Option<Seq<Seq<PieceView>>>,
) -> Seq<Seq<PieceView>> {
    match entry {
        HistoryEntryView::Info(text) => body_lines(text, seq![], plain_look()),
        HistoryEntryView::Error(text) => body_lines(text, seq![], in_hue(Hue::Red)),
        HistoryEntryView::Prompt(text) => body_lines(text, "> "@, user_look()),
        HistoryEntryView::Assistant(msg) => assistant_lines(msg, rich),
        HistoryEntryView::Thought(msg) => thought_lines(msg),
        HistoryEntryView::User(msg) => body_lines(msg.text, "> "@, user_look()),
        HistoryEntryView::Tool(call) => tool_lines(call),
    }
}

/// What the `k`th entry is rendered to, if it is marked up.
pub open spec fn rich_at(rich: Seq<Option<Seq<Seq<PieceView>>>>, k: int) -> Option<
    Seq<Seq<PieceView>>,
> {
    if 0 <= k < rich.len() {
        rich[k]
    } else {
        None
    }
}

/// The lines of a history, entry by entry.
pub open spec fn history_lines(
    history: Seq<HistoryEntryView>,
    rich: Seq<Option<Seq<Seq<PieceView>>>>,
) -> Seq<Seq<PieceView>>
    decreases history.len(),
{
    if history.len() == 0 {
        seq![]
    } else {
        history_lines(history.drop_last(), rich) + entry_lines(
            history.last(),
            rich_at(rich, history.len() - 1),
        )
    }
}

/// The lines of a conversation.
pub open spec fn conversation_lines(
    agent: Option<AgentView>,
    rich: Seq<Option<Seq<Seq<PieceView>>>>,
) -> Seq<Seq<PieceView>> {
    match agent {
        None => seq![],
        Some(a) => if a.history.len() == 0 {
            seq![one_piece("(no messages yet)"@, in_hue(Hue::DarkGray))]
        } else {
            history_lines(a.history, rich)
        },
    }
}

/// How far a conversation of `total` rows can be scrolled.
pub open spec fn scroll_range(total: usize, area: Area) -> usize {
    if total > less(area.height, 2) {
        (total - less(area.height, 2)) as usize
    } else {
        0
    }
}

/// The row at the top of the pane: the last rows when the bottom is followed,
/// and never past them.
pub open spec fn effective_top(scroll: usize, total: usize, area: Area) -> usize {
    if scroll < scroll_range(total, area) {
        scroll
    } else {
        scroll_range(total, area)
    }
}

/// The conversation pane, given the rows that its lines take.
pub open spec fn conversation_pane(
    area: Area,
    shown: Seq<Seq<PieceView>>,
    total: usize,
    scroll: usize,
    focused: bool,
) -> Seq<WidgetView> {
    let top = effective_top(scroll, total, area);
    let pane = WidgetView::Text {
        area,
        lines: shown,
        look: plain_look(),
        wrap: true,
        scroll: scroll_to(top as nat),
        centered: false,
        border: Some(bordered(" Conversation "@, border_look(focused))),
    };
    if scroll_range(total, area) > 0 {
        seq![
            pane,
            WidgetView::Scrollbar {
                area,
                look: border_look(focused),
                range: scroll_range(total, area),
                position: top,
            },
        ]
    } else {
        seq![pane]
    }
}

/// The columns that a conversation is wrapped to in a pane: those inside its
/// border. Where there are more of them than the sums of widths have room for,
/// the rows are counted for [`MAX_WRAP_WIDTH`] columns.
pub open spec fn wrap_columns(area: Area, shown: Seq<Seq<PieceView>>) -> u16 {
    if can_wrap(texts(shown), less(area.width, 2)) {
        less(area.width, 2)
    } else {
        MAX_WRAP_WIDTH
    }
}

/// The rows that a conversation takes in a pane.
pub open spec fn rows_in(area: Area, shown: Seq<Seq<PieceView>>) -> usize {
    wrapped_rows(texts(shown), wrap_columns(area, shown))
}

/// The view of what entries are rendered to.
pub open spec fn rich_views(v: Seq<Option<Vec<StyledLine>>>) -> Seq<
    Option<Seq<Seq<PieceView>>>,
> {
    v.map_values(
        |o: Option<Vec<StyledLine>>|
            match o {
                Some(l) => Some(all_views(l@)),
                None => None,
            },
    )
}

/// The source that a complete message is rendered from: JSON is put into a
/// fence.
pub open spec fn markup_source(body: Seq<char>, is_json: bool) -> Seq<char> {
    if is_json {
        "```json\n"@ + body + "\n```"@
    } else {
        body
    }
}

/// The source that a complete message is rendered from: JSON is put into a
/// fence.
pub fn markup_source_of(body: &str, is_json: bool) -> (r: String)
    ensures
        r@ == markup_source(body@, is_json),
{
    if is_json {
        concat3("```json\n", body, "\n```")
    } else {
        body.to_owned()
    }
}

/// Append a text as lines in one look, each behind a prefix.
fn push_body(out: &mut Vec<StyledLine>, text: &str, prefix: &str, look: Look)
    ensures
        all_views(final(out)@) == all_views(old(out)@) + body_lines(text@, prefix@, look),
{
    let from = lines_of(text);
    let ghost all = lines(text@);
    let ghost line = |l: Seq<char>| one_piece(prefix@ + l, look);
    let ghost before = all_views(out@);
    let mut i: usize = 0;
    proof {
        assert(before + all.take(0).map_values(line) =~= before);
    }
    while i < from.len()
        invariant
            i <= from@.len(),
            all == views(from@),
            line == (|l: Seq<char>| one_piece(prefix@ + l, look)),
            all_views(out@) == before + all.take(i as int).map_values(line),
        decreases from@.len() - i,
    {
        let ghost had = out@;
        out.push(StyledLine::one(concat2(prefix, from[i].as_str()), look));
        proof {
            assert(all_views(out@) =~= all_views(had).push(line(all[i as int])));
            assert(all.take(i + 1).map_values(line) =~= all.take(i as int).map_values(line).push(
                line(all[i as int]),
            ));
            assert(before + all.take(i as int).map_values(line).push(line(all[i as int])) =~= (
            before + all.take(i as int).map_values(line)).push(line(all[i as int])));
        }
        i = i + 1;
    }
    proof {
        assert(all.take(i as int) =~= all);
    }
}

/// Append a line of one piece.
fn push_line(out: &mut Vec<StyledLine>, text: String, look: Look)
    ensures
        all_views(final(out)@) == all_views(old(out)@) + seq![one_piece(text@, look)],
{
    out.push(StyledLine::one(text, look));
    proof {
        assert(all_views(out@) =~= all_views(old(out)@) + seq![one_piece(text@, look)]);
    }
}

/// Append a message from the agent.
fn push_assistant(out: &mut Vec<StyledLine>, msg: &StreamedText, rich: Option<&Vec<StyledLine>>)
    ensures
        all_views(final(out)@) == all_views(old(out)@) + assistant_lines(
            msg@,
            match rich {
                Some(l) => Some(all_views(l@)),
                None => None,
            },
        ),
{
    let ghost before = all_views(out@);
    let terminal = msg.status.is_terminal();
    if msg.text.as_str().is_empty() {
        if !terminal {
            push_line(out, "▊".to_owned(), Look::hue(Hue::Green));
        } else {
            proof {
                assert(before + Seq::<Seq<PieceView>>::empty() =~= before);
            }
        }
        return;
    }
    if !terminal {
        let ghost body = body_lines(msg.text@, seq![], in_hue(Hue::Green));
        proof {
            reveal_strlit("");
            assert(""@ =~= Seq::<char>::empty());
        }
        push_body(out, msg.text.as_str(), "", Look::hue(Hue::Green));
        push_line(out, "▊".to_owned(), Look::hue(Hue::Green));
        proof {
            assert(before + body + stream_cursor() =~= before + (body + stream_cursor()));
        }
        return;
    }
    match rich {
        Some(rendered) => {
            let mut copy = copy_lines(rendered);
            let ghost had = out@;
            let ghost more = copy@;
            out.append(&mut copy);
            proof {
                assert(all_views(out@) =~= all_views(had) + all_views(more));
            }
        },
        None => {
            proof {
                reveal_strlit("");
                assert(""@ =~= Seq::<char>::empty());
            }
            push_body(out, msg.text.as_str(), "", Look::plain());
        },
    }
    let ghost body = match rich {
        Some(l) => all_views(l@),
        None => body_lines(msg.text@, seq![], plain_look()),
    };
    let failed = match &msg.status {
        MessageStatus::Failed(_) => true,
        _ => false,
    };
    if failed {
        push_line(out, "[message failed]".to_owned(), Look::hue(Hue::Red));
        proof {
            let mark = seq![one_piece("[message failed]"@, in_hue(Hue::Red))];
            assert(before + body + mark =~= before + (body + mark));
        }
    } else {
        proof {
            assert(body + Seq::<Seq<PieceView>>::empty() =~= body);
        }
    }
}

/// Append a thought.
fn push_thought(out: &mut Vec<StyledLine>, msg: &StreamedText)
    ensures
        all_views(final(out)@) == all_views(old(out)@) + thought_lines(msg@),
{
    let look = Look::hue(Hue::DarkGray).italic();
    if msg.status.is_terminal() {
        let body = trim(msg.text.as_str());
        if body.as_str().is_empty() {
            proof {
                assert(all_views(out@) + Seq::<Seq<PieceView>>::empty() =~= all_views(out@));
            }
            return;
        }
        push_line(out, concat2("💭 ", body.as_str()), look);
    } else {
        let v = chars_of(msg.text.as_str());
        let n: usize = if v.len() > 80 {
            80
        } else {
            v.len()
        };
        let preview = text_of(v.as_slice(), 0, n);
        proof {
            assert(preview@ =~= opening(msg.text@, 80));
        }
        push_line(out, concat3("💭 ", preview.as_str(), "…"), look);
    }
}

/// Append a tool call.
fn push_tool(out: &mut Vec<StyledLine>, call: &ToolCall)
    ensures
        all_views(final(out)@) == all_views(old(out)@) + tool_lines(call@),
{
    let (marker, hue) = match call.status {
        ToolCallStatusKind::Pending => ("⏳", Hue::Yellow),
        ToolCallStatusKind::InProgress => ("⏳", Hue::Yellow),
        ToolCallStatusKind::Completed => ("✓", Hue::Green),
        ToolCallStatusKind::Failed => ("✗", Hue::Red),
    };
    let title = if call.title.as_str().is_empty() {
        "(tool)"
    } else {
        call.title.as_str()
    };
    push_line(out, concat3(marker, " ", title), Look::hue(hue));
}

/// Append a single history entry to the rendered lines.
pub fn render_history_entry(
    entry: &HistoryEntry,
    rich: Option<&Vec<StyledLine>>,
    out: &mut Vec<StyledLine>,
)
    ensures
        all_views(final(out)@) == all_views(old(out)@) + entry_lines(
            entry@,
            match rich {
                Some(l) => Some(all_views(l@)),
                None => None,
            },
        ),
{
    proof {
        reveal_strlit("");
        assert(""@ =~= Seq::<char>::empty());
    }
    match entry {
        HistoryEntry::Info(text) => push_body(out, text.as_str(), "", Look::plain()),
        HistoryEntry::Error(text) => push_body(out, text.as_str(), "", Look::hue(Hue::Red)),
        HistoryEntry::Prompt(text) => push_body(
            out,
            text.as_str(),
            "> ",
            Look::hue(Hue::Cyan).bold(),
        ),
        HistoryEntry::Assistant(msg) => push_assistant(out, msg, rich),
        HistoryEntry::Thought(msg) => push_thought(out, msg),
        HistoryEntry::User(msg) => push_body(
            out,
            msg.text.as_str(),
            "> ",
            Look::hue(Hue::Cyan).bold(),
        ),
        HistoryEntry::Tool(call) => push_tool(out, call),
    }
}

/// The view of an optional agent.
pub open spec fn opt_agent(o: Option<&Agent>) -> Option<AgentView> {
    match o {
        Some(a) => Some(a@),
        None => None,
    }
}

/// The lines of a conversation.
pub fn conversation_lines_of(agent: Option<&Agent>, rich: &Vec<Option<Vec<StyledLine>>>) -> (r: Vec<
    StyledLine,
>)
    ensures
        all_views(r@) == conversation_lines(opt_agent(agent), rich_views(rich@)),
{
    let mut out: Vec<StyledLine> = Vec::new();
    proof {
        assert(all_views(out@) =~= seq![]);
    }
    let a = match agent {
        Some(a) => a,
        None => {
            return out;
        },
    };
    if a.history.len() == 0 {
        push_line(&mut out, "(no messages yet)".to_owned(), Look::hue(Hue::DarkGray));
        proof {
            assert(all_views(out@) =~= seq![
                one_piece("(no messages yet)"@, in_hue(Hue::DarkGray)),
            ]);
        }
        return out;
    }
    let ghost all = all_views(a.history@);
    let ghost rv = rich_views(rich@);
    let mut i: usize = 0;
    proof {
        assert(all.take(0) =~= seq![]);
    }
    while i < a.history.len()
        invariant
            i <= a.history@.len(),
            all == all_views(a.history@),
            rv == rich_views(rich@),
            all_views(out@) == history_lines(all.take(i as int), rv),
        decreases a.history@.len() - i,
    {
        let rendered: Option<&Vec<StyledLine>> = if i < rich.len() {
            match &rich[i] {
                Some(l) => Some(l),
                None => None,
            }
        } else {
            None
        };
        proof {
            assert(all.take(i + 1).drop_last() =~= all.take(i as int));
            assert(all.take(i + 1).last() == a.history@[i as int]@);
        }
        render_history_entry(&a.history[i], rendered, &mut out);
        i = i + 1;
    }
    proof {
        assert(all.take(i as int) =~= all);
    }
    out
}

/// Draw the conversation, given the rows that its lines take. Returns the row
/// that ended up at the top.
pub fn render_lines(
    scene: &mut Scene,
    area: Area,
    shown: Vec<StyledLine>,
    total: usize,
    scroll: usize,
    focused: bool,
) -> (top: usize)
    ensures
        final(scene)@ == old(scene)@ + conversation_pane(
            area,
            all_views(shown@),
            total,
            scroll,
            focused,
        ),
        top == effective_top(scroll, total, area),
{
    let ghost before = scene@;
    let viewport: usize = area.height.saturating_sub(2) as usize;
    let max_scroll: usize = if total > viewport {
        total - viewport
    } else {
        0
    };
    let top: usize = if scroll < max_scroll {
        scroll
    } else {
        max_scroll
    };
    let look = border_style(focused);
    scene.draw(
        Widget::Text {
            area,
            lines: shown,
            look: Look::plain(),
            wrap: true,
            scroll: scroll_to_row(top),
            centered: false,
            border: Some(Border::new(" Conversation ".to_owned(), look)),
        },
    );
    if max_scroll > 0 {
        scene.draw(Widget::Scrollbar { area, look, range: max_scroll, position: top });
    }
    proof {
        assert(scene@ =~= before + conversation_pane(area, all_views(shown@), total, scroll, focused));
    }
    top
}

/// Draw the conversation. Long lines wrap, so the rows are counted as they are
/// drawn: otherwise following the bottom would cut off the last ones. Returns
/// the row that ended up at the top.
pub fn render(
    scene: &mut Scene,
    area: Area,
    agent: Option<&Agent>,
    rich: &Vec<Option<Vec<StyledLine>>>,
    scroll: usize,
    focused: bool,
) -> (top: usize)
    ensures
        ({
            let shown = conversation_lines(opt_agent(agent), rich_views(rich@));
            let total = rows_in(area, shown);
            &&& final(scene)@ == old(scene)@ + conversation_pane(
                area,
                shown,
                total,
                scroll,
                focused,
            )
            &&& top == effective_top(scroll, total, area)
        }),
{
    let shown = conversation_lines_of(agent, rich);
    let inner: u16 = area.width.saturating_sub(2);
    let columns: u16 = if inner <= MAX_WRAP_WIDTH || all_tame(&shown) {
        inner
    } else {
        MAX_WRAP_WIDTH
    };
    let total: usize = line_count(&shown, columns);
    render_lines(scene, area, shown, total, scroll, focused)
}

// ─── Laws ──────────────────────────────────────────────────────────────

/// The first row that a pane shows of its text.
pub open spec fn drawn_from(pane: Seq<WidgetView>) -> u16 {
    match pane[0] {
        WidgetView::Text { scroll, .. } => scroll,
        _ => 0,
    }
}

/// Following the bottom shows the last row in the last row of the pane, and
/// scrolling past the end shows the same. The rows above it can be up to 65535,
/// the most that a text can be scrolled by.
pub proof fn law_following_shows_the_last_row(
    shown: Seq<Seq<PieceView>>,
    scroll: usize,
    total: usize,
    area: Area,
    focused: bool,
)
    requires
        scroll >= scroll_range(total, area),
        scroll_range(total, area) <= u16::MAX,
    ensures
        conversation_pane(area, shown, total, scroll, focused) == conversation_pane(
            area,
            shown,
            total,
            usize::MAX,
            focused,
        ),
        total >= less(area.height, 2) ==> drawn_from(
            conversation_pane(area, shown, total, scroll, focused),
        ) + less(area.height, 2) == total,
        total < less(area.height, 2) ==> drawn_from(
            conversation_pane(area, shown, total, scroll, focused),
        ) == 0,
{
}

/// A scroll position that the user chose stays where it is when the
/// conversation grows: the same row is drawn first.
pub proof fn law_scroll_position_is_kept(
    shown: Seq<Seq<PieceView>>,
    longer: Seq<Seq<PieceView>>,
    scroll: usize,
    total: usize,
    more: usize,
    area: Area,
    focused: bool,
)
    requires
        scroll <= scroll_range(total, area),
        total <= more,
    ensures
        effective_top(scroll, more, area) == scroll,
        drawn_from(conversation_pane(area, longer, more, scroll, focused)) == drawn_from(
            conversation_pane(area, shown, total, scroll, focused),
        ),
        scroll <= u16::MAX ==> drawn_from(conversation_pane(area, longer, more, scroll, focused))
            == scroll,
{
}

/// Entries are shown in order: what stood above stays as it was when an entry
/// is added.
pub proof fn law_history_is_shown_in_order(
    history: Seq<HistoryEntryView>,
    entry: HistoryEntryView,
    rich: Seq<Option<Seq<Seq<PieceView>>>>,
)
    ensures
        history_lines(history.push(entry), rich) == history_lines(history, rich) + entry_lines(
            entry,
            rich_at(rich, history.len() as int),
        ),
{
    assert(history.push(entry).drop_last() =~= history);
}

/// A tool call takes one line, whatever becomes of it: it flips in place.
pub proof fn law_a_tool_call_takes_one_line(
    call: ToolCallView,
    rich: Option<Seq<Seq<PieceView>>>,
)
    ensures
        entry_lines(HistoryEntryView::Tool(call), rich).len() == 1,
{
}

/// A message is rendered only when it is complete: while it streams it is shown
/// as it comes.
pub proof fn law_markup_waits_for_the_end(
    msg: StreamedTextView,
    rich: Option<Seq<Seq<PieceView>>>,
)
    requires
        msg.status is Streaming,
    ensures
        entry_lines(HistoryEntryView::Assistant(msg), rich) == entry_lines(
            HistoryEntryView::Assistant(msg),
            None,
        ),
{
}

/// While a thought streams, one line shows no more than its first 80 characters.
pub proof fn law_a_thought_is_previewed(msg: StreamedTextView, rich: Option<Seq<Seq<PieceView>>>)
    requires
        msg.status is Streaming,
    ensures
        ({
            let shown = entry_lines(HistoryEntryView::Thought(msg), rich);
            &&& shown.len() == 1
            &&& shown[0].len() == 1
            &&& exists|start: Seq<char>|
                start.len() <= 80 && start.is_prefix_of(msg.text) && shown[0][0].text == #[trigger] (
                "💭 "@ + start) + "…"@
        }),
{
    let start = opening(msg.text, 80);
    assert(start.is_prefix_of(msg.text));
    let shown = entry_lines(HistoryEntryView::Thought(msg), rich);
    assert(shown[0][0].text == ("💭 "@ + start) + "…"@);
}

} // verus!
