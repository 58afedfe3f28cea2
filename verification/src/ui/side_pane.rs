//! Right-hand side panel: diff and file viewer, slash-commands browser and
//! search results.
use crate::agent::{AvailableCommand, AvailableCommandView};
use crate::order::{all_views, sort_of, stable_sort};
use crate::protocol::{SearchMatch, SearchMatchView, SearchSummary};
use crate::text::{concat2, concat3, decimal, decimal_of, trim_end, trim_tail};
use crate::types::{SidePane, SidePaneView};
use crate::ui::scene::{
    bordered, copy_lines, in_hue, one_piece, plain_look, Area, Border, Hue, Look, PieceView,
    StyledLine, Widget, WidgetView,
};
use crate::ui::style::{border_look, border_style};
use vstd::prelude::*;
use vstd::string::*;

verus! {

/// The name of a command as it is typed, and what it takes.
pub open spec fn command_head(c: AvailableCommandView) -> Seq<PieceView> {
    let name = PieceView {
        text: "/"@ + c.name,
        look: Look { bold: true, ..in_hue(Hue::Cyan) },
    };
    match c.hint {
        Some(hint) => seq![
            name,
            PieceView { text: " <"@ + hint + ">"@, look: in_hue(Hue::DarkGray) },
        ],
        None => seq![name],
    }
}

/// What a command does, indented.
pub open spec fn command_body(c: AvailableCommandView) -> Seq<PieceView> {
    seq![
        PieceView { text: "    "@, look: plain_look() },
        PieceView { text: c.description, look: in_hue(Hue::Gray) },
    ]
}

/// Two lines for each command.
pub open spec fn command_lines(commands: Seq<AvailableCommandView>) -> Seq<Seq<PieceView>>
    decreases commands.len(),
{
    if commands.len() == 0 {
        seq![]
    } else {
        command_lines(commands.drop_last()) + seq![
            command_head(commands.last()),
            command_body(commands.last()),
        ]
    }
}

/// How a search is doing.
pub open spec fn search_status(running: bool, summary: Option<SearchSummary>) -> Seq<char> {
    if running {
        " — searching…"@
    } else {
        match summary {
            None => seq![],
            Some(s) => if s.cancelled {
                " — cancelled"@
            } else if s.truncated {
                " ("@ + decimal(s.count as nat) + " matches, truncated)"@
            } else {
                " ("@ + decimal(s.count as nat) + " matches)"@
            },
        }
    }
}

/// A hit: where it is, and the line without its end.
pub open spec fn hit_line(hit: SearchMatchView, selected: bool) -> Seq<PieceView> {
    let text = if selected {
        Look { bg: Some(Hue::Cyan), ..in_hue(Hue::Black) }
    } else {
        in_hue(Hue::Gray)
    };
    seq![
        PieceView {
            text: hit.path + ":"@ + decimal(hit.line as nat),
            look: if selected {
                Look { bold: true, ..text }
            } else {
                in_hue(Hue::Cyan)
            },
        },
        PieceView { text: "  "@, look: text },
        PieceView { text: trim_end(hit.text), look: text },
    ]
}

/// The hits of a search, or what is said when there are none.
pub open spec fn search_lines(
    matches: Seq<SearchMatchView>,
    selected: usize,
    running: bool,
) -> Seq<Seq<PieceView>> {
    if matches.len() == 0 {
        seq![
            one_piece(
                if running {
                    "Searching…"@
                } else {
                    "No matches."@
                },
                in_hue(Hue::DarkGray),
            ),
        ]
    } else {
        Seq::new(matches.len(), |i: int| hit_line(matches[i], i == selected))
    }
}

/// The pane's title.
pub open spec fn pane_title(pane: SidePaneView) -> Seq<char> {
    match pane {
        SidePaneView::Diff { path, .. } => " Diff: "@ + path + " "@,
        SidePaneView::FileView { path, .. } => " File: "@ + path + " "@,
        SidePaneView::Commands { commands, .. } => " Commands ("@ + decimal(commands.len()) + ") "@,
        SidePaneView::Search { query, running, summary, .. } => " Search: "@ + query
            + search_status(running, summary) + " "@,
    }
}

/// The pane's lines. `content` is what the text of a file or of a diff is
/// highlighted to.
pub open spec fn pane_lines(pane: SidePaneView, content: Seq<Seq<PieceView>>) -> Seq<
    Seq<PieceView>,
> {
    match pane {
        SidePaneView::Diff { .. } => content,
        SidePaneView::FileView { .. } => content,
        SidePaneView::Commands { commands, .. } => command_lines(sort_of(commands)),
        SidePaneView::Search { matches, selected, running, .. } => search_lines(
            matches,
            selected,
            running,
        ),
    }
}

/// The side pane.
pub open spec fn side_pane(
    area: Area,
    pane: SidePaneView,
    content: Seq<Seq<PieceView>>,
    focused: bool,
) -> WidgetView {
    WidgetView::Text {
        area,
        lines: pane_lines(pane, content),
        look: plain_look(),
        wrap: !(pane is Search),
        scroll: pane.offset(),
        centered: false,
        border: Some(bordered(pane_title(pane), border_look(focused))),
    }
}

/// Lines for each command, by name.
fn render_commands(commands: &Vec<AvailableCommand>) -> (r: Vec<StyledLine>)
    ensures
        all_views(r@) == command_lines(sort_of(all_views(commands@))),
{
    let mut refs: Vec<&AvailableCommand> = Vec::new();
    let mut i: usize = 0;
    while i < commands.len()
        invariant
            i <= commands@.len(),
            all_views(refs@) == all_views(commands@).take(i as int),
        decreases commands@.len() - i,
    {
        let ghost had = refs@;
        refs.push(&commands[i]);
        proof {
            assert(all_views(refs@) =~= all_views(had).push(commands@[i as int]@));
            assert(all_views(commands@).take(i + 1) =~= all_views(commands@).take(i as int).push(
                commands@[i as int]@,
            ));
        }
        i = i + 1;
    }
    proof {
        assert(all_views(commands@).take(i as int) =~= all_views(commands@));
    }
    let sorted = stable_sort(refs);
    let ghost all = all_views(sorted@);
    let mut out: Vec<StyledLine> = Vec::new();
    let mut k: usize = 0;
    proof {
        assert(all.take(0) =~= seq![]);
        assert(all_views(out@) =~= seq![]);
    }
    while k < sorted.len()
        invariant
            k <= sorted@.len(),
            all == all_views(sorted@),
            all_views(out@) == command_lines(all.take(k as int)),
        decreases sorted@.len() - k,
    {
        let ghost had = out@;
        let c: &AvailableCommand = sorted[k];
        let mut head = StyledLine::one(
            concat2("/", c.name.as_str()),
            Look::hue(Hue::Cyan).bold(),
        );
        match &c.hint {
            Some(hint) => {
                head.push(concat3(" <", hint.as_str(), ">"), Look::hue(Hue::DarkGray));
            },
            None => {},
        }
        let mut body = StyledLine::one("    ".to_owned(), Look::plain());
        body.push(c.description.clone(), Look::hue(Hue::Gray));
        proof {
            assert(head@ =~= command_head(c@));
            assert(body@ =~= command_body(c@));
        }
        out.push(head);
        out.push(body);
        proof {
            assert(all.take(k + 1).drop_last() =~= all.take(k as int));
            assert(all.take(k + 1).last() == c@);
            assert(all_views(out@) =~= all_views(had) + seq![command_head(c@), command_body(c@)]);
        }
        k = k + 1;
    }
    proof {
        assert(all.take(k as int) =~= all);
    }
    out
}

/// How a search is doing.
fn search_status_of(running: bool, summary: &Option<SearchSummary>) -> (r: String)
    ensures
        r@ == search_status(running, *summary),
{
    if running {
        return " — searching…".to_owned();
    }
    match summary {
        None => {
            let r = String::new();
            proof {
                assert(r@ =~= seq![]);
            }
            r
        },
        Some(s) => {
            if s.cancelled {
                " — cancelled".to_owned()
            } else {
                let count = decimal_of(s.count);
                if s.truncated {
                    concat3(" (", count.as_str(), " matches, truncated)")
                } else {
                    concat3(" (", count.as_str(), " matches)")
                }
            }
        },
    }
}

/// A line for each hit.
fn render_hits(matches: &Vec<SearchMatch>, selected: usize, running: bool) -> (r: Vec<StyledLine>)
    ensures
        all_views(r@) == search_lines(all_views(matches@), selected, running),
{
    let mut out: Vec<StyledLine> = Vec::new();
    if matches.len() == 0 {
        let said = if running {
            "Searching…"
        } else {
            "No matches."
        };
        out.push(StyledLine::one(said.to_owned(), Look::hue(Hue::DarkGray)));
        proof {
            assert(all_views(out@) =~= seq![one_piece(said@, in_hue(Hue::DarkGray))]);
        }
        return out;
    }
    let ghost all = search_lines(all_views(matches@), selected, running);
    let mut i: usize = 0;
    proof {
        assert(all_views(out@) =~= all.take(0));
    }
    while i < matches.len()
        invariant
            i <= matches@.len(),
            matches@.len() > 0,
            all == search_lines(all_views(matches@), selected, running),
            all_views(out@) == all.take(i as int),
        decreases matches@.len() - i,
    {
        let ghost had = out@;
        let hit = &matches[i];
        let chosen = i == selected;
        let number = decimal_of(hit.line);
        let text_look = if chosen {
            Look::hue(Hue::Black).on(Hue::Cyan)
        } else {
            Look::hue(Hue::Gray)
        };
        let place_look = if chosen {
            text_look.bold()
        } else {
            Look::hue(Hue::Cyan)
        };
        let mut line = StyledLine::one(
            concat3(hit.path.as_str(), ":", number.as_str()),
            place_look,
        );
        line.push("  ".to_owned(), text_look);
        line.push(trim_tail(hit.text.as_str()), text_look);
        proof {
            assert(line@ =~= hit_line(hit@, chosen));
        }
        out.push(line);
        proof {
            assert(all_views(out@) =~= all_views(had).push(line@));
            assert(all.take(i + 1) =~= all.take(i as int).push(all[i as int]));
        }
        i = i + 1;
    }
    proof {
        assert(all.take(i as int) =~= all);
    }
    out
}

/// Draw the side pane.
pub fn render(area: Area, pane: &SidePane, content: &Vec<StyledLine>, focused: bool) -> (r: Widget)
    ensures
        r@ == side_pane(area, pane@, all_views(content@), focused),
{
    let (title, lines, scroll, wrap) = match pane {
        SidePane::Diff { path, scroll, .. } => (
            concat3(" Diff: ", path.as_str(), " "),
            copy_lines(content),
            *scroll,
            true,
        ),
        SidePane::FileView { path, scroll, .. } => (
            concat3(" File: ", path.as_str(), " "),
            copy_lines(content),
            *scroll,
            true,
        ),
        SidePane::Commands { commands, scroll } => {
            let count = decimal_of(commands.len() as u64);
            (concat3(" Commands (", count.as_str(), ") "), render_commands(commands), *scroll, true)
        },
        SidePane::Search { query, matches, selected, scroll, running, summary, .. } => {
            let status = search_status_of(*running, summary);
            let head = concat3(" Search: ", query.as_str(), status.as_str());
            (
                concat2(head.as_str(), " "),
                render_hits(matches, *selected, *running),
                *scroll,
                false,
            )
        },
    };
    Widget::Text {
        area,
        lines,
        look: Look::plain(),
        wrap,
        scroll,
        centered: false,
        border: Some(Border::new(title, border_style(focused))),
    }
}

} // verus!
