//! Bottom "Keys" footer hint shared by both screens.
use crate::ui::scene::{
    bordered, one_piece, plain_look, Area, Border, Look, StyledLine, Widget, WidgetView,
};
use crate::order::all_views;
use vstd::prelude::*;
use vstd::string::*;

verus! {

/// The footer with a hint.
pub open spec fn footer(area: Area, hint: Seq<char>) -> WidgetView {
    WidgetView::Text {
        area,
        lines: seq![one_piece(hint, plain_look())],
        look: plain_look(),
        wrap: false,
        scroll: 0,
        centered: true,
        border: Some(bordered(" Keys "@, plain_look())),
    }
}

/// Draw the footer with a hint.
pub fn render(area: Area, hint: &str) -> (r: Widget)
    ensures
        r@ == footer(area, hint@),
{
    let mut lines: Vec<StyledLine> = Vec::new();
    lines.push(StyledLine::one(hint.to_owned(), Look::plain()));
    let r = Widget::Text {
        area,
        lines,
        look: Look::plain(),
        wrap: false,
        scroll: 0,
        centered: true,
        border: Some(Border::new(" Keys ".to_owned(), Look::plain())),
    };
    proof {
        assert(all_views(lines@) =~= seq![one_piece(hint@, plain_look())]);
    }
    r
}

/// The hint of the agent-session screen.
pub open spec fn hint_text(input_mode: bool, side_pane: bool, following: bool) -> Seq<char> {
    if input_mode {
        "Enter send  Alt/Shift+Enter newline  / commands  Tab complete  Esc cancel"@
    } else if side_pane && following {
        "Esc back  Tab switch focus  d dismiss pane  i input  C-e explorer  ↑/↓ scroll"@
    } else if side_pane {
        "Esc back  Tab switch focus  d dismiss pane  i input  C-e explorer  ↑/↓ scroll  G follow"@
    } else if following {
        "Esc back  i input  C-e explorer  ↑/↓ scroll"@
    } else {
        "Esc back  i input  C-e explorer  ↑/↓ scroll  G follow"@
    }
}

/// Build the hint string for the agent-session screen. Centralised so every
/// path shows the same canonical strings.
pub fn session_hint(input_mode: bool, side_pane: bool, following: bool) -> (r: &'static str)
    ensures
        r@ == hint_text(input_mode, side_pane, following),
{
    if input_mode {
        return "Enter send  Alt/Shift+Enter newline  / commands  Tab complete  Esc cancel";
    }
    match (side_pane, following) {
        (true, true) => {
            "Esc back  Tab switch focus  d dismiss pane  i input  C-e explorer  ↑/↓ scroll"
        },
        (true, false) => {
            "Esc back  Tab switch focus  d dismiss pane  i input  C-e explorer  ↑/↓ scroll  G follow"
        },
        (false, true) => "Esc back  i input  C-e explorer  ↑/↓ scroll",
        (false, false) => "Esc back  i input  C-e explorer  ↑/↓ scroll  G follow",
    }
}

} // verus!
