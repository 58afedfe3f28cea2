//! Bottom-row overlays drawn on top of every screen: the command bar, the
//! search bar and the transient status message. (Permission requests are drawn
//! as their own centered modal.)
use crate::app::{App, AppView};
use crate::order::all_views;
use crate::text::concat2;
use crate::ui::scene::{
    in_hue, less, one_piece, plain_look, Area, Hue, Look, StyledLine, Widget, WidgetView,
};
use vstd::prelude::*;
use vstd::string::*;

verus! {

/// The bottom row of the screen.
pub open spec fn bottom_row(area: Area) -> Area {
    area.band(less(area.height, 1) as int, 1)
}

/// A bar of one line across the screen.
pub open spec fn bar(area: Area, text: Seq<char>, look: Look, ground: Hue) -> WidgetView {
    WidgetView::Text {
        area: bottom_row(area),
        lines: seq![one_piece(text, look)],
        look: Look { bg: Some(ground), ..plain_look() },
        wrap: false,
        scroll: 0,
        centered: false,
        border: None,
    }
}

/// What stands on the bottom row: the command line, or else the search prompt,
/// or else the status message.
pub open spec fn overlay_of(app: AppView, area: Area) -> Option<WidgetView> {
    if app.command_mode {
        Some(
            bar(
                area,
                ":"@ + app.command_buffer,
                Look { bg: Some(Hue::DarkGray), bold: true, ..in_hue(Hue::White) },
                Hue::DarkGray,
            ),
        )
    } else if app.search_mode {
        Some(
            bar(
                area,
                "/"@ + app.search_query,
                Look { bg: Some(Hue::Cyan), bold: true, ..in_hue(Hue::Black) },
                Hue::Cyan,
            ),
        )
    } else {
        match app.status_message {
            Some(message) => Some(
                bar(
                    area,
                    message,
                    Look { bg: Some(Hue::DarkGray), ..in_hue(Hue::Yellow) },
                    Hue::DarkGray,
                ),
            ),
            None => None,
        }
    }
}

/// Draw a bar of one line across the bottom of the screen.
fn render_bar(area: Area, text: String, look: Look, ground: Hue) -> (r: Widget)
    ensures
        r@ == bar(area, text@, look, ground),
{
    let mut lines: Vec<StyledLine> = Vec::new();
    lines.push(StyledLine::one(text, look));
    proof {
        assert(all_views(lines@) =~= seq![one_piece(text@, look)]);
    }
    Widget::Text {
        area: area.rows(area.height.saturating_sub(1), 1),
        lines,
        look: Look::plain().on(ground),
        wrap: false,
        scroll: 0,
        centered: false,
        border: None,
    }
}

/// Draw the command line.
fn render_command_bar(area: Area, buffer: &str) -> (r: Widget)
    ensures
        r@ == bar(
            area,
            ":"@ + buffer@,
            Look { bg: Some(Hue::DarkGray), bold: true, ..in_hue(Hue::White) },
            Hue::DarkGray,
        ),
{
    render_bar(
        area,
        concat2(":", buffer),
        Look::hue(Hue::White).on(Hue::DarkGray).bold(),
        Hue::DarkGray,
    )
}

/// Draw the search prompt.
fn render_search_bar(area: Area, query: &str) -> (r: Widget)
    ensures
        r@ == bar(
            area,
            "/"@ + query@,
            Look { bg: Some(Hue::Cyan), bold: true, ..in_hue(Hue::Black) },
            Hue::Cyan,
        ),
{
    render_bar(area, concat2("/", query), Look::hue(Hue::Black).on(Hue::Cyan).bold(), Hue::Cyan)
}

/// Draw the status message.
fn render_status_bar(area: Area, message: &str) -> (r: Widget)
    ensures
        r@ == bar(
            area,
            message@,
            Look { bg: Some(Hue::DarkGray), ..in_hue(Hue::Yellow) },
            Hue::DarkGray,
        ),
{
    render_bar(
        area,
        message.to_owned(),
        Look::hue(Hue::Yellow).on(Hue::DarkGray),
        Hue::DarkGray,
    )
}

/// Draw what stands on the bottom row, if anything does.
pub fn render(area: Area, app: &App) -> (r: Option<Widget>)
    ensures
        match r {
            Some(w) => overlay_of(app@, area) == Some(w@),
            None => overlay_of(app@, area) is None,
        },
{
    if app.command_mode {
        Some(render_command_bar(area, app.command_buffer.as_str()))
    } else if app.search_mode {
        Some(render_search_bar(area, app.search_query.as_str()))
    } else {
        match &app.status_message {
            Some(message) => Some(render_status_bar(area, message.as_str())),
            None => None,
        }
    }
}

} // verus!
