//! Cross-workspace message approval modal.
//!
//! A message that another workspace's agent sent is shown here for the user's
//! approval before it is injected into the target agent. Like the permission
//! popup, this modal owns keyboard input while it is open.
use crate::app::inbox::{InboxMessage, InboxMessageView};
use crate::text::{concat3, decimal, decimal_of};
use crate::ui::input_box::{plain_lines, plain_lines_of};
use crate::ui::permission_popup::{bare_text, middle_rows, render_line};
use crate::ui::scene::{
    bordered, clamped, in_hue, one_piece, plain_look, popup_width, popup_width_of, Area, Border,
    Hue, Look, PieceView, Scene, StyledLine, Widget, WidgetView,
};
use vstd::prelude::*;
use vstd::string::*;

verus! {

/// The popup's area: in the middle, up to a third of the screen tall.
pub open spec fn inbox_area(area: Area) -> Area {
    area.middle(
        popup_width(area.width),
        clamped(area.height as int / 3, clamped(6, 0, area.height as int), area.height as int) as u16,
    )
}

/// The popup's title, with how many messages wait.
pub open spec fn inbox_title(remaining: nat) -> Seq<char> {
    if remaining > 1 {
        " 📨 Incoming message (1 of "@ + decimal(remaining) + ") "@
    } else {
        " 📨 Incoming message "@
    }
}

/// From whom the message comes, and to whom it goes.
pub open spec fn route(msg: InboxMessageView) -> Seq<PieceView> {
    seq![
        PieceView { text: msg.sender_name, look: Look { bold: true, ..in_hue(Hue::Cyan) } },
        PieceView { text: " → "@, look: plain_look() },
        PieceView { text: msg.target_name, look: Look { bold: true, ..in_hue(Hue::Green) } },
    ]
}

/// The popup.
pub open spec fn inbox_popup(area: Area, msg: InboxMessageView, remaining: nat) -> Seq<WidgetView> {
    let popup = inbox_area(area);
    let inner = popup.inside();
    let body = middle_rows(inner);
    seq![
        WidgetView::Clear { area: popup },
        WidgetView::Frame {
            area: popup,
            border: bordered(
                inbox_title(remaining),
                Look { bold: true, ..in_hue(Hue::Yellow) },
            ),
        },
        bare_text(inner.band(0, 2), seq![route(msg)], plain_look(), true),
        bare_text(inner.band(2, body), plain_lines(msg.body), in_hue(Hue::Gray), true),
        bare_text(
            inner.band(2 + body, 1),
            seq![
                one_piece("Enter/y approve & deliver · Esc/n reject"@, in_hue(Hue::DarkGray)),
            ],
            plain_look(),
            false,
        ),
    ]
}

/// The popup's area.
fn centered_rect(area: Area) -> (r: Area)
    ensures
        r == inbox_area(area),
{
    let third: u16 = area.height / 3;
    let least: u16 = if area.height < 6 {
        area.height
    } else {
        6
    };
    let height: u16 = if third < least {
        least
    } else {
        third
    };
    area.centered(popup_width_of(area.width), height)
}

/// Draw the modal centered over `area` for the front pending message.
/// `remaining` is the number of queued messages, this one among them.
pub fn render(scene: &mut Scene, area: Area, msg: &InboxMessage, remaining: usize)
    ensures
        final(scene)@ == old(scene)@ + inbox_popup(area, msg@, remaining as nat),
{
    let ghost before = scene@;
    let popup = centered_rect(area);
    let inner = popup.inner();
    let body: u16 = inner.height.saturating_sub(3);
    scene.draw(Widget::Clear { area: popup });
    let title = if remaining > 1 {
        let count = decimal_of(remaining as u64);
        concat3(" 📨 Incoming message (1 of ", count.as_str(), ") ")
    } else {
        " 📨 Incoming message ".to_owned()
    };
    scene.draw(
        Widget::Frame { area: popup, border: Border::new(title, Look::hue(Hue::Yellow).bold()) },
    );
    let mut line = StyledLine::one(msg.sender_name.clone(), Look::hue(Hue::Cyan).bold());
    line.push(" → ".to_owned(), Look::plain());
    line.push(msg.target_name.clone(), Look::hue(Hue::Green).bold());
    proof {
        assert(line@ =~= route(msg@));
    }
    scene.draw(render_line(inner.rows(0, 2), line, Look::plain(), true));
    scene.draw(
        Widget::Text {
            area: inner.rows(2, body),
            lines: plain_lines_of(msg.body.as_str()),
            look: Look::hue(Hue::Gray),
            wrap: true,
            scroll: 0,
            centered: false,
            border: None,
        },
    );
    scene.draw(
        render_line(
            inner.rows(2 + body, 1),
            StyledLine::one(
                "Enter/y approve & deliver · Esc/n reject".to_owned(),
                Look::hue(Hue::DarkGray),
            ),
            Look::plain(),
            false,
        ),
    );
    proof {
        assert(scene@ =~= before + inbox_popup(area, msg@, remaining as nat));
    }
}

} // verus!
