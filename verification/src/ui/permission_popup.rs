//! Tool-permission request modal.
//!
//! When an agent asks to run a tool, the runtime blocks on the user's answer.
//! It is asked for in a centered popup that lists every option the agent
//! offered. While the popup is open it owns all keyboard input, so keystrokes
//! can never leak into the message input box behind it.
use crate::app::{PendingPermission, PendingPermissionView};
use crate::event::option_views;
use crate::order::all_views;
use crate::text::{concat3, decimal, decimal_of, has_prefix, starts_with};
use crate::ui::scene::{
    bordered, clamped, cut, in_hue, less, one_piece, plain_look, popup_width, popup_width_of, Area,
    Border, Hue, Look, PieceView, Scene, StyledLine, Widget, WidgetView,
};
use vstd::prelude::*;
use vstd::string::*;

verus! {

/// The popup's area: in the middle, with a row for each option, as far as there
/// is room.
pub open spec fn permission_area(area: Area, options: nat) -> Area {
    area.middle(
        popup_width(area.width),
        clamped(options as int + 5, 0, area.height as int) as u16,
    )
}

/// An option's line: its number, and its label in the colour of what it does.
pub open spec fn option_item(k: int, option: (Seq<char>, Seq<char>, Seq<char>)) -> Seq<PieceView> {
    seq![
        PieceView { text: " "@ + decimal((k + 1) as nat) + ". "@, look: in_hue(Hue::DarkGray) },
        PieceView {
            text: option.1,
            look: in_hue(
                if has_prefix(option.2, "allow"@) {
                    Hue::Green
                } else {
                    Hue::Red
                },
            ),
        },
    ]
}

/// The question that the popup asks.
pub open spec fn question(tool_name: Seq<char>) -> Seq<PieceView> {
    seq![
        PieceView { text: "Allow "@, look: plain_look() },
        PieceView { text: tool_name, look: Look { bold: true, ..in_hue(Hue::Cyan) } },
        PieceView { text: "?"@, look: plain_look() },
    ]
}

/// A text without a border.
pub open spec fn bare_text(area: Area, lines: Seq<Seq<PieceView>>, look: Look, wrap: bool) -> WidgetView {
    WidgetView::Text { area, lines, look, wrap, scroll: 0, centered: false, border: None }
}

/// The rows of a popup between its two rows of header and its one row of hint.
pub open spec fn middle_rows(inner: Area) -> u16 {
    less(inner.height, 3)
}

/// The popup. Where it has no room for its header and its hint, they are cut
/// off.
pub open spec fn permission_popup(area: Area, perm: PendingPermissionView) -> Seq<WidgetView> {
    let popup = permission_area(area, perm.options.len());
    let inner = popup.inside();
    let header = cut(2, inner.height);
    let list = middle_rows(inner);
    let hint = cut(1, less(inner.height, 2));
    seq![
        WidgetView::Clear { area: popup },
        WidgetView::Frame {
            area: popup,
            border: bordered(
                " 🔐 Permission required "@,
                Look { bold: true, ..in_hue(Hue::Magenta) },
            ),
        },
        bare_text(inner.band(0, header), seq![question(perm.tool_name)], plain_look(), true),
        WidgetView::List {
            area: inner.band(header as int, list),
            items: Seq::new(perm.options.len(), |i: int| option_item(i, perm.options[i])),
            selected: if perm.options.len() == 0 {
                None
            } else {
                Some(clamped(perm.selected as int, 0, perm.options.len() - 1) as usize)
            },
            highlight: Look { bold: true, reversed: true, ..plain_look() },
            symbol: seq![],
            border: None,
        },
        bare_text(
            inner.band(header + list, hint),
            seq![
                one_piece(
                    "↑/↓ select · Enter confirm · 1-9 quick pick · Esc reject"@,
                    in_hue(Hue::DarkGray),
                ),
            ],
            plain_look(),
            false,
        ),
    ]
}

/// The popup's area.
fn centered_rect(area: Area, options: usize) -> (r: Area)
    ensures
        r == permission_area(area, options as nat),
        area.holds(r),
{
    let height: u16 = if options < 65530 && options as u16 + 5 < area.height {
        options as u16 + 5
    } else {
        area.height
    };
    area.centered(popup_width_of(area.width), height)
}

/// A text of one line without a border.
pub fn render_line(area: Area, line: StyledLine, look: Look, wrap: bool) -> (r: Widget)
    ensures
        r@ == bare_text(area, seq![line@], look, wrap),
{
    let mut lines: Vec<StyledLine> = Vec::new();
    lines.push(line);
    proof {
        assert(all_views(lines@) =~= seq![line@]);
    }
    Widget::Text { area, lines, look, wrap, scroll: 0, centered: false, border: None }
}

/// A line for each option.
fn render_options(options: &Vec<(String, String, String)>) -> (r: Vec<StyledLine>)
    ensures
        all_views(r@) == Seq::new(
            options@.len(),
            |i: int| option_item(i, option_views(options@)[i]),
        ),
{
    let ghost all = option_views(options@);
    let ghost wanted = Seq::new(options@.len(), |i: int| option_item(i, all[i]));
    let mut items: Vec<StyledLine> = Vec::new();
    let mut i: usize = 0;
    proof {
        assert(all_views(items@) =~= wanted.take(0));
    }
    while i < options.len()
        invariant
            i <= options@.len(),
            all == option_views(options@),
            wanted == Seq::new(options@.len(), |i: int| option_item(i, all[i])),
            all_views(items@) == wanted.take(i as int),
        decreases options@.len() - i,
    {
        let ghost had = items@;
        let number = decimal_of(i as u64 + 1);
        let mut item = StyledLine::one(
            concat3(" ", number.as_str(), ". "),
            Look::hue(Hue::DarkGray),
        );
        let hue = if starts_with(options[i].2.as_str(), "allow") {
            Hue::Green
        } else {
            Hue::Red
        };
        item.push(options[i].1.clone(), Look::hue(hue));
        proof {
            assert(item@ =~= wanted[i as int]);
        }
        items.push(item);
        proof {
            assert(all_views(items@) =~= all_views(had).push(item@));
            assert(wanted.take(i + 1) =~= wanted.take(i as int).push(wanted[i as int]));
        }
        i = i + 1;
    }
    proof {
        assert(wanted.take(i as int) =~= wanted);
        assert(wanted =~= Seq::new(options@.len(), |i: int| option_item(i, option_views(options@)[i])));
    }
    items
}

/// Draw the permission modal centered over `area`.
pub fn render(scene: &mut Scene, area: Area, perm: &PendingPermission)
    ensures
        final(scene)@ == old(scene)@ + permission_popup(area, perm@),
{
    let ghost before = scene@;
    let count: usize = perm.options.len();
    let popup = centered_rect(area, count);
    let inner = popup.inner();
    let header: u16 = if inner.height < 2 {
        inner.height
    } else {
        2
    };
    let list: u16 = inner.height.saturating_sub(3);
    let hint: u16 = if inner.height < 3 {
        0
    } else {
        1
    };
    scene.draw(Widget::Clear { area: popup });
    scene.draw(
        Widget::Frame {
            area: popup,
            border: Border::new(
                " 🔐 Permission required ".to_owned(),
                Look::hue(Hue::Magenta).bold(),
            ),
        },
    );
    let mut line = StyledLine::one("Allow ".to_owned(), Look::plain());
    line.push(perm.tool_name.clone(), Look::hue(Hue::Cyan).bold());
    line.push("?".to_owned(), Look::plain());
    proof {
        assert(line@ =~= question(perm@.tool_name));
    }
    scene.draw(render_line(inner.rows(0, header), line, Look::plain(), true));
    let selected: Option<usize> = if count == 0 {
        None
    } else if perm.selected < count {
        Some(perm.selected)
    } else {
        Some(count - 1)
    };
    let symbol = String::new();
    proof {
        assert(symbol@ =~= seq![]);
    }
    let items = render_options(&perm.options);
    proof {
        assert(all_views(items@) =~= Seq::new(
            perm@.options.len(),
            |i: int| option_item(i, perm@.options[i]),
        ));
    }
    scene.draw(
        Widget::List {
            area: inner.rows(header, list),
            items,
            selected,
            highlight: Look::plain().bold().reversed(),
            symbol,
            border: None,
        },
    );
    scene.draw(
        render_line(
            inner.rows(header + list, hint),
            StyledLine::one(
                "↑/↓ select · Enter confirm · 1-9 quick pick · Esc reject".to_owned(),
                Look::hue(Hue::DarkGray),
            ),
            Look::plain(),
            false,
        ),
    );
    proof {
        assert(scene@ =~= before + permission_popup(area, perm@));
    }
}

// ─── Laws ──────────────────────────────────────────────────────────────

/// The area that a part of a popup is drawn in.
pub open spec fn drawn_in(widget: WidgetView) -> Option<Area> {
    match widget {
        WidgetView::Clear { area } => Some(area),
        WidgetView::Frame { area, .. } => Some(area),
        WidgetView::Text { area, .. } => Some(area),
        WidgetView::List { area, .. } => Some(area),
        _ => None,
    }
}

/// The popup is clamped to the area that it is drawn over: however small that
/// is, and however many options there are, nothing of the popup lies outside.
pub proof fn law_the_popup_stays_in_its_area(area: Area, perm: PendingPermissionView)
    ensures
        area.holds(permission_area(area, perm.options.len())),
        forall|i: int|
            0 <= i < permission_popup(area, perm).len() ==> drawn_in(
                #[trigger] permission_popup(area, perm)[i],
            ) is Some && area.holds(drawn_in(permission_popup(area, perm)[i])->0),
{
}

/// Where there is room, every option has its row.
pub proof fn law_every_option_has_its_row(area: Area, options: nat)
    requires
        options + 5 <= area.height,
    ensures
        middle_rows(permission_area(area, options).inside()) == options,
{
}

} // verus!
