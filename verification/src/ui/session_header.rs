//! Title bar at the top of the agent-session screen.
use crate::agent::{opt_text, Agent, AgentView};
use crate::order::all_views;
use crate::text::concat3;
use crate::ui::conversation::opt_agent;
use crate::ui::scene::{
    bordered, in_hue, one_piece, plain_look, Area, Border, Hue, Look, StyledLine, Widget, WidgetView,
};
use vstd::prelude::*;
use vstd::string::*;

verus! {

/// The title of a session: the agent with its status and its branch, or the id
/// of one that is gone.
pub open spec fn session_title(
    agent: Option<AgentView>,
    branch: Option<Seq<char>>,
    agent_id: Seq<char>,
) -> Seq<char> {
    match agent {
        Some(a) => " "@ + a.name + " ["@ + a.status.label_text() + "]"@ + (match branch {
            Some(b) => " ⎇ "@ + b + " "@,
            None => seq![],
        }) + " "@,
        None => " "@ + agent_id + " "@,
    }
}

/// The title bar.
pub open spec fn header(
    area: Area,
    agent: Option<AgentView>,
    branch: Option<Seq<char>>,
    agent_id: Seq<char>,
) -> WidgetView {
    WidgetView::Text {
        area,
        lines: seq![
            one_piece(
                session_title(agent, branch, agent_id),
                Look { bold: true, ..in_hue(Hue::Cyan) },
            ),
        ],
        look: plain_look(),
        wrap: false,
        scroll: 0,
        centered: true,
        border: Some(bordered(seq![], plain_look())),
    }
}

/// Draw the title bar.
pub fn render(area: Area, agent: Option<&Agent>, branch: &Option<String>, agent_id: &str) -> (r: Widget)
    ensures
        r@ == header(area, opt_agent(agent), opt_text(*branch), agent_id@),
{
    let title = match agent {
        Some(a) => {
            let mut t = concat3(" ", a.name.as_str(), " [");
            t.append(a.status.label());
            t.append("]");
            let ghost head = t@;
            match branch {
                Some(b) => {
                    let mark = concat3(" ⎇ ", b.as_str(), " ");
                    t.append(mark.as_str());
                },
                None => {
                    proof {
                        assert(head + Seq::<char>::empty() =~= head);
                    }
                },
            }
            t.append(" ");
            t
        },
        None => concat3(" ", agent_id, " "),
    };
    let mut lines: Vec<StyledLine> = Vec::new();
    lines.push(StyledLine::one(title, Look::hue(Hue::Cyan).bold()));
    let none = String::new();
    proof {
        assert(none@ =~= seq![]);
        assert(all_views(lines@) =~= seq![
            one_piece(title@, Look { bold: true, ..in_hue(Hue::Cyan) }),
        ]);
    }
    Widget::Text {
        area,
        lines,
        look: Look::plain(),
        wrap: false,
        scroll: 0,
        centered: true,
        border: Some(Border::new(none, Look::plain())),
    }
}

} // verus!
