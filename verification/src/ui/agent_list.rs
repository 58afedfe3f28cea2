//! Top-level "all agents" screen.
use crate::agent::{opt_text, Agent, AgentView};
use crate::order::all_views;
use crate::text::{concat2, concat3};
use crate::ui::keys_footer;
use crate::ui::keys_footer::footer;
use crate::ui::scene::{
    in_hue, plain_look, Area, Border, BorderView, Hue, Look, PieceView, Scene, Space,
    StyledLine, Widget, WidgetView,
};
use crate::ui::style::{flush_left, pad_right, status_color, status_hue};
use vstd::prelude::*;
use vstd::string::*;

verus! {

/// The branches of the agents.
pub open spec fn branch_views(v: Seq<Option<String>>) -> Seq<Option<Seq<char>>> {
    v.map_values(|o: Option<String>| opt_text(o))
}

/// The branch of the `k`th agent.
pub open spec fn branch_at(branches: Seq<Option<Seq<char>>>, k: int) -> Option<Seq<char>> {
    if 0 <= k < branches.len() {
        branches[k]
    } else {
        None
    }
}

/// The line of an agent: its name, its status and its branch.
pub open spec fn agent_item(agent: AgentView, branch: Option<Seq<char>>) -> Seq<PieceView> {
    seq![
        PieceView { text: " "@ + flush_left(agent.name, 20) + " "@, look: in_hue(Hue::White) },
        PieceView {
            text: "["@ + agent.status.label_text() + "]"@,
            look: in_hue(status_hue(agent.status)),
        },
    ] + (match branch {
        Some(b) => seq![
            PieceView { text: "  "@, look: plain_look() },
            PieceView { text: "⎇ "@ + b, look: in_hue(Hue::Magenta) },
        ],
        None => seq![],
    })
}

/// The list of agents.
pub open spec fn agent_list(
    area: Area,
    agents: Seq<AgentView>,
    branches: Seq<Option<Seq<char>>>,
    selected: usize,
) -> WidgetView {
    WidgetView::List {
        area,
        items: Seq::new(agents.len(), |i: int| agent_item(agents[i], branch_at(branches, i))),
        selected: Some(selected),
        highlight: Look { bg: Some(Hue::Cyan), bold: true, ..in_hue(Hue::Black) },
        symbol: "▶ "@,
        border: Some(BorderView { title: " Agents "@, look: plain_look(), centered: true }),
    }
}

/// The rows of the screen: the list, and the footer.
pub open spec fn list_rows() -> Seq<Space> {
    seq![Space::Min(0), Space::Length(3)]
}

/// The screen in its rows.
pub open spec fn list_screen(
    rows: Seq<Area>,
    agents: Seq<AgentView>,
    branches: Seq<Option<Seq<char>>>,
    selected: usize,
) -> Seq<WidgetView> {
    seq![
        agent_list(rows[0], agents, branches, selected),
        footer(rows[1], "↑/k  ↓/j  Enter open  :open <path>  q quit"@),
    ]
}

/// The line of an agent.
fn agent_to_item(agent: &Agent, branch: &Option<String>) -> (r: StyledLine)
    ensures
        r@ == agent_item(agent@, opt_text(*branch)),
{
    let name = pad_right(agent.name.as_str(), 20);
    let mut r = StyledLine::one(concat3(" ", name.as_str(), " "), Look::hue(Hue::White));
    r.push(concat3("[", agent.status.label(), "]"), Look::hue(status_color(&agent.status)));
    match branch {
        Some(b) => {
            r.push("  ".to_owned(), Look::plain());
            r.push(concat2("⎇ ", b.as_str()), Look::hue(Hue::Magenta));
        },
        None => {},
    }
    proof {
        assert(r@ =~= agent_item(agent@, opt_text(*branch)));
    }
    r
}

/// Draw the screen in its rows.
pub fn render_rows(
    scene: &mut Scene,
    rows: &Vec<Area>,
    agents: &Vec<Agent>,
    branches: &Vec<Option<String>>,
    selected: usize,
)
    requires
        rows@.len() == 2,
    ensures
        final(scene)@ == old(scene)@ + list_screen(
            rows@,
            all_views(agents@),
            branch_views(branches@),
            selected,
        ),
{
    let ghost before = scene@;
    let ghost bv = branch_views(branches@);
    let ghost all = all_views(agents@);
    let ghost wanted = Seq::new(all.len(), |i: int| agent_item(all[i], branch_at(bv, i)));
    let mut items: Vec<StyledLine> = Vec::new();
    let mut i: usize = 0;
    proof {
        assert(all_views(items@) =~= wanted.take(0));
    }
    while i < agents.len()
        invariant
            i <= agents@.len(),
            all == all_views(agents@),
            bv == branch_views(branches@),
            wanted == Seq::new(all.len(), |i: int| agent_item(all[i], branch_at(bv, i))),
            all_views(items@) == wanted.take(i as int),
        decreases agents@.len() - i,
    {
        let ghost had = items@;
        let item = if i < branches.len() {
            agent_to_item(&agents[i], &branches[i])
        } else {
            agent_to_item(&agents[i], &None)
        };
        proof {
            assert(item@ == wanted[i as int]);
        }
        items.push(item);
        proof {
            assert(all_views(items@) =~= all_views(had).push(item@));
            assert(wanted.take(i + 1) =~= wanted.take(i as int).push(wanted[i as int]));
        }
        i = i + 1;
    }
    proof {
        assert(wanted.take(i as int) =~= wanted);
    }
    scene.draw(
        Widget::List {
            area: rows[0],
            items,
            selected: Some(selected),
            highlight: Look::hue(Hue::Black).on(Hue::Cyan).bold(),
            symbol: "▶ ".to_owned(),
            border: Some(
                Border { title: " Agents ".to_owned(), look: Look::plain(), centered: true },
            ),
        },
    );
    scene.draw(keys_footer::render(rows[1], "↑/k  ↓/j  Enter open  :open <path>  q quit"));
    proof {
        assert(scene@ =~= before + list_screen(rows@, all, bv, selected));
    }
}

/// The rows of the screen.
pub fn rows_of_list() -> (r: Vec<Space>)
    ensures
        r@ == list_rows(),
{
    let mut r: Vec<Space> = Vec::new();
    r.push(Space::Min(0));
    r.push(Space::Length(3));
    proof {
        assert(r@ =~= list_rows());
    }
    r
}

} // verus!
