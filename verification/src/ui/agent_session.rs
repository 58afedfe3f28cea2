//! Agent session screen: orchestrates the title, conversation, side pane,
//! optional input box, and footer.
use crate::agent::{Agent, AgentView};
use crate::app::{App, AppView};
use crate::order::all_views;
use crate::types::{Screen, ScreenView, SessionFocus, SidePane};
use crate::ui::agent_list::{branch_at, branch_views};
use crate::ui::conversation;
use crate::ui::conversation::{
    conversation_lines, conversation_pane, effective_top, opt_agent, rich_views, rows_in,
};
use crate::ui::explorer;
use crate::ui::explorer::{explorer_pane, Markers, MarkersView};
use crate::ui::input_box;
use crate::ui::input_box::{box_height, compute_height, input_box, input_cursor};
use crate::ui::keys_footer;
use crate::ui::keys_footer::{footer, hint_text, session_hint};
use crate::ui::scene::{clamped, Area, PieceView, Scene, Space, StyledLine, WidgetView};
use crate::ui::session_header;
use crate::ui::session_header::header;
use crate::ui::side_pane;
use crate::ui::side_pane::side_pane;
use crate::ui::slash_popover;
use crate::ui::slash_popover::popover;
use vstd::prelude::*;
use vstd::string::*;

verus! {

/// What is prepared for a drawing: what the screen shows but does not know by
/// itself.
#[derive(Debug)]
pub struct Prepared {
    /// The branches of the agents.
    pub branches: Vec<Option<String>>,
    /// What the entries of the viewed agent's history are rendered to, where
    /// they are marked up.
    pub rich: Vec<Option<Vec<StyledLine>>>,
    /// What the text of the side pane is highlighted to.
    pub content: Vec<StyledLine>,
    /// The letters that stand for the kinds of status.
    pub markers: Markers,
}

pub struct PreparedView {
    pub branches: Seq<Option<Seq<char>>>,
    pub rich: Seq<Option<Seq<Seq<PieceView>>>>,
    pub content: Seq<Seq<PieceView>>,
    pub markers: MarkersView,
}

impl View for Prepared {
    type V = PreparedView;

    open spec fn view(&self) -> PreparedView {
        PreparedView {
            branches: branch_views(self.branches@),
            rich: rich_views(self.rich@),
            content: all_views(self.content@),
            markers: self.markers@,
        }
    }
}

/// The columns of text in the input box.
pub open spec fn input_columns(area: Area) -> nat {
    if area.width > 3 {
        (area.width - 2) as nat
    } else {
        1
    }
}

/// The height of the input box: at most a third of the screen, from 3 to 12.
pub open spec fn input_height(app: AppView, area: Area) -> u16 {
    box_height(
        app.input_buffer,
        input_columns(area),
        clamped(area.height as int / 3, 3, 12) as u16,
    )
}

/// The rows of the screen: the title, the panes, the input box while a message
/// is typed, and the footer.
pub open spec fn session_rows(app: AppView, area: Area) -> Seq<Space> {
    if app.composing() {
        seq![
            Space::Length(3),
            Space::Min(0),
            Space::Length(input_height(app, area)),
            Space::Length(3),
        ]
    } else {
        seq![Space::Length(3), Space::Min(0), Space::Length(3)]
    }
}

/// The columns of the panes: the explorer if it is open, the conversation, and
/// the side pane if there is one.
pub open spec fn session_columns(app: AppView) -> Seq<Space> {
    let panes = if app.pane() is Some {
        seq![Space::Percentage(55), Space::Percentage(45)]
    } else {
        seq![Space::Min(0)]
    };
    if app.explorer.open {
        seq![Space::Length(30)] + panes
    } else {
        panes
    }
}

/// The column of the conversation.
pub open spec fn conversation_column(app: AppView) -> int {
    if app.explorer.open {
        1
    } else {
        0
    }
}

/// The agent with an id, if there is one.
pub open spec fn known_agent(app: AppView, id: Seq<char>) -> Option<AgentView> {
    if app.knows(id) {
        Some(app.agent(id))
    } else {
        None
    }
}

/// The lines of the viewed conversation.
pub open spec fn viewed_lines(app: AppView, id: Seq<char>, prepared: PreparedView) -> Seq<
    Seq<PieceView>,
> {
    conversation_lines(known_agent(app, id), prepared.rich)
}

/// The scroll position of the session.
pub open spec fn scroll_of(app: AppView) -> usize {
    match app.screen {
        ScreenView::AgentSession { scroll, .. } => scroll,
        _ => 0,
    }
}

/// The pane that has the focus.
pub open spec fn focus_of(app: AppView) -> SessionFocus {
    match app.screen {
        ScreenView::AgentSession { focus, .. } => focus,
        _ => SessionFocus::Conversation,
    }
}

/// The row at the top of the conversation.
pub open spec fn session_top(
    app: AppView,
    id: Seq<char>,
    prepared: PreparedView,
    columns: Seq<Area>,
) -> usize {
    let area = columns[conversation_column(app)];
    let shown = viewed_lines(app, id, prepared);
    effective_top(scroll_of(app), rows_in(area, shown), area)
}

/// The explorer pane, if it is open.
pub open spec fn explorer_part(app: AppView, prepared: PreparedView, columns: Seq<Area>) -> Seq<
    WidgetView,
> {
    if app.explorer.open {
        seq![
            explorer_pane(
                columns[0],
                app.explorer,
                prepared.markers,
                focus_of(app) == SessionFocus::Explorer,
            ),
        ]
    } else {
        seq![]
    }
}

/// The conversation pane.
pub open spec fn conversation_part(
    app: AppView,
    id: Seq<char>,
    prepared: PreparedView,
    columns: Seq<Area>,
) -> Seq<WidgetView> {
    let area = columns[conversation_column(app)];
    let shown = viewed_lines(app, id, prepared);
    conversation_pane(
        area,
        shown,
        rows_in(area, shown),
        scroll_of(app),
        if app.pane() is Some {
            focus_of(app) == SessionFocus::Conversation
        } else {
            focus_of(app) != SessionFocus::Explorer
        },
    )
}

/// The side pane, if there is one.
pub open spec fn side_part(app: AppView, prepared: PreparedView, columns: Seq<Area>) -> Seq<
    WidgetView,
> {
    match app.pane() {
        Some(pane) => seq![
            side_pane(
                columns[conversation_column(app) + 1],
                pane,
                prepared.content,
                focus_of(app) == SessionFocus::SidePane,
            ),
        ],
        None => seq![],
    }
}

/// The panes in their columns.
pub open spec fn session_panes(
    app: AppView,
    id: Seq<char>,
    prepared: PreparedView,
    columns: Seq<Area>,
) -> Seq<WidgetView> {
    explorer_part(app, prepared, columns) + conversation_part(app, id, prepared, columns)
        + side_part(app, prepared, columns)
}

/// The input box, with the popover above it.
pub open spec fn session_input(app: AppView, id: Seq<char>, area: Area) -> Seq<WidgetView> {
    seq![input_box(area, app.input_buffer), input_cursor(area, app.input_buffer)] + (
    match app.slash_matches(id) {
        Some(found) => popover(area, found, app.slash_selected),
        None => seq![],
    })
}

/// The screen in its rows and columns.
pub open spec fn session_screen(
    app: AppView,
    id: Seq<char>,
    prepared: PreparedView,
    rows: Seq<Area>,
    columns: Seq<Area>,
) -> Seq<WidgetView> {
    let branch = if app.knows(id) {
        branch_at(prepared.branches, app.index(id) as int)
    } else {
        None
    };
    let title = seq![header(rows[0], known_agent(app, id), branch, id)];
    let keys = seq![
        footer(
            rows[if app.composing() {
                3
            } else {
                2
            }],
            hint_text(app.composing(), app.pane() is Some, scroll_of(app) == usize::MAX),
        ),
    ];
    let input = if app.composing() {
        session_input(app, id, rows[2])
    } else {
        seq![]
    };
    title + session_panes(app, id, prepared, columns) + keys + input
}

/// The rows of the screen.
pub fn rows_of(app: &App, area: Area) -> (r: Vec<Space>)
    requires
        app@.input_buffer.len() < usize::MAX,
    ensures
        r@ == session_rows(app@, area),
{
    let composing = match &app.screen {
        Screen::AgentSession { input_mode, .. } => *input_mode,
        _ => false,
    };
    let mut r: Vec<Space> = Vec::new();
    r.push(Space::Length(3));
    r.push(Space::Min(0));
    if composing {
        let third: u16 = area.height / 3;
        let most: u16 = if third < 3 {
            3
        } else if third > 12 {
            12
        } else {
            third
        };
        let columns: usize = if area.width > 3 {
            (area.width - 2) as usize
        } else {
            1
        };
        r.push(Space::Length(compute_height(app.input_buffer.as_str(), columns, most)));
    }
    r.push(Space::Length(3));
    proof {
        assert(r@ =~= session_rows(app@, area));
    }
    r
}

/// The columns of the panes.
pub fn columns_of(app: &App) -> (r: Vec<Space>)
    ensures
        r@ == session_columns(app@),
{
    let mut r: Vec<Space> = Vec::new();
    if app.explorer.open {
        r.push(Space::Length(30));
    }
    let with_side = match &app.screen {
        Screen::AgentSession { side_pane, .. } => side_pane.is_some(),
        _ => false,
    };
    if with_side {
        r.push(Space::Percentage(55));
        r.push(Space::Percentage(45));
    } else {
        r.push(Space::Min(0));
    }
    proof {
        assert(r@ =~= session_columns(app@));
    }
    r
}

/// Draw the explorer pane, if it is open.
fn render_explorer(scene: &mut Scene, app: &App, prepared: &Prepared, columns: &Vec<Area>)
    requires
        columns@.len() == session_columns(app@).len(),
    ensures
        final(scene)@ == old(scene)@ + explorer_part(app@, prepared@, columns@),
{
    let ghost before = scene@;
    if app.explorer.open {
        let focused = match &app.screen {
            Screen::AgentSession { focus, .. } => *focus == SessionFocus::Explorer,
            _ => false,
        };
        scene.draw(explorer::render(columns[0], &app.explorer, &prepared.markers, focused));
    }
    proof {
        assert(scene@ =~= before + explorer_part(app@, prepared@, columns@));
    }
}

/// Draw the conversation pane. Returns the row at its top.
fn render_conversation(
    scene: &mut Scene,
    app: &App,
    agent_id: &str,
    prepared: &Prepared,
    columns: &Vec<Area>,
) -> (top: usize)
    requires
        columns@.len() == session_columns(app@).len(),
    ensures
        final(scene)@ == old(scene)@ + conversation_part(app@, agent_id@, prepared@, columns@),
        top == session_top(app@, agent_id@, prepared@, columns@),
{
    let k: usize = app.index_of(agent_id);
    let agent: Option<&Agent> = if k < app.agents.len() {
        Some(&app.agents[k])
    } else {
        None
    };
    proof {
        assert(opt_agent(agent) == known_agent(app@, agent_id@));
    }
    let (scroll, focused) = match &app.screen {
        Screen::AgentSession { focus, side_pane, scroll, .. } => match side_pane {
            Some(_) => (*scroll, *focus == SessionFocus::Conversation),
            None => (*scroll, *focus != SessionFocus::Explorer),
        },
        _ => (0, true),
    };
    let at: usize = if app.explorer.open {
        1
    } else {
        0
    };
    conversation::render(scene, columns[at], agent, &prepared.rich, scroll, focused)
}

/// Draw the side pane, if there is one.
fn render_side(scene: &mut Scene, app: &App, prepared: &Prepared, columns: &Vec<Area>)
    requires
        columns@.len() == session_columns(app@).len(),
    ensures
        final(scene)@ == old(scene)@ + side_part(app@, prepared@, columns@),
{
    let ghost before = scene@;
    let at: usize = if app.explorer.open {
        2
    } else {
        1
    };
    match &app.screen {
        Screen::AgentSession { focus, side_pane, .. } => match side_pane {
            Some(pane) => {
                scene.draw(
                    side_pane::render(
                        columns[at],
                        pane,
                        &prepared.content,
                        *focus == SessionFocus::SidePane,
                    ),
                );
            },
            None => {},
        },
        _ => {},
    }
    proof {
        assert(scene@ =~= before + side_part(app@, prepared@, columns@));
    }
}

/// Adding three parts one by one adds them all.
proof fn lemma_three_parts(
    before: Seq<WidgetView>,
    a: Seq<WidgetView>,
    b: Seq<WidgetView>,
    c: Seq<WidgetView>,
)
    ensures
        before + a + b + c == before + (a + b + c),
{
    assert(before + a + b + c =~= before + (a + b + c));
}

/// Draw the panes in their columns. Returns the row at the top of the
/// conversation.
fn render_panes(
    scene: &mut Scene,
    app: &App,
    agent_id: &str,
    prepared: &Prepared,
    columns: &Vec<Area>,
) -> (top: usize)
    requires
        columns@.len() == session_columns(app@).len(),
    ensures
        final(scene)@ == old(scene)@ + session_panes(app@, agent_id@, prepared@, columns@),
        top == session_top(app@, agent_id@, prepared@, columns@),
{
    let ghost before = scene@;
    render_explorer(scene, app, prepared, columns);
    let top: usize = render_conversation(scene, app, agent_id, prepared, columns);
    render_side(scene, app, prepared, columns);
    proof {
        lemma_three_parts(
            before,
            explorer_part(app@, prepared@, columns@),
            conversation_part(app@, agent_id@, prepared@, columns@),
            side_part(app@, prepared@, columns@),
        );
    }
    top
}

/// Draw the input box, with the popover above it.
fn render_input(scene: &mut Scene, app: &App, agent_id: &str, area: Area)
    requires
        app@.input_buffer.len() < usize::MAX,
    ensures
        final(scene)@ == old(scene)@ + session_input(app@, agent_id@, area),
{
    let ghost before = scene@;
    input_box::render(scene, area, app.input_buffer.as_str());
    match app.slash_matches_for(agent_id) {
        Some(found) => {
            slash_popover::render(scene, area, &found, app.slash_selected);
        },
        None => {},
    }
    proof {
        assert(scene@ =~= before + session_input(app@, agent_id@, area));
    }
}

/// Draw the screen in its rows and columns. Returns the row at the top of the
/// conversation.
pub fn render(
    scene: &mut Scene,
    app: &App,
    agent_id: &str,
    prepared: &Prepared,
    rows: &Vec<Area>,
    columns: &Vec<Area>,
) -> (top: usize)
    requires
        app@.viewed() == Some(agent_id@),
        app@.input_buffer.len() < usize::MAX,
        rows@.len() == (if app@.composing() {
            4nat
        } else {
            3nat
        }),
        columns@.len() == session_columns(app@).len(),
    ensures
        final(scene)@ == old(scene)@ + session_screen(
            app@,
            agent_id@,
            prepared@,
            rows@,
            columns@,
        ),
        top == session_top(app@, agent_id@, prepared@, columns@),
{
    let ghost before = scene@;
    let k: usize = app.index_of(agent_id);
    if k < app.agents.len() {
        if k < prepared.branches.len() {
            scene.draw(
                session_header::render(
                    rows[0],
                    Some(&app.agents[k]),
                    &prepared.branches[k],
                    agent_id,
                ),
            );
        } else {
            scene.draw(
                session_header::render(rows[0], Some(&app.agents[k]), &None, agent_id),
            );
        }
    } else {
        scene.draw(session_header::render(rows[0], None, &None, agent_id));
    }
    let ghost titled = scene@;
    let top: usize = render_panes(scene, app, agent_id, prepared, columns);
    let (composing, with_side, following) = match &app.screen {
        Screen::AgentSession { input_mode, side_pane, scroll, .. } => (
            *input_mode,
            side_pane.is_some(),
            *scroll == usize::MAX,
        ),
        _ => (false, false, false),
    };
    let hint = session_hint(composing, with_side, following);
    if composing {
        scene.draw(keys_footer::render(rows[3], hint));
        render_input(scene, app, agent_id, rows[2]);
    } else {
        scene.draw(keys_footer::render(rows[2], hint));
    }
    proof {
        assert(scene@ =~= before + session_screen(app@, agent_id@, prepared@, rows@, columns@));
    }
    top
}

} // verus!
