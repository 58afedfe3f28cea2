//! What the screens show, as plain values.
//!
//! Each child module owns one widget or screen. [`render`] puts a whole screen
//! together, back to front.
use crate::agent::AgentView;
use crate::app::{App, AppView};
use crate::types::{Screen, ScreenView};
use crate::ui::agent_list::{list_rows, list_screen};
use crate::ui::agent_session::{
    columns_of, rows_of, session_columns, session_rows, session_screen, session_top, Prepared,
    PreparedView,
};
use crate::ui::inbox_popup::inbox_popup;
use crate::ui::overlay::overlay_of;
use crate::ui::permission_popup::permission_popup;
use crate::ui::scene::{
    divides, is_divided, is_plain, shares, split_columns, split_rows, splits_columns, splits_rows,
    Area, Scene, Space, WidgetView,
};
use vstd::prelude::*;

pub mod agent_list;
pub mod agent_session;
pub mod conversation;
pub mod explorer;
pub mod inbox_popup;
pub mod input_box;
pub mod keys_footer;
pub mod laws;
pub mod overlay;
pub mod permission_popup;
pub mod scene;
pub mod session_header;
pub mod side_pane;
pub mod slash_popover;
pub mod style;

verus! {

/// The screen without what is drawn on top of it.
pub open spec fn screen_of(
    app: AppView,
    prepared: PreparedView,
    rows: Seq<Area>,
    columns: Seq<Area>,
) -> Seq<WidgetView> {
    match app.screen {
        ScreenView::AgentList { selected } => list_screen(
            rows,
            app.agents,
            prepared.branches,
            selected,
        ),
        ScreenView::AgentSession { agent_id, .. } => session_screen(
            app,
            agent_id,
            prepared,
            rows,
            columns,
        ),
    }
}

/// What is drawn on top of every screen: the bottom row, the message that waits
/// for approval, and above everything else the permission request.
pub open spec fn on_top(app: AppView, area: Area) -> Seq<WidgetView> {
    (match overlay_of(app, area) {
        Some(bar) => seq![bar],
        None => seq![],
    }) + (if app.inbox.len() > 0 {
        inbox_popup(area, app.inbox[0], app.inbox.len())
    } else {
        seq![]
    }) + (match app.permission_pending {
        Some(perm) => permission_popup(area, perm),
        None => seq![],
    })
}

/// Whether `rows` and `columns` lay out the screen.
pub open spec fn lays_out(
    app: AppView,
    area: Area,
    rows: Seq<Area>,
    columns: Seq<Area>,
) -> bool {
    match app.screen {
        ScreenView::AgentList { .. } => splits_rows(area, list_rows(), rows),
        ScreenView::AgentSession { .. } => splits_rows(area, session_rows(app, area), rows)
            && splits_columns(rows[1], session_columns(app), columns),
    }
}

/// The state after a drawing: the row that ended up at the top of the viewed
/// conversation is remembered, so that scrolling up starts from there.
pub open spec fn after_drawing(
    app: AppView,
    prepared: PreparedView,
    columns: Seq<Area>,
) -> AppView {
    match app.viewed() {
        Some(id) if app.knows(id) => app.with_agent(
            id,
            AgentView {
                last_effective_top: session_top(app, id, prepared, columns),
                ..app.agent(id)
            },
        ),
        _ => app,
    }
}

/// Whether a drawing of `app` is `scene`, and `after` the state that it leaves,
/// with the screen laid out in some way.
pub open spec fn draws(
    app: AppView,
    area: Area,
    prepared: PreparedView,
    scene: Seq<WidgetView>,
    after: AppView,
) -> bool {
    exists|rows: Seq<Area>, columns: Seq<Area>|
        #[trigger] lays_out(app, area, rows, columns) && scene == screen_of(
            app,
            prepared,
            rows,
            columns,
        ) + on_top(app, area) && after == after_drawing(app, prepared, columns)
}

/// Draw the screen without what is on top of it, in its rows and columns.
fn render_screen(
    scene: &mut Scene,
    app: &mut App,
    prepared: &Prepared,
    rows: &Vec<Area>,
    columns: &Vec<Area>,
)
    requires
        old(app)@.input_buffer.len() < usize::MAX,
        match old(app)@.screen {
            ScreenView::AgentList { .. } => rows@.len() == 2,
            ScreenView::AgentSession { .. } => rows@.len() == (if old(app)@.composing() {
                4nat
            } else {
                3nat
            }) && columns@.len() == session_columns(old(app)@).len(),
        },
    ensures
        final(scene)@ == old(scene)@ + screen_of(old(app)@, prepared@, rows@, columns@),
        final(app)@ == after_drawing(old(app)@, prepared@, columns@),
{
    match app.viewed_agent_id() {
        Some(id) => {
            let top: usize = agent_session::render(
                scene,
                app,
                id.as_str(),
                prepared,
                rows,
                columns,
            );
            let k: usize = app.index_of(id.as_str());
            if k < app.agents.len() {
                app.agents[k].last_effective_top = top;
                proof {
                    assert(app@ =~= after_drawing(old(app)@, prepared@, columns@));
                }
            }
        },
        None => {
            let selected: usize = match &app.screen {
                Screen::AgentList { selected } => *selected,
                _ => 0,
            };
            agent_list::render_rows(scene, rows, &app.agents, &prepared.branches, selected);
        },
    }
}

/// Draw what is on top of every screen.
fn render_on_top(scene: &mut Scene, app: &App, area: Area)
    ensures
        final(scene)@ == old(scene)@ + on_top(app@, area),
{
    let ghost before = scene@;
    match overlay::render(area, app) {
        Some(bar) => scene.draw(bar),
        None => {},
    }
    match app.inbox.front() {
        Some(msg) => inbox_popup::render(scene, area, msg, app.inbox.len()),
        None => {},
    }
    match &app.permission_pending {
        Some(perm) => permission_popup::render(scene, area, perm),
        None => {},
    }
    proof {
        assert(scene@ =~= before + on_top(app@, area));
    }
}

/// Draw the whole screen.
pub fn render(app: &mut App, area: Area, prepared: &Prepared) -> (r: Scene)
    requires
        old(app)@.input_buffer.len() < usize::MAX,
    ensures
        draws(old(app)@, area, prepared@, r@, final(app)@),
{
    let ghost before = app@;
    let mut scene = Scene::new();
    let spaces = match &app.screen {
        Screen::AgentList { .. } => agent_list::rows_of_list(),
        _ => rows_of(app, area),
    };
    let rows = split_rows(area, &spaces);
    let columns = match &app.screen {
        Screen::AgentList { .. } => Vec::new(),
        _ => {
            let across = columns_of(app);
            split_columns(rows[1], &across)
        },
    };
    proof {
        assert(lays_out(before, area, rows@, columns@));
    }
    render_screen(&mut scene, app, prepared, &rows, &columns);
    let ghost shown = scene@;
    render_on_top(&mut scene, app, area);
    proof {
        assert(shown =~= screen_of(before, prepared@, rows@, columns@));
        assert(on_top(app@, area) == on_top(before, area));
    }
    scene
}

// ─── Laws ──────────────────────────────────────────────────────────────

/// The panes of a session stand side by side: none covers another, and none
/// leaves the screen.
pub proof fn law_panes_do_not_overlap(
    app: AppView,
    area: Area,
    rows: Seq<Area>,
    columns: Seq<Area>,
)
    requires
        app.screen is AgentSession,
        lays_out(app, area, rows, columns),
    ensures
        forall|i: int, j: int|
            0 <= i < j < columns.len() ==> (#[trigger] columns[i]).x + columns[i].width <= (
            #[trigger] columns[j]).x,
        forall|i: int| 0 <= i < columns.len() ==> area.holds(#[trigger] columns[i]),
{
    assert(is_plain(session_columns(app)));
}

/// With the explorer closed, the conversation has 55 percent of the width and
/// the side pane the other 45, each within a cell.
pub proof fn law_the_side_pane_has_its_share(
    app: AppView,
    area: Area,
    rows: Seq<Area>,
    columns: Seq<Area>,
)
    requires
        app.screen is AgentSession,
        app.pane() is Some,
        !app.explorer.open,
        lays_out(app, area, rows, columns),
        area.x + area.width <= u16::MAX,
    ensures
        columns.len() == 2,
        columns[0].width + columns[1].width == area.width,
        -100 <= columns[0].width * 100 - 55 * area.width <= 100,
        -100 <= columns[1].width * 100 - 45 * area.width <= 100,
{
    let spaces = session_columns(app);
    assert(spaces.take(0) =~= seq![]);
    assert(shares(spaces.take(0), 0) == 0);
    assert(is_divided(spaces, rows[1].width as int));
    assert(divides(rows[1], spaces, columns));
}

/// With the explorer open beside a side pane, the explorer has its 30 columns
/// where there are as many, and the other two fill the rest.
pub proof fn law_the_explorer_has_its_columns(
    app: AppView,
    area: Area,
    rows: Seq<Area>,
    columns: Seq<Area>,
)
    requires
        app.screen is AgentSession,
        app.pane() is Some,
        app.explorer.open,
        lays_out(app, area, rows, columns),
        30 <= area.width,
        area.x + area.width <= u16::MAX,
    ensures
        columns.len() == 3,
        columns[0].x == area.x && columns[0].width == 30,
        columns[1].width + columns[2].width == area.width - 30,
        columns[1].width * 100 <= 55 * area.width + 100,
        columns[2].width * 100 <= 45 * area.width + 100,
{
    let spaces = session_columns(app);
    assert(spaces.take(0) =~= seq![]);
    assert(spaces.take(1) =~= seq![Space::Length(30)]);
    assert(spaces.take(1).drop_last() =~= seq![]);
    reveal_with_fuel(shares, 2);
    assert(is_divided(spaces, rows[1].width as int));
    assert(divides(rows[1], spaces, columns));
}

} // verus!
