//! What an event asks for, and what it leaves alone.
use crate::agent::AgentView;
use crate::app::laws::lemma_keeps_synced;
use crate::app::AppView;
use crate::effect::EffectView;
use crate::event::AppEventView;
use crate::explorer::ExplorerView;
use vstd::prelude::*;

verus! {

/// Whether an effect only fetches what the tree or its preview shows.
pub open spec fn fills_the_tree(e: EffectView) -> bool {
    e is ListDir || e is ReadFile
}

/// Whether a step asked for exactly `wanted`, in order, and behind it at most
/// for what an open explorer shows.
pub open spec fn asks(before: AppView, after: AppView, wanted: Seq<EffectView>) -> bool {
    let n = before.effects.len() + wanted.len();
    &&& n <= after.effects.len()
    &&& after.effects.take(n as int) == before.effects + wanted
    &&& after.explorer.open || after.effects.len() == n
    &&& forall|i: int|
        n <= i < after.effects.len() ==> fills_the_tree(#[trigger] after.effects[i])
}

/// Whether two explorers differ at most in what is being fetched for them.
pub open spec fn same_tree(a: ExplorerView, b: ExplorerView) -> bool {
    b == ExplorerView {
        pending_open: b.pending_open,
        pending_open_line: b.pending_open_line,
        loading: b.loading,
        ..a
    }
}

/// Whether a step changed nothing but one agent, and asked for exactly `wanted`.
pub open spec fn changes_agent(
    before: AppView,
    after: AppView,
    id: Seq<char>,
    agent: AgentView,
    wanted: Seq<EffectView>,
) -> bool {
    &&& after == AppView {
        agents: before.agents.update(before.index(id) as int, agent),
        explorer: after.explorer,
        effects: after.effects,
        ..before
    }
    &&& same_tree(before.explorer, after.explorer)
    &&& asks(before, after, wanted)
}

/// Whether a step changed nothing, and asked for exactly `wanted`.
pub open spec fn only_asks(before: AppView, after: AppView, wanted: Seq<EffectView>) -> bool {
    &&& after == AppView { explorer: after.explorer, effects: after.effects, ..before }
    &&& same_tree(before.explorer, after.explorer)
    &&& asks(before, after, wanted)
}

/// What a refresh of the git status asks for: nothing while the explorer is
/// closed, without a workspace, or while one is in flight.
pub open spec fn refresh_of(explorer: ExplorerView) -> Seq<EffectView> {
    match explorer.fs {
        Some(fs) if explorer.open && !explorer.is_refreshing => seq![
            EffectView::RefreshStatus { fs, include_ignored: explorer.show_ignored },
        ],
        _ => seq![],
    }
}

/// Whether two explorers differ at most in what is being fetched for them, the
/// git status among it.
pub open spec fn same_files(a: ExplorerView, b: ExplorerView) -> bool {
    b == ExplorerView {
        pending_open: b.pending_open,
        pending_open_line: b.pending_open_line,
        loading: b.loading,
        is_refreshing: b.is_refreshing,
        refresh_pending: b.refresh_pending,
        ..a
    }
}

/// One more effect is asking for it.
pub proof fn lemma_asks_one(before: AppView, after: AppView, one: EffectView)
    requires
        after.effects == before.effects.push(one),
    ensures
        asks(before, after, seq![one]),
{
    assert(after.effects.take((before.effects.len() + 1) as int) =~= before.effects + seq![one]);
}

/// No more effects is asking for nothing.
pub proof fn lemma_asks_none(before: AppView, after: AppView)
    requires
        after.effects == before.effects,
    ensures
        asks(before, after, seq![]),
{
    assert(after.effects.take((before.effects.len() + 0) as int) =~= before.effects + seq![]);
}

/// A refresh asks for the git status of the workspace that the explorer shows,
/// once at a time: while one is in flight the next waits for it.
pub proof fn law_a_refresh_asks_for_the_shown_workspace(app: AppView)
    ensures
        ({
            let after = app.refresh_requested();
            &&& asks(app, after, refresh_of(app.explorer))
            &&& after.effects.len() == app.effects.len() + refresh_of(app.explorer).len()
            &&& after == AppView { explorer: after.explorer, effects: after.effects, ..app }
            &&& after.explorer == ExplorerView {
                is_refreshing: after.explorer.is_refreshing,
                refresh_pending: after.explorer.refresh_pending,
                ..app.explorer
            }
            &&& app.explorer.open && app.explorer.fs is Some ==> after.explorer.is_refreshing
                && after.explorer.refresh_pending == app.explorer.is_refreshing
            &&& !(app.explorer.open && app.explorer.fs is Some) ==> after == app
        }),
{
    let after = app.refresh_requested();
    if after.effects.len() == app.effects.len() {
        lemma_asks_none(app, after);
    } else {
        lemma_asks_one(app, after, after.effects.last());
    }
}

/// Making the explorer consistent touches nothing else, and asks only for what
/// the tree shows.
pub proof fn law_syncing_only_fills_the_tree(app: AppView)
    ensures
        only_asks(app, app.synced(), seq![]),
{
    let t = app.synced();
    lemma_keeps_synced(app);
    assert(t.effects.take((app.effects.len() + 0) as int) =~= app.effects + seq![]);
    if app.explorer.open {
        let s = app.pending_opened();
        match s.explorer.fs {
            Some(fs) if fs.remote is Some => {
                let asked = s.explorer.missing().map_values(
                    |rel: Seq<char>| EffectView::ListDir { fs, rel },
                );
                assert forall|i: int| app.effects.len() <= i < t.effects.len() implies fills_the_tree(
                    #[trigger] t.effects[i],
                ) by {
                    if i < s.effects.len() {
                        assert(t.effects[i] == s.effects[i]);
                    } else {
                        assert(t.effects[i] == asked[i - s.effects.len()]);
                    }
                }
            },
            _ => {},
        }
    }
}

/// What a reaction asked for and changed is what the event asked for and
/// changed, but for what the explorer then fetches.
pub proof fn lemma_handled(app: AppView, event: AppEventView, wanted: Seq<EffectView>)
    requires
        asks(app, app.reacted(event), wanted),
        app.reacted(event).effects.len() == app.effects.len() + wanted.len(),
    ensures
        asks(app, app.handled(event), wanted),
        app.handled(event) == (AppView {
            explorer: app.handled(event).explorer,
            effects: app.handled(event).effects,
            ..app.reacted(event)
        }),
        same_tree(app.reacted(event).explorer, app.handled(event).explorer),
{
    let s = app.reacted(event);
    let t = app.handled(event);
    law_syncing_only_fills_the_tree(s);
    let n = (app.effects.len() + wanted.len()) as int;
    assert(s.effects.take(n) =~= s.effects);
    assert(t.effects.take(n) =~= app.effects + wanted) by {
        assert(t.effects.take((s.effects.len() + 0) as int) == s.effects + seq![]);
        assert(s.effects + seq![] =~= s.effects);
    }
}

} // verus!
