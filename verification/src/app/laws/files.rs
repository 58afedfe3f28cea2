//! What is fetched for the tree and for its preview.
use crate::agent::WorkspaceFsView;
use crate::app::explorer::{with_truncation_mark, PREVIEW_CAP};
use crate::app::AppView;
use crate::effect::EffectView;
use crate::event::AppEventView;
use crate::explorer::{EntryRowView, ExplorerView};
use crate::paths::path_join;
use vstd::prelude::*;

verus! {

/// A file that waits to be opened is read for the viewed agent, at its full path
/// below the root of the workspace shown, and waits no more. A line that was asked
/// for is at the top, counted from one; without one the preview starts at the
/// file's beginning.
pub proof fn law_a_waiting_file_is_read(
    app: AppView,
    id: Seq<char>,
    fs: WorkspaceFsView,
    rel: Seq<char>,
)
    requires
        app.explorer.open,
        app.explorer.fs == Some(fs),
        app.viewed() == Some(id),
        app.explorer.pending_open == Some(rel),
    ensures
        ({
            let after = app.synced();
            let n = app.effects.len() as int;
            &&& after.explorer.pending_open is None && after.explorer.pending_open_line is None
            &&& after.effects.len() > n
            &&& after.effects[n] matches EffectView::ReadFile {
                fs: f,
                agent_id,
                rel: r,
                full_path,
                scroll_to,
            } && f == fs && agent_id == id && r == rel && full_path == path_join(fs.root, rel)
                && match app.explorer.pending_open_line {
                None => scroll_to == 0,
                Some(line) => {
                    &&& line == 0 ==> scroll_to == 0
                    &&& 1 <= line <= 65535 ==> scroll_to == line - 1
                    &&& line > 65535 ==> scroll_to == 65535
                },
            }
        }),
{
    let s = app.pending_opened();
    let n = app.effects.len() as int;
    assert(s.effects.len() == n + 1);
    let after = app.synced();
    assert(after.effects[n] == s.effects[n]);
}

/// Whether a directory is one that the tree shows open: the root, or an expanded
/// row.
pub open spec fn is_open_dir(e: ExplorerView, rel: Seq<char>) -> bool {
    rel.len() == 0 || exists|i: int|
        0 <= i < e.rows().len() && (#[trigger] e.rows()[i]).expanded && e.rows()[i].path == rel
}

/// A directory that the open tree of a container shows open is listed: where its
/// listing is neither there nor under way it is asked for, and is under way then.
/// Nothing else is listed, and files on the host are never asked for this way.
pub proof fn law_an_open_directory_is_listed(app: AppView, fs: WorkspaceFsView, rel: Seq<char>)
    requires
        app.explorer.open,
        app.explorer.fs == Some(fs),
        app.explorer.pending_open is None,
    ensures
        ({
            let after = app.synced();
            let wanted = EffectView::ListDir { fs, rel };
            &&& fs.remote is None ==> after == app
            &&& fs.remote is Some && is_open_dir(app.explorer, rel)
                && !app.explorer.dirs.contains_key(rel) && !app.explorer.loading.contains(rel) ==> {
                &&& after.effects.skip(app.effects.len() as int).contains(wanted)
                &&& after.explorer.loading.contains(rel)
            }
            &&& after.effects.skip(app.effects.len() as int).contains(wanted) ==> is_open_dir(
                app.explorer,
                rel,
            ) && !app.explorer.dirs.contains_key(rel) && !app.explorer.loading.contains(rel)
        }),
{
    let after = app.synced();
    let e = app.explorer;
    let wanted = EffectView::ListDir { fs, rel };
    let n = app.effects.len() as int;
    let added = after.effects.skip(n);
    if fs.remote is Some {
        let missing = e.missing();
        let ask = |r: Seq<char>| EffectView::ListDir { fs, rel: r };
        assert(added =~= missing.map_values(ask));
        let dirs = e.open_dirs();
        let lacks = |d: Seq<char>| !e.dirs.contains_key(d) && !e.loading.contains(d);
        assert(missing == dirs.filter(lacks));
        dirs.filter_lemma(lacks);
        let f = |r: EntryRowView| r.expanded;
        let open_rows = e.rows().filter(f);
        e.rows().filter_lemma(f);
        let paths = open_rows.map_values(|r: EntryRowView| r.path);
        assert(dirs == seq![Seq::<char>::empty()] + paths);
        if is_open_dir(e, rel) && lacks(rel) {
            lemma_lacking_is_missing(e, rel);
            let j = choose|j: int| 0 <= j < missing.len() && missing[j] == rel;
            assert(added[j] == wanted);
            assert(missing.to_set().contains(rel));
        }
        if added.contains(wanted) {
            let j = choose|j: int| 0 <= j < added.len() && added[j] == wanted;
            assert(missing[j] == rel);
            assert(lacks(missing[j]));
            dirs.lemma_filter_contains_rev(lacks, rel);
            let k = choose|k: int| 0 <= k < dirs.len() && dirs[k] == rel;
            if k > 0 {
                assert(paths[k - 1] == rel);
                let row = open_rows[k - 1];
                e.rows().lemma_filter_contains_rev(f, row);
                let i = choose|i: int| 0 <= i < e.rows().len() && e.rows()[i] == row;
                assert(f(open_rows[k - 1]));
                assert(e.rows()[i].expanded && e.rows()[i].path == rel);
            }
        }
    } else {
        assert(added =~= Seq::<EffectView>::empty());
    }
}

/// Whatever happens, nothing is left to fetch afterwards: in an open tree of a
/// container each directory that is shown open is listed or under way, and no file
/// waits to be opened.
pub proof fn law_every_event_leaves_nothing_to_fetch(
    app: AppView,
    event: AppEventView,
    rel: Seq<char>,
)
    requires
        app.handled(event).explorer.open,
    ensures
        ({
            let e = app.handled(event).explorer;
            &&& e.pending_open is None
            &&& (e.fs matches Some(fs) && fs.remote is Some) && is_open_dir(e, rel)
                ==> e.dirs.contains_key(rel) || e.loading.contains(rel)
        }),
{
    let s = app.reacted(event);
    let t = s.pending_opened();
    let after = app.handled(event);
    let e = after.explorer;
    crate::explorer::laws::law_a_listing_is_asked_for_once(t.explorer);
    match e.fs {
        Some(fs) if fs.remote is Some => {
            assert(e.missing().len() == 0);
            if is_open_dir(e, rel) && !e.dirs.contains_key(rel) && !e.loading.contains(rel) {
                lemma_lacking_is_missing(e, rel);
            }
        },
        _ => {},
    }
}

/// An open directory that is neither listed nor under way is missing.
proof fn lemma_lacking_is_missing(e: ExplorerView, rel: Seq<char>)
    requires
        e.fs is Some,
        is_open_dir(e, rel),
        !e.dirs.contains_key(rel),
        !e.loading.contains(rel),
    ensures
        e.missing().contains(rel),
{
    let dirs = e.open_dirs();
    let lacks = |d: Seq<char>| !e.dirs.contains_key(d) && !e.loading.contains(d);
    let f = |r: EntryRowView| r.expanded;
    let open_rows = e.rows().filter(f);
    let paths = open_rows.map_values(|r: EntryRowView| r.path);
    e.rows().filter_lemma(f);
    dirs.filter_lemma(lacks);
    assert(dirs == seq![Seq::<char>::empty()] + paths);
    assert(dirs.contains(rel)) by {
        if rel.len() == 0 {
            assert(rel =~= Seq::<char>::empty());
            assert(dirs[0] == rel);
        } else {
            let i = choose|i: int|
                0 <= i < e.rows().len() && (#[trigger] e.rows()[i]).expanded && e.rows()[i].path
                    == rel;
            let row = e.rows()[i];
            assert(f(e.rows()[i]));
            assert(open_rows.contains(row));
            let k = choose|k: int| 0 <= k < open_rows.len() && open_rows[k] == row;
            assert(paths[k] == rel);
            assert(dirs[k + 1] == rel);
        }
    }
    let k = choose|k: int| 0 <= k < dirs.len() && dirs[k] == rel;
    assert(lacks(dirs[k]));
    assert(e.missing() == dirs.filter(lacks));
}

/// A closed explorer fetches nothing.
pub proof fn law_a_closed_explorer_fetches_nothing(app: AppView)
    requires
        !app.explorer.open,
    ensures
        app.synced() == app,
        app.refresh_requested() == app,
{
}

/// A preview holds at most 256 KiB of a file, and says so at its end where the
/// file goes on; it is as it was read otherwise.
pub proof fn law_a_cut_preview_says_so(text: Seq<char>)
    ensures
        PREVIEW_CAP == 256 * 1024,
        with_truncation_mark(text, false) == text,
        with_truncation_mark(text, true) == text
            + "\n\n… [truncated preview — file larger than 256 KiB]"@,
{
}

/// The selected row is the row with the selected path, where there is one.
pub proof fn law_the_selected_row_has_the_selected_path(e: ExplorerView)
    ensures
        match e.selected_row() {
            Some(row) => e.selected == Some(row.path) && e.rows().contains(row),
            None => e.selected is Some ==> forall|i: int|
                0 <= i < e.rows().len() ==> (#[trigger] e.rows()[i]).path != e.selected->0,
        },
{
    match e.selected {
        Some(p) => {
            lemma_row_found(e.rows(), p);
        },
        None => {},
    }
}

proof fn lemma_row_found(rows: Seq<EntryRowView>, p: Seq<char>)
    ensures
        ({
            let k = crate::explorer::row_index(rows, p) as int;
            &&& k <= rows.len()
            &&& k < rows.len() ==> rows[k].path == p
            &&& forall|i: int| 0 <= i < k ==> (#[trigger] rows[i]).path != p
        }),
    decreases rows.len(),
{
    if rows.len() > 0 && rows[0].path != p {
        let rest = rows.drop_first();
        lemma_row_found(rest, p);
        let k = crate::explorer::row_index(rows, p) as int;
        assert forall|i: int| 0 <= i < k implies (#[trigger] rows[i]).path != p by {
            if i > 0 {
                assert(rest[i - 1] == rows[i]);
            }
        }
    }
}

} // verus!
