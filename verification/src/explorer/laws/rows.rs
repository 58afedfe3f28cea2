//! What the rows of the tree show of the files.
use crate::explorer::{
    below, dir_aggregates, has_status_below, is_top_status, rank, status_map, ChildView,
    DirEntryView, EntryRowView, ExplorerView, StatusKind,
};
use crate::order::{placed, sort_of, Keyed};
use crate::paths::{clean_path, path_join};
use vstd::prelude::*;

verus! {

// ─── Statuses ──────────────────────────────────────────────────────────

/// How much a status matters where a directory holds several: conflicts matter
/// most, then deletions, changes, additions, renames, new files and ignored ones.
pub open spec fn matters(kind: StatusKind) -> int {
    match kind {
        StatusKind::Conflicted => 7,
        StatusKind::Deleted => 6,
        StatusKind::Modified => 5,
        StatusKind::Added => 4,
        StatusKind::Renamed => 3,
        StatusKind::Untracked => 2,
        StatusKind::Ignored => 1,
    }
}

/// Each path of a git status has the kind that was reported for it last, under
/// its path without empty or dotted parts, and no other path has one.
pub proof fn law_a_path_has_its_last_status(
    entries: Seq<(Seq<char>, StatusKind)>,
    i: int,
    p: Seq<char>,
)
    ensures
        0 <= i < entries.len() && (forall|j: int|
            i < j < entries.len() ==> clean_path((#[trigger] entries[j]).0) != clean_path(
                entries[i].0,
            )) ==> status_map(entries).contains_key(clean_path(entries[i].0)) && status_map(
            entries,
        )[clean_path(entries[i].0)] == entries[i].1,
        (forall|j: int| 0 <= j < entries.len() ==> clean_path((#[trigger] entries[j]).0) != p)
            ==> !status_map(entries).contains_key(p),
    decreases entries.len(),
{
    if entries.len() > 0 {
        let rest = entries.drop_last();
        law_a_path_has_its_last_status(rest, i, p);
        if 0 <= i < entries.len() && (forall|j: int|
            i < j < entries.len() ==> clean_path((#[trigger] entries[j]).0) != clean_path(
                entries[i].0,
            )) {
            if i < rest.len() {
                assert(rest[i] == entries[i]);
                assert(clean_path(entries[entries.len() - 1].0) != clean_path(entries[i].0));
                assert forall|j: int| i < j < rest.len() implies clean_path(
                    (#[trigger] rest[j]).0,
                ) != clean_path(rest[i].0) by {
                    assert(rest[j] == entries[j]);
                }
            }
        }
        if forall|j: int| 0 <= j < entries.len() ==> clean_path((#[trigger] entries[j]).0) != p {
            assert forall|j: int| 0 <= j < rest.len() implies clean_path((#[trigger] rest[j]).0)
                != p by {
                assert(rest[j] == entries[j]);
            }
            assert(clean_path(entries[entries.len() - 1].0) != p);
        }
    }
}

/// A file lies below a directory if its path goes on behind the directory's with
/// a slash.
pub proof fn law_a_file_lies_below_its_directories(dir: Seq<char>, rest: Seq<char>)
    requires
        dir.len() > 0,
    ensures
        below(dir + seq!['/'] + rest, dir),
        !below(dir, dir),
        rest.len() > 0 && rest[0] != '/' ==> !below(dir + rest, dir),
{
    let path = dir + seq!['/'] + rest;
    assert(path.take(dir.len() as int) =~= dir);
}

/// A directory shows the status that matters most among the files below it: one
/// of them has it, and none has one that matters more. A directory without such
/// files shows none.
pub proof fn law_a_directory_shows_what_matters_most(
    status: Map<Seq<char>, StatusKind>,
    dir: Seq<char>,
    file: Seq<char>,
)
    ensures
        status.contains_key(file) && below(file, dir) ==> {
            let shown = dir_aggregates(status)[dir];
            &&& dir_aggregates(status).contains_key(dir)
            &&& matters(status[file]) <= matters(shown)
            &&& exists|p: Seq<char>| #[trigger]
                status.contains_key(p) && below(p, dir) && status[p] == shown
        },
        (forall|p: Seq<char>| #[trigger] status.contains_key(p) ==> !below(p, dir))
            ==> !dir_aggregates(status).contains_key(dir),
{
    assert(forall|k: StatusKind| #[trigger] rank(k) == matters(k));
    if status.contains_key(file) && below(file, dir) {
        assert(has_status_below(status, dir));
        lemma_some_status_is_top(status, dir, file, 7);
        let shown = dir_aggregates(status)[dir];
        assert(is_top_status(status, dir, shown));
    }
}

/// Among statuses of at most `most` there is a top one.
proof fn lemma_some_status_is_top(
    status: Map<Seq<char>, StatusKind>,
    dir: Seq<char>,
    file: Seq<char>,
    most: int,
)
    requires
        status.contains_key(file),
        below(file, dir),
        forall|p: Seq<char>| #[trigger]
            status.contains_key(p) && below(p, dir) ==> rank(status[p]) <= most,
    ensures
        exists|kind: StatusKind| is_top_status(status, dir, kind),
    decreases most,
{
    if exists|p: Seq<char>| #[trigger]
        status.contains_key(p) && below(p, dir) && rank(status[p]) == most {
        let p = choose|p: Seq<char>| #[trigger]
            status.contains_key(p) && below(p, dir) && rank(status[p]) == most;
        assert(is_top_status(status, dir, status[p]));
    } else {
        assert(rank(status[file]) <= most);
        assert(rank(status[file]) >= 1);
        lemma_some_status_is_top(status, dir, file, most - 1);
    }
}

// ─── Rows ──────────────────────────────────────────────────────────────

/// The row of a listed entry: its path from the root, its name, how deep it lies,
/// whether it is an open directory, and its status, which for a directory is the
/// one that matters most below it.
pub open spec fn entry_row(
    e: ExplorerView,
    rel: Seq<char>,
    entry: DirEntryView,
    depth: usize,
) -> EntryRowView {
    let path = path_join(rel, entry.name);
    EntryRowView {
        path,
        name: entry.name,
        depth,
        is_dir: entry.is_dir,
        expanded: entry.is_dir && e.expanded.contains(path),
        status: if entry.is_dir {
            if e.dir_status.contains_key(path) {
                Some(e.dir_status[path])
            } else {
                None
            }
        } else if e.status.contains_key(path) {
            Some(e.status[path])
        } else {
            None
        },
    }
}

/// Whether a listed entry is one that the tree shows.
pub open spec fn is_listed(e: ExplorerView, rel: Seq<char>, entry: DirEntryView) -> bool {
    let path = path_join(rel, entry.name);
    &&& e.dirs.contains_key(rel)
    &&& e.dirs[rel].contains(entry)
    &&& entry.name != ".git"@
    &&& e.show_ignored || !(e.status.contains_key(path) && e.status[path] == StatusKind::Ignored)
}

/// Every listed entry of the root is a row, at depth 0, and every listed entry of
/// a directory that is open in the tree is a row, one deeper than the directory.
pub proof fn law_every_listed_entry_has_its_row(
    e: ExplorerView,
    entry: DirEntryView,
    i: int,
)
    requires
        e.fs is Some,
    ensures
        is_listed(e, seq![], entry) ==> e.rows().contains(entry_row(e, seq![], entry, 0)),
        0 <= i < e.rows().len() && e.rows()[i].expanded && e.rows()[i].depth < usize::MAX
            && is_listed(e, e.rows()[i].path, entry) ==> e.rows().contains(
            entry_row(e, e.rows()[i].path, entry, (e.rows()[i].depth + 1) as usize),
        ),
{
    if is_listed(e, seq![], entry) {
        lemma_listed_has_row(e, seq![], entry, 0);
    }
    if 0 <= i < e.rows().len() && e.rows()[i].expanded && e.rows()[i].depth < usize::MAX
        && is_listed(e, e.rows()[i].path, entry) {
        let r = e.rows()[i];
        lemma_open_row_has_rows(e, seq![], 0, i, entry);
    }
}

proof fn lemma_sort_keeps<V: Keyed>(s: Seq<V>, y: V)
    requires
        s.contains(y),
    ensures
        sort_of(s).contains(y),
    decreases s.len(),
{
    let t = s.drop_last();
    let k = choose|k: int| 0 <= k < s.len() && s[k] == y;
    if k < t.len() {
        assert(t[k] == y);
        lemma_sort_keeps(t, y);
        lemma_placed_keeps(sort_of(t), s.last(), y);
    } else {
        lemma_placed_keeps(sort_of(t), s.last(), y);
    }
}

proof fn lemma_placed_keeps<V: Keyed>(s: Seq<V>, x: V, y: V)
    ensures
        placed(s, x).contains(x),
        s.contains(y) ==> placed(s, x).contains(y),
    decreases s.len(),
{
    if s.len() > 0 && crate::order::comes_first(x, s.last()) {
        let t = s.drop_last();
        let p = placed(t, x);
        lemma_placed_keeps(t, x, y);
        let i = choose|i: int| 0 <= i < p.len() && p[i] == x;
        assert(placed(s, x)[i] == x);
        if s.contains(y) {
            let k = choose|k: int| 0 <= k < s.len() && s[k] == y;
            if k < t.len() {
                assert(t[k] == y);
                let j = choose|j: int| 0 <= j < p.len() && p[j] == y;
                assert(placed(s, x)[j] == y);
            } else {
                assert(placed(s, x)[p.len() as int] == y);
            }
        }
    } else {
        assert(placed(s, x)[s.len() as int] == x);
        if s.contains(y) {
            let k = choose|k: int| 0 <= k < s.len() && s[k] == y;
            assert(placed(s, x)[k] == y);
        }
    }
}

proof fn lemma_listed_has_row(e: ExplorerView, rel: Seq<char>, entry: DirEntryView, depth: usize)
    requires
        is_listed(e, rel, entry),
    ensures
        e.rows_under(rel, depth).contains(entry_row(e, rel, entry, depth)),
{
    let keep = |x: DirEntryView| e.shows(rel, x);
    let make = |x: DirEntryView|
        ChildView { path: path_join(rel, x.name), name: x.name, is_dir: x.is_dir };
    let all = e.dirs[rel];
    let kept = all.filter(keep);
    let k = choose|k: int| 0 <= k < all.len() && all[k] == entry;
    assert(keep(all[k]));
    all.filter_lemma(keep);
    assert(kept.contains(entry));
    let j = choose|j: int| 0 <= j < kept.len() && kept[j] == entry;
    let child = make(entry);
    assert(e.shown(rel)[j] == child);
    assert(e.shown(rel).contains(child));
    lemma_sort_keeps(e.shown(rel), child);
    lemma_child_has_row(e, sort_of(e.shown(rel)), child, depth);
    assert(e.row(child, depth) == entry_row(e, rel, entry, depth));
}

proof fn lemma_child_has_row(
    e: ExplorerView,
    children: Seq<ChildView>,
    child: ChildView,
    depth: usize,
)
    requires
        children.contains(child),
    ensures
        e.rows_of(children, depth).contains(e.row(child, depth)),
    decreases children.len(),
{
    let k = choose|k: int| 0 <= k < children.len() && children[k] == child;
    let rest = children.drop_last();
    let before = e.rows_of(rest, depth);
    let rows = e.rows_of(children, depth);
    if k < rest.len() {
        assert(rest[k] == child);
        lemma_child_has_row(e, rest, child, depth);
        let i = choose|i: int| 0 <= i < before.len() && before[i] == e.row(child, depth);
        assert(rows[i] == before[i]);
    } else {
        assert(rows[before.len() as int] == e.row(child, depth));
    }
}

proof fn lemma_open_row_has_rows(
    e: ExplorerView,
    rel: Seq<char>,
    depth: usize,
    i: int,
    entry: DirEntryView,
)
    requires
        0 <= i < e.rows_under(rel, depth).len(),
        e.rows_under(rel, depth)[i].expanded,
        e.rows_under(rel, depth)[i].depth < usize::MAX,
        is_listed(e, e.rows_under(rel, depth)[i].path, entry),
    ensures
        ({
            let r = e.rows_under(rel, depth)[i];
            e.rows_under(rel, depth).contains(
                entry_row(e, r.path, entry, (r.depth + 1) as usize),
            )
        }),
    decreases usize::MAX - depth, 1nat, 0nat,
{
    lemma_open_child_has_rows(e, sort_of(e.shown(rel)), depth, i, entry);
}

proof fn lemma_open_child_has_rows(
    e: ExplorerView,
    children: Seq<ChildView>,
    depth: usize,
    i: int,
    entry: DirEntryView,
)
    requires
        0 <= i < e.rows_of(children, depth).len(),
        e.rows_of(children, depth)[i].expanded,
        e.rows_of(children, depth)[i].depth < usize::MAX,
        is_listed(e, e.rows_of(children, depth)[i].path, entry),
    ensures
        ({
            let r = e.rows_of(children, depth)[i];
            e.rows_of(children, depth).contains(
                entry_row(e, r.path, entry, (r.depth + 1) as usize),
            )
        }),
    decreases usize::MAX - depth, 0nat, children.len(),
{
    let rest = children.drop_last();
    let last = children.last();
    let before = e.rows_of(rest, depth);
    let rows = e.rows_of(children, depth);
    let r = rows[i];
    let want = entry_row(e, r.path, entry, (r.depth + 1) as usize);
    if i < before.len() {
        assert(rows[i] == before[i]);
        lemma_open_child_has_rows(e, rest, depth, i, entry);
        let j = choose|j: int| 0 <= j < before.len() && before[j] == want;
        assert(rows[j] == want);
    } else {
        let under = e.rows_under(last.path, (depth + 1) as usize);
        if i == before.len() {
            assert(r == e.row(last, depth));
            assert(e.is_expanded(last));
            lemma_listed_has_row(e, last.path, entry, (depth + 1) as usize);
            let j = choose|j: int| 0 <= j < under.len() && under[j] == want;
            assert(rows[before.len() + 1 + j] == want);
        } else {
            assert(rows == before.push(e.row(last, depth)) + under);
            let k = i - before.len() - 1;
            assert(rows[i] == under[k]);
            lemma_open_row_has_rows(e, last.path, (depth + 1) as usize, k, entry);
            let j = choose|j: int| 0 <= j < under.len() && under[j] == want;
            assert(rows[before.len() + 1 + j] == want);
        }
    }
}

/// The entries of an open directory follow it directly: the row behind it is the
/// first of them, one deeper.
pub proof fn law_entries_follow_their_directory(e: ExplorerView, i: int)
    requires
        0 <= i < e.rows().len(),
        e.rows()[i].expanded,
        e.rows()[i].depth < usize::MAX,
        e.dirs.contains_key(e.rows()[i].path),
        sort_of(e.shown(e.rows()[i].path)).len() > 0,
    ensures
        ({
            let r = e.rows()[i];
            let first = sort_of(e.shown(r.path))[0];
            &&& i + 1 < e.rows().len()
            &&& e.rows()[i + 1].path == first.path
            &&& e.rows()[i + 1].name == first.name
            &&& e.rows()[i + 1].depth == r.depth + 1
        }),
{
    lemma_first_entry_follows(e, seq![], 0, i);
}

proof fn lemma_first_child_is_first(e: ExplorerView, children: Seq<ChildView>, depth: usize)
    requires
        children.len() > 0,
    ensures
        e.rows_of(children, depth).len() > 0,
        e.rows_of(children, depth)[0] == e.row(children[0], depth),
    decreases children.len(),
{
    let rest = children.drop_last();
    let before = e.rows_of(rest, depth);
    if rest.len() > 0 {
        lemma_first_child_is_first(e, rest, depth);
        assert(e.rows_of(children, depth)[0] == before[0]);
    } else {
        assert(before.len() == 0);
    }
}

proof fn lemma_first_entry_follows(e: ExplorerView, rel: Seq<char>, depth: usize, i: int)
    requires
        0 <= i < e.rows_under(rel, depth).len(),
        e.rows_under(rel, depth)[i].expanded,
        e.rows_under(rel, depth)[i].depth < usize::MAX,
        e.dirs.contains_key(e.rows_under(rel, depth)[i].path),
        sort_of(e.shown(e.rows_under(rel, depth)[i].path)).len() > 0,
    ensures
        ({
            let rows = e.rows_under(rel, depth);
            let r = rows[i];
            &&& i + 1 < rows.len()
            &&& rows[i + 1] == e.row(sort_of(e.shown(r.path))[0], (r.depth + 1) as usize)
        }),
    decreases usize::MAX - depth, 1nat, 0nat,
{
    lemma_first_entry_follows_in(e, sort_of(e.shown(rel)), depth, i);
}

proof fn lemma_first_entry_follows_in(
    e: ExplorerView,
    children: Seq<ChildView>,
    depth: usize,
    i: int,
)
    requires
        0 <= i < e.rows_of(children, depth).len(),
        e.rows_of(children, depth)[i].expanded,
        e.rows_of(children, depth)[i].depth < usize::MAX,
        e.dirs.contains_key(e.rows_of(children, depth)[i].path),
        sort_of(e.shown(e.rows_of(children, depth)[i].path)).len() > 0,
    ensures
        ({
            let rows = e.rows_of(children, depth);
            let r = rows[i];
            &&& i + 1 < rows.len()
            &&& rows[i + 1] == e.row(sort_of(e.shown(r.path))[0], (r.depth + 1) as usize)
        }),
    decreases usize::MAX - depth, 0nat, children.len(),
{
    let rest = children.drop_last();
    let last = children.last();
    let before = e.rows_of(rest, depth);
    let rows = e.rows_of(children, depth);
    let r = rows[i];
    if i < before.len() {
        assert(rows[i] == before[i]);
        lemma_first_entry_follows_in(e, rest, depth, i);
        assert(rows[i + 1] == before[i + 1]);
    } else {
        let under = e.rows_under(last.path, (depth + 1) as usize);
        if i == before.len() {
            assert(r == e.row(last, depth));
            assert(e.is_expanded(last));
            lemma_first_child_is_first(e, sort_of(e.shown(last.path)), (depth + 1) as usize);
            assert(rows[i + 1] == under[0]);
        } else {
            assert(rows == before.push(e.row(last, depth)) + under);
            let k = i - before.len() - 1;
            assert(rows[i] == under[k]);
            lemma_first_entry_follows(e, last.path, (depth + 1) as usize, k);
            assert(rows[i + 1] == under[k + 1]);
        }
    }
}

/// The entries of the root are shown in their order: of two of them, the one that
/// is sorted first has its row above the other's.
pub proof fn law_entries_are_shown_in_order(e: ExplorerView, i: int, j: int)
    requires
        e.fs is Some,
        e.dirs.contains_key(seq![]),
        0 <= i < j < sort_of(e.shown(seq![])).len(),
    ensures
        exists|p: int, q: int|
            0 <= p < q < e.rows().len() && #[trigger] e.rows()[p] == e.row(
                sort_of(e.shown(seq![]))[i],
                0,
            ) && #[trigger] e.rows()[q] == e.row(sort_of(e.shown(seq![]))[j], 0),
{
    let children = sort_of(e.shown(seq![]));
    let (p, q) = lemma_children_in_order(e, children, 0, i, j);
    assert(e.rows()[p] == e.row(children[i], 0));
    assert(e.rows()[q] == e.row(children[j], 0));
}

proof fn lemma_children_in_order(
    e: ExplorerView,
    children: Seq<ChildView>,
    depth: usize,
    i: int,
    j: int,
) -> (r: (int, int))
    requires
        0 <= i < j < children.len(),
    ensures
        0 <= r.0 < r.1 < e.rows_of(children, depth).len(),
        e.rows_of(children, depth)[r.0] == e.row(children[i], depth),
        e.rows_of(children, depth)[r.1] == e.row(children[j], depth),
    decreases children.len(),
{
    let rest = children.drop_last();
    let before = e.rows_of(rest, depth);
    let rows = e.rows_of(children, depth);
    if j < rest.len() {
        let (p, q) = lemma_children_in_order(e, rest, depth, i, j);
        assert(rows[p] == before[p] && rows[q] == before[q]);
        assert(rest[i] == children[i] && rest[j] == children[j]);
        (p, q)
    } else {
        assert(rest[i] == children[i]);
        assert(rest.contains(children[i]));
        lemma_child_has_row(e, rest, children[i], depth);
        let p = choose|p: int| 0 <= p < before.len() && before[p] == e.row(children[i], depth);
        assert(rows[p] == before[p]);
        assert(rows[before.len() as int] == e.row(children[j], depth));
        (p, before.len() as int)
    }
}

// ─── Pointing at a workspace ───────────────────────────────────────────

/// Pointing at another workspace forgets all that was read of the one before,
/// and keeps whether the explorer is open and shows ignored files. Reaching the
/// same files another way forgets only what was listed.
pub proof fn law_pointing_elsewhere_forgets_what_was_read(
    e: ExplorerView,
    fs: crate::agent::WorkspaceFsView,
)
    ensures
        ({
            let after = e.pointed_at(Some(fs));
            let same = match e.fs {
                Some(was) => was.root == fs.root,
                None => false,
            };
            &&& after.fs == Some(fs)
            &&& after.open == e.open && after.show_ignored == e.show_ignored
            &&& !same ==> after.selected is None && after.last_error is None && (forall|
                d: Seq<char>,
            |
                !after.expanded.contains(d) && !after.loading.contains(d)
                    && !after.dirs.contains_key(d) && !#[trigger] after.status.contains_key(d)
                    && !after.dir_status.contains_key(d))
            &&& same && e.fs->0.remote != fs.remote ==> after == ExplorerView {
                fs: Some(fs),
                dirs: Map::empty(),
                loading: Set::empty(),
                ..e
            }
            &&& e.fs == Some(fs) ==> after == e
        }),
{
}

} // verus!
