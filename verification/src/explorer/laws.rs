//! What holds of the tree as a whole.
use crate::agent::WorkspaceFsView;
use crate::explorer::{
    lemma_row_index, lemma_row_index_bound, row_index, selection, ChildView, DirEntryView,
    EntryRowView, ExplorerView, StatusKind,
};
use crate::order::{comes_first, law_sort_is_stable, lemma_sort_contains, sort_of};
use crate::paths::path_join;
use crate::text::{before, lowercase};
use vstd::prelude::*;

pub mod rows;

verus! {

/// Whether a row may be shown: it is not `.git`, and not ignored unless ignored
/// entries are asked for.
pub open spec fn may_be_shown(e: ExplorerView, row: EntryRowView) -> bool {
    row.name != ".git"@ && (e.show_ignored || !(e.status.contains_key(row.path)
        && e.status[row.path] == StatusKind::Ignored))
}

proof fn lemma_child_may_be_shown(e: ExplorerView, rel: Seq<char>, child: ChildView, depth: usize)
    requires
        sort_of(e.shown(rel)).contains(child),
    ensures
        may_be_shown(e, e.row(child, depth)),
{
    let keep = |x: DirEntryView| e.shows(rel, x);
    let make = |x: DirEntryView|
        ChildView { path: path_join(rel, x.name), name: x.name, is_dir: x.is_dir };
    lemma_sort_contains(e.shown(rel), child);
    let kept = e.dirs[rel].filter(keep);
    let k = choose|k: int| 0 <= k < e.shown(rel).len() && e.shown(rel)[k] == child;
    e.dirs[rel].filter_lemma(keep);
    assert(keep(kept[k]));
    assert(child == make(kept[k]));
}

proof fn lemma_rows_under_may_be_shown(e: ExplorerView, rel: Seq<char>, depth: usize)
    ensures
        forall|i: int|
            0 <= i < e.rows_under(rel, depth).len() ==> may_be_shown(
                e,
                #[trigger] e.rows_under(rel, depth)[i],
            ),
    decreases usize::MAX - depth, 1nat, 0nat,
{
    if e.dirs.contains_key(rel) {
        let all = sort_of(e.shown(rel));
        assert forall|c: ChildView| #[trigger] all.contains(c) implies may_be_shown(
            e,
            e.row(c, depth),
        ) by {
            lemma_child_may_be_shown(e, rel, c, depth);
        }
        lemma_rows_of_may_be_shown(e, all, depth);
        assert(e.rows_under(rel, depth) == e.rows_of(all, depth));
        let rows = e.rows_of(all, depth);
        assert forall|i: int| 0 <= i < rows.len() implies may_be_shown(e, #[trigger] rows[i]) by {
            assert(may_be_shown(e, e.rows_of(all, depth)[i]));
        }
    }
}

proof fn lemma_rows_of_may_be_shown(e: ExplorerView, children: Seq<ChildView>, depth: usize)
    requires
        forall|c: ChildView| #[trigger]
            children.contains(c) ==> may_be_shown(e, e.row(c, depth)),
    ensures
        forall|i: int|
            0 <= i < e.rows_of(children, depth).len() ==> may_be_shown(
                e,
                #[trigger] e.rows_of(children, depth)[i],
            ),
    decreases usize::MAX - depth, 0nat, children.len(),
{
    if children.len() > 0 {
        let last = children.last();
        let rest = children.drop_last();
        assert(children.contains(children[children.len() - 1]));
        assert forall|c: ChildView| #[trigger] rest.contains(c) implies may_be_shown(
            e,
            e.row(c, depth),
        ) by {
            let k = choose|k: int| 0 <= k < rest.len() && rest[k] == c;
            assert(children[k] == c);
            assert(children.contains(c));
        }
        lemma_rows_of_may_be_shown(e, rest, depth);
        if e.is_expanded(last) && depth < usize::MAX {
            lemma_rows_under_may_be_shown(e, last.path, (depth + 1) as usize);
        }
        let before = e.rows_of(rest, depth);
        let rows = e.rows_of(children, depth);
        assert forall|i: int| 0 <= i < rows.len() implies may_be_shown(e, #[trigger] rows[i]) by {
            if i < before.len() {
                assert(rows[i] == before[i]);
            } else if i == before.len() {
                assert(rows[i] == e.row(last, depth));
            } else {
                let under = e.rows_under(last.path, (depth + 1) as usize);
                assert(rows[i] == under[i - before.len() - 1]);
            }
        }
    }
}

/// `.git` is never shown, at whatever depth, and an ignored entry only when
/// ignored entries are asked for.
pub proof fn law_hidden_entries_are_never_shown(e: ExplorerView, i: int)
    requires
        0 <= i < e.rows().len(),
    ensures
        may_be_shown(e, e.rows()[i]),
{
    lemma_rows_under_may_be_shown(e, seq![], 0);
}

/// In each directory, directories come before files, and each kind is in the
/// order of its names, whatever their case.
pub proof fn law_directories_come_first(e: ExplorerView, rel: Seq<char>, i: int, j: int)
    requires
        0 <= i < j < sort_of(e.shown(rel)).len(),
    ensures
        ({
            let children = sort_of(e.shown(rel));
            &&& children[j].is_dir ==> children[i].is_dir
            &&& children[i].is_dir == children[j].is_dir ==> !before(
                lowercase(children[j].name),
                lowercase(children[i].name),
            )
        }),
{
    law_sort_is_stable(e.shown(rel));
    let children = sort_of(e.shown(rel));
    assert(!comes_first(children[j], children[i]));
}

/// However far the cursor is moved, it stands on a row, as long as there is
/// one.
pub proof fn law_the_cursor_stays_on_a_row(e: ExplorerView, delta: int)
    requires
        e.rows().len() > 0,
    ensures
        e.cursor_moved(delta).rows() == e.rows(),
        e.cursor_moved(delta).selected_row() is Some,
{
    let rows = e.rows();
    lemma_same_tree(e, e.cursor_moved(delta));
    lemma_selection_bound(rows, e.selected);
    let to = selection(rows, e.selected) + delta;
    let at = if to < 0 {
        0
    } else if to >= rows.len() {
        rows.len() - 1
    } else {
        to
    };
    lemma_row_found(rows, at);
}

proof fn lemma_selection_bound(rows: Seq<EntryRowView>, selected: Option<Seq<char>>)
    requires
        rows.len() > 0,
    ensures
        selection(rows, selected) < rows.len(),
{
}

/// A row's path is found among the rows.
proof fn lemma_row_found(rows: Seq<EntryRowView>, k: int)
    requires
        0 <= k < rows.len(),
    ensures
        row_index(rows, rows[k].path) <= k,
    decreases rows.len(),
{
    let p = rows[k].path;
    if rows[0].path != p {
        lemma_row_found(rows.drop_first(), k - 1);
    }
}

/// The rows depend on the listings, the status and what is expanded alone.
proof fn lemma_same_tree(a: ExplorerView, b: ExplorerView)
    requires
        a.fs is Some == b.fs is Some,
        a.dirs == b.dirs,
        a.status == b.status,
        a.dir_status == b.dir_status,
        a.show_ignored == b.show_ignored,
        a.expanded == b.expanded,
    ensures
        a.rows() == b.rows(),
{
    if a.fs is Some {
        lemma_same_under(a, b, seq![], 0);
    }
}

proof fn lemma_same_shown(a: ExplorerView, b: ExplorerView, rel: Seq<char>)
    requires
        a.dirs == b.dirs,
        a.status == b.status,
        a.show_ignored == b.show_ignored,
    ensures
        a.shown(rel) == b.shown(rel),
{
    let f = |x: DirEntryView| a.shows(rel, x);
    let g = |x: DirEntryView| b.shows(rel, x);
    assert(f =~= g);
}

proof fn lemma_same_under(a: ExplorerView, b: ExplorerView, rel: Seq<char>, depth: usize)
    requires
        a.dirs == b.dirs,
        a.status == b.status,
        a.dir_status == b.dir_status,
        a.show_ignored == b.show_ignored,
        a.expanded == b.expanded,
    ensures
        a.rows_under(rel, depth) == b.rows_under(rel, depth),
    decreases usize::MAX - depth, 1nat, 0nat,
{
    if a.dirs.contains_key(rel) {
        lemma_same_shown(a, b, rel);
        lemma_same_rows(a, b, sort_of(a.shown(rel)), depth);
    }
}

proof fn lemma_same_rows(a: ExplorerView, b: ExplorerView, children: Seq<ChildView>, depth: usize)
    requires
        a.dirs == b.dirs,
        a.status == b.status,
        a.dir_status == b.dir_status,
        a.show_ignored == b.show_ignored,
        a.expanded == b.expanded,
    ensures
        a.rows_of(children, depth) == b.rows_of(children, depth),
    decreases usize::MAX - depth, 0nat, children.len(),
{
    if children.len() > 0 {
        let last = children.last();
        lemma_same_rows(a, b, children.drop_last(), depth);
        if a.is_expanded(last) && depth < usize::MAX {
            lemma_same_under(a, b, last.path, (depth + 1) as usize);
        }
    }
}

/// A listing that was asked for is not asked for again while it is on its way.
pub proof fn law_a_listing_is_asked_for_once(e: ExplorerView)
    ensures
        (ExplorerView { loading: e.loading.union(e.missing().to_set()), ..e }).missing().len() == 0,
{
    let f = ExplorerView { loading: e.loading.union(e.missing().to_set()), ..e };
    lemma_same_tree(e, f);
    if f.fs is Some {
        let lacks = |d: Seq<char>| !e.dirs.contains_key(d) && !e.loading.contains(d);
        let still = |d: Seq<char>| !f.dirs.contains_key(d) && !f.loading.contains(d);
        let open = e.open_dirs();
        assert(f.open_dirs() == open);
        open.filter_lemma(lacks);
        open.filter_lemma(still);
        let left = open.filter(still);
        if left.len() > 0 {
            assert(still(left[0]));
            assert(left.contains(left[0]));
            open.lemma_filter_contains_rev(still, left[0]);
            let k = choose|k: int| 0 <= k < open.len() && open[k] == left[0];
            assert(lacks(open[k]));
            assert(open.filter(lacks).contains(open[k]));
            assert(e.missing().to_set().contains(open[k]));
        }
    }
}

// ─── Toggling ──────────────────────────────────────────────────────────

/// Whether two lists of rows are the same up to the first row with the path
/// `p`, and have that row at the same place.
spec fn agree(a: Seq<EntryRowView>, b: Seq<EntryRowView>, p: Seq<char>) -> bool {
    let k = row_index(a, p) as int;
    if k < a.len() {
        &&& k < b.len()
        &&& forall|i: int| 0 <= i < k ==> #[trigger] b[i] == a[i]
        &&& b[k].path == p
        &&& b[k].is_dir == a[k].is_dir
    } else {
        a == b
    }
}

/// The first rows with a path, in lists that follow one another.
proof fn lemma_agree_add(
    a: Seq<EntryRowView>,
    b: Seq<EntryRowView>,
    c: Seq<EntryRowView>,
    d: Seq<EntryRowView>,
    p: Seq<char>,
)
    requires
        agree(a, b, p),
        row_index(a, p) == a.len() ==> agree(c, d, p),
    ensures
        agree(a + c, b + d, p),
{
    lemma_row_index_bound(a, p);
    lemma_row_index_bound(c, p);
    lemma_before_row_index(a, p);
    lemma_before_row_index(c, p);
    let k = row_index(a, p) as int;
    if k < a.len() {
        lemma_row_index(a + c, p, k);
    } else {
        let m = row_index(c, p) as int;
        assert forall|i: int| 0 <= i < k + m implies (#[trigger] (a + c)[i]).path != p by {
            if i >= k {
                assert((a + c)[i] == c[i - k]);
            }
        }
        lemma_row_index(a + c, p, k + m);
        if m < c.len() {
            assert forall|i: int| 0 <= i < k + m implies #[trigger] (b + d)[i] == (a + c)[i] by {
                if i >= k {
                    assert(d[i - k] == c[i - k]);
                }
            }
        }
    }
}

/// No row before the first with a path has it.
proof fn lemma_before_row_index(rows: Seq<EntryRowView>, p: Seq<char>)
    ensures
        forall|i: int| 0 <= i < row_index(rows, p) ==> (#[trigger] rows[i]).path != p,
    decreases rows.len(),
{
    lemma_row_index_bound(rows, p);
    if rows.len() > 0 && rows[0].path != p {
        let t = rows.drop_first();
        lemma_before_row_index(t, p);
        assert forall|i: int| 0 <= i < row_index(rows, p) implies (#[trigger] rows[i]).path != p by {
            if i > 0 {
                assert(rows[i] == t[i - 1]);
            }
        }
    }
}

/// Whether two explorers differ in whether `p` is expanded alone.
spec fn differ_at(a: ExplorerView, b: ExplorerView, p: Seq<char>) -> bool {
    &&& a.dirs == b.dirs
    &&& a.status == b.status
    &&& a.dir_status == b.dir_status
    &&& a.show_ignored == b.show_ignored
    &&& forall|q: Seq<char>| q != p ==> (#[trigger] a.expanded.contains(q) == b.expanded.contains(q))
}

proof fn lemma_toggle_under(
    a: ExplorerView,
    b: ExplorerView,
    p: Seq<char>,
    rel: Seq<char>,
    depth: usize,
)
    requires
        differ_at(a, b, p),
    ensures
        agree(a.rows_under(rel, depth), b.rows_under(rel, depth), p),
    decreases usize::MAX - depth, 1nat, 0nat,
{
    if a.dirs.contains_key(rel) {
        lemma_same_shown(a, b, rel);
        lemma_toggle_rows(a, b, p, sort_of(a.shown(rel)), depth);
    }
}

proof fn lemma_toggle_rows(
    a: ExplorerView,
    b: ExplorerView,
    p: Seq<char>,
    children: Seq<ChildView>,
    depth: usize,
)
    requires
        differ_at(a, b, p),
    ensures
        agree(a.rows_of(children, depth), b.rows_of(children, depth), p),
    decreases usize::MAX - depth, 0nat, children.len(),
{
    if children.len() > 0 {
        let last = children.last();
        let rest = children.drop_last();
        lemma_toggle_rows(a, b, p, rest, depth);
        let ra = a.rows_of(rest, depth);
        let rb = b.rows_of(rest, depth);
        let one_a = seq![a.row(last, depth)];
        let one_b = seq![b.row(last, depth)];
        assert(ra.push(a.row(last, depth)) =~= ra + one_a);
        assert(rb.push(b.row(last, depth)) =~= rb + one_b);
        assert(agree(one_a, one_b, p)) by {
            if last.path == p {
                lemma_row_index(one_a, p, 0);
            } else {
                lemma_row_index(one_a, p, 1);
                assert(a.row(last, depth) == b.row(last, depth));
            }
        }
        lemma_agree_add(ra, rb, one_a, one_b, p);
        let none = Seq::<EntryRowView>::empty();
        let sub_a = if a.is_expanded(last) && depth < usize::MAX {
            a.rows_under(last.path, (depth + 1) as usize)
        } else {
            none
        };
        let sub_b = if b.is_expanded(last) && depth < usize::MAX {
            b.rows_under(last.path, (depth + 1) as usize)
        } else {
            none
        };
        let head = ra + one_a;
        if last.path == p {
            // The row itself has the path, so what follows it does not matter.
            lemma_row_found(head, ra.len() as int);
            assert(head[ra.len() as int].path == p);
        } else if depth < usize::MAX && a.is_expanded(last) {
            lemma_toggle_under(a, b, p, last.path, (depth + 1) as usize);
        }
        lemma_agree_add(head, rb + one_b, sub_a, sub_b, p);
        assert(head + none =~= head);
        assert(rb + one_b + none =~= rb + one_b);
    }
}

/// Toggling a directory twice leaves the tree as it was.
pub proof fn law_toggling_twice_restores_the_tree(e: ExplorerView)
    ensures
        e.dir_toggled().dir_toggled() == e,
{
    match e.selected_row() {
        Some(row) if row.is_dir => {
            let p = e.selected->0;
            let rows = e.rows();
            lemma_row_index_bound(rows, p);
            let once = e.dir_toggled();
            assert(row.path == p);
            lemma_toggle_under(e, once, p, seq![], 0);
            let k = row_index(rows, p) as int;
            lemma_before_row_index(rows, p);
            lemma_row_index(once.rows(), p, k);
            assert(once.selected_row() is Some);
            assert(once.selected_row()->0.path == p);
            assert(once.selected_row()->0.is_dir);
            if e.expanded.contains(p) {
                assert(e.expanded.remove(p).insert(p) =~= e.expanded);
            } else {
                assert(e.expanded.insert(p).remove(p) =~= e.expanded);
            }
        },
        _ => {},
    }
}

// ─── Pointing at a workspace ───────────────────────────────────────────

/// Pointing at the same workspace keeps what was selected, expanded and read of
/// it; pointing at another keeps nothing of it.
pub proof fn law_pointing_keeps_the_state_of_the_same_workspace(
    e: ExplorerView,
    fs: WorkspaceFsView,
)
    requires
        e.fs is Some,
    ensures
        ({
            let after = e.pointed_at(Some(fs));
            if e.fs->0.root == fs.root {
                after.selected == e.selected && after.expanded == e.expanded && after.status
                    == e.status && after.dir_status == e.dir_status
            } else {
                after.selected is None && after.expanded == Set::<Seq<char>>::empty()
                    && after.status == Map::<Seq<char>, StatusKind>::empty() && after.dirs
                    == Map::<Seq<char>, Seq<DirEntryView>>::empty()
            }
        }),
        e.pointed_at(Some(fs)).pointed_at(Some(fs)) == e.pointed_at(Some(fs)),
{
}

} // verus!
