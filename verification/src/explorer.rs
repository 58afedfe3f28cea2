//! State and lazy tree-walk of the file explorer.
//!
//! Listings of directories are kept in a cache that the program around the
//! library fills; the tree is walked over that cache. All paths in it are
//! relative to the workspace root, with `/` between components.
use crate::agent::{opt_fs, opt_text, WorkspaceFs, WorkspaceFsView};
use crate::order::{all_views, sort_of, stable_sort, Keyed, Ordered};
use crate::paths::{clean, clean_path, join_path, path_join};
use crate::text::{chars_of, is_before, lowercase, same, text_of, to_lower};
use vstd::hash_map::StringHashMap;
use vstd::hash_set::StringHashSet;
use vstd::prelude::*;
use vstd::string::*;

pub mod laws;

verus! {

/// What git says of a path.
#[derive(Debug, Clone, Copy, PartialEq, Eq, Structural)]
pub enum StatusKind {
    Modified,
    Added,
    Deleted,
    Renamed,
    Untracked,
    Ignored,
    Conflicted,
}

/// How interesting a status is: of several, a directory shows the highest.
pub open spec fn rank(kind: StatusKind) -> u8 {
    match kind {
        StatusKind::Conflicted => 7,
        StatusKind::Deleted => 6,
        StatusKind::Modified => 5,
        StatusKind::Added => 4,
        StatusKind::Renamed => 3,
        StatusKind::Untracked => 2,
        StatusKind::Ignored => 1,
    }
}

/// How interesting a status is.
pub fn priority(kind: StatusKind) -> (r: u8)
    ensures
        r == rank(kind),
{
    match kind {
        StatusKind::Conflicted => 7,
        StatusKind::Deleted => 6,
        StatusKind::Modified => 5,
        StatusKind::Added => 4,
        StatusKind::Renamed => 3,
        StatusKind::Untracked => 2,
        StatusKind::Ignored => 1,
    }
}

/// An entry of a directory.
#[derive(Debug)]
pub struct DirEntry {
    pub name: String,
    pub is_dir: bool,
}

pub struct DirEntryView {
    pub name: Seq<char>,
    pub is_dir: bool,
}

impl View for DirEntry {
    type V = DirEntryView;

    open spec fn view(&self) -> DirEntryView {
        DirEntryView { name: self.name@, is_dir: self.is_dir }
    }
}

/// One visible entry in the rendered tree, after applying the expansion state.
#[derive(Debug)]
pub struct EntryRow {
    /// Path relative to the workspace root.
    pub path: String,
    pub name: String,
    pub depth: usize,
    pub is_dir: bool,
    pub expanded: bool,
    pub status: Option<StatusKind>,
}

pub struct EntryRowView {
    pub path: Seq<char>,
    pub name: Seq<char>,
    pub depth: usize,
    pub is_dir: bool,
    pub expanded: bool,
    pub status: Option<StatusKind>,
}

impl View for EntryRow {
    type V = EntryRowView;

    open spec fn view(&self) -> EntryRowView {
        EntryRowView {
            path: self.path@,
            name: self.name@,
            depth: self.depth,
            is_dir: self.is_dir,
            expanded: self.expanded,
            status: self.status,
        }
    }
}

impl Clone for EntryRow {
    fn clone(&self) -> (r: EntryRow)
        ensures
            r@ == self@,
    {
        EntryRow {
            path: self.path.clone(),
            name: self.name.clone(),
            depth: self.depth,
            is_dir: self.is_dir,
            expanded: self.expanded,
            status: self.status,
        }
    }
}

/// A listed entry with its path.
struct Child {
    path: String,
    name: String,
    is_dir: bool,
}

pub struct ChildView {
    pub path: Seq<char>,
    pub name: Seq<char>,
    pub is_dir: bool,
}

impl View for Child {
    type V = ChildView;

    closed spec fn view(&self) -> ChildView {
        ChildView { path: self.path@, name: self.name@, is_dir: self.is_dir }
    }
}

/// Directories come before files; each by name, whatever the case.
impl Keyed for ChildView {
    open spec fn group(&self) -> int {
        if self.is_dir {
            0
        } else {
            1
        }
    }

    open spec fn key(&self) -> Seq<char> {
        lowercase(self.name)
    }
}

impl Ordered for Child {
    fn precedes(&self, other: &Self) -> (r: bool) {
        if self.is_dir && !other.is_dir {
            true
        } else if !self.is_dir && other.is_dir {
            false
        } else {
            let a = to_lower(self.name.as_str());
            let b = to_lower(other.name.as_str());
            is_before(a.as_str(), b.as_str())
        }
    }
}

/// The explorer of the workspace that is being viewed.
pub struct ExplorerState {
    /// Pane visible at all?
    pub open: bool,
    /// Filesystem of the active workspace. `None` when the active agent has no
    /// workspace folder set.
    pub fs: Option<WorkspaceFs>,
    /// Currently selected entry path. `None` means that the cursor is
    /// implicitly on the first visible row.
    pub selected: Option<String>,
    /// Expanded directories. The root itself is always expanded and is absent
    /// from this set.
    pub expanded: StringHashSet,
    /// Git status by path. Tracked-and-clean files are absent.
    pub status: StringHashMap<StatusKind>,
    /// The most interesting status below each directory.
    pub dir_status: StringHashMap<StatusKind>,
    /// Whether ignored files are visible.
    pub show_ignored: bool,
    /// True while a status refresh is in flight.
    pub is_refreshing: bool,
    /// True when a refresh was requested while one was in flight.
    pub refresh_pending: bool,
    /// Last error from a status fetch.
    pub last_error: Option<String>,
    /// A file to open in the side pane.
    pub pending_open: Option<String>,
    /// The line to jump to in that file.
    pub pending_open_line: Option<u64>,
    /// Listings of directories, by path.
    pub dirs: StringHashMap<Vec<DirEntry>>,
    /// Directories whose listing has been asked for.
    pub loading: StringHashSet,
}

#[verifier::ext_equal]
pub struct ExplorerView {
    pub open: bool,
    pub fs: Option<WorkspaceFsView>,
    pub selected: Option<Seq<char>>,
    pub expanded: Set<Seq<char>>,
    pub status: Map<Seq<char>, StatusKind>,
    pub dir_status: Map<Seq<char>, StatusKind>,
    pub show_ignored: bool,
    pub is_refreshing: bool,
    pub refresh_pending: bool,
    pub last_error: Option<Seq<char>>,
    pub pending_open: Option<Seq<char>>,
    pub pending_open_line: Option<u64>,
    pub dirs: Map<Seq<char>, Seq<DirEntryView>>,
    pub loading: Set<Seq<char>>,
}

/// The views of cached listings.
pub open spec fn listing_views(m: Map<Seq<char>, Vec<DirEntry>>) -> Map<
    Seq<char>,
    Seq<DirEntryView>,
> {
    m.map_values(|v: Vec<DirEntry>| all_views(v@))
}

impl View for ExplorerState {
    type V = ExplorerView;

    open spec fn view(&self) -> ExplorerView {
        ExplorerView {
            open: self.open,
            fs: opt_fs(self.fs),
            selected: opt_text(self.selected),
            expanded: self.expanded@,
            status: self.status@,
            dir_status: self.dir_status@,
            show_ignored: self.show_ignored,
            is_refreshing: self.is_refreshing,
            refresh_pending: self.refresh_pending,
            last_error: opt_text(self.last_error),
            pending_open: opt_text(self.pending_open),
            pending_open_line: self.pending_open_line,
            dirs: listing_views(self.dirs@),
            loading: self.loading@,
        }
    }
}

// ─── Model of the status ───────────────────────────────────────────────

/// Whether `path` lies below the directory `dir`.
pub open spec fn below(path: Seq<char>, dir: Seq<char>) -> bool {
    0 < dir.len() < path.len() && path.take(dir.len() as int) == dir && path[dir.len() as int] == '/'
}

/// Whether some path with a status lies below `dir`.
pub open spec fn has_status_below(status: Map<Seq<char>, StatusKind>, dir: Seq<char>) -> bool {
    exists|p: Seq<char>| #[trigger] status.contains_key(p) && below(p, dir)
}

/// Whether `kind` is the most interesting status below `dir`.
pub open spec fn is_top_status(
    status: Map<Seq<char>, StatusKind>,
    dir: Seq<char>,
    kind: StatusKind,
) -> bool {
    &&& exists|p: Seq<char>| #[trigger] status.contains_key(p) && below(p, dir) && status[p] == kind
    &&& forall|p: Seq<char>| #[trigger]
        status.contains_key(p) && below(p, dir) ==> rank(status[p]) <= rank(kind)
}

/// The most interesting status below each directory that has one.
pub open spec fn dir_aggregates(status: Map<Seq<char>, StatusKind>) -> Map<Seq<char>, StatusKind> {
    Map::new(
        |d: Seq<char>| has_status_below(status, d),
        |d: Seq<char>| choose|kind: StatusKind| is_top_status(status, d, kind),
    )
}

/// The statuses of a list, by path; of two for one path the later counts.
pub open spec fn status_map(entries: Seq<(Seq<char>, StatusKind)>) -> Map<Seq<char>, StatusKind>
    decreases entries.len(),
{
    if entries.len() == 0 {
        Map::empty()
    } else {
        status_map(entries.drop_last()).insert(clean_path(entries.last().0), entries.last().1)
    }
}

/// The views of a list of statuses.
pub open spec fn status_views(v: Seq<(String, StatusKind)>) -> Seq<(Seq<char>, StatusKind)> {
    v.map_values(|p: (String, StatusKind)| (p.0@, p.1))
}

// ─── Model of the tree ─────────────────────────────────────────────────

impl ExplorerView {
    /// Whether a listed entry is shown: `.git` never is, and ignored entries
    /// only when they are asked for.
    pub open spec fn shows(self, rel: Seq<char>, entry: DirEntryView) -> bool {
        let path = path_join(rel, entry.name);
        entry.name != ".git"@ && (self.show_ignored || !(self.status.contains_key(path)
            && self.status[path] == StatusKind::Ignored))
    }

    /// The shown entries of a directory, in the order of its listing.
    pub open spec fn shown(self, rel: Seq<char>) -> Seq<ChildView> {
        self.dirs[rel].filter(|e: DirEntryView| self.shows(rel, e)).map_values(
            |e: DirEntryView|
                ChildView { path: path_join(rel, e.name), name: e.name, is_dir: e.is_dir },
        )
    }

    /// Whether a child's own entries are shown below it.
    pub open spec fn is_expanded(self, child: ChildView) -> bool {
        child.is_dir && self.expanded.contains(child.path)
    }

    /// The row of a child: files show their own status, directories the most
    /// interesting one below them.
    pub open spec fn row(self, child: ChildView, depth: usize) -> EntryRowView {
        let statuses = if child.is_dir {
            self.dir_status
        } else {
            self.status
        };
        EntryRowView {
            path: child.path,
            name: child.name,
            depth,
            is_dir: child.is_dir,
            expanded: self.is_expanded(child),
            status: if statuses.contains_key(child.path) {
                Some(statuses[child.path])
            } else {
                None
            },
        }
    }

    /// The rows of a directory's entries, each followed by its own entries
    /// where it is expanded. A directory that is not listed has none.
    pub open spec fn rows_under(self, rel: Seq<char>, depth: usize) -> Seq<EntryRowView>
        decreases usize::MAX - depth, 1nat, 0nat,
    {
        if self.dirs.contains_key(rel) {
            self.rows_of(sort_of(self.shown(rel)), depth)
        } else {
            seq![]
        }
    }

    /// The rows of the given children.
    pub open spec fn rows_of(self, children: Seq<ChildView>, depth: usize) -> Seq<EntryRowView>
        decreases usize::MAX - depth, 0nat, children.len(),
    {
        if children.len() == 0 {
            seq![]
        } else {
            let last = children.last();
            let rows = self.rows_of(children.drop_last(), depth).push(self.row(last, depth));
            if self.is_expanded(last) && depth < usize::MAX {
                rows + self.rows_under(last.path, (depth + 1) as usize)
            } else {
                rows
            }
        }
    }

    /// All visible rows in display order.
    pub open spec fn rows(self) -> Seq<EntryRowView> {
        if self.fs is Some {
            self.rows_under(seq![], 0)
        } else {
            seq![]
        }
    }

    /// The selected row, if it is visible.
    pub open spec fn selected_row(self) -> Option<EntryRowView> {
        match self.selected {
            None => None,
            Some(p) => {
                let k = row_index(self.rows(), p) as int;
                if k < self.rows().len() {
                    Some(self.rows()[k])
                } else {
                    None
                }
            },
        }
    }

    /// The explorer with the cursor moved by `delta` rows, within the rows.
    pub open spec fn cursor_moved(self, delta: int) -> ExplorerView {
        let rows = self.rows();
        if rows.len() == 0 {
            ExplorerView { selected: None, ..self }
        } else {
            let to = selection(rows, self.selected) + delta;
            let at = if to < 0 {
                0
            } else if to >= rows.len() {
                rows.len() - 1
            } else {
                to
            };
            ExplorerView { selected: Some(rows[at].path), ..self }
        }
    }

    /// The explorer with the selected directory expanded if it was not, and
    /// collapsed if it was.
    pub open spec fn dir_toggled(self) -> ExplorerView {
        match self.selected_row() {
            Some(row) if row.is_dir => if self.expanded.contains(row.path) {
                ExplorerView { expanded: self.expanded.remove(row.path), ..self }
            } else {
                ExplorerView { expanded: self.expanded.insert(row.path), ..self }
            },
            _ => self,
        }
    }

    /// The explorer pointed at a filesystem. What belongs to another root is
    /// dropped; listings also go when only the way to the files changes.
    pub open spec fn pointed_at(self, fs: Option<WorkspaceFsView>) -> ExplorerView {
        match (self.fs, fs) {
            (None, None) => self,
            (Some(a), Some(b)) if a.root == b.root => if a.remote == b.remote {
                ExplorerView { fs, ..self }
            } else {
                ExplorerView { fs, dirs: Map::empty(), loading: Set::empty(), ..self }
            },
            _ => ExplorerView {
                fs,
                selected: None,
                expanded: Set::empty(),
                status: Map::empty(),
                dir_status: Map::empty(),
                last_error: None,
                dirs: Map::empty(),
                loading: Set::empty(),
                ..self
            },
        }
    }

    /// The explorer with a fetched status.
    pub open spec fn with_status(
        self,
        result: Result<Seq<(Seq<char>, StatusKind)>, Seq<char>>,
    ) -> ExplorerView {
        match result {
            Ok(entries) => ExplorerView {
                is_refreshing: false,
                status: status_map(entries),
                dir_status: dir_aggregates(status_map(entries)),
                last_error: None,
                ..self
            },
            Err(message) => ExplorerView {
                is_refreshing: false,
                status: Map::empty(),
                dir_status: Map::empty(),
                last_error: Some(message),
                ..self
            },
        }
    }

    /// The explorer with a listing that was asked for. A failed listing can be
    /// asked for again.
    pub open spec fn with_dir(self, rel: Seq<char>, result: Option<Seq<DirEntryView>>) -> ExplorerView {
        match result {
            Some(entries) => ExplorerView {
                loading: self.loading.remove(rel),
                dirs: self.dirs.insert(rel, entries),
                ..self
            },
            None => ExplorerView { loading: self.loading.remove(rel), ..self },
        }
    }

    /// The directories that the tree shows open: the root and each expanded
    /// directory among the rows.
    pub open spec fn open_dirs(self) -> Seq<Seq<char>> {
        seq![Seq::<char>::empty()] + self.rows().filter(|r: EntryRowView| r.expanded).map_values(
            |r: EntryRowView| r.path,
        )
    }

    /// The open directories that are neither listed nor asked for.
    pub open spec fn missing(self) -> Seq<Seq<char>> {
        if self.fs is Some {
            self.open_dirs().filter(
                |d: Seq<char>| !self.dirs.contains_key(d) && !self.loading.contains(d),
            )
        } else {
            seq![]
        }
    }
}

/// Index of the first row with the path `p`, or the number of rows.
pub open spec fn row_index(rows: Seq<EntryRowView>, p: Seq<char>) -> nat
    decreases rows.len(),
{
    if rows.len() == 0 || rows[0].path == p {
        0
    } else {
        1 + row_index(rows.drop_first(), p)
    }
}

/// Index of the selected row, or 0 when none is selected or it is not visible.
pub open spec fn selection(rows: Seq<EntryRowView>, selected: Option<Seq<char>>) -> nat {
    match selected {
        Some(p) => if row_index(rows, p) < rows.len() {
            row_index(rows, p)
        } else {
            0
        },
        None => 0,
    }
}

/// An explorer that was never used.
pub open spec fn fresh_explorer() -> ExplorerView {
    ExplorerView {
        open: false,
        fs: None,
        selected: None,
        expanded: Set::empty(),
        status: Map::empty(),
        dir_status: Map::empty(),
        show_ignored: false,
        is_refreshing: false,
        refresh_pending: false,
        last_error: None,
        pending_open: None,
        pending_open_line: None,
        dirs: Map::empty(),
        loading: Set::empty(),
    }
}

pub proof fn lemma_row_index(rows: Seq<EntryRowView>, p: Seq<char>, k: int)
    requires
        0 <= k <= rows.len(),
        k < rows.len() ==> rows[k].path == p,
        forall|i: int| 0 <= i < k ==> (#[trigger] rows[i]).path != p,
    ensures
        row_index(rows, p) == k,
    decreases k,
{
    if k > 0 {
        assert(rows[0].path != p);
        let t = rows.drop_first();
        assert forall|i: int| 0 <= i < k - 1 implies (#[trigger] t[i]).path != p by {
            assert(t[i] == rows[i + 1]);
        }
        lemma_row_index(t, p, k - 1);
    }
}

pub proof fn lemma_row_index_bound(rows: Seq<EntryRowView>, p: Seq<char>)
    ensures
        row_index(rows, p) <= rows.len(),
        row_index(rows, p) < rows.len() ==> rows[row_index(rows, p) as int].path == p,
    decreases rows.len(),
{
    if rows.len() > 0 && rows[0].path != p {
        lemma_row_index_bound(rows.drop_first(), p);
    }
}

// ─── The explorer ──────────────────────────────────────────────────────

/// A selector of rows over a longer list of them.
proof fn lemma_views_push<T: View>(s: Seq<T>, x: T)
    ensures
        all_views(s.push(x)) == all_views(s).push(x@),
{
    assert(all_views(s.push(x)) =~= all_views(s).push(x@));
}

impl ExplorerState {
    /// An explorer that was never used.
    pub fn new() -> (r: ExplorerState)
        ensures
            r@ == fresh_explorer(),
    {
        let r = ExplorerState {
            open: false,
            fs: None,
            selected: None,
            expanded: StringHashSet::new(),
            status: StringHashMap::new(),
            dir_status: StringHashMap::new(),
            show_ignored: false,
            is_refreshing: false,
            refresh_pending: false,
            last_error: None,
            pending_open: None,
            pending_open_line: None,
            dirs: StringHashMap::new(),
            loading: StringHashSet::new(),
        };
        proof {
            assert(r@ =~= fresh_explorer());
        }
        r
    }

    /// Reconfigure the explorer for a workspace. Resets state when the root
    /// changes; preserves expansion and selection when it stays.
    pub fn set_fs(&mut self, fs: Option<WorkspaceFs>)
        ensures
            final(self)@ == old(self)@.pointed_at(opt_fs(fs)),
    {
        let same_root = match (&self.fs, &fs) {
            (Some(a), Some(b)) => same(a.root.as_str(), b.root.as_str()),
            (None, None) => true,
            _ => false,
        };
        let same_way = match (&self.fs, &fs) {
            (Some(a), Some(b)) => match (a.remote, b.remote) {
                (Some(x), Some(y)) => x == y,
                (None, None) => true,
                _ => false,
            },
            _ => true,
        };
        self.fs = fs;
        if same_root {
            if !same_way {
                self.dirs.clear();
                self.loading.clear();
            }
            proof {
                assert(self@ =~= old(self)@.pointed_at(opt_fs(fs)));
            }
            return;
        }
        self.selected = None;
        self.expanded.clear();
        self.status.clear();
        self.dir_status.clear();
        self.last_error = None;
        self.dirs.clear();
        self.loading.clear();
        proof {
            assert(self@ =~= old(self)@.pointed_at(opt_fs(fs)));
        }
    }

    /// Install a freshly-fetched status and rebuild the aggregate of each
    /// directory.
    pub fn apply_status(&mut self, result: Result<Vec<(String, StatusKind)>, String>)
        ensures
            final(self)@ == old(self)@.with_status(
                match result {
                    Ok(v) => Ok(status_views(v@)),
                    Err(e) => Err(e@),
                },
            ),
    {
        self.is_refreshing = false;
        match result {
            Ok(entries) => {
                let (status, dir_status) = build_status(&entries);
                self.status = status;
                self.dir_status = dir_status;
                self.last_error = None;
            },
            Err(message) => {
                self.status.clear();
                self.dir_status.clear();
                self.last_error = Some(message);
            },
        }
    }

    /// The shown entries of a directory, in the order of its listing.
    fn shown_children(&self, rel: &str, entries: &Vec<DirEntry>) -> (r: Vec<Child>)
        requires
            self@.dirs.contains_key(rel@),
            self@.dirs[rel@] == all_views(entries@),
        ensures
            all_views(r@) == self@.shown(rel@),
    {
        let ghost e = self@;
        let ghost all = all_views(entries@);
        let ghost keep = |d: DirEntryView| e.shows(rel@, d);
        let ghost make = |d: DirEntryView|
            ChildView { path: path_join(rel@, d.name), name: d.name, is_dir: d.is_dir };
        let mut out: Vec<Child> = Vec::new();
        let mut i: usize = 0;
        proof {
            reveal(Seq::filter);
            assert(all.take(0) =~= seq![]);
            assert(all_views(out@) =~= all.take(0).filter(keep).map_values(make));
        }
        while i < entries.len()
            invariant
                i <= entries@.len(),
                e == self@,
                all == all_views(entries@),
                keep == (|d: DirEntryView| e.shows(rel@, d)),
                make == (|d: DirEntryView|
                    ChildView { path: path_join(rel@, d.name), name: d.name, is_dir: d.is_dir }),
                all_views(out@) == all.take(i as int).filter(keep).map_values(make),
            decreases entries@.len() - i,
        {
            let ghost had = out@;
            let ghost d = entries@[i as int]@;
            proof {
                reveal(Seq::filter);
                assert(all.take(i + 1).drop_last() =~= all.take(i as int));
                assert(all.take(i + 1).last() == d);
            }
            let name = entries[i].name.clone();
            let path = join_path(rel, name.as_str());
            let ignored = match self.status.get(path.as_str()) {
                Some(kind) => *kind == StatusKind::Ignored,
                None => false,
            };
            if !same(name.as_str(), ".git") && (self.show_ignored || !ignored) {
                out.push(Child { path, name, is_dir: entries[i].is_dir });
                proof {
                    let before = all.take(i as int).filter(keep);
                    lemma_views_push(had, out@.last());
                    assert(out@ =~= had.push(out@.last()));
                    assert(keep(d));
                    assert(all.take(i + 1).filter(keep) =~= before.push(d));
                    assert(before.push(d).map_values(make) =~= before.map_values(make).push(
                        make(d),
                    ));
                }
            } else {
                proof {
                    assert(!keep(d));
                }
            }
            i = i + 1;
        }
        proof {
            assert(all.take(i as int) =~= all);
            assert(e.dirs[rel@] == all);
        }
        out
    }

    /// Append the rows of a directory's entries, honouring the expansion
    /// state.
    fn walk_dir(&self, rel: &str, depth: usize, out: &mut Vec<EntryRow>)
        ensures
            all_views(final(out)@) == all_views(old(out)@) + self@.rows_under(rel@, depth),
        decreases usize::MAX - depth, 1nat,
    {
        match self.dirs.get(rel) {
            None => {
                proof {
                    assert(all_views(old(out)@) + Seq::<EntryRowView>::empty() =~= all_views(
                        old(out)@,
                    ));
                }
            },
            Some(entries) => {
                let children = self.shown_children(rel, entries);
                let children = stable_sort(children);
                self.push_rows(&children, depth, out);
            },
        }
    }

    /// Append the rows of the given children.
    fn push_rows(&self, children: &Vec<Child>, depth: usize, out: &mut Vec<EntryRow>)
        ensures
            all_views(final(out)@) == all_views(old(out)@) + self@.rows_of(
                all_views(children@),
                depth,
            ),
        decreases usize::MAX - depth, 0nat,
    {
        let ghost e = self@;
        let ghost all = all_views(children@);
        let ghost start = all_views(out@);
        let mut i: usize = 0;
        proof {
            assert(all.take(0) =~= seq![]);
            assert(start + Seq::<EntryRowView>::empty() =~= start);
        }
        while i < children.len()
            invariant
                i <= children@.len(),
                e == self@,
                all == all_views(children@),
                all_views(out@) == start + e.rows_of(all.take(i as int), depth),
            decreases children@.len() - i,
        {
            let child = &children[i];
            proof {
                assert(all.take(i + 1).drop_last() =~= all.take(i as int));
                assert(all.take(i + 1).last() == child@);
            }
            let path = child.path.clone();
            let expanded = child.is_dir && self.expanded.contains(path.as_str());
            let found = if child.is_dir {
                self.dir_status.get(path.as_str())
            } else {
                self.status.get(path.as_str())
            };
            let status = match found {
                Some(kind) => Some(*kind),
                None => None,
            };
            let row = EntryRow {
                path: path.clone(),
                name: child.name.clone(),
                depth,
                is_dir: child.is_dir,
                expanded,
                status,
            };
            proof {
                assert(row@ == e.row(child@, depth));
            }
            let ghost had = out@;
            out.push(row);
            proof {
                lemma_views_push(had, row);
                assert(all_views(out@) =~= start + e.rows_of(all.take(i as int), depth).push(row@));
            }
            if expanded && depth < usize::MAX {
                let ghost mid = all_views(out@);
                self.walk_dir(path.as_str(), depth + 1, out);
                proof {
                    assert(all_views(out@) =~= start + e.rows_of(all.take(i + 1), depth));
                }
            }
            i = i + 1;
        }
        proof {
            assert(all.take(i as int) =~= all);
        }
    }

    /// Flat list of visible rows in display order.
    pub fn visible_entries(&self) -> (r: Vec<EntryRow>)
        ensures
            all_views(r@) == self@.rows(),
    {
        let mut out: Vec<EntryRow> = Vec::new();
        proof {
            assert(all_views(out@) =~= seq![]);
        }
        if self.fs.is_some() {
            let root = String::new();
            proof {
                assert(root@ =~= seq![]);
            }
            self.walk_dir(root.as_str(), 0, &mut out);
            proof {
                assert(seq![] + self@.rows_under(seq![], 0) =~= self@.rows_under(seq![], 0));
            }
        }
        out
    }

    /// Position of the currently selected entry among the rows, or `0` if
    /// nothing is selected or the selected path is not visible.
    pub fn selected_index(&self, entries: &Vec<EntryRow>) -> (r: usize)
        ensures
            r == selection(all_views(entries@), self@.selected),
    {
        match &self.selected {
            Some(p) => {
                let k: usize = find_row(entries, p.as_str());
                if k < entries.len() {
                    k
                } else {
                    0
                }
            },
            None => 0,
        }
    }

    /// Move the cursor by `delta` rows, within the rows.
    pub fn move_cursor(&mut self, delta: i64)
        ensures
            final(self)@ == old(self)@.cursor_moved(delta as int),
    {
        let entries = self.visible_entries();
        if entries.len() == 0 {
            self.selected = None;
            return;
        }
        let current: usize = self.selected_index(&entries);
        proof {
            match self@.selected {
                Some(p) => lemma_row_index_bound(self@.rows(), p),
                None => {},
            }
        }
        let to: i128 = current as i128 + delta as i128;
        let last: usize = entries.len() - 1;
        let next: usize = if to < 0 {
            0
        } else if to > last as i128 {
            last
        } else {
            to as usize
        };
        self.selected = Some(entries[next].path.clone());
    }

    /// Expand or collapse the selected directory. No-op when the selection
    /// points at a file or at nothing visible.
    pub fn toggle_selected_dir(&mut self)
        ensures
            final(self)@ == old(self)@.dir_toggled(),
    {
        let row = match self.selected_entry() {
            Some(row) => row,
            None => {
                return;
            },
        };
        if !row.is_dir {
            return;
        }
        if self.expanded.contains(row.path.as_str()) {
            let _was = self.expanded.remove(row.path.as_str());
        } else {
            let _new = self.expanded.insert(row.path);
        }
    }

    /// Currently-selected entry, if it is visible.
    pub fn selected_entry(&self) -> (r: Option<EntryRow>)
        ensures
            match r {
                Some(row) => self@.selected_row() == Some(row@),
                None => self@.selected_row() is None,
            },
    {
        let entries = self.visible_entries();
        match &self.selected {
            None => None,
            Some(p) => {
                let k: usize = find_row(&entries, p.as_str());
                if k < entries.len() {
                    Some(entries[k].clone())
                } else {
                    None
                }
            },
        }
    }

    /// The directories whose listing the tree needs and nobody has asked for.
    pub fn missing_dirs(&self) -> (r: Vec<String>)
        ensures
            crate::text::views(r@) == self@.missing(),
    {
        let ghost e = self@;
        let mut out: Vec<String> = Vec::new();
        proof {
            assert(crate::text::views(out@) =~= seq![]);
        }
        if self.fs.is_none() {
            return out;
        }
        let ghost need = |d: Seq<char>| !e.dirs.contains_key(d) && !e.loading.contains(d);
        let ghost open = |r: EntryRowView| r.expanded;
        let ghost path = |r: EntryRowView| r.path;
        let root = String::new();
        proof {
            assert(root@ =~= Seq::<char>::empty());
            reveal(Seq::filter);
            let one = seq![Seq::<char>::empty()];
            assert(one.drop_last() =~= seq![]);
            assert(Seq::<Seq<char>>::empty().filter(need) =~= seq![]);
        }
        if !self.dirs.contains_key("") && !self.loading.contains("") {
            proof {
                reveal_strlit("");
                assert(""@ =~= Seq::<char>::empty());
            }
            out.push(root);
            proof {
                assert(crate::text::views(out@) =~= seq![Seq::<char>::empty()]);
            }
        } else {
            proof {
                reveal_strlit("");
                assert(""@ =~= Seq::<char>::empty());
            }
        }
        let rows = self.visible_entries();
        let ghost all = e.rows();
        let mut i: usize = 0;
        let ghost first = seq![Seq::<char>::empty()];
        proof {
            assert(all.take(0) =~= seq![]);
            assert(all.take(0).filter(open) =~= seq![]);
            assert(all.take(0).filter(open).map_values(path) =~= seq![]);
            assert(first + all.take(0).filter(open).map_values(path) =~= first);
        }
        while i < rows.len()
            invariant
                i <= rows@.len(),
                e == self@,
                all == all_views(rows@),
                need == (|d: Seq<char>| !e.dirs.contains_key(d) && !e.loading.contains(d)),
                open == (|r: EntryRowView| r.expanded),
                path == (|r: EntryRowView| r.path),
                first == seq![Seq::<char>::empty()],
                crate::text::views(out@) == (first + all.take(i as int).filter(open).map_values(
                    path,
                )).filter(need),
            decreases rows@.len() - i,
        {
            let ghost had = out@;
            let ghost row = rows@[i as int]@;
            let ghost dirs = all.take(i as int).filter(open).map_values(path);
            proof {
                reveal(Seq::filter);
                assert(all.take(i + 1).drop_last() =~= all.take(i as int));
                assert(all.take(i + 1).last() == row);
            }
            if rows[i].expanded {
                let p = rows[i].path.clone();
                proof {
                    assert(open(row));
                    assert(all.take(i + 1).filter(open) =~= all.take(i as int).filter(open).push(
                        row,
                    ));
                    assert(all.take(i + 1).filter(open).map_values(path) =~= dirs.push(p@));
                    assert((first + dirs.push(p@)).drop_last() =~= first + dirs);
                    assert((first + dirs.push(p@)).last() == p@);
                }
                if !self.dirs.contains_key(p.as_str()) && !self.loading.contains(p.as_str()) {
                    out.push(p);
                    proof {
                        assert(need(p@));
                        assert(crate::text::views(out@) =~= crate::text::views(had).push(p@));
                    }
                } else {
                    proof {
                        assert(!need(p@));
                    }
                }
            } else {
                proof {
                    assert(!open(row));
                }
            }
            i = i + 1;
        }
        proof {
            assert(all.take(i as int) =~= all);
        }
        out
    }

    /// Remember that a directory's listing has been asked for.
    pub fn mark_dir_loading(&mut self, rel: String)
        ensures
            final(self)@ == (ExplorerView { loading: old(self)@.loading.insert(rel@), ..old(self)@ }),
    {
        let _new = self.loading.insert(rel);
    }

    /// Install a listing that was asked for. A failed one can be asked for
    /// again.
    pub fn apply_dir(&mut self, rel: String, result: Result<Vec<DirEntry>, String>)
        ensures
            final(self)@ == old(self)@.with_dir(
                rel@,
                match result {
                    Ok(v) => Some(all_views(v@)),
                    Err(_) => None,
                },
            ),
    {
        let _was = self.loading.remove(rel.as_str());
        match result {
            Ok(entries) => {
                let ghost before = self.dirs@;
                self.dirs.insert(rel, entries);
                proof {
                    assert(listing_views(self.dirs@) =~= listing_views(before).insert(
                        rel@,
                        all_views(entries@),
                    ));
                }
            },
            Err(_) => {},
        }
    }

    /// Forget every listing, so that the tree is listed anew.
    pub fn invalidate_dirs(&mut self)
        ensures
            final(self)@ == (ExplorerView {
                dirs: Map::empty(),
                loading: Set::empty(),
                ..old(self)@
            }),
    {
        self.dirs.clear();
        self.loading.clear();
        proof {
            assert(listing_views(self.dirs@) =~= Map::empty());
        }
    }
}

impl Default for ExplorerState {
    /// An explorer that was never used.
    fn default() -> (r: ExplorerState)
        ensures
            r@ == fresh_explorer(),
    {
        ExplorerState::new()
    }
}

/// Index of the first row with the path `p`, or the number of rows.
fn find_row(rows: &Vec<EntryRow>, p: &str) -> (k: usize)
    ensures
        k == row_index(all_views(rows@), p@),
        k <= rows@.len(),
{
    let mut i: usize = 0;
    while i < rows.len() && !same(rows[i].path.as_str(), p)
        invariant
            i <= rows@.len(),
            forall|j: int| 0 <= j < i ==> (#[trigger] all_views(rows@)[j]).path != p@,
        decreases rows@.len() - i,
    {
        proof {
            assert(all_views(rows@)[i as int].path != p@);
        }
        i = i + 1;
    }
    proof {
        if i < rows@.len() {
            assert(all_views(rows@)[i as int].path == p@);
        }
        lemma_row_index(all_views(rows@), p@, i as int);
    }
    i
}

/// Whether the `i`th entry is the one that counts for its path.
spec fn counts(entries: Seq<(Seq<char>, StatusKind)>, i: int) -> bool {
    0 <= i < entries.len() && status_map(entries)[clean_path(entries[i].0)] == entries[i].1
}

/// Whether `dir` has a status among the first `n` entries.
spec fn seen_below(entries: Seq<(Seq<char>, StatusKind)>, n: int, dir: Seq<char>) -> bool {
    exists|i: int| 0 <= i < n && #[trigger] counts(entries, i) && below(clean_path(entries[i].0), dir)
}

/// Whether `kind` is the most interesting status below `dir` among the first
/// `n` entries.
spec fn top_below(
    entries: Seq<(Seq<char>, StatusKind)>,
    n: int,
    dir: Seq<char>,
    kind: StatusKind,
) -> bool {
    &&& exists|i: int|
        0 <= i < n && #[trigger] counts(entries, i) && below(clean_path(entries[i].0), dir)
            && entries[i].1 == kind
    &&& forall|i: int|
        0 <= i < n && #[trigger] counts(entries, i) && below(clean_path(entries[i].0), dir) ==> rank(
            entries[i].1,
        ) <= rank(kind)
}

proof fn lemma_status_map(entries: Seq<(Seq<char>, StatusKind)>)
    ensures
        forall|p: Seq<char>| #[trigger]
            status_map(entries).contains_key(p) ==> exists|i: int| #[trigger]
                counts(entries, i) && clean_path(entries[i].0) == p,
        forall|i: int|
            0 <= i < entries.len() ==> status_map(entries).contains_key(
                clean_path((#[trigger] entries[i]).0),
            ),
    decreases entries.len(),
{
    if entries.len() > 0 {
        let t = entries.drop_last();
        let m = status_map(entries);
        let n = entries.len() - 1;
        lemma_status_map(t);
        assert forall|p: Seq<char>| #[trigger] m.contains_key(p) implies exists|i: int| #[trigger]
            counts(entries, i) && clean_path(entries[i].0) == p by {
            if p == clean_path(entries.last().0) {
                assert(counts(entries, n));
            } else {
                assert(status_map(t).contains_key(p));
                let i = choose|i: int| #[trigger] counts(t, i) && clean_path(t[i].0) == p;
                assert(t[i] == entries[i]);
                assert(counts(entries, i));
            }
        }
        assert forall|i: int| 0 <= i < entries.len() implies m.contains_key(
            clean_path((#[trigger] entries[i]).0),
        ) by {
            if i < n {
                assert(t[i] == entries[i]);
            }
        }
    }
}

/// The statuses of a list by path, and the most interesting one below each
/// directory.
fn build_status(entries: &Vec<(String, StatusKind)>) -> (r: (
    StringHashMap<StatusKind>,
    StringHashMap<StatusKind>,
))
    ensures
        r.0@ == status_map(status_views(entries@)),
        r.1@ == dir_aggregates(status_map(status_views(entries@))),
{
    let ghost all = status_views(entries@);
    let mut status: StringHashMap<StatusKind> = StringHashMap::new();
    let mut i: usize = 0;
    proof {
        assert(all.take(0) =~= seq![]);
    }
    while i < entries.len()
        invariant
            i <= entries@.len(),
            all == status_views(entries@),
            status@ == status_map(all.take(i as int)),
        decreases entries@.len() - i,
    {
        proof {
            assert(all.take(i + 1).drop_last() =~= all.take(i as int));
            assert(all.take(i + 1).last() == (entries@[i as int].0@, entries@[i as int].1));
        }
        status.insert(clean(entries[i].0.as_str()), entries[i].1);
        i = i + 1;
    }
    proof {
        assert(all.take(i as int) =~= all);
    }
    let dirs = build_dir_aggregates(entries, &status);
    (status, dirs)
}

/// The most interesting status below each directory, in one pass over the
/// statuses.
fn build_dir_aggregates(
    entries: &Vec<(String, StatusKind)>,
    status: &StringHashMap<StatusKind>,
) -> (r: StringHashMap<StatusKind>)
    requires
        status@ == status_map(status_views(entries@)),
    ensures
        r@ == dir_aggregates(status@),
{
    let ghost all = status_views(entries@);
    let mut out: StringHashMap<StatusKind> = StringHashMap::new();
    let mut i: usize = 0;
    proof {
        lemma_status_map(all);
    }
    while i < entries.len()
        invariant
            i <= entries@.len(),
            all == status_views(entries@),
            status@ == status_map(all),
            forall|k: int|
                0 <= k < all.len() ==> status@.contains_key(clean_path((#[trigger] all[k]).0)),
            forall|d: Seq<char>| #[trigger] out@.contains_key(d) <==> seen_below(all, i as int, d),
            forall|d: Seq<char>| #[trigger]
                out@.contains_key(d) ==> top_below(all, i as int, d, out@[d]),
        decreases entries@.len() - i,
    {
        let path = clean(entries[i].0.as_str());
        let kind = entries[i].1;
        let ghost p = path@;
        proof {
            assert(all[i as int] == (entries@[i as int].0@, kind));
            assert(status@.contains_key(p));
        }
        let current = match status.get(path.as_str()) {
            Some(k) => *k == kind,
            None => false,
        };
        proof {
            assert(current == counts(all, i as int));
        }
        if current {
            let v = chars_of(path.as_str());
            let mut j: usize = 1;
            let ghost start = out@;
            while j < v.len()
                invariant
                    v@ == p,
                    1 <= j,
                    j <= v@.len() || v@.len() == 0,
                    forall|d: Seq<char>| #[trigger]
                        out@.contains_key(d) <==> start.contains_key(d) || (below(p, d) && d.len()
                            < j),
                    forall|d: Seq<char>| #[trigger]
                        out@.contains_key(d) && !(below(p, d) && d.len() < j) ==> out@[d]
                            == start[d],
                    forall|d: Seq<char>| #[trigger]
                        out@.contains_key(d) && below(p, d) && d.len() < j ==> out@[d] == (
                        if start.contains_key(d) && rank(start[d]) >= rank(kind) {
                            start[d]
                        } else {
                            kind
                        }),
                decreases v@.len() - j,
            {
                let ghost had = out@;
                if v[j] == '/' {
                    let dir = text_of(v.as_slice(), 0, j);
                    proof {
                        assert(dir@ =~= p.take(j as int));
                        assert(below(p, dir@));
                    }
                    let replace = match out.get(dir.as_str()) {
                        Some(k) => priority(kind) > priority(*k),
                        None => true,
                    };
                    if replace {
                        out.insert(dir, kind);
                    }
                    proof {
                        assert forall|d: Seq<char>| below(p, d) && d.len() == j implies d == dir@ by {
                            assert(d =~= p.take(j as int));
                        }
                    }
                } else {
                    proof {
                        assert forall|d: Seq<char>| !(below(p, d) && d.len() == j) by {
                            if below(p, d) && d.len() == j {
                                assert(p[j as int] == '/');
                            }
                        }
                    }
                }
                j = j + 1;
            }
            proof {
                assert forall|d: Seq<char>| #[trigger] out@.contains_key(d) <==> seen_below(
                    all,
                    i + 1,
                    d,
                ) by {
                    if out@.contains_key(d) {
                        if start.contains_key(d) {
                            let k = choose|k: int|
                                0 <= k < i && #[trigger] counts(all, k) && below(
                                    clean_path(all[k].0),
                                    d,
                                );
                            assert(counts(all, k));
                        } else {
                            assert(counts(all, i as int));
                        }
                    }
                    if seen_below(all, i + 1, d) {
                        let k = choose|k: int|
                            0 <= k < i + 1 && #[trigger] counts(all, k) && below(
                                clean_path(all[k].0),
                                d,
                            );
                        if k < i {
                            assert(counts(all, k));
                            assert(start.contains_key(d));
                        } else {
                            assert(below(p, d));
                        }
                    }
                }
                assert forall|d: Seq<char>| #[trigger] out@.contains_key(d) implies top_below(
                    all,
                    i + 1,
                    d,
                    out@[d],
                ) by {
                    if start.contains_key(d) {
                        assert(top_below(all, i as int, d, start[d]));
                        let k = choose|k: int|
                            0 <= k < i && #[trigger] counts(all, k) && below(
                                clean_path(all[k].0),
                                d,
                            ) && all[k].1 == start[d];
                        assert(counts(all, k));
                    }
                    if below(p, d) {
                        assert(counts(all, i as int));
                    }
                    assert forall|k: int|
                        0 <= k < i + 1 && #[trigger] counts(all, k) && below(
                            clean_path(all[k].0),
                            d,
                        ) implies rank(all[k].1) <= rank(out@[d]) by {
                        if k < i {
                            assert(seen_below(all, i as int, d));
                            assert(start.contains_key(d));
                        }
                    }
                }
            }
        } else {
            proof {
                assert forall|d: Seq<char>| seen_below(all, i + 1, d) == seen_below(all, i as int, d) by {
                    if seen_below(all, i + 1, d) {
                        let k = choose|k: int|
                            0 <= k < i + 1 && #[trigger] counts(all, k) && below(
                                clean_path(all[k].0),
                                d,
                            );
                        assert(k < i);
                    }
                    if seen_below(all, i as int, d) {
                        let k = choose|k: int|
                            0 <= k < i && #[trigger] counts(all, k) && below(
                                clean_path(all[k].0),
                                d,
                            );
                        assert(0 <= k < i + 1);
                    }
                }
                assert forall|d: Seq<char>| #[trigger] out@.contains_key(d) implies top_below(
                    all,
                    i + 1,
                    d,
                    out@[d],
                ) by {
                    assert(top_below(all, i as int, d, out@[d]));
                    let k = choose|k: int|
                        0 <= k < i && #[trigger] counts(all, k) && below(clean_path(all[k].0), d)
                            && all[k].1 == out@[d];
                    assert(counts(all, k));
                }
            }
        }
        i = i + 1;
    }
    proof {
        let m = status@;
        let n = all.len() as int;
        assert forall|d: Seq<char>| out@.contains_key(d) <==> dir_aggregates(m).contains_key(d) by {
            if out@.contains_key(d) {
                let k = choose|k: int|
                    0 <= k < n && #[trigger] counts(all, k) && below(clean_path(all[k].0), d);
                assert(m.contains_key(clean_path(all[k].0)));
            }
            if has_status_below(m, d) {
                let p = choose|p: Seq<char>| #[trigger] m.contains_key(p) && below(p, d);
                let k = choose|k: int| #[trigger] counts(all, k) && clean_path(all[k].0) == p;
                assert(seen_below(all, n, d));
            }
        }
        assert forall|d: Seq<char>| out@.contains_key(d) implies out@[d] == dir_aggregates(m)[d] by {
            assert(top_below(all, n, d, out@[d]));
            lemma_top(all, d, out@[d]);
            let other = dir_aggregates(m)[d];
            assert(is_top_status(m, d, other));
            lemma_top_unique(m, d, out@[d], other);
        }
        assert(out@ =~= dir_aggregates(m));
    }
    out
}

proof fn lemma_top(all: Seq<(Seq<char>, StatusKind)>, d: Seq<char>, kind: StatusKind)
    requires
        top_below(all, all.len() as int, d, kind),
    ensures
        is_top_status(status_map(all), d, kind),
{
    let m = status_map(all);
    lemma_status_map(all);
    let k = choose|k: int|
        0 <= k < all.len() && #[trigger] counts(all, k) && below(clean_path(all[k].0), d) && all[k].1
            == kind;
    assert(m.contains_key(clean_path(all[k].0)));
    assert forall|p: Seq<char>| #[trigger] m.contains_key(p) && below(p, d) implies rank(m[p])
        <= rank(kind) by {
        let j = choose|j: int| #[trigger] counts(all, j) && clean_path(all[j].0) == p;
        assert(counts(all, j));
    }
}

/// Statuses of the same rank are the same, so there is one most interesting.
proof fn lemma_top_unique(
    m: Map<Seq<char>, StatusKind>,
    d: Seq<char>,
    a: StatusKind,
    b: StatusKind,
)
    requires
        is_top_status(m, d, a),
        is_top_status(m, d, b),
    ensures
        a == b,
{
    let p = choose|p: Seq<char>| #[trigger] m.contains_key(p) && below(p, d) && m[p] == a;
    let q = choose|q: Seq<char>| #[trigger] m.contains_key(q) && below(q, d) && m[q] == b;
    assert(rank(m[p]) <= rank(b));
    assert(rank(m[q]) <= rank(a));
}

} // verus!
