//! The decisions of the `init` command, which registers workspaces: which
//! projects a directory holds, which of them are new, and what their base layer
//! says.
use crate::json::{
    holds_texts, json_member, json_pretty, json_text, last_field, lemma_last_field, list_of_texts, lists_texts,
    object_of_texts, object_value, pretty, text_value,
};
use crate::order::{all_views, sort_of, stable_sort};
use crate::paths::{base_name, file_name, join_path, path_join};
use crate::text::{chars_of, concat2, concat3, has_prefix, same, starts_with, text_of, views};
use crate::workspace::{WorkspaceEntry, WorkspaceEntryView};
use vstd::prelude::*;
use vstd::string::*;

verus! {

// ─── Scanning ──────────────────────────────────────────────────────────

/// An entry of a directory.
#[derive(Debug)]
pub struct FoundDir {
    pub name: String,
    pub is_dir: bool,
    /// Whether it holds `.devcontainer/devcontainer.json`.
    pub has_config: bool,
}

pub struct FoundDirView {
    pub name: Seq<char>,
    pub is_dir: bool,
    pub has_config: bool,
}

impl View for FoundDir {
    type V = FoundDirView;

    open spec fn view(&self) -> FoundDirView {
        FoundDirView { name: self.name@, is_dir: self.is_dir, has_config: self.has_config }
    }
}

/// Whether an entry is a project: a directory with a config that is not hidden.
pub open spec fn is_project(entry: FoundDirView) -> bool {
    entry.is_dir && !has_prefix(entry.name, "."@) && entry.has_config
}

/// The names of the projects among the entries of a directory, in ascending
/// order.
pub open spec fn project_names(entries: Seq<FoundDirView>) -> Seq<Seq<char>> {
    sort_of(entries.filter(|e: FoundDirView| is_project(e)).map_values(|e: FoundDirView| e.name))
}

/// The paths of the projects of a directory: itself, if it is one, and then its
/// subdirectories.
pub open spec fn projects(root: Seq<char>, root_has_config: bool, entries: Seq<FoundDirView>) -> Seq<
    Seq<char>,
> {
    (if root_has_config {
        seq![root]
    } else {
        seq![]
    }) + project_names(entries).map_values(|n: Seq<char>| path_join(root, n))
}

/// The paths of the projects of a directory, given its entries: itself, if it
/// has a config, and then its subdirectories that have one. Hidden directories
/// do not count.
pub fn scan_projects(root: &str, root_has_config: bool, entries: &Vec<FoundDir>) -> (r: Vec<String>)
    ensures
        views(r@) == projects(root@, root_has_config, all_views(entries@)),
{
    let ghost all = all_views(entries@);
    let ghost keep = |e: FoundDirView| is_project(e);
    let ghost name_of = |e: FoundDirView| e.name;
    let mut names: Vec<String> = Vec::new();
    let mut i: usize = 0;
    proof {
        reveal(Seq::filter);
        assert(all.take(0) =~= seq![]);
        assert(all_views(names@) =~= all.take(0).filter(keep).map_values(name_of));
    }
    while i < entries.len()
        invariant
            i <= entries@.len(),
            all == all_views(entries@),
            keep == (|e: FoundDirView| is_project(e)),
            name_of == (|e: FoundDirView| e.name),
            all_views(names@) == all.take(i as int).filter(keep).map_values(name_of),
        decreases entries@.len() - i,
    {
        let ghost had = names@;
        let ghost e = entries@[i as int]@;
        proof {
            reveal(Seq::filter);
            assert(all.take(i + 1).drop_last() =~= all.take(i as int));
            assert(all.take(i + 1).last() == e);
        }
        if entries[i].is_dir && !starts_with(entries[i].name.as_str(), ".") && entries[i].has_config {
            names.push(entries[i].name.clone());
            proof {
                let t = all.take(i as int).filter(keep);
                assert(keep(e));
                assert(all.take(i + 1).filter(keep) =~= t.push(e));
                assert(t.push(e).map_values(name_of) =~= t.map_values(name_of).push(e.name));
                assert(all_views(names@) =~= all_views(had).push(e.name));
            }
        } else {
            proof {
                assert(!keep(e));
            }
        }
        i = i + 1;
    }
    proof {
        assert(all.take(i as int) =~= all);
    }
    let sorted = stable_sort(names);
    let ghost order = project_names(all);
    let ghost join = |n: Seq<char>| path_join(root@, n);
    let ghost first: Seq<Seq<char>> = if root_has_config {
        seq![root@]
    } else {
        seq![]
    };
    let mut out: Vec<String> = Vec::new();
    if root_has_config {
        out.push(root.to_owned());
    }
    let mut k: usize = 0;
    proof {
        assert(views(out@) =~= first + order.take(0).map_values(join));
    }
    while k < sorted.len()
        invariant
            k <= sorted@.len(),
            order == all_views(sorted@),
            join == (|n: Seq<char>| path_join(root@, n)),
            views(out@) == first + order.take(k as int).map_values(join),
        decreases sorted@.len() - k,
    {
        let ghost had = out@;
        out.push(join_path(root, sorted[k].as_str()));
        proof {
            assert(views(out@) =~= views(had).push(join(order[k as int])));
            assert(order.take(k + 1).map_values(join) =~= order.take(k as int).map_values(join).push(
                join(order[k as int]),
            ));
            assert(first + order.take(k as int).map_values(join).push(join(order[k as int])) =~= (
            first + order.take(k as int).map_values(join)).push(join(order[k as int])));
        }
        k = k + 1;
    }
    proof {
        assert(order.take(k as int) =~= order);
    }
    out
}

/// The name that a project is shown by.
pub open spec fn project_name(path: Seq<char>) -> Seq<char> {
    match base_name(path) {
        Some(name) => name,
        None => path,
    }
}

/// The name that a project is shown by: its last component, or else its path.
pub fn project_name_of(path: &str) -> (r: String)
    ensures
        r@ == project_name(path@),
{
    match file_name(path) {
        Some(name) => name,
        None => path.to_owned(),
    }
}

// ─── Registering ───────────────────────────────────────────────────────

/// Whether a path is registered.
pub open spec fn is_registered(entries: Seq<WorkspaceEntryView>, path: Seq<char>) -> bool {
    exists|i: int| 0 <= i < entries.len() && (#[trigger] entries[i]).path == path
}

/// The entries with a project registered; one that is registered already stays
/// as it is.
pub open spec fn with_project(
    entries: Seq<WorkspaceEntryView>,
    path: Seq<char>,
    acp_command: Seq<char>,
) -> Seq<WorkspaceEntryView> {
    if is_registered(entries, path) {
        entries
    } else {
        entries.push(WorkspaceEntryView { path, acp_command })
    }
}

/// The entries with all selected projects registered, in order.
pub open spec fn registered(
    entries: Seq<WorkspaceEntryView>,
    selected: Seq<Seq<char>>,
    acp_command: Seq<char>,
) -> Seq<WorkspaceEntryView>
    decreases selected.len(),
{
    if selected.len() == 0 {
        entries
    } else {
        with_project(
            registered(entries, selected.drop_last(), acp_command),
            selected.last(),
            acp_command,
        )
    }
}

/// What is said of a selected project.
pub open spec fn register_line(path: Seq<char>, is_new: bool) -> Seq<char> {
    if is_new {
        "  ✓ "@ + project_name(path)
    } else {
        "  ⏭ "@ + project_name(path) + " (already registered)"@
    }
}

/// What is said of a selected project.
pub fn register_line_of(path: &str, is_new: bool) -> (r: String)
    ensures
        r@ == register_line(path@, is_new),
{
    let name = project_name_of(path);
    if is_new {
        concat2("  ✓ ", name.as_str())
    } else {
        concat3("  ⏭ ", name.as_str(), " (already registered)")
    }
}

/// Register a selected project, unless it is registered already. Returns
/// whether it is new, so that its base layer must be generated.
pub fn register(entries: &mut Vec<WorkspaceEntry>, path: &str, acp_command: &str) -> (is_new: bool)
    ensures
        is_new == !is_registered(all_views(old(entries)@), path@),
        all_views(final(entries)@) == with_project(
            all_views(old(entries)@),
            path@,
            acp_command@,
        ),
{
    let ghost all = all_views(entries@);
    let mut i: usize = 0;
    while i < entries.len()
        invariant
            i <= entries@.len(),
            all == all_views(entries@),
            entries@ == old(entries)@,
            forall|j: int| 0 <= j < i ==> (#[trigger] all[j]).path != path@,
        decreases entries@.len() - i,
    {
        if same(entries[i].path.as_str(), path) {
            proof {
                assert(all[i as int].path == path@);
            }
            return false;
        }
        i = i + 1;
    }
    entries.push(WorkspaceEntry { path: path.to_owned(), acp_command: acp_command.to_owned() });
    proof {
        assert(all_views(entries@) =~= all.push(
            WorkspaceEntryView { path: path@, acp_command: acp_command@ },
        ));
    }
    true
}

/// Register all selected projects, in order. Returns the new ones.
pub fn register_all(
    entries: &mut Vec<WorkspaceEntry>,
    selected: &Vec<String>,
    acp_command: &str,
) -> (news: Vec<bool>)
    ensures
        all_views(final(entries)@) == registered(
            all_views(old(entries)@),
            views(selected@),
            acp_command@,
        ),
        news@.len() == selected@.len(),
        forall|i: int|
            0 <= i < news@.len() ==> #[trigger] news@[i] == !is_registered(
                registered(all_views(old(entries)@), views(selected@).take(i), acp_command@),
                selected@[i]@,
            ),
{
    let ghost before = all_views(entries@);
    let ghost all = views(selected@);
    let mut news: Vec<bool> = Vec::new();
    let mut i: usize = 0;
    proof {
        assert(all.take(0) =~= seq![]);
    }
    while i < selected.len()
        invariant
            i <= selected@.len(),
            all == views(selected@),
            all_views(entries@) == registered(before, all.take(i as int), acp_command@),
            news@.len() == i,
            forall|j: int|
                0 <= j < i ==> #[trigger] news@[j] == !is_registered(
                    registered(before, all.take(j), acp_command@),
                    selected@[j]@,
                ),
        decreases selected@.len() - i,
    {
        let is_new = register(entries, selected[i].as_str(), acp_command);
        news.push(is_new);
        proof {
            assert(all.take(i + 1).drop_last() =~= all.take(i as int));
            assert(all.take(i + 1).last() == selected@[i as int]@);
        }
        i = i + 1;
    }
    proof {
        assert(all.take(i as int) =~= all);
    }
    news
}

// ─── Base layer ────────────────────────────────────────────────────────

/// Where `needle` first stands in `hay`, or the length of `hay`.
pub open spec fn first_at(hay: Seq<char>, needle: Seq<char>) -> nat
    decreases hay.len(),
{
    if hay.len() == 0 {
        0
    } else if has_prefix(hay, needle) {
        0
    } else {
        1 + first_at(hay.drop_first(), needle)
    }
}

/// A mount with its source replaced. One without a target stays as it is.
pub open spec fn mount_from(mount: Seq<char>, source: Seq<char>) -> Seq<char> {
    let k = first_at(mount, "target="@) as int;
    if k < mount.len() {
        "source="@ + source + ","@ + mount.skip(k)
    } else {
        mount
    }
}

/// Where `needle` first stands in `hay`, or the length of `hay`.
proof fn lemma_first_at(hay: Seq<char>, needle: Seq<char>, k: int)
    requires
        0 <= k <= hay.len(),
        forall|i: int| 0 <= i < k ==> !has_prefix(#[trigger] hay.skip(i), needle),
        k < hay.len() ==> has_prefix(hay.skip(k), needle),
    ensures
        first_at(hay, needle) == k,
    decreases k,
{
    if hay.len() > 0 {
        assert(hay.skip(0) =~= hay);
        if k > 0 {
            let rest = hay.drop_first();
            assert forall|i: int| 0 <= i < k - 1 implies !has_prefix(
                #[trigger] rest.skip(i),
                needle,
            ) by {
                assert(rest.skip(i) =~= hay.skip(i + 1));
            }
            if k < hay.len() {
                assert(rest.skip(k - 1) =~= hay.skip(k));
            }
            lemma_first_at(rest, needle, k - 1);
        }
    }
}

/// A mount with its source replaced by the workspace's own directory.
pub fn rewrite_mount(mount: &str, source: &str) -> (r: String)
    ensures
        r@ == mount_from(mount@, source@),
{
    let v = chars_of(mount);
    let mut k: usize = 0;
    while k < v.len()
        invariant
            v@ == mount@,
            k <= v@.len(),
            forall|i: int| 0 <= i < k ==> !has_prefix(#[trigger] mount@.skip(i), "target="@),
        decreases v@.len() - k,
    {
        let rest = text_of(v.as_slice(), k, v.len());
        proof {
            assert(rest@ =~= mount@.skip(k as int));
        }
        if starts_with(rest.as_str(), "target=") {
            proof {
                lemma_first_at(mount@, "target="@, k as int);
            }
            let head = concat3("source=", source, ",");
            return concat2(head.as_str(), rest.as_str());
        }
        k = k + 1;
    }
    proof {
        lemma_first_at(mount@, "target="@, k as int);
    }
    mount.to_owned()
}

/// What an agent needs inside a container.
#[derive(Debug)]
pub struct AgentNeeds {
    pub container_env: Vec<(String, String)>,
    pub mounts: Vec<String>,
    pub post_start_command: Option<String>,
    /// The features with their options.
    pub features: Vec<(String, serde_json::Value)>,
}

/// The base layer of a workspace. A part that would be empty is left out.
#[derive(Debug)]
pub struct WorkspaceLayer {
    /// Environment variables the agent needs.
    pub container_env: Option<Vec<(String, String)>>,
    /// Bind mounts for persisting agent state.
    pub mounts: Option<Vec<String>>,
    /// Fixup commands, such as ownership of mounted directories.
    pub post_start_command: Option<String>,
    /// Features that provide the agent's binary.
    pub features: Option<Vec<(String, serde_json::Value)>>,
}

/// The mounts with the workspace's own directory as their source.
pub open spec fn mounts_from(mounts: Seq<Seq<char>>, source: Seq<char>) -> Seq<Seq<char>> {
    mounts.map_values(|m: Seq<char>| mount_from(m, source))
}

/// The base layer for a workspace whose data is kept in `data_dir`.
pub fn workspace_layer(needs: AgentNeeds, data_dir: &str) -> (r: WorkspaceLayer)
    ensures
        r.container_env == (if needs.container_env@.len() > 0 {
            Some(needs.container_env)
        } else {
            None
        }),
        match r.mounts {
            Some(m) => needs.mounts@.len() > 0 && views(m@) == mounts_from(
                views(needs.mounts@),
                data_dir@,
            ),
            None => needs.mounts@.len() == 0,
        },
        r.post_start_command == needs.post_start_command,
        r.features == (if needs.features@.len() > 0 {
            Some(needs.features)
        } else {
            None
        }),
{
    let ghost all = views(needs.mounts@);
    let ghost from = |m: Seq<char>| mount_from(m, data_dir@);
    let mut mounts: Vec<String> = Vec::new();
    let mut i: usize = 0;
    proof {
        assert(views(mounts@) =~= all.take(0).map_values(from));
    }
    while i < needs.mounts.len()
        invariant
            i <= needs.mounts@.len(),
            all == views(needs.mounts@),
            from == (|m: Seq<char>| mount_from(m, data_dir@)),
            views(mounts@) == all.take(i as int).map_values(from),
        decreases needs.mounts@.len() - i,
    {
        let ghost had = mounts@;
        mounts.push(rewrite_mount(needs.mounts[i].as_str(), data_dir));
        proof {
            assert(views(mounts@) =~= views(had).push(from(all[i as int])));
            assert(all.take(i + 1).map_values(from) =~= all.take(i as int).map_values(from).push(
                from(all[i as int]),
            ));
        }
        i = i + 1;
    }
    proof {
        assert(all.take(i as int) =~= all);
    }
    WorkspaceLayer {
        container_env: if needs.container_env.len() > 0 {
            Some(needs.container_env)
        } else {
            None
        },
        mounts: if needs.mounts.len() > 0 {
            Some(mounts)
        } else {
            None
        },
        post_start_command: needs.post_start_command,
        features: if needs.features.len() > 0 {
            Some(needs.features)
        } else {
            None
        },
    }
}

/// Whether a JSON value is a layer: an object with the parts that the layer has,
/// and nothing else.
pub open spec fn is_layer(v: serde_json::Value, layer: WorkspaceLayer) -> bool {
    &&& match layer.container_env {
        Some(env) => json_member(v, "containerEnv"@) is Some && holds_texts(
            json_member(v, "containerEnv"@)->0,
            env@,
        ),
        None => json_member(v, "containerEnv"@) is None,
    }
    &&& match layer.mounts {
        Some(mounts) => json_member(v, "mounts"@) is Some && lists_texts(
            json_member(v, "mounts"@)->0,
            mounts@,
        ),
        None => json_member(v, "mounts"@) is None,
    }
    &&& match layer.post_start_command {
        Some(command) => json_member(v, "postStartCommand"@) is Some && json_text(
            json_member(v, "postStartCommand"@)->0,
        ) == Some(command@),
        None => json_member(v, "postStartCommand"@) is None,
    }
    &&& match layer.features {
        Some(features) => json_member(v, "features"@) is Some && forall|key: Seq<char>|
            #[trigger] json_member(json_member(v, "features"@)->0, key) == last_field(features@, key),
        None => json_member(v, "features"@) is None,
    }
    &&& forall|key: Seq<char>|
        key != "containerEnv"@ && key != "mounts"@ && key != "postStartCommand"@ && key
            != "features"@ ==> (#[trigger] json_member(v, key)) is None
}

/// A layer as a JSON value.
pub fn layer_value(layer: WorkspaceLayer) -> (r: serde_json::Value)
    ensures
        is_layer(r, layer),
{
    proof {
        reveal_strlit("containerEnv");
        reveal_strlit("mounts");
        reveal_strlit("postStartCommand");
        reveal_strlit("features");
        assert("containerEnv"@.len() == 12);
        assert("mounts"@.len() == 6);
        assert("postStartCommand"@.len() == 16);
        assert("features"@.len() == 8);
    }
    let mut fields: Vec<(String, serde_json::Value)> = Vec::new();
    match layer.container_env {
        Some(env) => {
            let ghost had = fields@;
            fields.push(("containerEnv".to_owned(), object_of_texts(env)));
            proof {
                lemma_last_field(had, fields@.last());
            }
        },
        None => {},
    }
    match layer.mounts {
        Some(mounts) => {
            let ghost had = fields@;
            fields.push(("mounts".to_owned(), list_of_texts(mounts)));
            proof {
                lemma_last_field(had, fields@.last());
            }
        },
        None => {},
    }
    match layer.post_start_command {
        Some(command) => {
            let ghost had = fields@;
            fields.push(("postStartCommand".to_owned(), text_value(command)));
            proof {
                lemma_last_field(had, fields@.last());
            }
        },
        None => {},
    }
    match layer.features {
        Some(features) => {
            let ghost had = fields@;
            fields.push(("features".to_owned(), object_value(features)));
            proof {
                lemma_last_field(had, fields@.last());
            }
        },
        None => {},
    }
    object_value(fields)
}

/// A layer as the text of its file.
pub fn layer_text(layer: WorkspaceLayer) -> (r: Result<String, serde_json::Error>)
    ensures
        r is Ok,
        exists|v: serde_json::Value| #[trigger] is_layer(v, layer) && r->Ok_0@ == json_pretty(v),
{
    let v = layer_value(layer);
    pretty(&v)
}

// ─── Laws ──────────────────────────────────────────────────────────────

/// Registering keeps what is registered: it only adds at the end.
pub proof fn law_registering_only_adds(
    entries: Seq<WorkspaceEntryView>,
    selected: Seq<Seq<char>>,
    acp_command: Seq<char>,
)
    ensures
        entries.len() <= registered(entries, selected, acp_command).len(),
        registered(entries, selected, acp_command).take(entries.len() as int) == entries,
    decreases selected.len(),
{
    let r = registered(entries, selected, acp_command);
    if selected.len() == 0 {
        assert(r.take(entries.len() as int) =~= entries);
    } else {
        law_registering_only_adds(entries, selected.drop_last(), acp_command);
        let p = registered(entries, selected.drop_last(), acp_command);
        assert(r.take(entries.len() as int) =~= p.take(entries.len() as int));
    }
}

/// Whatever was selected is registered afterwards.
pub proof fn law_selected_projects_are_registered(
    entries: Seq<WorkspaceEntryView>,
    selected: Seq<Seq<char>>,
    acp_command: Seq<char>,
    k: int,
)
    requires
        0 <= k < selected.len(),
    ensures
        is_registered(registered(entries, selected, acp_command), selected[k]),
    decreases selected.len(),
{
    let p = registered(entries, selected.drop_last(), acp_command);
    let r = registered(entries, selected, acp_command);
    if k == selected.len() - 1 {
        if !is_registered(p, selected.last()) {
            assert(r[p.len() as int].path == selected[k]);
        }
    } else {
        law_selected_projects_are_registered(entries, selected.drop_last(), acp_command, k);
        let i = choose|i: int| 0 <= i < p.len() && (#[trigger] p[i]).path == selected[k];
        assert(r[i].path == selected[k]);
    }
}

/// Registering a second time changes nothing.
pub proof fn law_registering_twice_is_registering_once(
    entries: Seq<WorkspaceEntryView>,
    path: Seq<char>,
    command: Seq<char>,
    other: Seq<char>,
)
    ensures
        with_project(with_project(entries, path, command), path, other) == with_project(
            entries,
            path,
            command,
        ),
{
    if !is_registered(entries, path) {
        let r = with_project(entries, path, command);
        assert(r[entries.len() as int].path == path);
    }
}

/// A rewritten mount keeps its target.
pub proof fn law_rewriting_keeps_the_target(mount: Seq<char>, source: Seq<char>)
    ensures
        ({
            let k = first_at(mount, "target="@) as int;
            let r = mount_from(mount, source);
            k < mount.len() ==> r.skip(r.len() - (mount.len() - k)) == mount.skip(k)
        }),
{
    let k = first_at(mount, "target="@) as int;
    let r = mount_from(mount, source);
    if k < mount.len() {
        assert(r.skip(r.len() - (mount.len() - k)) =~= mount.skip(k));
    }
}

/// A project is a directory with a config whose name does not begin with a dot.
pub proof fn law_a_project_is_a_visible_directory_with_a_config(
    name: Seq<char>,
    is_dir: bool,
    has_config: bool,
)
    ensures
        is_project(FoundDirView { name, is_dir, has_config }) == (is_dir && has_config && !(
        name.len() > 0 && name[0] == '.')),
{
    reveal_strlit(".");
    if name.len() > 0 {
        assert(name.take(1) =~= seq![name[0]]);
        assert("."@ =~= seq!['.']);
        if name.take(1) == "."@ {
            assert(name.take(1)[0] == '.');
        }
    }
}

/// The directory itself comes first among its projects, if it is one, and then as
/// many subdirectories as are projects, each by its path below the directory.
pub proof fn law_a_directory_comes_before_its_subdirectories(
    root: Seq<char>,
    entries: Seq<FoundDirView>,
    i: int,
)
    ensures
        projects(root, true, entries) == seq![root] + projects(root, false, entries),
        projects(root, false, entries).len() == entries.filter(
            |e: FoundDirView| is_project(e),
        ).len(),
        0 <= i < projects(root, false, entries).len() ==> projects(root, false, entries)[i]
            == path_join(root, project_names(entries)[i]),
{
    let none = Seq::<Seq<char>>::empty();
    let below = project_names(entries).map_values(|n: Seq<char>| path_join(root, n));
    assert(projects(root, false, entries) =~= below);
    assert(projects(root, true, entries) =~= seq![root] + below);
    crate::order::law_sort_is_stable(
        entries.filter(|e: FoundDirView| is_project(e)).map_values(|e: FoundDirView| e.name),
    );
}

/// A project that is new is registered last, under its path and with the command
/// that was chosen; one that is registered keeps its entry. The user is told which
/// of the two it was, by the project's name.
pub proof fn law_a_new_project_is_registered_as_chosen(
    entries: Seq<WorkspaceEntryView>,
    path: Seq<char>,
    command: Seq<char>,
    name: Seq<char>,
)
    requires
        base_name(path) == Some(name),
    ensures
        (forall|i: int| 0 <= i < entries.len() ==> (#[trigger] entries[i]).path != path)
            ==> with_project(entries, path, command) == entries.push(
            WorkspaceEntryView { path, acp_command: command },
        ),
        (exists|i: int| 0 <= i < entries.len() && (#[trigger] entries[i]).path == path)
            ==> with_project(entries, path, command) == entries,
        register_line(path, true) == "  ✓ "@ + name,
        register_line(path, false) == "  ⏭ "@ + name + " (already registered)"@,
{
}

/// A mount is taken from another source by writing the source in front of its
/// target; what stood before the target is left out, and what follows is kept.
pub proof fn law_a_mount_is_taken_from_another_source(
    head: Seq<char>,
    tail: Seq<char>,
    source: Seq<char>,
)
    requires
        forall|i: int|
            0 <= i < head.len() ==> !has_prefix(
                #[trigger] (head + "target="@ + tail).skip(i),
                "target="@,
            ),
    ensures
        mount_from(head + "target="@ + tail, source) == "source="@ + source + ","@ + ("target="@
            + tail),
{
    let mount = head + "target="@ + tail;
    reveal_strlit("target=");
    assert(mount.skip(head.len() as int) =~= "target="@ + tail);
    assert(("target="@ + tail).take("target="@.len() as int) =~= "target="@);
    lemma_first_at_is(mount, "target="@, head.len() as int);
}

proof fn lemma_first_at_is(hay: Seq<char>, needle: Seq<char>, k: int)
    requires
        0 <= k < hay.len(),
        has_prefix(hay.skip(k), needle),
        forall|i: int| 0 <= i < k ==> !has_prefix(#[trigger] hay.skip(i), needle),
    ensures
        first_at(hay, needle) == k,
    decreases hay.len(),
{
    assert(hay.skip(0) =~= hay);
    if k > 0 {
        let rest = hay.drop_first();
        assert(!has_prefix(hay.skip(0), needle));
        assert(rest.skip(k - 1) =~= hay.skip(k));
        assert forall|i: int| 0 <= i < k - 1 implies !has_prefix(
            #[trigger] rest.skip(i),
            needle,
        ) by {
            assert(rest.skip(i) =~= hay.skip(i + 1));
        }
        lemma_first_at_is(rest, needle, k - 1);
    }
}

/// Each part of a layer stands under its own name, a part that is left out stands
/// nowhere, and nothing else is there. The mounts of a layer are those that the
/// agent needs, each from the workspace's own directory.
pub proof fn law_the_parts_of_a_layer_have_their_names(
    v: serde_json::Value,
    layer: WorkspaceLayer,
    mounts: Seq<Seq<char>>,
    source: Seq<char>,
    i: int,
)
    requires
        is_layer(v, layer),
    ensures
        json_member(v, "containerEnv"@) is Some == (layer.container_env is Some),
        json_member(v, "mounts"@) is Some == (layer.mounts is Some),
        json_member(v, "postStartCommand"@) is Some == (layer.post_start_command is Some),
        json_member(v, "features"@) is Some == (layer.features is Some),
        layer.container_env is Some ==> holds_texts(
            json_member(v, "containerEnv"@)->0,
            layer.container_env->0@,
        ),
        layer.mounts is Some ==> lists_texts(json_member(v, "mounts"@)->0, layer.mounts->0@),
        layer.post_start_command is Some ==> json_text(json_member(v, "postStartCommand"@)->0)
            == Some(layer.post_start_command->0@),
        0 <= i < mounts.len() ==> mounts_from(mounts, source)[i] == mount_from(mounts[i], source),
        mounts_from(mounts, source).len() == mounts.len(),
{
}

} // verus!
