//! The file explorer's tree.
use fleet_commander::agent::WorkspaceFs;
use fleet_commander::explorer::{priority, DirEntry, ExplorerState, StatusKind};

fn dir(name: &str) -> DirEntry {
    DirEntry { name: name.into(), is_dir: true }
}

fn file(name: &str) -> DirEntry {
    DirEntry { name: name.into(), is_dir: false }
}

/// A workspace with this tree:
///
/// .
/// ├── README.md
/// ├── src/
/// │   ├── lib.rs
/// │   └── nested/
/// │       └── deep.rs
/// └── target/
///     └── build.log
fn state_at(root: &str) -> ExplorerState {
    let mut state = ExplorerState::default();
    state.set_fs(Some(WorkspaceFs::local(root.into())));
    state.apply_dir("".into(), Ok(vec![file("README.md"), dir("target"), dir("src")]));
    state.apply_dir("src".into(), Ok(vec![file("lib.rs"), dir("nested")]));
    state.apply_dir("src/nested".into(), Ok(vec![file("deep.rs")]));
    state.apply_dir("target".into(), Ok(vec![file("build.log")]));
    state
}

fn state_for() -> ExplorerState {
    state_at("/work/one")
}

#[test]
fn empty_state_yields_no_entries() {
    let state = ExplorerState::default();
    assert!(state.visible_entries().is_empty());
}

#[test]
fn collapsed_root_lists_top_level_only() {
    let state = state_for();
    let entries = state.visible_entries();
    let names: Vec<&str> = entries.iter().map(|e| e.name.as_str()).collect();
    // Directories first (src, target), files second (README.md).
    assert_eq!(names, vec!["src", "target", "README.md"]);
    assert!(!entries.iter().any(|e| e.name == "lib.rs"));
}

#[test]
fn expanding_a_dir_lists_children_at_correct_depth() {
    let mut state = state_for();
    state.expanded.insert("src".into());
    let entries = state.visible_entries();
    let src = entries.iter().find(|e| e.name == "src").unwrap();
    let lib = entries.iter().find(|e| e.name == "lib.rs").unwrap();
    assert_eq!(src.depth, 0);
    assert_eq!(lib.depth, 1);
    assert!(src.expanded);
}

#[test]
fn ignored_entries_hidden_by_default_visible_with_toggle() {
    let mut state = state_for();
    state.expanded.insert("target".into());
    state.status.insert("target/build.log".into(), StatusKind::Ignored);

    let hidden = state.visible_entries();
    assert!(
        !hidden.iter().any(|e| e.name == "build.log"),
        "ignored file should be hidden by default"
    );

    state.show_ignored = true;
    let shown = state.visible_entries();
    assert!(
        shown.iter().any(|e| e.name == "build.log"),
        "ignored file should appear with toggle on"
    );
}

#[test]
fn directories_aggregate_status_from_descendants() {
    let mut state = state_for();
    let map = vec![("src/nested/deep.rs".to_string(), StatusKind::Modified)];
    state.apply_status(Ok(map));
    let entries = state.visible_entries();
    let src = entries.iter().find(|e| e.name == "src").unwrap();
    assert_eq!(src.status, Some(StatusKind::Modified));
}

#[test]
fn priority_picks_more_interesting_status_for_dir_aggregation() {
    let mut state = state_for();
    let map = vec![
        ("src/lib.rs".to_string(), StatusKind::Untracked),
        ("src/nested/deep.rs".to_string(), StatusKind::Modified),
    ];
    state.apply_status(Ok(map));
    let entries = state.visible_entries();
    let src = entries.iter().find(|e| e.name == "src").unwrap();
    // Modified outranks Untracked.
    assert_eq!(src.status, Some(StatusKind::Modified));
}

#[test]
fn dot_git_directory_is_always_hidden() {
    let mut state = state_for();
    state.apply_dir(
        "".into(),
        Ok(vec![file("README.md"), dir("target"), dir("src"), dir(".git")]),
    );
    state.apply_dir(".git".into(), Ok(vec![file("HEAD")]));
    assert!(!state.visible_entries().iter().any(|e| e.name == ".git"));
    state.show_ignored = true;
    assert!(!state.visible_entries().iter().any(|e| e.name == ".git"));
}

#[test]
fn move_cursor_clamps_at_boundaries() {
    let mut state = state_for();
    let entries = state.visible_entries();
    state.move_cursor(1);
    assert_eq!(state.selected, Some(entries[1].path.clone()));
    state.move_cursor(99);
    assert_eq!(state.selected, Some(entries.last().unwrap().path.clone()));
    state.move_cursor(-99);
    assert_eq!(state.selected, Some(entries[0].path.clone()));
}

#[test]
fn toggle_selected_dir_expands_then_collapses() {
    let mut state = state_for();
    state.selected = Some("src".into());

    state.toggle_selected_dir();
    assert!(state.expanded.contains("src"));

    state.toggle_selected_dir();
    assert!(!state.expanded.contains("src"));
}

#[test]
fn toggle_selected_dir_is_noop_on_file() {
    let mut state = state_for();
    state.selected = Some("README.md".into());
    state.toggle_selected_dir();
    assert!(state.expanded.is_empty());
}

#[test]
fn set_fs_to_same_root_preserves_state() {
    let mut state = state_for();
    state.expanded.insert("src".into());
    state.set_fs(Some(WorkspaceFs::local("/work/one".into())));
    assert!(state.expanded.contains("src"));
}

#[test]
fn set_fs_to_different_root_resets_state() {
    let mut state = state_at("/work/one");
    state.expanded.insert("src".into());
    state.set_fs(Some(WorkspaceFs::local("/work/two".into())));
    assert!(state.expanded.is_empty());
    assert!(state.selected.is_none());
}

#[test]
fn paths_are_relative_to_the_root() {
    let mut state = state_for();
    state.expanded.insert("src".into());
    state.expanded.insert("src/nested".into());
    let paths: Vec<String> = state.visible_entries().into_iter().map(|e| e.path).collect();
    assert_eq!(
        paths,
        vec!["src", "src/nested", "src/nested/deep.rs", "src/lib.rs", "target", "README.md"]
    );
}

#[test]
fn listings_that_are_shown_are_asked_for_once() {
    let mut state = ExplorerState::default();
    state.set_fs(Some(WorkspaceFs::local("/work".into())));
    assert_eq!(state.missing_dirs(), vec![""]);
    state.mark_dir_loading("".into());
    assert!(state.missing_dirs().is_empty());
    state.apply_dir("".into(), Ok(vec![dir("a"), file("b")]));
    assert!(state.missing_dirs().is_empty());
    state.expanded.insert("a".into());
    assert_eq!(state.missing_dirs(), vec!["a"]);
}

#[test]
fn a_failed_listing_can_be_asked_for_again() {
    let mut state = ExplorerState::default();
    state.set_fs(Some(WorkspaceFs::local("/work".into())));
    state.mark_dir_loading("".into());
    state.apply_dir("".into(), Err("gone".into()));
    assert!(state.visible_entries().is_empty());
    assert_eq!(state.missing_dirs(), vec![""]);
}

#[test]
fn forgotten_listings_are_asked_for_again() {
    let mut state = state_for();
    assert!(state.missing_dirs().is_empty());
    state.invalidate_dirs();
    assert_eq!(state.missing_dirs(), vec![""]);
}

#[test]
fn statuses_rank_from_conflicted_to_ignored() {
    let order = [
        StatusKind::Conflicted,
        StatusKind::Deleted,
        StatusKind::Modified,
        StatusKind::Added,
        StatusKind::Renamed,
        StatusKind::Untracked,
        StatusKind::Ignored,
    ];
    let ranks: Vec<u8> = order.iter().map(|k| priority(*k)).collect();
    assert_eq!(ranks, vec![7, 6, 5, 4, 3, 2, 1]);
}

#[test]
fn the_cursor_points_at_a_row() {
    let mut state = state_for();
    let entries = state.visible_entries();
    assert_eq!(state.selected_index(&entries), 0);
    state.selected = Some("README.md".into());
    assert_eq!(state.selected_index(&entries), 2);
    assert_eq!(state.selected_entry().unwrap().name, "README.md");
    state.selected = Some("no/such/file".into());
    assert_eq!(state.selected_index(&entries), 0);
}
