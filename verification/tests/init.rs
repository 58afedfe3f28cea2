//! Finding and registering projects.
use fleet_commander::init::{
    layer_text, layer_value, project_name_of, register, register_all, register_line_of, rewrite_mount, scan_projects,
    workspace_layer, AgentNeeds, FoundDir,
};
use fleet_commander::json::{list_of_texts, object_of_texts};
use fleet_commander::workspace::WorkspaceEntry;

fn found(name: &str, has_config: bool) -> FoundDir {
    FoundDir { name: name.into(), is_dir: true, has_config }
}

#[test]
fn scan_finds_devcontainer_projects() {
    let entries =
        vec![found("project-a", true), found("project-b", true), found("project-c", false)];
    let projects = scan_projects("/tmp/x", false, &entries);
    assert_eq!(projects.len(), 2);
    assert!(projects.iter().any(|p| p.ends_with("project-a")));
    assert!(projects.iter().any(|p| p.ends_with("project-b")));
}

#[test]
fn scan_includes_root_if_has_devcontainer() {
    let projects = scan_projects("/tmp/x", true, &vec![found(".devcontainer", false)]);
    assert_eq!(projects.len(), 1);
    assert_eq!(projects[0], "/tmp/x");
}

#[test]
fn scan_skips_hidden_dirs() {
    let projects = scan_projects("/tmp/x", false, &vec![found(".hidden", true)]);
    assert!(projects.is_empty());
}

#[test]
fn projects_come_sorted_after_the_root() {
    let entries = vec![
        found("b", true),
        found("a", true),
        FoundDir { name: "file".into(), is_dir: false, has_config: true },
    ];
    assert_eq!(scan_projects("/r", true, &entries), vec!["/r", "/r/a", "/r/b"]);
}

#[test]
fn a_registered_project_stays_as_it_is() {
    let mut entries = vec![WorkspaceEntry { path: "/r/a".into(), acp_command: "mine".into() }];
    assert!(!register(&mut entries, "/r/a", "other"));
    assert_eq!(entries.len(), 1);
    assert_eq!(entries[0].acp_command, "mine");
    assert!(register(&mut entries, "/r/b", "other"));
    assert_eq!(entries[1].path, "/r/b");
    assert_eq!(entries[1].acp_command, "other");
}

#[test]
fn registering_twice_is_registering_once() {
    let mut entries = Vec::new();
    let selected = vec!["/r/a".to_string(), "/r/b".to_string(), "/r/a".to_string()];
    assert_eq!(register_all(&mut entries, &selected, "cmd"), vec![true, true, false]);
    assert_eq!(register_all(&mut entries, &selected, "cmd"), vec![false, false, false]);
    assert_eq!(entries.len(), 2);
}

#[test]
fn what_is_said_of_a_project() {
    assert_eq!(register_line_of("/r/a", true), "  ✓ a");
    assert_eq!(register_line_of("/r/a", false), "  ⏭ a (already registered)");
    assert_eq!(project_name_of("/"), "/");
}

#[test]
fn a_mount_gets_the_workspace_as_its_source() {
    assert_eq!(
        rewrite_mount("source=vol,target=/home/x,type=bind", "/data/w"),
        "source=/data/w,target=/home/x,type=bind"
    );
    assert_eq!(rewrite_mount("no such thing", "/data/w"), "no such thing");
}

#[test]
fn empty_parts_are_left_out_of_a_layer() {
    let needs = AgentNeeds {
        container_env: Vec::new(),
        mounts: Vec::new(),
        post_start_command: None,
        features: Vec::new(),
    };
    let layer = workspace_layer(needs, "/data");
    assert!(layer.container_env.is_none());
    assert!(layer.mounts.is_none());
    assert!(layer.post_start_command.is_none());
    assert!(layer.features.is_none());
    assert_eq!(layer_value(layer), serde_json::Value::Object(serde_json::Map::new()));
}

#[test]
fn the_last_of_several_variables_stays() {
    let v = object_of_texts(vec![("A".into(), "1".into()), ("A".into(), "2".into())]);
    assert_eq!(v["A"], "2");
    assert_eq!(list_of_texts(vec!["x".into(), "y".into()])[1], "y");
}

#[test]
fn a_layer_holds_what_the_agent_needs() {
    let needs = AgentNeeds {
        container_env: vec![("A".into(), "1".into())],
        mounts: vec!["source=v,target=/home/x".into()],
        post_start_command: Some("chown".into()),
        features: vec![("ghcr.io/x/y".into(), serde_json::Value::from("latest"))],
    };
    let layer = workspace_layer(needs, "/data");
    assert_eq!(layer.container_env, Some(vec![("A".to_string(), "1".to_string())]));
    assert_eq!(layer.mounts, Some(vec!["source=/data,target=/home/x".to_string()]));
    assert_eq!(layer.post_start_command.as_deref(), Some("chown"));
    assert_eq!(
        layer.features,
        Some(vec![("ghcr.io/x/y".to_string(), serde_json::Value::from("latest"))])
    );
    let text = layer_text(layer).unwrap();
    let v: serde_json::Value = serde_json::from_str(&text).unwrap();
    assert_eq!(v["containerEnv"]["A"], "1");
    assert_eq!(v["mounts"][0], "source=/data,target=/home/x");
    assert_eq!(v["postStartCommand"], "chown");
    assert_eq!(v["features"]["ghcr.io/x/y"], "latest");
    assert_eq!(v.as_object().unwrap().len(), 4);
    assert!(text.starts_with("{\n  \"containerEnv\""));
}
