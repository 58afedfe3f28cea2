//! Stored workspaces and the agents made from them.
use fleet_commander::agent::Agent;
use fleet_commander::workspace::{
    agent_for, config_path, default_acp_command, dir_name, from_agents, load, load_state, save,
    to_agents, WorkspaceEntry, WorkspaceFile, WorkspaceState,
};

fn mapping(pairs: &[(&str, &str)]) -> serde_yaml::Value {
    let mut m = serde_yaml::Mapping::new();
    for (k, v) in pairs {
        m.insert((*k).into(), (*v).into());
    }
    serde_yaml::Value::Mapping(m)
}

fn yaml_of_entry(e: &WorkspaceEntry) -> serde_yaml::Value {
    mapping(&[("path", &e.path), ("acp_command", &e.acp_command)])
}

fn yaml_of(file: &WorkspaceFile) -> String {
    let list: Vec<serde_yaml::Value> = file.workspaces.iter().map(yaml_of_entry).collect();
    let mut m = serde_yaml::Mapping::new();
    m.insert("workspaces".into(), serde_yaml::Value::Sequence(list));
    serde_yaml::to_string(&m).unwrap()
}

fn file_of(yaml: &str) -> WorkspaceFile {
    let v: serde_yaml::Value = serde_yaml::from_str(yaml).unwrap();
    let list = v["workspaces"].as_sequence().unwrap();
    let workspaces = list
        .iter()
        .map(|e| WorkspaceEntry {
            path: e["path"].as_str().unwrap().into(),
            acp_command: e["acp_command"].as_str().unwrap().into(),
        })
        .collect();
    WorkspaceFile { workspaces }
}

#[test]
fn entries_round_trip_through_yaml() {
    let entries = vec![
        WorkspaceEntry {
            path: "/home/user/repo-a".into(),
            acp_command: "copilot --acp --stdio".into(),
        },
        WorkspaceEntry {
            path: "/projects/repo-b".into(),
            acp_command: "other-agent-acp".into(),
        },
    ];

    let yaml = yaml_of(&save(&entries));
    let loaded = load(Some(file_of(&yaml)));
    assert_eq!(loaded.len(), 2);
    assert_eq!(loaded[0].path, "/home/user/repo-a");
    assert_eq!(loaded[1].acp_command, "other-agent-acp");
}

#[test]
fn to_agents_creates_correct_ids() {
    let entries = vec![WorkspaceEntry {
        path: "/home/user/my-cool-repo".into(),
        acp_command: "copilot --acp --stdio".into(),
    }];
    let agents = to_agents(&entries, &vec![WorkspaceState::default()]);
    assert_eq!(agents.len(), 1);
    assert_eq!(agents[0].id, "copilot-my-cool-repo");
    assert_eq!(agents[0].name, "Copilot (my-cool-repo)");
    assert_eq!(agents[0].workspace_folder, Some("/home/user/my-cool-repo".to_string()));
}

#[test]
fn from_agents_filters_workspaces_only() {
    let agents = vec![
        Agent::new("plain".into(), "Plain Agent".into())
            .with_acp_command("copilot --acp --stdio".into()),
        Agent::new("ws".into(), "WS Agent".into())
            .with_acp_command("copilot --acp --stdio".into())
            .with_workspace("/repo".into()),
    ];
    let entries = from_agents(&agents);
    assert_eq!(entries.len(), 1);
    assert_eq!(entries[0].path, "/repo");
}

#[test]
fn workspace_load_missing_file_returns_empty() {
    let entries = load(None);
    assert!(entries.is_empty());
}

#[test]
fn workspace_state_defaults_when_missing() {
    let state = WorkspaceState::default();
    assert_eq!(state.session_id, None);
    assert_eq!(load_state(None).session_id, None);
}

#[test]
fn from_agents_does_not_include_session_id() {
    let mut agent = Agent::new("ws".into(), "WS".into())
        .with_acp_command("copilot --acp --stdio".into())
        .with_workspace("/repo".into());
    agent.session_id = Some("sess_xyz".into());

    let entries = from_agents(&vec![agent]);
    assert_eq!(entries.len(), 1);
    let yaml = serde_yaml::to_string(&yaml_of_entry(&entries[0])).unwrap();
    assert!(!yaml.contains("session_id"));
}

#[test]
fn a_stored_session_is_resumed() {
    let entries = vec![WorkspaceEntry {
        path: "/repo".into(),
        acp_command: default_acp_command(),
    }];
    let states = vec![WorkspaceState { session_id: Some("sess_abc123".into()) }];
    let agents = to_agents(&entries, &states);
    assert_eq!(agents[0].session_id.as_deref(), Some("sess_abc123"));
    assert_eq!(agents[0].acp_command, "copilot --acp --stdio");
    assert_eq!(
        load_state(Some(WorkspaceState { session_id: Some("s".into()) })).session_id.as_deref(),
        Some("s")
    );
}

#[test]
fn agents_store_as_the_entries_they_came_from() {
    let entries = vec![
        WorkspaceEntry { path: "/a".into(), acp_command: "one".into() },
        WorkspaceEntry { path: "/b/c".into(), acp_command: "two".into() },
    ];
    let states = vec![WorkspaceState::default(), WorkspaceState::default()];
    let back = from_agents(&to_agents(&entries, &states));
    assert_eq!(back.len(), 2);
    assert_eq!((back[0].path.as_str(), back[0].acp_command.as_str()), ("/a", "one"));
    assert_eq!((back[1].path.as_str(), back[1].acp_command.as_str()), ("/b/c", "two"));
}

#[test]
fn a_directory_is_named_by_its_last_part() {
    assert_eq!(dir_name("/home/user/repo"), "repo");
    assert_eq!(dir_name("/home/user/repo/"), "repo");
    assert_eq!(dir_name("/"), "workspace");
    let agent = agent_for("/", "cmd", None);
    assert_eq!(agent.id, "copilot-workspace");
}

#[test]
fn workspaces_live_in_the_config_directory() {
    assert_eq!(
        config_path(Some("/home/u/.config".into())).as_deref(),
        Some("/home/u/.config/fleet-commander/workspaces.yaml")
    );
    assert_eq!(config_path(None), None);
}
