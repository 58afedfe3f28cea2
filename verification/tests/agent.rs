//! Agents and their histories.
use fleet_commander::agent::{
    clone_commands, Agent, AgentStatus, AvailableCommand, BranchLookup, HistoryEntry,
    MessageStatus, WorkspaceFs,
};

#[test]
fn effective_command_without_workspace() {
    let agent = Agent::new("test".into(), "Test".into())
        .with_acp_command("copilot --acp --stdio".into());
    assert_eq!(agent.effective_acp_command(), "copilot --acp --stdio");
}

#[test]
fn effective_command_with_workspace() {
    let agent = Agent::new("test".into(), "Test".into())
        .with_acp_command("copilot --acp --stdio".into())
        .with_workspace("/home/user/my-repo".into());
    assert_eq!(agent.effective_acp_command(), "copilot --acp --stdio");
}

#[test]
fn a_filesystem_of_a_container_is_remote() {
    let fs = WorkspaceFs { root: "/work".into(), remote: Some(7) };
    assert!(fs.is_remote());
    assert!(!WorkspaceFs::local("/work".into()).is_remote());
}

#[test]
fn each_status_has_a_label() {
    assert_eq!(AgentStatus::Idle.label(), "idle");
    assert_eq!(AgentStatus::Running.label(), "running");
    assert_eq!(AgentStatus::Stopped.label(), "stopped");
    assert_eq!(AgentStatus::Error.label(), "error");
}

#[test]
fn a_message_ends_when_it_completes_or_fails() {
    assert!(!MessageStatus::Streaming.is_terminal());
    assert!(MessageStatus::Completed.is_terminal());
    assert!(MessageStatus::Failed("boom".into()).is_terminal());
}

#[test]
fn entries_are_kept_in_order() {
    let mut agent = Agent::new("a".into(), "A".into());
    agent.info("one".into());
    agent.error("two".into());
    agent.prompt("three".into());
    assert_eq!(agent.history.len(), 3);
    assert!(matches!(&agent.history[0], HistoryEntry::Info(s) if s == "one"));
    assert!(matches!(&agent.history[1], HistoryEntry::Error(s) if s == "two"));
    assert!(matches!(&agent.history[2], HistoryEntry::Prompt(s) if s == "three"));
}

#[test]
fn a_branch_is_read_once_in_a_while() {
    let mut agent = Agent::new("a".into(), "A".into()).with_workspace("/repo".into());
    assert!(matches!(agent.git_branch(1_000), BranchLookup::Read(p) if p == "/repo"));
    agent.store_branch(1_000, Some("main".into()));
    assert!(matches!(agent.git_branch(2_999), BranchLookup::Known(Some(b)) if b == "main"));
    assert!(matches!(agent.git_branch(3_000), BranchLookup::Read(p) if p == "/repo"));
}

#[test]
fn an_agent_without_a_workspace_has_no_branch() {
    let agent = Agent::new("a".into(), "A".into());
    assert!(matches!(agent.git_branch(1_000), BranchLookup::NoWorkspace));
}

#[test]
fn commands_are_copied_whole() {
    let commands = vec![
        AvailableCommand { name: "plan".into(), description: "Plan it".into(), hint: Some("what".into()) },
        AvailableCommand { name: "web".into(), description: "Search".into(), hint: None },
    ];
    let copy = clone_commands(&commands);
    assert_eq!(copy.len(), 2);
    assert_eq!(copy[0].name, "plan");
    assert_eq!(copy[0].description, "Plan it");
    assert_eq!(copy[0].hint.as_deref(), Some("what"));
    assert_eq!(copy[1].name, "web");
    assert_eq!(copy[1].hint, None);
    assert_eq!(copy[1].description, "Search");
}
