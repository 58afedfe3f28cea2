//! The tools that agents call.
use fleet_commander::event::AppEvent;
use fleet_commander::mcp_server::{
    display_name, new_thread_id, NotifyParams, Outbox, SendToWorkspaceParams, ShowDiffParams,
    ShowFileParams, ToolError, TuiMcpServer,
};
use fleet_commander::pairing::PairingStore;

#[test]
fn show_diff_sends_event() {
    let mut outbox = Outbox::new();
    let server = TuiMcpServer::new();
    let params = ShowDiffParams {
        agent_id: "test-agent".into(),
        path: "src/main.rs".into(),
        content: "+new line".into(),
    };
    let result = server.show_diff(&mut outbox, params);
    assert!(result.is_ok());

    let event = outbox.events.remove(0);
    match event {
        AppEvent::McpShowDiff { agent_id, path, content } => {
            assert_eq!(agent_id, "test-agent");
            assert_eq!(path, "src/main.rs");
            assert_eq!(content, "+new line");
        }
        _ => panic!("expected McpShowDiff"),
    }
}

#[test]
fn notify_sends_event() {
    let mut outbox = Outbox::new();
    let server = TuiMcpServer::new();
    let params = NotifyParams { agent_id: "a1".into(), message: "hello world".into() };
    let result = server.notify(&mut outbox, params);
    assert!(result.is_ok());

    let event = outbox.events.remove(0);
    match event {
        AppEvent::McpNotify { agent_id, message } => {
            assert_eq!(agent_id, "a1");
            assert_eq!(message, "hello world");
        }
        _ => panic!("expected McpNotify"),
    }
}

#[test]
fn closed_channel_returns_error() {
    let mut outbox = Outbox::new();
    outbox.closed = true;
    let server = TuiMcpServer::new();
    let params = NotifyParams { agent_id: "a1".into(), message: "should fail".into() };
    let result = server.notify(&mut outbox, params);
    assert!(result.is_err());
    assert!(matches!(result, Err(ToolError::Internal(_))));
    assert!(outbox.events.is_empty());
}

#[test]
fn list_connected_requires_tunnel_scope() {
    // The always-on HTTP server has no caller identity, so the tool errors.
    let server = TuiMcpServer::new();
    assert!(server.list_connected(&PairingStore::default()).is_err());
}

#[test]
fn list_connected_returns_paired_peers() {
    let mut store = PairingStore::default();
    store.connect("copilot-web", "copilot-feature");
    store.connect("copilot-feature", "copilot-docs");

    let server = TuiMcpServer::for_tunnel("copilot-feature".into());
    let peers = server.list_connected(&store).expect("tool should succeed");

    let ids: Vec<&str> = peers.iter().map(|p| p.id.as_str()).collect();
    assert_eq!(ids, vec!["copilot-docs", "copilot-web"]);
    // Names are the id with the `copilot-` prefix stripped.
    assert_eq!(peers[0].name, "docs");
    assert_eq!(peers[1].name, "web");
}

#[test]
fn send_to_workspace_requires_tunnel_scope() {
    let mut outbox = Outbox::new();
    let server = TuiMcpServer::new();
    let params = SendToWorkspaceParams {
        target: "copilot-docs".into(),
        message: "hi".into(),
        thread: None,
    };
    let result = server.send_to_workspace(&mut outbox, &PairingStore::default(), params, 1);
    assert!(result.is_err());
    assert!(matches!(result, Err(ToolError::InvalidRequest(_))));
}

#[test]
fn send_to_workspace_rejects_unpaired_target() {
    let mut outbox = Outbox::new();
    // Caller is paired with `web`, but not with `docs`.
    let mut store = PairingStore::default();
    store.connect("copilot-feature", "copilot-web");
    let server = TuiMcpServer::for_tunnel("copilot-feature".into());

    let params = SendToWorkspaceParams {
        target: "copilot-docs".into(),
        message: "hi".into(),
        thread: None,
    };
    assert!(server.send_to_workspace(&mut outbox, &store, params, 1).is_err());
    // No event should have been emitted for an unauthorized target.
    assert!(outbox.events.is_empty());
}

#[test]
fn send_to_workspace_queues_message_for_paired_target() {
    let mut outbox = Outbox::new();
    let mut store = PairingStore::default();
    store.connect("copilot-feature", "copilot-docs");
    let server = TuiMcpServer::for_tunnel("copilot-feature".into());

    let params = SendToWorkspaceParams {
        target: "copilot-docs".into(),
        message: "update the changelog".into(),
        thread: None,
    };
    assert!(server.send_to_workspace(&mut outbox, &store, params, 0xabc).is_ok());

    match outbox.events.remove(0) {
        AppEvent::McpSendToWorkspace { sender_id, sender_name, target_id, message, thread } => {
            assert_eq!(sender_id, "copilot-feature");
            assert_eq!(sender_name, "feature");
            assert_eq!(target_id, "copilot-docs");
            assert_eq!(message, "update the changelog");
            // A new thread id is generated when none is supplied.
            assert!(thread.starts_with("xw-"), "unexpected thread: {thread}");
            assert_eq!(thread, "xw-abc");
        }
        other => panic!("expected McpSendToWorkspace, got {other:?}"),
    }
}

#[test]
fn send_to_workspace_preserves_supplied_thread() {
    let mut outbox = Outbox::new();
    let mut store = PairingStore::default();
    store.connect("copilot-feature", "copilot-docs");
    let server = TuiMcpServer::for_tunnel("copilot-feature".into());

    let params = SendToWorkspaceParams {
        target: "copilot-docs".into(),
        message: "done".into(),
        thread: Some("xw-abc".into()),
    };
    assert!(server.send_to_workspace(&mut outbox, &store, params, 1).is_ok());

    match outbox.events.remove(0) {
        AppEvent::McpSendToWorkspace { thread, .. } => assert_eq!(thread, "xw-abc"),
        other => panic!("expected McpSendToWorkspace, got {other:?}"),
    }
}

#[test]
fn show_file_sends_its_content() {
    let mut outbox = Outbox::new();
    let params = ShowFileParams {
        agent_id: "a1".into(),
        path: "README.md".into(),
        content: "# hi".into(),
    };
    assert!(TuiMcpServer::new().show_file(&mut outbox, params).is_ok());
    match outbox.events.remove(0) {
        AppEvent::McpShowFile { agent_id, path, content } => {
            assert_eq!(agent_id, "a1");
            assert_eq!(path, "README.md");
            assert_eq!(content, "# hi");
        }
        other => panic!("expected McpShowFile, got {other:?}"),
    }
}

#[test]
fn a_name_is_the_id_without_its_prefix() {
    assert_eq!(display_name("copilot-docs"), "docs");
    assert_eq!(display_name("other"), "other");
}

#[test]
fn a_thread_id_is_written_in_hexadecimal() {
    assert_eq!(new_thread_id(0), "xw-0");
    assert_eq!(new_thread_id(255), "xw-ff");
    assert_eq!(new_thread_id(u128::MAX), format!("xw-{:x}", u128::MAX));
}
