//! What the MCP tools do that agents call to push content into the UI.
//!
//! Each tool call becomes an [`AppEvent`] for the event loop. The tools that
//! reach other workspaces are there only for an agent that is known by the
//! tunnel it calls through, and only between connected workspaces.
use crate::agent::opt_text;
use crate::event::{AppEvent, AppEventView};
use crate::order::all_views;
use crate::pairing::{linked, peers_of, PairView, PairingStore};
use crate::text::{
    concat2, concat3, has_prefix, hexadecimal, hexadecimal_of, strip_prefix, views,
};
use vstd::prelude::*;
use vstd::string::*;

verus! {

/// Parameters for the `show_diff` tool.
#[derive(Debug)]
pub struct ShowDiffParams {
    /// Agent identifier (must match an agent known to the UI).
    pub agent_id: String,
    /// File path the diff applies to.
    pub path: String,
    /// The diff or file content to display.
    pub content: String,
}

/// Parameters for the `show_file` tool.
#[derive(Debug)]
pub struct ShowFileParams {
    /// Agent identifier.
    pub agent_id: String,
    /// File path to display.
    pub path: String,
    /// Full file content (syntax-highlighted based on extension).
    pub content: String,
}

/// Parameters for the `notify` tool.
#[derive(Debug)]
pub struct NotifyParams {
    /// Agent identifier.
    pub agent_id: String,
    /// Notification message to show in the agent's conversation.
    pub message: String,
}

/// Parameters for the `send_to_workspace` tool.
#[derive(Debug)]
pub struct SendToWorkspaceParams {
    /// Target workspace id — must be one of the ids returned by
    /// `list_connected`.
    pub target: String,
    /// The message to deliver to the target workspace's agent.
    pub message: String,
    /// Correlation id. When replying to a cross-workspace message, echo the
    /// `thread` you received so the recipient can correlate the reply. Omit to
    /// start a new thread — the returned ack reports the generated id.
    pub thread: Option<String>,
}

/// Why a tool call failed.
#[derive(Debug)]
pub enum ToolError {
    /// The caller may not do this.
    InvalidRequest(String),
    /// The UI is gone.
    Internal(String),
}

/// Where the events go: the near end of the event loop's channel.
#[derive(Debug)]
pub struct Outbox {
    /// What was sent and not yet taken away.
    pub events: Vec<AppEvent>,
    /// Whether the event loop has gone.
    pub closed: bool,
}

#[verifier::ext_equal]
pub struct OutboxView {
    pub events: Seq<AppEventView>,
    pub closed: bool,
}

impl View for Outbox {
    type V = OutboxView;

    open spec fn view(&self) -> OutboxView {
        OutboxView { events: all_views(self.events@), closed: self.closed }
    }
}

impl Outbox {
    /// An outbox with nothing in it.
    pub fn new() -> (r: Outbox)
        ensures
            r@ == (OutboxView { events: seq![], closed: false }),
    {
        let r = Outbox { events: Vec::new(), closed: false };
        proof {
            assert(r@ =~= (OutboxView { events: seq![], closed: false }));
        }
        r
    }

    /// Send an event, unless the event loop has gone.
    fn send(&mut self, event: AppEvent) -> (r: Result<(), ToolError>)
        ensures
            old(self)@.closed ==> final(self)@ == old(self)@ && (r matches Err(
                ToolError::Internal(m),
            ) && m@ == "TUI event loop closed"@),
            !old(self)@.closed ==> r is Ok && final(self)@ == (OutboxView {
                events: old(self)@.events.push(event@),
                ..old(self)@
            }),
    {
        if self.closed {
            return Err(ToolError::Internal("TUI event loop closed".to_owned()));
        }
        self.events.push(event);
        proof {
            assert(self@ =~= (OutboxView {
                events: old(self)@.events.push(event@),
                ..old(self)@
            }));
        }
        Ok(())
    }
}

/// What a call that sends `event` does: it is acknowledged if the event loop is
/// there, and fails with nothing sent if it has gone.
pub open spec fn sends(
    before: OutboxView,
    after: OutboxView,
    r: Result<String, ToolError>,
    event: AppEventView,
    ack: Seq<char>,
) -> bool {
    if before.closed {
        after == before && (r matches Err(ToolError::Internal(m)) && m@ == "TUI event loop closed"@)
    } else {
        after == (OutboxView { events: before.events.push(event), ..before }) && (r matches Ok(s)
            && s@ == ack)
    }
}

/// Whether a call failed as one that is not allowed, with `message`.
pub open spec fn refuses<T>(r: Result<T, ToolError>, message: Seq<char>) -> bool {
    r matches Err(ToolError::InvalidRequest(m)) && m@ == message
}

/// A friendly workspace name: an agent's id without its prefix.
pub open spec fn friendly_name(id: Seq<char>) -> Seq<char> {
    if has_prefix(id, "copilot-"@) {
        id.skip("copilot-"@.len() as int)
    } else {
        id
    }
}

/// Derive a friendly workspace name from an agent's id (`copilot-{dir}` becomes
/// `dir`).
pub fn display_name(id: &str) -> (r: String)
    ensures
        r@ == friendly_name(id@),
{
    match strip_prefix(id, "copilot-") {
        Some(rest) => rest,
        None => id.to_owned(),
    }
}

/// A thread id made at a time.
pub open spec fn thread_id(micros: u128) -> Seq<char> {
    "xw-"@ + hexadecimal(micros as nat)
}

/// Generate a fresh cross-workspace thread id from the microseconds since the
/// epoch. They give a compact, monotonic-enough id for human-paced messaging.
pub fn new_thread_id(micros: u128) -> (r: String)
    ensures
        r@ == thread_id(micros),
{
    let digits = hexadecimal_of(micros);
    concat2("xw-", digits.as_str())
}

/// The thread that a message belongs to: the caller's, or else a new one.
pub open spec fn thread_of(given: Option<Seq<char>>, micros: u128) -> Seq<char> {
    match given {
        Some(t) if t.len() > 0 => t,
        _ => thread_id(micros),
    }
}

/// A connected peer as reported by `list_connected`.
#[derive(Debug)]
pub struct ConnectedPeer {
    /// The peer agent's id (pass this to `send_to_workspace`).
    pub id: String,
    /// A friendly workspace name derived from the id.
    pub name: String,
}

pub struct ConnectedPeerView {
    pub id: Seq<char>,
    pub name: Seq<char>,
}

impl View for ConnectedPeer {
    type V = ConnectedPeerView;

    open spec fn view(&self) -> ConnectedPeerView {
        ConnectedPeerView { id: self.id@, name: self.name@ }
    }
}

/// The peers of an agent, with their friendly names.
pub open spec fn named_peers(pairs: Set<PairView>, agent: Seq<char>) -> Seq<ConnectedPeerView> {
    peers_of(pairs, agent).map_values(
        |id: Seq<char>| ConnectedPeerView { id, name: friendly_name(id) },
    )
}

/// The event of a message that an agent sends to another.
pub open spec fn message_event(
    caller: Seq<char>,
    target: Seq<char>,
    message: Seq<char>,
    thread: Seq<char>,
) -> AppEventView {
    AppEventView::McpSendToWorkspace {
        sender_id: caller,
        sender_name: friendly_name(caller),
        target_id: target,
        message,
        thread,
    }
}

/// The tools. They know their caller only when they are served over an agent's
/// own tunnel.
#[derive(Debug)]
pub struct TuiMcpServer {
    /// The agent that opened the tunnel.
    pub caller: Option<String>,
}

impl TuiMcpServer {
    /// The tools for callers that are not known.
    pub fn new() -> (r: TuiMcpServer)
        ensures
            r.caller is None,
    {
        TuiMcpServer { caller: None }
    }

    /// The tools for the agent that opened a tunnel.
    pub fn for_tunnel(caller: String) -> (r: TuiMcpServer)
        ensures
            opt_text(r.caller) == Some(caller@),
    {
        TuiMcpServer { caller: Some(caller) }
    }

    /// Show a diff in the side pane for the given agent.
    pub fn show_diff(&self, outbox: &mut Outbox, params: ShowDiffParams) -> (r: Result<
        String,
        ToolError,
    >)
        ensures
            sends(
                old(outbox)@,
                final(outbox)@,
                r,
                AppEventView::McpShowDiff {
                    agent_id: params.agent_id@,
                    path: params.path@,
                    content: params.content@,
                },
                "diff displayed"@,
            ),
    {
        let event = AppEvent::McpShowDiff {
            agent_id: params.agent_id,
            path: params.path,
            content: params.content,
        };
        match outbox.send(event) {
            Ok(_) => Ok("diff displayed".to_owned()),
            Err(e) => Err(e),
        }
    }

    /// Show a file in the side pane.
    pub fn show_file(&self, outbox: &mut Outbox, params: ShowFileParams) -> (r: Result<
        String,
        ToolError,
    >)
        ensures
            sends(
                old(outbox)@,
                final(outbox)@,
                r,
                AppEventView::McpShowFile {
                    agent_id: params.agent_id@,
                    path: params.path@,
                    content: params.content@,
                },
                "file displayed"@,
            ),
    {
        let event = AppEvent::McpShowFile {
            agent_id: params.agent_id,
            path: params.path,
            content: params.content,
        };
        match outbox.send(event) {
            Ok(_) => Ok("file displayed".to_owned()),
            Err(e) => Err(e),
        }
    }

    /// Send a notification message to an agent's conversation history.
    pub fn notify(&self, outbox: &mut Outbox, params: NotifyParams) -> (r: Result<
        String,
        ToolError,
    >)
        ensures
            sends(
                old(outbox)@,
                final(outbox)@,
                r,
                AppEventView::McpNotify { agent_id: params.agent_id@, message: params.message@ },
                "notified"@,
            ),
    {
        let event = AppEvent::McpNotify { agent_id: params.agent_id, message: params.message };
        match outbox.send(event) {
            Ok(_) => Ok("notified".to_owned()),
            Err(e) => Err(e),
        }
    }

    /// List the workspaces the calling agent is connected to.
    pub fn list_connected(&self, pairings: &PairingStore) -> (r: Result<
        Vec<ConnectedPeer>,
        ToolError,
    >)
        ensures
            match opt_text(self.caller) {
                None => refuses(
                    r,
                    "cross-workspace tools are not available on this connection"@,
                ),
                Some(caller) => r is Ok && all_views(r->Ok_0@) == named_peers(pairings@, caller),
            },
    {
        let caller = match &self.caller {
            Some(c) => c,
            None => {
                return Err(
                    ToolError::InvalidRequest(
                        "cross-workspace tools are not available on this connection".to_owned(),
                    ),
                );
            },
        };
        let ids = pairings.peers(caller.as_str());
        let ghost all = peers_of(pairings@, caller@);
        let ghost named = |id: Seq<char>| ConnectedPeerView { id, name: friendly_name(id) };
        let mut out: Vec<ConnectedPeer> = Vec::new();
        let mut i: usize = 0;
        proof {
            assert(all_views(out@) =~= all.take(0).map_values(named));
        }
        while i < ids.len()
            invariant
                i <= ids@.len(),
                all == views(ids@),
                named == (|id: Seq<char>| ConnectedPeerView { id, name: friendly_name(id) }),
                all_views(out@) == all.take(i as int).map_values(named),
            decreases ids@.len() - i,
        {
            let ghost had = out@;
            let id = ids[i].clone();
            let name = display_name(id.as_str());
            out.push(ConnectedPeer { id, name });
            proof {
                assert(all_views(out@) =~= all_views(had).push(named(all[i as int])));
                assert(all.take(i + 1).map_values(named) =~= all.take(i as int).map_values(
                    named,
                ).push(named(all[i as int])));
            }
            i = i + 1;
        }
        proof {
            assert(all.take(i as int) =~= all);
        }
        Ok(out)
    }

    /// Send a message to a connected workspace's agent. The message is queued
    /// for the user's approval before it reaches the target. `micros` is the
    /// time, from which a new thread is named.
    pub fn send_to_workspace(
        &self,
        outbox: &mut Outbox,
        pairings: &PairingStore,
        params: SendToWorkspaceParams,
        micros: u128,
    ) -> (r: Result<String, ToolError>)
        ensures
            match opt_text(self.caller) {
                None => final(outbox)@ == old(outbox)@ && refuses(
                    r,
                    "cross-workspace tools are not available on this connection"@,
                ),
                Some(caller) => if !linked(pairings@, caller, params.target@) {
                    final(outbox)@ == old(outbox)@ && refuses(
                        r,
                        "not connected to workspace '"@ + params.target@
                            + "' — call list_connected first"@,
                    )
                } else {
                    let thread = thread_of(opt_text(params.thread), micros);
                    sends(
                        old(outbox)@,
                        final(outbox)@,
                        r,
                        message_event(caller, params.target@, params.message@, thread),
                        "message queued for approval (thread: "@ + thread + ")"@,
                    )
                },
            },
    {
        let caller = match &self.caller {
            Some(c) => c,
            None => {
                return Err(
                    ToolError::InvalidRequest(
                        "cross-workspace tools are not available on this connection".to_owned(),
                    ),
                );
            },
        };
        if !pairings.is_connected(caller.as_str(), params.target.as_str()) {
            return Err(
                ToolError::InvalidRequest(
                    concat3(
                        "not connected to workspace '",
                        params.target.as_str(),
                        "' — call list_connected first",
                    ),
                ),
            );
        }
        let thread = match params.thread {
            Some(t) => {
                if t.as_str().is_empty() {
                    new_thread_id(micros)
                } else {
                    t
                }
            },
            None => new_thread_id(micros),
        };
        let ack = concat3("message queued for approval (thread: ", thread.as_str(), ")");
        let event = AppEvent::McpSendToWorkspace {
            sender_id: caller.clone(),
            sender_name: display_name(caller.as_str()),
            target_id: params.target,
            message: params.message,
            thread,
        };
        match outbox.send(event) {
            Ok(_) => Ok(ack),
            Err(e) => Err(e),
        }
    }
}

// ─── Laws ──────────────────────────────────────────────────────────────

/// A tool call reaches the event loop once and is acknowledged, or reaches it
/// not at all and fails: what was sent before is kept either way.
pub proof fn law_a_call_is_sent_once_or_fails(
    before: OutboxView,
    after: OutboxView,
    r: Result<String, ToolError>,
    event: AppEventView,
    ack: Seq<char>,
)
    requires
        sends(before, after, r, event, ack),
    ensures
        after.closed == before.closed,
        !before.closed ==> after.events == before.events.push(event) && r is Ok && r->Ok_0@ == ack,
        before.closed ==> after.events == before.events && r is Err && r->Err_0 is Internal,
{
}

/// A call that is not allowed is refused with its reason, and a refusal is told
/// from a failure of the event loop.
pub proof fn law_a_refusal_says_why<T>(r: Result<T, ToolError>, message: Seq<char>)
    requires
        refuses(r, message),
    ensures
        r matches Err(ToolError::InvalidRequest(m)) && m@ == message,
{
}

/// The friendly name of an agent that is named after a directory is that
/// directory's name, and of any other agent its id.
pub proof fn law_a_friendly_name_is_the_directorys(dir: Seq<char>, id: Seq<char>)
    ensures
        friendly_name("copilot-"@ + dir) == dir,
        !has_prefix(id, "copilot-"@) ==> friendly_name(id) == id,
{
    let prefix = "copilot-"@;
    assert((prefix + dir).take(prefix.len() as int) =~= prefix);
    assert((prefix + dir).skip(prefix.len() as int) =~= dir);
}

/// A message says who it is from: its sender is the agent that calls, under its
/// friendly name, and its target, its text and its thread are those given.
pub proof fn law_a_message_is_from_its_caller(
    caller: Seq<char>,
    target: Seq<char>,
    message: Seq<char>,
    thread: Seq<char>,
)
    ensures
        message_event(caller, target, message, thread) matches AppEventView::McpSendToWorkspace {
            sender_id,
            sender_name,
            target_id,
            message: text,
            thread: t,
        } && sender_id == caller && sender_name == friendly_name(caller) && target_id == target
            && text == message && t == thread,
{
}

/// A reply stays in its thread: a thread that the caller names is kept, and only
/// without one a new thread is named, after the time.
pub proof fn law_a_named_thread_is_kept(given: Seq<char>, micros: u128)
    ensures
        given.len() > 0 ==> thread_of(Some(given), micros) == given,
        thread_of(None, micros) == "xw-"@ + hexadecimal(micros as nat),
        given.len() == 0 ==> thread_of(Some(given), micros) == thread_of(None, micros),
{
}

/// An agent is told of exactly the agents that it is connected with, each under
/// its id and its friendly name, and may send to no other.
pub proof fn law_an_agent_is_told_of_its_peers(
    pairs: Set<PairView>,
    agent: Seq<char>,
    i: int,
)
    requires
        crate::pairing::lists_peers(peers_of(pairs, agent), pairs, agent),
        0 <= i < named_peers(pairs, agent).len(),
    ensures
        linked(pairs, agent, named_peers(pairs, agent)[i].id),
        named_peers(pairs, agent)[i].name == friendly_name(named_peers(pairs, agent)[i].id),
        named_peers(pairs, agent).len() == peers_of(pairs, agent).len(),
{
    let peers = peers_of(pairs, agent);
    assert(peers.contains(peers[i]));
    assert(linked(pairs, agent, peers[i]));
}

} // verus!
