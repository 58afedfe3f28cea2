//! Cross-workspace message inbox.
//!
//! A message from one workspace to another does not reach the target agent
//! directly. It is queued here until the user approves it. Only then is it
//! injected into the target agent's session as a prompt, so cross-workspace
//! traffic is always human-gated.
use crate::agent::HistoryEntryView;
use crate::app::{App, AppView};
use crate::effect::{Effect, EffectView};
use crate::order::all_views;
use crate::text::{decimal, decimal_of};
use std::collections::VecDeque;
use vstd::prelude::*;
use vstd::string::*;

verus! {

/// A pending cross-workspace message awaiting the user's approval before it is
/// injected into the target agent's session.
#[derive(Debug)]
pub struct InboxMessage {
    /// Agent that sent the message.
    pub sender_id: String,
    /// Friendly name of the sender's workspace.
    pub sender_name: String,
    /// Agent the message is addressed to.
    pub target_id: String,
    /// Friendly name of the target's workspace.
    pub target_name: String,
    /// The message body the sender wants delivered.
    pub body: String,
    /// Correlation id threading a request/reply exchange between the two
    /// agents.
    pub thread: String,
}

pub struct InboxMessageView {
    pub sender_id: Seq<char>,
    pub sender_name: Seq<char>,
    pub target_id: Seq<char>,
    pub target_name: Seq<char>,
    pub body: Seq<char>,
    pub thread: Seq<char>,
}

impl View for InboxMessage {
    type V = InboxMessageView;

    open spec fn view(&self) -> InboxMessageView {
        InboxMessageView {
            sender_id: self.sender_id@,
            sender_name: self.sender_name@,
            target_id: self.target_id@,
            target_name: self.target_name@,
            body: self.body@,
            thread: self.thread@,
        }
    }
}

/// FIFO queue of pending cross-workspace messages. The front entry is the one
/// currently surfaced in the approval modal.
#[derive(Debug)]
pub struct Inbox {
    pending: VecDeque<InboxMessage>,
}

impl View for Inbox {
    type V = Seq<InboxMessageView>;

    closed spec fn view(&self) -> Seq<InboxMessageView> {
        all_views(self.pending@)
    }
}

impl Inbox {
    /// An empty inbox.
    pub fn new() -> (r: Inbox)
        ensures
            r@ == Seq::<InboxMessageView>::empty(),
    {
        let r = Inbox { pending: VecDeque::new() };
        proof {
            assert(r@ =~= seq![]);
        }
        r
    }

    /// Queue a message at the back of the inbox.
    pub fn push(&mut self, msg: InboxMessage)
        ensures
            final(self)@ == old(self)@.push(msg@),
    {
        self.pending.push_back(msg);
        proof {
            assert(self@ =~= old(self)@.push(msg@));
        }
    }

    /// The message currently awaiting approval (front of the queue).
    pub fn front(&self) -> (r: Option<&InboxMessage>)
        ensures
            self@.len() == 0 ==> r is None,
            self@.len() > 0 ==> r is Some && r->0@ == self@[0],
    {
        if self.pending.len() > 0 {
            Some(&self.pending[0])
        } else {
            None
        }
    }

    /// Remove and return the front message.
    pub fn pop(&mut self) -> (r: Option<InboxMessage>)
        ensures
            old(self)@.len() == 0 ==> r is None && final(self)@ == old(self)@,
            old(self)@.len() > 0 ==> r is Some && r->0@ == old(self)@[0] && final(self)@ == old(
                self,
            )@.drop_first(),
    {
        let r = self.pending.pop_front();
        proof {
            if old(self)@.len() > 0 {
                assert(self@ =~= old(self)@.drop_first());
            }
        }
        r
    }

    /// Whether any messages are awaiting approval.
    pub fn is_empty(&self) -> (r: bool)
        ensures
            r == (self@.len() == 0),
    {
        self.pending.len() == 0
    }

    /// Number of messages awaiting approval.
    pub fn len(&self) -> (r: usize)
        ensures
            r == self@.len(),
    {
        self.pending.len()
    }
}

impl Default for Inbox {
    /// An empty inbox.
    fn default() -> (r: Inbox)
        ensures
            r@ == Seq::<InboxMessageView>::empty(),
    {
        Inbox::new()
    }
}

/// The prompt that delivers a message: it says that it comes from another
/// workspace, from which one, and how to reply.
pub open spec fn framed(msg: InboxMessageView) -> Seq<char> {
    "[cross-workspace message from workspace '"@ + msg.sender_name + "' (id: "@ + msg.sender_id
        + ", thread: "@ + msg.thread + ")]\n\n"@ + msg.body
        + "\n\n---\nTo reply, call send_to_workspace with target=\""@ + msg.sender_id
        + "\" and thread=\""@ + msg.thread + "\"."@
}

/// The prompt that delivers a message.
fn frame_message(msg: &InboxMessage) -> (r: String)
    ensures
        r@ == framed(msg@),
{
    let mut r = "[cross-workspace message from workspace '".to_owned();
    r.append(msg.sender_name.as_str());
    r.append("' (id: ");
    r.append(msg.sender_id.as_str());
    r.append(", thread: ");
    r.append(msg.thread.as_str());
    r.append(")]\n\n");
    r.append(msg.body.as_str());
    r.append("\n\n---\nTo reply, call send_to_workspace with target=\"");
    r.append(msg.sender_id.as_str());
    r.append("\" and thread=\"");
    r.append(msg.thread.as_str());
    r.append("\".");
    r
}

/// What is said of a message between two workspaces.
pub open spec fn between(verb: Seq<char>, msg: InboxMessageView) -> Seq<char> {
    verb + " message from "@ + msg.sender_name + " to "@ + msg.target_name
}

/// What is said of a message between two workspaces.
fn tell_between(verb: &str, msg: &InboxMessage) -> (r: String)
    ensures
        r@ == between(verb@, msg@),
{
    let mut r = verb.to_owned();
    r.append(" message from ");
    r.append(msg.sender_name.as_str());
    r.append(" to ");
    r.append(msg.target_name.as_str());
    r
}

impl AppView {
    /// The state after a prompt was given to an agent, as the user would type
    /// it.
    pub open spec fn prompted(self, id: Seq<char>, text: Seq<char>) -> AppView {
        if self.knows(id) {
            self.with_agent(id, self.agent(id).with_entry(HistoryEntryView::Prompt(text))).emit(
                EffectView::SendPrompt { agent_id: id, channel: self.agent(id).prompt_tx, text },
            )
        } else {
            self
        }
    }

    /// The state with one more message waiting for approval. A message to an
    /// unknown agent is dropped.
    pub open spec fn message_queued(
        self,
        sender_id: Seq<char>,
        sender_name: Seq<char>,
        target_id: Seq<char>,
        body: Seq<char>,
        thread: Seq<char>,
    ) -> AppView {
        if !self.knows(target_id) {
            self
        } else {
            let target_name = self.agent(target_id).name;
            let inbox = self.inbox.push(
                InboxMessageView { sender_id, sender_name, target_id, target_name, body, thread },
            );
            AppView { inbox, ..self }.say(
                "📨 Message from "@ + sender_name + " to "@ + target_name + " awaiting approval ("@
                    + decimal(inbox.len()) + " pending)"@,
            )
        }
    }

    /// The state after the front message was approved or rejected. Only an
    /// approved message reaches its target.
    pub open spec fn inbox_resolved(self, approve: bool) -> AppView {
        if self.inbox.len() == 0 {
            self
        } else {
            let msg = self.inbox[0];
            let s = AppView { inbox: self.inbox.drop_first(), ..self };
            if !approve {
                s.say(between("Rejected"@, msg))
            } else if s.knows(msg.target_id) {
                s.prompted(msg.target_id, framed(msg)).say(between("Delivered"@, msg))
            } else {
                s.say("Could not deliver to "@ + msg.target_name + " — agent no longer available"@)
            }
        }
    }
}

impl App {
    /// Give an agent a prompt, as the user would type it.
    pub(crate) fn prompt_agent(&mut self, id: &str, text: String)
        ensures
            final(self)@ == old(self)@.prompted(id@, text@),
    {
        let k: usize = self.index_of(id);
        if k >= self.agents.len() {
            return;
        }
        let channel = self.agents[k].prompt_tx;
        self.agents[k].prompt(text.clone());
        proof {
            assert(self@ =~= old(self)@.with_agent(
                id@,
                old(self)@.agent(id@).with_entry(HistoryEntryView::Prompt(text@)),
            ));
        }
        self.emit(Effect::SendPrompt { agent_id: id.to_owned(), channel, text });
    }

    /// Queue a message between workspaces for the user's approval. That the two
    /// are connected is required of the sender; here the target only has to
    /// exist.
    pub fn handle_send_to_workspace(
        &mut self,
        sender_id: String,
        sender_name: String,
        target_id: String,
        message: String,
        thread: String,
    )
        ensures
            final(self)@ == old(self)@.message_queued(
                sender_id@,
                sender_name@,
                target_id@,
                message@,
                thread@,
            ),
    {
        let k: usize = self.index_of(target_id.as_str());
        if k >= self.agents.len() {
            return;
        }
        let target_name = self.agents[k].name.clone();
        let mut line = "📨 Message from ".to_owned();
        line.append(sender_name.as_str());
        line.append(" to ");
        line.append(target_name.as_str());
        line.append(" awaiting approval (");
        self.inbox.push(
            InboxMessage { sender_id, sender_name, target_id, target_name, body: message, thread },
        );
        let count = decimal_of(self.inbox.len() as u64);
        line.append(count.as_str());
        line.append(" pending)");
        self.say(line);
    }

    /// Resolve the front inbox message: on `approve`, inject it into the target
    /// agent's session as a prompt; otherwise discard it.
    pub fn resolve_inbox(&mut self, approve: bool)
        ensures
            final(self)@ == old(self)@.inbox_resolved(approve),
    {
        let msg = match self.inbox.pop() {
            Some(msg) => msg,
            None => {
                return;
            },
        };
        if !approve {
            self.say(tell_between("Rejected", &msg));
            return;
        }
        let k: usize = self.index_of(msg.target_id.as_str());
        if k < self.agents.len() {
            let text = frame_message(&msg);
            self.prompt_agent(msg.target_id.as_str(), text);
            self.say(tell_between("Delivered", &msg));
        } else {
            let mut line = "Could not deliver to ".to_owned();
            line.append(msg.target_name.as_str());
            line.append(" — agent no longer available");
            self.say(line);
        }
    }
}

// ─── Laws ──────────────────────────────────────────────────────────────

/// Messages leave in the order in which they came: a message behind `n` others
/// is at the front after `n` have left.
pub proof fn law_first_in_first_out(queue: Seq<InboxMessageView>, msg: InboxMessageView)
    ensures
        queue.push(msg).skip(queue.len() as int)[0] == msg,
        queue.len() > 0 ==> queue.push(msg).drop_first() == queue.drop_first().push(msg),
        queue.len() > 0 ==> queue.push(msg)[0] == queue[0],
{
    if queue.len() > 0 {
        assert(queue.push(msg).drop_first() =~= queue.drop_first().push(msg));
    }
}

} // verus!
