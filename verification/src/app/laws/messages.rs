//! Messages between workspaces: what waits, what is delivered, and to whom a
//! reply goes.
use crate::agent::{AgentView, HistoryEntryView};
use crate::app::actions::lemma_agent_index;
use crate::app::inbox::InboxMessageView;
use crate::app::laws::asking::{
    asks, changes_agent, lemma_asks_none, lemma_asks_one, lemma_handled, only_asks,
};
use crate::app::AppView;
use crate::effect::EffectView;
use crate::event::AppEventView;
use crate::keybind::{KeyCode, KeyEvent};
use crate::text::decimal;
use vstd::prelude::*;

verus! {

/// Whether a key approves the message that waits.
pub open spec fn approves(key: KeyEvent) -> bool {
    key.code == KeyCode::Enter || key.code == KeyCode::Char('y')
}

/// Whether a key rejects the message that waits.
pub open spec fn rejects(key: KeyEvent) -> bool {
    key.code == KeyCode::Esc || key.code == KeyCode::Char('n')
}

/// Whether `text` ends with `tail`.
pub open spec fn ends_with(text: Seq<char>, tail: Seq<char>) -> bool {
    tail.len() <= text.len() && text.skip(text.len() - tail.len()) == tail
}

/// Whether `text` begins with `head`.
pub open spec fn begins_with(text: Seq<char>, head: Seq<char>) -> bool {
    head.len() <= text.len() && text.take(head.len() as int) == head
}

/// A message to an agent of the fleet waits behind those that wait already, with
/// its sender, its target, its text and its thread each in its place. The user
/// is told who wrote to whom and how many wait, and nothing is delivered. A
/// message to an agent that is not in the fleet is dropped.
pub proof fn law_a_message_waits_as_it_was_sent(
    app: AppView,
    sender_id: Seq<char>,
    sender_name: Seq<char>,
    target_id: Seq<char>,
    message: Seq<char>,
    thread: Seq<char>,
)
    ensures
        ({
            let after = app.handled(
                AppEventView::McpSendToWorkspace {
                    sender_id,
                    sender_name,
                    target_id,
                    message,
                    thread,
                },
            );
            if app.knows(target_id) {
                &&& after.inbox.len() == app.inbox.len() + 1
                &&& after.inbox.take(app.inbox.len() as int) == app.inbox
                &&& after.inbox.last().sender_id == sender_id
                &&& after.inbox.last().sender_name == sender_name
                &&& after.inbox.last().target_id == target_id
                &&& after.inbox.last().target_name == app.agent(target_id).name
                &&& after.inbox.last().body == message
                &&& after.inbox.last().thread == thread
                &&& after.status_message == Some(
                    "📨 Message from "@ + sender_name + " to "@ + app.agent(target_id).name
                        + " awaiting approval ("@ + decimal(app.inbox.len() + 1) + " pending)"@,
                )
                &&& only_asks(
                    AppView {
                        inbox: after.inbox,
                        status_message: after.status_message,
                        ..app
                    },
                    after,
                    seq![],
                )
            } else {
                only_asks(app, after, seq![])
            }
        }),
{
    let e = AppEventView::McpSendToWorkspace {
        sender_id,
        sender_name,
        target_id,
        message,
        thread,
    };
    let after = app.handled(e);
    lemma_asks_none(app, app.reacted(e));
    lemma_handled(app, e, seq![]);
    if app.knows(target_id) {
        assert(after.inbox.take(app.inbox.len() as int) =~= app.inbox);
    }
}

/// Approving the message that waits in front prompts its target, over its
/// target's channel, and nobody else: one prompt is sent, the same text stands
/// last in the target's history, and the message waits no more.
pub proof fn law_approval_prompts_the_target(app: AppView, key: KeyEvent)
    requires
        approves(key),
        app.permission_pending is None,
        app.inbox.len() > 0,
        app.knows(app.inbox[0].target_id),
    ensures
        ({
            let msg = app.inbox[0];
            let target = app.agent(msg.target_id);
            let after = app.handled(AppEventView::Input(key));
            let text = after.effects[app.effects.len() as int]->SendPrompt_text;
            &&& changes_agent(
                AppView {
                    inbox: app.inbox.drop_first(),
                    status_message: Some(
                        "Delivered"@ + " message from "@ + msg.sender_name + " to "@ + msg.target_name,
                    ),
                    ..app
                },
                after,
                msg.target_id,
                AgentView {
                    history: target.history.push(HistoryEntryView::Prompt(text)),
                    ..target
                },
                seq![
                    EffectView::SendPrompt {
                        agent_id: msg.target_id,
                        channel: target.prompt_tx,
                        text,
                    },
                ],
            )
        }),
{
    lemma_delivered(app, key);
}

/// Joining texts is associative.
proof fn lemma_joined_in_any_order(a: Seq<char>, b: Seq<char>, c: Seq<char>)
    ensures
        (a + b) + c == a + (b + c),
{
    assert((a + b) + c =~= a + (b + c));
}

/// A delivered prompt is what comes first and what it ends with.
proof fn lemma_framed_in_two(msg: InboxMessageView)
    ensures
        crate::app::inbox::framed(msg) == prompt_head(msg) + prompt_tail(msg),
{
    let head = prompt_head(msg);
    let a = "\n\n---\nTo reply, call send_to_workspace with target=\""@;
    let b = msg.sender_id;
    let c = "\" and thread=\""@;
    let d = msg.thread;
    let e = "\"."@;
    lemma_joined_in_any_order(head, a, b);
    lemma_joined_in_any_order(head, a + b, c);
    lemma_joined_in_any_order(head, a + b + c, d);
    lemma_joined_in_any_order(head, a + b + c + d, e);
}

/// What a delivered prompt begins with.
pub open spec fn prompt_head(msg: InboxMessageView) -> Seq<char> {
    "[cross-workspace message from workspace '"@ + msg.sender_name + "' (id: "@ + msg.sender_id
        + ", thread: "@ + msg.thread + ")]\n\n"@ + msg.body
}

/// What a delivered prompt ends with.
pub open spec fn prompt_tail(msg: InboxMessageView) -> Seq<char> {
    "\n\n---\nTo reply, call send_to_workspace with target=\""@ + msg.sender_id
        + "\" and thread=\""@ + msg.thread + "\"."@
}

/// A text made of two parts begins with the first and ends with the second.
proof fn lemma_two_parts(head: Seq<char>, tail: Seq<char>)
    ensures
        begins_with(head + tail, head),
        ends_with(head + tail, tail),
{
    let text = head + tail;
    assert(text.take(head.len() as int) =~= head);
    assert(text.skip(text.len() - tail.len()) =~= tail);
}

/// The text of the prompt that delivers the front message.
pub open spec fn delivered_text(app: AppView, key: KeyEvent) -> Seq<char> {
    app.handled(AppEventView::Input(key)).effects[app.effects.len() as int]->SendPrompt_text
}

proof fn lemma_delivered(app: AppView, key: KeyEvent)
    requires
        approves(key),
        app.permission_pending is None,
        app.inbox.len() > 0,
        app.knows(app.inbox[0].target_id),
    ensures
        ({
            let msg = app.inbox[0];
            let sent = EffectView::SendPrompt {
                agent_id: msg.target_id,
                channel: app.agent(msg.target_id).prompt_tx,
                text: crate::app::inbox::framed(msg),
            };
            let k = AppEventView::Input(key);
            &&& app.reacted(k).effects == app.effects.push(sent)
            &&& asks(app, app.handled(k), seq![sent])
            &&& app.handled(k).effects[app.effects.len() as int] == sent
            &&& app.handled(k) == (AppView {
                explorer: app.handled(k).explorer,
                effects: app.handled(k).effects,
                ..app.reacted(k)
            })
        }),
{
    let msg = app.inbox[0];
    let sent = EffectView::SendPrompt {
        agent_id: msg.target_id,
        channel: app.agent(msg.target_id).prompt_tx,
        text: crate::app::inbox::framed(msg),
    };
    let k = AppEventView::Input(key);
    lemma_asks_one(app, app.reacted(k), sent);
    lemma_handled(app, k, seq![sent]);
    let n = app.effects.len() as int;
    assert(app.handled(k).effects.take(n + 1)[n] == (app.effects + seq![sent])[n]);
}

/// The address to reply to in a delivered prompt is the sender: the prompt ends
/// by naming the sender's id as the target and the message's thread as the
/// thread.
pub proof fn law_a_delivered_prompt_says_to_reply_to_the_sender(app: AppView, key: KeyEvent)
    requires
        approves(key),
        app.permission_pending is None,
        app.inbox.len() > 0,
        app.knows(app.inbox[0].target_id),
    ensures
        ends_with(
            delivered_text(app, key),
            "\n\n---\nTo reply, call send_to_workspace with target=\""@ + app.inbox[0].sender_id
                + "\" and thread=\""@ + app.inbox[0].thread + "\"."@,
        ),
{
    lemma_delivered(app, key);
    lemma_framed_in_two(app.inbox[0]);
    lemma_two_parts(prompt_head(app.inbox[0]), prompt_tail(app.inbox[0]));
}

/// A delivered prompt begins by saying that it comes from another workspace,
/// from which one and in which thread, and then holds the message as it was
/// written.
pub proof fn law_a_delivered_prompt_says_where_it_comes_from(app: AppView, key: KeyEvent)
    requires
        approves(key),
        app.permission_pending is None,
        app.inbox.len() > 0,
        app.knows(app.inbox[0].target_id),
    ensures
        begins_with(
            delivered_text(app, key),
            "[cross-workspace message from workspace '"@ + app.inbox[0].sender_name + "' (id: "@
                + app.inbox[0].sender_id + ", thread: "@ + app.inbox[0].thread + ")]\n\n"@
                + app.inbox[0].body,
        ),
{
    lemma_delivered(app, key);
    lemma_framed_in_two(app.inbox[0]);
    lemma_two_parts(prompt_head(app.inbox[0]), prompt_tail(app.inbox[0]));
}

/// What is delivered does not depend on whom it is delivered to: two messages
/// that differ only in their target are delivered with the same text.
pub proof fn law_a_delivered_prompt_does_not_depend_on_its_target(
    one: AppView,
    two: AppView,
    key: KeyEvent,
)
    requires
        approves(key),
        one.permission_pending is None,
        two.permission_pending is None,
        one.inbox.len() > 0,
        two.inbox.len() > 0,
        one.knows(one.inbox[0].target_id),
        two.knows(two.inbox[0].target_id),
        two.inbox[0] == (InboxMessageView {
            target_id: two.inbox[0].target_id,
            target_name: two.inbox[0].target_name,
            ..one.inbox[0]
        }),
    ensures
        delivered_text(one, key) == delivered_text(two, key),
{
    lemma_delivered(one, key);
    lemma_delivered(two, key);
}

/// A reply reaches the agent that wrote: a message sent to the address and in
/// the thread that a delivered prompt ends with waits for the agent that sent
/// the delivered message, and approving it prompts that agent.
pub proof fn law_a_reply_reaches_the_agent_that_wrote(
    app: AppView,
    key: KeyEvent,
    name: Seq<char>,
    answer: Seq<char>,
)
    requires
        approves(key),
        app.permission_pending is None,
        app.inbox.len() == 1,
        app.knows(app.inbox[0].target_id),
        app.knows(app.inbox[0].sender_id),
    ensures
        ({
            let msg = app.inbox[0];
            let delivered = app.handled(AppEventView::Input(key));
            let replied = delivered.handled(
                AppEventView::McpSendToWorkspace {
                    sender_id: msg.target_id,
                    sender_name: name,
                    target_id: msg.sender_id,
                    message: answer,
                    thread: msg.thread,
                },
            );
            let back = replied.handled(AppEventView::Input(key));
            &&& delivered.inbox.len() == 0
            &&& replied.inbox.len() == 1
            &&& replied.inbox[0].target_id == msg.sender_id
            &&& replied.inbox[0].sender_id == msg.target_id
            &&& replied.inbox[0].thread == msg.thread
            &&& replied.inbox[0].body == answer
            &&& back.effects[replied.effects.len() as int] matches EffectView::SendPrompt {
                agent_id,
                ..
            } && agent_id == msg.sender_id
        }),
{
    let msg = app.inbox[0];
    let delivered = app.handled(AppEventView::Input(key));
    lemma_delivered(app, key);
    let k = app.index(msg.target_id) as int;
    lemma_agent_index(app.agents, msg.target_id);
    let told = app.agent(msg.target_id).with_entry(
        HistoryEntryView::Prompt(crate::app::inbox::framed(msg)),
    );
    crate::app::actions::lemma_update_keeps_index(app.agents, k, told, msg.sender_id);
    assert(delivered.agents == app.agents.update(k, told));
    assert(delivered.inbox =~= Seq::<InboxMessageView>::empty());
    let sent = AppEventView::McpSendToWorkspace {
        sender_id: msg.target_id,
        sender_name: name,
        target_id: msg.sender_id,
        message: answer,
        thread: msg.thread,
    };
    let replied = delivered.handled(sent);
    law_a_message_waits_as_it_was_sent(
        delivered,
        msg.target_id,
        name,
        msg.sender_id,
        answer,
        msg.thread,
    );
    assert(replied.agents == delivered.agents);
    lemma_delivered(replied, key);
}

/// Rejecting the message that waits in front discards it: nobody is prompted, no
/// history changes, and the next message comes to the front.
pub proof fn law_rejection_discards_the_message(app: AppView, key: KeyEvent)
    requires
        rejects(key),
        app.permission_pending is None,
        app.inbox.len() > 0,
    ensures
        only_asks(
            AppView {
                inbox: app.inbox.drop_first(),
                status_message: Some(
                    "Rejected"@ + " message from "@ + app.inbox[0].sender_name + " to "@
                        + app.inbox[0].target_name,
                ),
                ..app
            },
            app.handled(AppEventView::Input(key)),
            seq![],
        ),
{
    let k = AppEventView::Input(key);
    lemma_asks_none(app, app.reacted(k));
    lemma_handled(app, k, seq![]);
}

/// A message whose target has left the fleet is not delivered to anybody; the
/// user is told.
pub proof fn law_a_message_to_nobody_is_not_delivered(app: AppView, key: KeyEvent)
    requires
        approves(key),
        app.permission_pending is None,
        app.inbox.len() > 0,
        !app.knows(app.inbox[0].target_id),
    ensures
        only_asks(
            AppView {
                inbox: app.inbox.drop_first(),
                status_message: Some(
                    "Could not deliver to "@ + app.inbox[0].target_name
                        + " — agent no longer available"@,
                ),
                ..app
            },
            app.handled(AppEventView::Input(key)),
            seq![],
        ),
{
    let k = AppEventView::Input(key);
    lemma_asks_none(app, app.reacted(k));
    lemma_handled(app, k, seq![]);
}

/// A key that neither approves nor rejects leaves the message waiting.
pub proof fn law_other_keys_leave_the_message_waiting(app: AppView, key: KeyEvent)
    requires
        !approves(key),
        !rejects(key),
        app.permission_pending is None,
        app.inbox.len() > 0,
    ensures
        only_asks(
            AppView { status_message: None, ..app },
            app.handled(AppEventView::Input(key)),
            seq![],
        ),
{
    let k = AppEventView::Input(key);
    lemma_asks_none(app, app.reacted(k));
    lemma_handled(app, k, seq![]);
}

} // verus!
