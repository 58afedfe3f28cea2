//! What keys do where they are typed into something: a popup, a prompt, the
//! command line or a message.
use crate::agent::{AgentView, HistoryEntryView};
use crate::app::laws::asking::{asks, law_a_refresh_asks_for_the_shown_workspace, refresh_of};
use crate::app::{AppView, PendingPermissionView};
use crate::effect::EffectView;
use crate::explorer::ExplorerView;
use crate::keybind::{KeyCode, KeyEvent};
use crate::text::has_prefix;
use crate::types::{ScreenView, SessionFocus};
use crate::ui::slash_popover::matching;
use vstd::prelude::*;

verus! {

// ─── The permission popup ──────────────────────────────────────────────

/// Whether the request that is open was answered with `option_id`, and nothing
/// else happened.
pub open spec fn answers(app: AppView, after: AppView, option_id: Option<Seq<char>>) -> bool {
    after == AppView {
        permission_pending: None,
        status_message: None,
        effects: app.effects.push(
            EffectView::ReplyPermission { reply: app.permission_pending->0.reply, option_id },
        ),
        ..app
    }
}

/// Enter and the space bar choose the option that is highlighted.
pub proof fn law_enter_chooses_the_highlighted_option(app: AppView, key: KeyEvent)
    requires
        app.permission_pending is Some,
        app.permission_pending->0.selected < app.permission_pending->0.options.len(),
        key.code == KeyCode::Enter || key.code == KeyCode::Char(' '),
    ensures
        answers(
            app,
            app.key_pressed(key),
            Some(
                app.permission_pending->0.options[app.permission_pending->0.selected as int].0,
            ),
        ),
{
}

/// Esc, `n` and `q` choose no option.
pub proof fn law_a_refusal_chooses_no_option(app: AppView, key: KeyEvent)
    requires
        app.permission_pending is Some,
        key.code == KeyCode::Esc || key.code == KeyCode::Char('n') || key.code == KeyCode::Char(
            'q',
        ),
    ensures
        answers(app, app.key_pressed(key), None),
{
}

/// A digit chooses the option with that number, counted from one.
pub proof fn law_a_digit_chooses_its_option(app: AppView, key: KeyEvent, digit: char)
    requires
        app.permission_pending is Some,
        key.code == KeyCode::Char(digit),
        '1' <= digit <= '9',
    ensures
        ({
            let options = app.permission_pending->0.options;
            let number = digit as int - '0' as int;
            &&& number <= options.len() ==> answers(
                app,
                app.key_pressed(key),
                Some(options[number - 1].0),
            )
            &&& number > options.len() ==> app.key_pressed(key) == (AppView {
                status_message: None,
                ..app
            })
        }),
{
}

/// Whether only the highlight of the popup moved, to `at`.
pub open spec fn highlights(app: AppView, after: AppView, at: int) -> bool {
    &&& after.permission_pending matches Some(pending) && pending.selected == at && pending
        == PendingPermissionView { selected: pending.selected, ..app.permission_pending->0 }
    &&& after == AppView {
        permission_pending: after.permission_pending,
        status_message: None,
        ..app
    }
}

/// The highlight of the popup goes down with Down and `j`, up with Up and `k`,
/// one option at a time, and round at the ends.
pub proof fn law_the_highlight_goes_round(app: AppView, key: KeyEvent)
    requires
        app.permission_pending is Some,
        app.permission_pending->0.selected < app.permission_pending->0.options.len(),
        app.permission_pending->0.options.len() <= usize::MAX,
    ensures
        ({
            let at = app.permission_pending->0.selected as int;
            let last = app.permission_pending->0.options.len() - 1;
            &&& key.code == KeyCode::Down || key.code == KeyCode::Char('j') ==> highlights(
                app,
                app.key_pressed(key),
                if at == last {
                    0
                } else {
                    at + 1
                },
            )
            &&& key.code == KeyCode::Up || key.code == KeyCode::Char('k') ==> highlights(
                app,
                app.key_pressed(key),
                if at == 0 {
                    last
                } else {
                    at - 1
                },
            )
        }),
{
    let at = app.permission_pending->0.selected;
    let n = app.permission_pending->0.options.len();
    lemma_ring(at, n);
}

/// A step forward in a ring is the next place, or the first.
pub(crate) proof fn lemma_ring(at: usize, n: nat)
    requires
        at < n <= usize::MAX,
    ensures
        crate::app::actions::step_forward(at, n) == (if at + 1 == n {
            0
        } else {
            at + 1
        }),
        crate::app::actions::step_back(at, n) == (if at == 0 {
            n - 1
        } else {
            at - 1
        }),
{
    if at + 1 == n {
        vstd::arithmetic::div_mod::lemma_mod_self_0(n as int);
    } else {
        vstd::arithmetic::div_mod::lemma_small_mod((at + 1) as nat, n);
    }
}

/// `y` where no option allows, and any key that means nothing to the popup,
/// leave the request as it is.
pub proof fn law_other_keys_leave_the_request_open(app: AppView, key: KeyEvent)
    requires
        app.permission_pending is Some,
        match key.code {
            KeyCode::Up => false,
            KeyCode::Down => false,
            KeyCode::Enter => false,
            KeyCode::Esc => false,
            KeyCode::Char('y') => forall|i: int|
                0 <= i < app.permission_pending->0.options.len() ==> !has_prefix(
                    (#[trigger] app.permission_pending->0.options[i]).2,
                    "allow"@,
                ),
            KeyCode::Char(c) => c != ' ' && c != 'j' && c != 'k' && c != 'n' && c != 'q' && !('1'
                <= c <= '9'),
            _ => true,
        },
    ensures
        app.key_pressed(key) == (AppView { status_message: None, ..app }),
{
    if key.code == KeyCode::Char('y') {
        lemma_none_allows(app.permission_pending->0.options);
    }
}

proof fn lemma_none_allows(options: Seq<(Seq<char>, Seq<char>, Seq<char>)>)
    requires
        forall|i: int|
            0 <= i < options.len() ==> !has_prefix((#[trigger] options[i]).2, "allow"@),
    ensures
        crate::app::input::allow_index(options) == options.len(),
    decreases options.len(),
{
    if options.len() > 0 {
        let rest = options.drop_first();
        assert(!has_prefix(options[0].2, "allow"@));
        assert forall|i: int| 0 <= i < rest.len() implies !has_prefix(
            (#[trigger] rest[i]).2,
            "allow"@,
        ) by {
            assert(rest[i] == options[i + 1]);
        }
        lemma_none_allows(rest);
    }
}

// ─── The command line ──────────────────────────────────────────────────

/// Whether the command line has the keyboard.
pub open spec fn at_command_line(app: AppView) -> bool {
    app.permission_pending is None && app.inbox.len() == 0 && app.command_mode
}

/// Enter closes the command line, empties it, and executes exactly what was
/// typed.
pub proof fn law_enter_executes_what_was_typed(app: AppView, key: KeyEvent)
    requires
        at_command_line(app),
        key.code == KeyCode::Enter,
    ensures
        app.key_pressed(key) == (AppView {
            command_mode: false,
            command_buffer: Seq::empty(),
            status_message: None,
            effects: app.effects.push(EffectView::ResetCompleter),
            ..app
        }).executed(app.command_buffer),
{
}

/// On the command line a character is added at the end, Backspace takes the last
/// one away and closes an empty line, and Esc closes and empties it. Each starts
/// path completion over; no key but Enter executes anything.
pub proof fn law_the_command_line_is_edited(app: AppView, key: KeyEvent, c: char)
    requires
        at_command_line(app),
    ensures
        ({
            let edited = AppView {
                status_message: None,
                effects: app.effects.push(EffectView::ResetCompleter),
                ..app
            };
            let after = app.key_pressed(key);
            &&& key.code == KeyCode::Char(c) ==> after == AppView {
                command_buffer: app.command_buffer + seq![c],
                ..edited
            }
            &&& key.code == KeyCode::Backspace && app.command_buffer.len() > 0 ==> after
                == AppView {
                command_buffer: app.command_buffer.take(app.command_buffer.len() - 1),
                ..edited
            }
            &&& key.code == KeyCode::Backspace && app.command_buffer.len() == 0 ==> after
                == AppView { command_mode: false, ..edited }
            &&& key.code == KeyCode::Esc ==> after == AppView {
                command_mode: false,
                command_buffer: Seq::empty(),
                ..edited
            }
            &&& key.code == KeyCode::Up || key.code == KeyCode::Down || key.code == KeyCode::Left
                || key.code == KeyCode::Right ==> after == AppView { status_message: None, ..app }
        }),
{
    assert(app.command_buffer.push(c) =~= app.command_buffer + seq![c]);
    if app.command_buffer.len() > 0 {
        assert(app.command_buffer.drop_last() =~= app.command_buffer.take(
            app.command_buffer.len() - 1,
        ));
    }
}

/// Tab completes the path of a command that opens a workspace, forward, and
/// Shift-Tab backward; of any other command it completes nothing.
pub proof fn law_tab_completes_the_path(
    app: AppView,
    key: KeyEvent,
    verb: Seq<char>,
    partial: Seq<char>,
)
    requires
        at_command_line(app),
        key.code == KeyCode::Tab || key.code == KeyCode::BackTab,
        app.command_buffer == verb + seq![' '] + partial,
        forall|i: int| 0 <= i < verb.len() ==> verb[i] != ' ',
    ensures
        app.key_pressed(key) == (if verb == "open"@ || verb == "o"@ {
            AppView {
                status_message: None,
                effects: app.effects.push(
                    EffectView::CompletePath {
                        verb,
                        partial,
                        backward: key.code == KeyCode::BackTab,
                    },
                ),
                ..app
            }
        } else {
            AppView { status_message: None, ..app }
        }),
{
    lemma_split_behind(verb, partial, ' ');
}

/// A command without a path yet completes from the empty path.
pub proof fn law_tab_starts_from_the_empty_path(app: AppView, key: KeyEvent)
    requires
        at_command_line(app),
        key.code == KeyCode::Tab,
        app.command_buffer == "open"@ || app.command_buffer == "o"@,
    ensures
        app.key_pressed(key) == (AppView {
            status_message: None,
            effects: app.effects.push(
                EffectView::CompletePath {
                    verb: app.command_buffer,
                    partial: Seq::empty(),
                    backward: false,
                },
            ),
            ..app
        }),
{
    reveal_strlit("open");
    reveal_strlit("o");
    let line = app.command_buffer;
    assert("open"@ =~= seq!['o', 'p', 'e', 'n']);
    assert("o"@ =~= seq!['o']);
    crate::text::lemma_position_is(line, ' ', line.len() as int);
}

/// A text is split at the first of the separators that it holds.
pub(crate) proof fn lemma_split_behind(verb: Seq<char>, rest: Seq<char>, sep: char)
    requires
        forall|i: int| 0 <= i < verb.len() ==> verb[i] != sep,
    ensures
        crate::text::split_once(verb + seq![sep] + rest, sep) == Some((verb, rest)),
{
    let s = verb + seq![sep] + rest;
    crate::text::lemma_position_is(s, sep, verb.len() as int);
    assert(s.take(verb.len() as int) =~= verb);
    assert(s.skip(verb.len() as int + 1) =~= rest);
}

// ─── The search prompt ─────────────────────────────────────────────────

/// At the search prompt a character is added at the end, Backspace takes the
/// last one away and closes an empty prompt, and Esc closes and empties it.
/// Nothing is searched for yet.
pub proof fn law_the_search_prompt_is_edited(app: AppView, key: KeyEvent, c: char)
    requires
        app.permission_pending is None,
        app.inbox.len() == 0,
        !app.command_mode,
        app.search_mode,
    ensures
        ({
            let edited = AppView { status_message: None, ..app };
            let after = app.key_pressed(key);
            &&& key.code == KeyCode::Char(c) ==> after == AppView {
                search_query: app.search_query + seq![c],
                ..edited
            }
            &&& key.code == KeyCode::Backspace && app.search_query.len() > 0 ==> after == AppView {
                search_query: app.search_query.take(app.search_query.len() - 1),
                ..edited
            }
            &&& key.code == KeyCode::Backspace && app.search_query.len() == 0 ==> after
                == AppView { search_mode: false, ..edited }
            &&& key.code == KeyCode::Esc ==> after == AppView {
                search_mode: false,
                search_query: Seq::empty(),
                ..edited
            }
            &&& key.code == KeyCode::Tab || key.code == KeyCode::Up || key.code == KeyCode::Down
                ==> after == edited
        }),
{
    assert(app.search_query.push(c) =~= app.search_query + seq![c]);
    if app.search_query.len() > 0 {
        assert(app.search_query.drop_last() =~= app.search_query.take(
            app.search_query.len() - 1,
        ));
    }
}

// ─── A message being typed ─────────────────────────────────────────────

/// Whether a message to `id` has the keyboard.
pub open spec fn typing_to(app: AppView, id: Seq<char>) -> bool {
    &&& app.permission_pending is None && app.inbox.len() == 0
    &&& !app.command_mode && !app.search_mode
    &&& app.screen matches ScreenView::AgentSession { agent_id, input_mode, .. } && agent_id == id
        && input_mode
}

/// A session's screen with insert mode off.
pub open spec fn not_typing(screen: ScreenView) -> ScreenView {
    match screen {
        ScreenView::AgentSession { agent_id, focus, side_pane, scroll, .. } =>
            ScreenView::AgentSession { agent_id, focus, side_pane, scroll, input_mode: false },
        _ => screen,
    }
}

/// In a message a character is added at the end, Backspace takes the last one
/// away, Enter with Alt or Shift adds a line break, and Esc discards the message
/// and leaves insert mode. Nothing is sent, and no agent changes.
pub proof fn law_a_message_is_edited(app: AppView, id: Seq<char>, key: KeyEvent, c: char)
    requires
        typing_to(app, id),
    ensures
        ({
            let edited = AppView { status_message: None, ..app };
            let after = app.key_pressed(key);
            &&& key.code == KeyCode::Char(c) ==> after == AppView {
                input_buffer: app.input_buffer + seq![c],
                slash_selected: 0,
                ..edited
            }
            &&& key.code == KeyCode::Backspace && app.input_buffer.len() > 0 ==> after == AppView {
                input_buffer: app.input_buffer.take(app.input_buffer.len() - 1),
                slash_selected: 0,
                ..edited
            }
            &&& key.code == KeyCode::Backspace && app.input_buffer.len() == 0 ==> after
                == AppView { slash_selected: 0, ..edited }
            &&& key.code == KeyCode::Enter && (key.modifiers.alt || key.modifiers.shift) ==> after
                == AppView { input_buffer: app.input_buffer + seq!['\n'], ..edited }
            &&& key.code == KeyCode::Esc ==> after == AppView {
                input_buffer: Seq::empty(),
                slash_selected: 0,
                screen: not_typing(app.screen),
                ..edited
            }
        }),
{
    assert(app.input_buffer.push(c) =~= app.input_buffer + seq![c]);
    assert(app.input_buffer.push('\n') =~= app.input_buffer + seq!['\n']);
    if app.input_buffer.len() > 0 {
        assert(app.input_buffer.drop_last() =~= app.input_buffer.take(
            app.input_buffer.len() - 1,
        ));
    }
}

/// Enter sends the message that was typed to the agent that is viewed, over its
/// channel and as it was typed. It stands last in that agent's history, the
/// buffer is empty, insert mode is off, and the conversation follows its bottom.
pub proof fn law_enter_prompts_the_viewed_agent(app: AppView, id: Seq<char>, key: KeyEvent)
    requires
        typing_to(app, id),
        app.knows(id),
        app.input_buffer.len() > 0,
        key.code == KeyCode::Enter,
        !key.modifiers.alt,
        !key.modifiers.shift,
    ensures
        ({
            let after = app.key_pressed(key);
            &&& after.effects == app.effects.push(
                EffectView::SendPrompt {
                    agent_id: id,
                    channel: app.agent(id).prompt_tx,
                    text: app.input_buffer,
                },
            )
            &&& after.agents == app.agents.update(
                app.index(id) as int,
                AgentView {
                    history: app.agent(id).history.push(
                        HistoryEntryView::Prompt(app.input_buffer),
                    ),
                    ..app.agent(id)
                },
            )
            &&& after.screen matches ScreenView::AgentSession {
                agent_id,
                scroll,
                input_mode,
                focus,
                side_pane,
            } && agent_id == id && scroll == usize::MAX && !input_mode && side_pane == app.pane()
            &&& after == AppView {
                agents: after.agents,
                screen: after.screen,
                effects: after.effects,
                input_buffer: Seq::empty(),
                slash_selected: 0,
                status_message: None,
                ..app
            }
        }),
{
}

/// Enter on an empty message sends nothing and leaves insert mode.
pub proof fn law_enter_on_an_empty_message_leaves_insert_mode(
    app: AppView,
    id: Seq<char>,
    key: KeyEvent,
)
    requires
        typing_to(app, id),
        app.input_buffer.len() == 0,
        key.code == KeyCode::Enter,
        !key.modifiers.alt,
        !key.modifiers.shift,
    ensures
        app.key_pressed(key) == (AppView {
            screen: not_typing(app.screen),
            slash_selected: 0,
            status_message: None,
            ..app
        }),
{
}

/// While the popover shows commands, Up and Down move its highlight round, and
/// Tab turns what is typed into a slash, the name of the highlighted command and
/// a blank. Without commands to show these keys do nothing.
pub proof fn law_the_popover_is_worked_with_the_keyboard(
    app: AppView,
    id: Seq<char>,
    key: KeyEvent,
    prefix: Seq<char>,
)
    requires
        typing_to(app, id),
        app.knows(id),
        app.agent(id).available_commands.len() > 0,
        app.input_buffer == seq!['/'] + prefix,
        forall|i: int| 0 <= i < prefix.len() ==> !crate::text::is_space(#[trigger] prefix[i]),
    ensures
        ({
            let found = matching(app.agent(id).available_commands, prefix);
            let after = app.key_pressed(key);
            let quiet = AppView { status_message: None, ..app };
            &&& found.len() == 0 && (key.code == KeyCode::Up || key.code == KeyCode::Down || key.code
                == KeyCode::Tab) ==> after == quiet
            &&& app.slash_selected < found.len() <= usize::MAX ==> {
                let at = app.slash_selected as int;
                &&& key.code == KeyCode::Down ==> after == AppView {
                    slash_selected: (if at + 1 == found.len() {
                        0
                    } else {
                        at + 1
                    }) as usize,
                    ..quiet
                }
                &&& key.code == KeyCode::Up ==> after == AppView {
                    slash_selected: (if at == 0 {
                        found.len() - 1
                    } else {
                        at - 1
                    }) as usize,
                    ..quiet
                }
                &&& key.code == KeyCode::Tab ==> after == AppView {
                    input_buffer: "/"@ + found[at].name + " "@,
                    slash_selected: 0,
                    ..quiet
                }
            }
        }),
{
    let buffer = app.input_buffer;
    assert forall|i: int| 1 <= i < buffer.len() implies !crate::text::is_space(
        #[trigger] buffer[i],
    ) by {
        assert(buffer[i] == prefix[i - 1]);
    }
    assert(buffer.skip(1) =~= prefix);
    assert(crate::ui::slash_popover::slash_prefix(buffer) == Some(prefix));
    let found = matching(app.agent(id).available_commands, prefix);
    if app.slash_selected < found.len() <= usize::MAX {
        lemma_ring(app.slash_selected, found.len());
    }
}

/// Where the message is no command, the keys of the popover do nothing.
pub proof fn law_without_a_command_there_is_no_popover(
    app: AppView,
    id: Seq<char>,
    key: KeyEvent,
)
    requires
        typing_to(app, id),
        app.input_buffer.len() == 0 || app.input_buffer[0] != '/' || !app.knows(id) || app.agent(
            id,
        ).available_commands.len() == 0,
        key.code == KeyCode::Up || key.code == KeyCode::Down || key.code == KeyCode::Tab,
    ensures
        app.slash_matches(id) is None,
        app.key_pressed(key) == (AppView { status_message: None, ..app }),
{
    let s = AppView { status_message: None, ..app };
    assert(s.slash_matches(id) == app.slash_matches(id));
}

// ─── Keys of the explorer ──────────────────────────────────────────────

/// Whether the explorer has the keyboard and this key is bound to no action.
pub open spec fn explorer_has(app: AppView, key: KeyEvent) -> bool {
    &&& app.permission_pending is None && app.inbox.len() == 0
    &&& !app.command_mode && !app.search_mode
    &&& app.screen matches ScreenView::AgentSession { focus, input_mode, .. } && focus
        == SessionFocus::Explorer && !input_mode
    &&& app.config.bindings.first_action(key, 0) is None
    &&& !key.modifiers.control
}

/// `r` reads the tree anew: what was listed is forgotten, and the git status is
/// refreshed.
pub proof fn law_r_reads_the_tree_anew(app: AppView, key: KeyEvent)
    requires
        explorer_has(app, key),
        key.code == KeyCode::Char('r'),
    ensures
        ({
            let after = app.key_pressed(key);
            &&& after.explorer.dirs.is_empty() && after.explorer.loading.is_empty()
            &&& after.explorer == ExplorerView {
                dirs: after.explorer.dirs,
                loading: after.explorer.loading,
                is_refreshing: after.explorer.is_refreshing,
                refresh_pending: after.explorer.refresh_pending,
                ..app.explorer
            }
            &&& asks(app, after, refresh_of(app.explorer))
            &&& after == AppView {
                explorer: after.explorer,
                effects: after.effects,
                status_message: None,
                ..app
            }
        }),
{
    let s = AppView {
        status_message: None,
        explorer: ExplorerView { dirs: Map::empty(), loading: Set::empty(), ..app.explorer },
        ..app
    };
    law_a_refresh_asks_for_the_shown_workspace(s);
    assert(refresh_of(s.explorer) == refresh_of(app.explorer));
}

/// `.` shows ignored files where they were hidden and hides them where they were
/// shown, and asks for the git status that goes with it.
pub proof fn law_dot_toggles_ignored_files(app: AppView, key: KeyEvent)
    requires
        explorer_has(app, key),
        key.code == KeyCode::Char('.'),
    ensures
        ({
            let after = app.key_pressed(key);
            let toggled = ExplorerView { show_ignored: !app.explorer.show_ignored, ..app.explorer };
            &&& after.explorer.show_ignored == !app.explorer.show_ignored
            &&& after.explorer == ExplorerView {
                is_refreshing: after.explorer.is_refreshing,
                refresh_pending: after.explorer.refresh_pending,
                ..toggled
            }
            &&& asks(app, after, refresh_of(toggled))
            &&& after == AppView {
                explorer: after.explorer,
                effects: after.effects,
                status_message: None,
                ..app
            }
        }),
{
    let toggled = ExplorerView { show_ignored: !app.explorer.show_ignored, ..app.explorer };
    let s = AppView { status_message: None, explorer: toggled, ..app };
    law_a_refresh_asks_for_the_shown_workspace(s);
}

/// `@` puts a reference to the selected row at the end of the message, set off
/// by a blank on both sides, and goes on typing it.
pub proof fn law_at_refers_to_the_selected_row(app: AppView, key: KeyEvent)
    requires
        explorer_has(app, key),
        key.code == KeyCode::Char('@'),
        app.explorer.selected_row() is Some,
    ensures
        ({
            let after = app.key_pressed(key);
            let path = app.explorer.selected_row()->0.path;
            let kept = if app.input_buffer.len() > 0 && app.input_buffer.last() != ' ' {
                app.input_buffer + seq![' ']
            } else {
                app.input_buffer
            };
            &&& after.input_buffer == kept + seq!['@'] + path + " "@
            &&& after.screen matches ScreenView::AgentSession {
                agent_id,
                focus,
                side_pane,
                scroll,
                input_mode,
            } && Some(agent_id) == app.viewed() && focus == SessionFocus::Conversation
                && side_pane == app.pane() && input_mode
            &&& after == AppView {
                input_buffer: after.input_buffer,
                screen: after.screen,
                status_message: None,
                ..app
            }
        }),
{
    let kept = if app.input_buffer.len() > 0 && app.input_buffer.last() != ' ' {
        app.input_buffer + seq![' ']
    } else {
        app.input_buffer
    };
    assert(app.input_buffer.push(' ') =~= app.input_buffer + seq![' ']);
    assert(kept.push('@') =~= kept + seq!['@']);
}

/// `D` asks for the diff of the selected file, for the viewed agent and at its
/// full path; on a directory it asks for nothing.
pub proof fn law_d_asks_for_the_diff_of_the_selected_file(
    app: AppView,
    key: KeyEvent,
    id: Seq<char>,
)
    requires
        explorer_has(app, key),
        key.code == KeyCode::Char('D'),
        app.viewed() == Some(id),
    ensures
        ({
            let after = app.key_pressed(key);
            let quiet = AppView { status_message: None, ..app };
            match (app.explorer.selected_row(), app.explorer.fs) {
                (Some(row), Some(fs)) if !row.is_dir => after == AppView {
                    effects: app.effects.push(
                        EffectView::ReadDiff {
                            fs,
                            agent_id: id,
                            rel: row.path,
                            full_path: crate::paths::path_join(fs.root, row.path),
                        },
                    ),
                    ..quiet
                },
                _ => after == quiet,
            }
        }),
{
}

/// `/` opens an empty search prompt for files inside a container; for files on
/// the host it says why it does not.
pub proof fn law_slash_opens_the_search_prompt(app: AppView, key: KeyEvent)
    requires
        explorer_has(app, key),
        key.code == KeyCode::Char('/'),
    ensures
        ({
            let after = app.key_pressed(key);
            let inside = match app.explorer.fs {
                Some(fs) => fs.remote is Some,
                None => false,
            };
            &&& inside ==> after == AppView {
                search_mode: true,
                search_query: Seq::empty(),
                status_message: None,
                ..app
            }
            &&& !inside ==> after == AppView {
                status_message: Some("Search needs a container-backed workspace"@),
                ..app
            }
        }),
{
}

/// A key that is bound to nothing and means nothing to the explorer does nothing,
/// and outside of the explorer every such key does.
pub proof fn law_an_unbound_key_does_nothing(app: AppView, key: KeyEvent)
    requires
        app.permission_pending is None,
        app.inbox.len() == 0,
        !app.command_mode,
        !app.search_mode,
        app.config.bindings.first_action(key, 0) is None,
        match app.screen {
            ScreenView::AgentSession { focus, input_mode, .. } => !input_mode && (focus
                != SessionFocus::Explorer || key.modifiers.control || match key.code {
                KeyCode::Char(c) => c != 'r' && c != '.' && c != '@' && c != 'D' && c != '/',
                _ => true,
            }),
            ScreenView::AgentList { .. } => true,
        },
    ensures
        app.key_pressed(key) == (AppView { status_message: None, ..app }),
{
}

} // verus!
