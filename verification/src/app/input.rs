//! Keyboard input and change-event handling for [`App`]: the modal key
//! dispatcher, permission-popup resolution, slash-command matching, and
//! filesystem change reactions.
use crate::agent::{opt_text, AvailableCommand, AvailableCommandView};
use crate::app::actions::{
    handle_list_action, handle_session_action, list_action, session_action, step_back,
    step_forward, wrap_next, wrap_prev, PanesView,
};
use crate::app::{App, AppView, PendingPermissionView};
use crate::config::Action;
use crate::effect::{Effect, EffectView};
use crate::event::{option_views, ChangeEvent};
use crate::explorer::ExplorerView;
use crate::keybind::{KeyCode, KeyEvent};
use crate::order::all_views;
use crate::text::{chars_of, concat3, has_prefix, position_in, same, split_once, starts_with, take_text, text_of};
use crate::types::{Screen, ScreenView, SessionFocus, SidePane, SidePaneView};
use crate::ui::slash_popover::{
    completion, completion_for, extract_prefix, filter, matching, slash_prefix,
};
use vstd::prelude::*;
use vstd::string::*;

verus! {

/// Index of the first option that allows the tool call, or the number of
/// options.
pub open spec fn allow_index(options: Seq<(Seq<char>, Seq<char>, Seq<char>)>) -> nat
    decreases options.len(),
{
    if options.len() == 0 {
        0
    } else if has_prefix(options[0].2, "allow"@) {
        0
    } else {
        1 + allow_index(options.drop_first())
    }
}

/// A command line as its verb and the path behind it.
pub open spec fn command_and_path(line: Seq<char>) -> (Seq<char>, Seq<char>) {
    match split_once(line, ' ') {
        Some((verb, rest)) => (verb, rest),
        None => (line, seq![]),
    }
}

/// What is typed to refer to a file: a reference is set off by spaces.
pub open spec fn with_reference(buffer: Seq<char>, path: Seq<char>) -> Seq<char> {
    (if buffer.len() > 0 && buffer.last() != ' ' {
        buffer.push(' ')
    } else {
        buffer
    }).push('@') + path + " "@
}

impl AppView {
    // ─── Permission popup ──────────────────────────────────────────────

    /// The state after the permission request was answered, with an option or
    /// with none.
    pub open spec fn permission_resolved(self, choice: Option<nat>) -> AppView {
        match self.permission_pending {
            None => self,
            Some(perm) => AppView { permission_pending: None, ..self }.emit(
                EffectView::ReplyPermission {
                    reply: perm.reply,
                    option_id: match choice {
                        Some(i) if i < perm.options.len() => Some(perm.options[i as int].0),
                        _ => None,
                    },
                },
            ),
        }
    }

    /// The state with another option of the popup highlighted.
    pub open spec fn option_highlighted(self, at: usize) -> AppView {
        AppView {
            permission_pending: Some(
                PendingPermissionView { selected: at, ..self.permission_pending->0 },
            ),
            ..self
        }
    }

    /// What a key does while the permission popup is open.
    pub open spec fn permission_key(self, code: KeyCode) -> AppView {
        let perm = self.permission_pending->0;
        let count = perm.options.len();
        match code {
            KeyCode::Up => self.option_moved_up(),
            KeyCode::Char('k') => self.option_moved_up(),
            KeyCode::Down => self.option_moved_down(),
            KeyCode::Char('j') => self.option_moved_down(),
            KeyCode::Enter => self.permission_resolved(Some(perm.selected as nat)),
            KeyCode::Char(' ') => self.permission_resolved(Some(perm.selected as nat)),
            KeyCode::Esc => self.permission_resolved(None),
            KeyCode::Char('n') => self.permission_resolved(None),
            KeyCode::Char('q') => self.permission_resolved(None),
            KeyCode::Char('y') => if allow_index(perm.options) < count {
                self.permission_resolved(Some(allow_index(perm.options)))
            } else {
                self
            },
            KeyCode::Char(c) => if '1' <= c <= '9' && count > (c as int) - ('1' as int) {
                self.permission_resolved(Some(((c as int) - ('1' as int)) as nat))
            } else {
                self
            },
            _ => self,
        }
    }

    /// The state with the option above highlighted.
    pub open spec fn option_moved_up(self) -> AppView {
        let perm = self.permission_pending->0;
        if perm.options.len() > 0 {
            self.option_highlighted(step_back(perm.selected, perm.options.len()))
        } else {
            self
        }
    }

    /// The state with the option below highlighted.
    pub open spec fn option_moved_down(self) -> AppView {
        let perm = self.permission_pending->0;
        if perm.options.len() > 0 {
            self.option_highlighted(step_forward(perm.selected, perm.options.len()))
        } else {
            self
        }
    }

    // ─── Inbox modal ───────────────────────────────────────────────────

    /// What a key does while a message waits for approval.
    pub open spec fn inbox_key(self, code: KeyCode) -> AppView {
        match code {
            KeyCode::Enter => self.inbox_resolved(true),
            KeyCode::Char('y') => self.inbox_resolved(true),
            KeyCode::Esc => self.inbox_resolved(false),
            KeyCode::Char('n') => self.inbox_resolved(false),
            _ => self,
        }
    }

    // ─── Command line ──────────────────────────────────────────────────

    /// What a key does on the `:` command line.
    pub open spec fn command_key(self, code: KeyCode) -> AppView {
        match code {
            KeyCode::Esc => AppView { command_mode: false, command_buffer: seq![], ..self }.emit(
                EffectView::ResetCompleter,
            ),
            KeyCode::Enter => AppView { command_mode: false, command_buffer: seq![], ..self }.emit(
                EffectView::ResetCompleter,
            ).executed(self.command_buffer),
            KeyCode::Tab => self.completion_asked(false),
            KeyCode::BackTab => self.completion_asked(true),
            KeyCode::Backspace => if self.command_buffer.len() == 0 {
                AppView { command_mode: false, ..self }.emit(EffectView::ResetCompleter)
            } else {
                AppView { command_buffer: self.command_buffer.drop_last(), ..self }.emit(
                    EffectView::ResetCompleter,
                )
            },
            KeyCode::Char(c) => AppView { command_buffer: self.command_buffer.push(c), ..self }.emit(
                EffectView::ResetCompleter,
            ),
            _ => self,
        }
    }

    /// The state after a completion of the path was asked for: only the
    /// commands that take a path have one.
    pub open spec fn completion_asked(self, backward: bool) -> AppView {
        let (verb, partial) = command_and_path(self.command_buffer);
        if verb == "open"@ || verb == "o"@ {
            self.emit(EffectView::CompletePath { verb, partial, backward })
        } else {
            self
        }
    }

    /// The state with a path that was completed.
    pub open spec fn path_completed(self, verb: Seq<char>, path: Option<Seq<char>>) -> AppView {
        match path {
            Some(path) if self.command_mode => AppView {
                command_buffer: verb + " "@ + path,
                ..self
            },
            _ => self,
        }
    }

    // ─── Search prompt ─────────────────────────────────────────────────

    /// What a key does while a search query is typed.
    pub open spec fn search_key(self, code: KeyCode) -> AppView {
        match code {
            KeyCode::Esc => AppView { search_mode: false, search_query: seq![], ..self },
            KeyCode::Enter => AppView {
                search_mode: false,
                search_query: seq![],
                ..self
            }.search_launched(self.search_query),
            KeyCode::Backspace => if self.search_query.len() == 0 {
                AppView { search_mode: false, ..self }
            } else {
                AppView { search_query: self.search_query.drop_last(), ..self }
            },
            KeyCode::Char(c) => AppView { search_query: self.search_query.push(c), ..self },
            _ => self,
        }
    }

    // ─── Composing a message ───────────────────────────────────────────

    /// Whether the user is typing a message to an agent.
    pub open spec fn composing(self) -> bool {
        match self.screen {
            ScreenView::AgentSession { input_mode, .. } => input_mode,
            _ => false,
        }
    }

    /// The state with insert mode off.
    pub open spec fn done_composing(self) -> AppView {
        match self.screen {
            ScreenView::AgentSession { agent_id, focus, side_pane, scroll, input_mode } => AppView {
                screen: ScreenView::AgentSession {
                    agent_id,
                    focus,
                    side_pane,
                    scroll,
                    input_mode: false,
                },
                ..self
            },
            _ => self,
        }
    }

    /// The slash commands that the popover shows for an agent, or none when it
    /// is closed.
    pub open spec fn slash_matches(self, id: Seq<char>) -> Option<Seq<AvailableCommandView>> {
        match slash_prefix(self.input_buffer) {
            Some(prefix) => if self.knows(id) && self.agent(id).available_commands.len() > 0 {
                Some(matching(self.agent(id).available_commands, prefix))
            } else {
                None
            },
            None => None,
        }
    }

    /// The state with another buffer; the popover starts from its top.
    pub open spec fn typed(self, buffer: Seq<char>) -> AppView {
        AppView { input_buffer: buffer, slash_selected: 0, ..self }
    }

    /// The state after the message was sent, if there is one.
    pub open spec fn message_sent(self, id: Seq<char>) -> AppView {
        let text = self.input_buffer;
        let s = self.typed(seq![]);
        (if text.len() > 0 {
            s.prompted(id, text).following(id)
        } else {
            s
        }).done_composing()
    }

    /// What a key does while a message is typed.
    pub open spec fn input_key(self, key: KeyEvent, id: Seq<char>) -> AppView {
        match key.code {
            KeyCode::Esc => self.typed(seq![]).done_composing(),
            KeyCode::Up => match self.slash_matches(id) {
                Some(found) if found.len() > 0 => AppView {
                    slash_selected: step_back(self.slash_selected, found.len()),
                    ..self
                },
                _ => self,
            },
            KeyCode::Down => match self.slash_matches(id) {
                Some(found) if found.len() > 0 => AppView {
                    slash_selected: step_forward(self.slash_selected, found.len()),
                    ..self
                },
                _ => self,
            },
            KeyCode::Tab => match self.slash_matches(id) {
                Some(found) if found.len() > 0 => {
                    let k = if self.slash_selected < found.len() {
                        self.slash_selected as int
                    } else {
                        found.len() - 1
                    };
                    self.typed(completion(found[k].name))
                },
                _ => self,
            },
            KeyCode::Enter => if key.modifiers.alt || key.modifiers.shift {
                AppView { input_buffer: self.input_buffer.push('\n'), ..self }
            } else {
                self.message_sent(id)
            },
            KeyCode::Backspace => self.typed(
                if self.input_buffer.len() > 0 {
                    self.input_buffer.drop_last()
                } else {
                    self.input_buffer
                },
            ),
            KeyCode::Char(c) => self.typed(self.input_buffer.push(c)),
            _ => self,
        }
    }

    // ─── Keys of the explorer ──────────────────────────────────────────

    /// Whether the explorer has the focus.
    pub open spec fn exploring(self) -> bool {
        match self.screen {
            ScreenView::AgentSession { focus, .. } => focus == SessionFocus::Explorer,
            _ => false,
        }
    }

    /// The state with the selected file referred to in the message.
    pub open spec fn reference_inserted(self) -> AppView {
        match self.explorer.selected_row() {
            None => self,
            Some(row) => {
                let s = AppView {
                    input_buffer: with_reference(self.input_buffer, row.path),
                    ..self
                };
                match self.screen {
                    ScreenView::AgentSession { agent_id, focus, side_pane, scroll, input_mode } =>
                        AppView {
                        screen: ScreenView::AgentSession {
                            agent_id,
                            focus: SessionFocus::Conversation,
                            side_pane,
                            scroll,
                            input_mode: true,
                        },
                        ..s
                    },
                    _ => s,
                }
            },
        }
    }

    /// What a key does that is bound to no action: the explorer has a few of
    /// its own.
    pub open spec fn unbound_key(self, key: KeyEvent) -> AppView {
        if !self.exploring() || key.modifiers.control {
            self
        } else {
            match key.code {
                KeyCode::Char('r') => AppView {
                    explorer: ExplorerView {
                        dirs: Map::empty(),
                        loading: Set::empty(),
                        ..self.explorer
                    },
                    ..self
                }.refresh_requested(),
                KeyCode::Char('.') => AppView {
                    explorer: ExplorerView {
                        show_ignored: !self.explorer.show_ignored,
                        ..self.explorer
                    },
                    ..self
                }.refresh_requested(),
                KeyCode::Char('@') => self.reference_inserted(),
                KeyCode::Char('D') => match self.explorer.selected_row() {
                    Some(row) if !row.is_dir => self.diff_requested(row.path),
                    _ => self,
                },
                KeyCode::Char('/') => match self.explorer.fs {
                    Some(fs) if fs.remote is Some => AppView {
                        search_mode: true,
                        search_query: seq![],
                        ..self
                    },
                    _ => self.say("Search needs a container-backed workspace"@),
                },
                _ => self,
            }
        }
    }

    // ─── Actions ───────────────────────────────────────────────────────

    /// What an action does to the screen it is performed on, and the screen to
    /// go to.
    pub open spec fn dispatched(self, action: Action) -> (AppView, Option<ScreenView>) {
        match self.screen {
            ScreenView::AgentList { selected } => {
                let (to, quit, next) = list_action(
                    action,
                    selected,
                    self.agents,
                    self.should_quit,
                );
                (
                    AppView {
                        screen: ScreenView::AgentList { selected: to },
                        should_quit: quit,
                        ..self
                    },
                    next,
                )
            },
            ScreenView::AgentSession { agent_id, focus, side_pane, scroll, input_mode } => {
                let panes = PanesView { focus, side_pane, scroll, explorer: self.explorer };
                let (after, next) = session_action(action, agent_id, panes, self.agents);
                (
                    AppView {
                        screen: ScreenView::AgentSession {
                            agent_id,
                            focus: after.focus,
                            side_pane: after.side_pane,
                            scroll: after.scroll,
                            input_mode,
                        },
                        explorer: after.explorer,
                        ..self
                    },
                    next,
                )
            },
        }
    }

    /// The state on the screen to go to: entering a session connects its agent.
    pub open spec fn gone_to(self, next: Option<ScreenView>) -> AppView {
        match next {
            None => self,
            Some(screen) => match screen {
                ScreenView::AgentSession { agent_id, .. } => AppView { screen, ..self }.connected(
                    agent_id,
                ),
                _ => AppView { screen, ..self },
            },
        }
    }

    /// The state after a search whose pane is gone was stopped.
    pub open spec fn lost_search_cancelled(self, running: Option<u64>) -> AppView {
        match running {
            Some(id) if self.running_search() != Some(id) => self.search_cancelled(id),
            _ => self,
        }
    }

    /// What an action does.
    pub open spec fn acted(self, action: Action) -> AppView {
        if action == Action::Command {
            AppView { command_mode: true, command_buffer: seq![], ..self }
        } else {
            let (s, next) = self.dispatched(action);
            let t = s.gone_to(next).lost_search_cancelled(self.running_search());
            if action == Action::ToggleExplorer && t.explorer.open && t.explorer.fs is Some {
                t.refresh_requested()
            } else {
                t
            }
        }
    }

    /// What a key does. It goes to whatever captures the keyboard: the
    /// permission popup, the inbox modal, the command line, the search prompt,
    /// the message being typed, or else the bindings.
    pub open spec fn key_pressed(self, key: KeyEvent) -> AppView {
        let s = AppView { status_message: None, ..self };
        if s.permission_pending is Some {
            s.permission_key(key.code)
        } else if s.inbox.len() > 0 {
            s.inbox_key(key.code)
        } else if s.command_mode {
            s.command_key(key.code)
        } else if s.search_mode {
            s.search_key(key.code)
        } else if s.composing() {
            s.input_key(key, s.viewed()->0)
        } else {
            match s.config.bindings.first_action(key, 0) {
                Some(action) => s.acted(action),
                None => s.unbound_key(key),
            }
        }
    }

    /// The state after a file changed: a pane that nobody opened shows it, and
    /// the git status is refreshed.
    pub open spec fn changed(self, path: Seq<char>, content: Option<Seq<char>>) -> AppView {
        let shown = self.with_pane(
            Some(
                SidePaneView::Diff {
                    path,
                    content: match content {
                        Some(text) => text,
                        None => seq![],
                    },
                    scroll: 0,
                },
            ),
        );
        let s = if self.pane() is None || self.pane()->0 is Diff {
            shown
        } else {
            self
        };
        if s.explorer.fs is Some {
            s.refresh_requested()
        } else {
            s
        }
    }
}

/// Index of the first option that allows the tool call, or the number of
/// options.
fn find_allow(options: &Vec<(String, String, String)>) -> (k: usize)
    ensures
        k == allow_index(option_views(options@)),
        k <= options@.len(),
{
    let ghost all = option_views(options@);
    let mut i: usize = 0;
    proof {
        assert(all.skip(0) =~= all);
    }
    while i < options.len()
        invariant
            i <= options@.len(),
            all == option_views(options@),
            allow_index(all) == i + allow_index(all.skip(i as int)),
        decreases options@.len() - i,
    {
        proof {
            assert(all.skip(i as int)[0] == all[i as int]);
            assert(all.skip(i as int).drop_first() =~= all.skip(i + 1));
        }
        if starts_with(options[i].2.as_str(), "allow") {
            return i;
        }
        i = i + 1;
    }
    i
}

/// A command line as its verb and the path behind it.
pub fn split_command_and_path(line: &str) -> (r: (String, String))
    ensures
        (r.0@, r.1@) == command_and_path(line@),
{
    let v = chars_of(line);
    let k: usize = position_in(v.as_slice(), ' ');
    if k < v.len() {
        let verb = text_of(v.as_slice(), 0, k);
        let rest = text_of(v.as_slice(), k + 1, v.len());
        proof {
            assert(verb@ =~= line@.take(k as int));
            assert(rest@ =~= line@.skip(k + 1));
        }
        (verb, rest)
    } else {
        let rest = String::new();
        proof {
            assert(rest@ =~= seq![]);
        }
        (line.to_owned(), rest)
    }
}

impl App {
    /// Answer the pending permission request and tear down the popup. `choice`
    /// is the index of the option to select, or `None` to reject.
    pub fn resolve_permission(&mut self, choice: Option<usize>)
        ensures
            final(self)@ == old(self)@.permission_resolved(
                match choice {
                    Some(i) => Some(i as nat),
                    None => None,
                },
            ),
    {
        let pending = self.permission_pending.take();
        match pending {
            None => {},
            Some(perm) => {
                let option_id = match choice {
                    Some(i) => {
                        if i < perm.options.len() {
                            Some(perm.options[i].0.clone())
                        } else {
                            None
                        }
                    },
                    None => None,
                };
                self.emit(Effect::ReplyPermission { reply: perm.reply, option_id });
            },
        }
    }

    /// Highlight another option of the permission popup.
    fn move_option(&mut self, up: bool)
        requires
            old(self).permission_pending is Some,
        ensures
            final(self)@ == (if up {
                old(self)@.option_moved_up()
            } else {
                old(self)@.option_moved_down()
            }),
    {
        match &mut self.permission_pending {
            Some(perm) => {
                let count: usize = perm.options.len();
                if count > 0 {
                    perm.selected = if up {
                        wrap_prev(perm.selected, count)
                    } else {
                        wrap_next(perm.selected, count)
                    };
                }
            },
            None => {},
        }
    }

    /// Handle a key while the permission popup is open. It fully owns the
    /// keyboard: up and down (or `k` and `j`) move the highlight, Enter and
    /// Space pick the highlighted option, `1` to `9` pick directly, `y` allows,
    /// and Esc (or `n` and `q`) rejects.
    fn handle_permission_key(&mut self, code: KeyCode)
        requires
            old(self).permission_pending is Some,
        ensures
            final(self)@ == old(self)@.permission_key(code),
    {
        let (count, selected, allow): (usize, usize, usize) = match &self.permission_pending {
            Some(perm) => (perm.options.len(), perm.selected, find_allow(&perm.options)),
            None => (0, 0, 0),
        };
        match code {
            KeyCode::Up => self.move_option(true),
            KeyCode::Down => self.move_option(false),
            KeyCode::Enter => self.resolve_permission(Some(selected)),
            KeyCode::Esc => self.resolve_permission(None),
            KeyCode::Char(c) => {
                if c == 'k' {
                    self.move_option(true);
                } else if c == 'j' {
                    self.move_option(false);
                } else if c == ' ' {
                    self.resolve_permission(Some(selected));
                } else if c == 'n' || c == 'q' {
                    self.resolve_permission(None);
                } else if c == 'y' {
                    if allow < count {
                        self.resolve_permission(Some(allow));
                    }
                } else if '1' <= c && c <= '9' {
                    let idx: usize = ((c as u32) - ('1' as u32)) as usize;
                    if idx < count {
                        self.resolve_permission(Some(idx));
                    }
                }
            },
            _ => {},
        }
    }

    /// Handle a key while a message waits for approval. The modal fully owns
    /// the keyboard.
    fn handle_inbox_key(&mut self, code: KeyCode)
        ensures
            final(self)@ == old(self)@.inbox_key(code),
    {
        match code {
            KeyCode::Enter => self.resolve_inbox(true),
            KeyCode::Esc => self.resolve_inbox(false),
            KeyCode::Char(c) => {
                if c == 'y' {
                    self.resolve_inbox(true);
                } else if c == 'n' {
                    self.resolve_inbox(false);
                }
            },
            _ => {},
        }
    }

    /// Handle a key of the `:` command line.
    fn handle_command_key(&mut self, code: KeyCode)
        ensures
            final(self)@ == old(self)@.command_key(code),
    {
        match code {
            KeyCode::Esc => {
                self.command_mode = false;
                let _dropped = take_text(&mut self.command_buffer);
                self.emit(Effect::ResetCompleter);
            },
            KeyCode::Enter => {
                let cmd = take_text(&mut self.command_buffer);
                self.command_mode = false;
                self.emit(Effect::ResetCompleter);
                self.execute_command(cmd.as_str());
            },
            KeyCode::Tab => self.ask_completion(false),
            KeyCode::BackTab => self.ask_completion(true),
            KeyCode::Backspace => {
                let popped = self.command_buffer.pop();
                if popped.is_none() {
                    self.command_mode = false;
                }
                self.emit(Effect::ResetCompleter);
            },
            KeyCode::Char(c) => {
                self.command_buffer.push(c);
                self.emit(Effect::ResetCompleter);
            },
            _ => {},
        }
    }

    /// Ask for the path of the command line to be completed.
    fn ask_completion(&mut self, backward: bool)
        ensures
            final(self)@ == old(self)@.completion_asked(backward),
    {
        let (verb, partial) = split_command_and_path(self.command_buffer.as_str());
        if same(verb.as_str(), "open") || same(verb.as_str(), "o") {
            self.emit(Effect::CompletePath { verb, partial, backward });
        }
    }

    /// Put a completed path into the command line.
    pub(crate) fn complete_path(&mut self, verb: String, path: Option<String>)
        ensures
            final(self)@ == old(self)@.path_completed(verb@, opt_text(path)),
    {
        match path {
            Some(path) => {
                if self.command_mode {
                    self.command_buffer = concat3(verb.as_str(), " ", path.as_str());
                }
            },
            None => {},
        }
    }

    /// Handle a key of the search prompt. Enter launches the search, Esc
    /// aborts.
    fn handle_search_key(&mut self, code: KeyCode)
        ensures
            final(self)@ == old(self)@.search_key(code),
    {
        match code {
            KeyCode::Esc => {
                self.search_mode = false;
                let _dropped = take_text(&mut self.search_query);
            },
            KeyCode::Enter => {
                self.search_mode = false;
                let query = take_text(&mut self.search_query);
                self.launch_search(query);
            },
            KeyCode::Backspace => {
                let popped = self.search_query.pop();
                if popped.is_none() {
                    self.search_mode = false;
                }
            },
            KeyCode::Char(c) => {
                self.search_query.push(c);
            },
            _ => {},
        }
    }

    /// The (alphabetically-ordered) slash-command matches for the current
    /// input buffer when the popover should be visible for `agent_id`, or
    /// `None` when the popover is closed (the buffer doesn't look like a
    /// command, or the agent hasn't advertised any commands).
    pub fn slash_matches_for(&self, agent_id: &str) -> (r: Option<Vec<&AvailableCommand>>)
        ensures
            match r {
                Some(v) => self@.slash_matches(agent_id@) == Some(all_views(v@)),
                None => self@.slash_matches(agent_id@) is None,
            },
    {
        let prefix = match extract_prefix(self.input_buffer.as_str()) {
            Some(p) => p,
            None => {
                return None;
            },
        };
        let k: usize = self.index_of(agent_id);
        if k >= self.agents.len() || self.agents[k].available_commands.len() == 0 {
            return None;
        }
        Some(filter(&self.agents[k].available_commands, prefix))
    }

    /// Leave insert mode.
    fn leave_input(&mut self)
        ensures
            final(self)@ == old(self)@.done_composing(),
    {
        match &mut self.screen {
            Screen::AgentSession { input_mode, .. } => {
                *input_mode = false;
            },
            _ => {},
        }
    }

    /// Send the message that was typed, if there is one.
    fn send_input(&mut self, agent_id: &str)
        ensures
            final(self)@ == old(self)@.message_sent(agent_id@),
    {
        let message = take_text(&mut self.input_buffer);
        self.slash_selected = 0;
        proof {
            assert(self@ =~= old(self)@.typed(seq![]));
        }
        if !message.as_str().is_empty() {
            self.prompt_agent(agent_id, message);
            self.auto_scroll_for(agent_id);
        }
        self.leave_input();
    }

    /// Handle a key while the user types a message to an agent.
    fn handle_input_key(&mut self, key: KeyEvent, agent_id: &str)
        ensures
            final(self)@ == old(self)@.input_key(key, agent_id@),
    {
        match key.code {
            KeyCode::Esc => {
                let _dropped = take_text(&mut self.input_buffer);
                self.slash_selected = 0;
                self.leave_input();
            },
            KeyCode::Up => {
                let count: usize = match self.slash_matches_for(agent_id) {
                    Some(found) => found.len(),
                    None => 0,
                };
                if count > 0 {
                    self.slash_selected = wrap_prev(self.slash_selected, count);
                }
            },
            KeyCode::Down => {
                let count: usize = match self.slash_matches_for(agent_id) {
                    Some(found) => found.len(),
                    None => 0,
                };
                if count > 0 {
                    self.slash_selected = wrap_next(self.slash_selected, count);
                }
            },
            KeyCode::Tab => {
                let picked = match self.slash_matches_for(agent_id) {
                    Some(found) => {
                        if found.len() > 0 {
                            let k: usize = if self.slash_selected < found.len() {
                                self.slash_selected
                            } else {
                                found.len() - 1
                            };
                            proof {
                                assert(all_views(found@)[k as int] == found@[k as int]@);
                            }
                            Some(completion_for(found[k].name.as_str()))
                        } else {
                            None
                        }
                    },
                    None => None,
                };
                match picked {
                    Some(buffer) => {
                        self.input_buffer = buffer;
                        self.slash_selected = 0;
                    },
                    None => {},
                }
            },
            KeyCode::Enter => {
                if key.modifiers.alt || key.modifiers.shift {
                    self.input_buffer.push('\n');
                } else {
                    self.send_input(agent_id);
                }
            },
            KeyCode::Backspace => {
                let _popped = self.input_buffer.pop();
                self.slash_selected = 0;
            },
            KeyCode::Char(c) => {
                self.input_buffer.push(c);
                self.slash_selected = 0;
            },
            _ => {},
        }
    }

    /// Refer to the selected file in the message, and go on typing it.
    fn insert_reference(&mut self)
        ensures
            final(self)@ == old(self)@.reference_inserted(),
    {
        let path = match self.explorer.selected_entry() {
            Some(entry) => entry.path,
            None => {
                return;
            },
        };
        let v = chars_of(self.input_buffer.as_str());
        if v.len() > 0 && v[v.len() - 1] != ' ' {
            self.input_buffer.push(' ');
        }
        self.input_buffer.push('@');
        self.input_buffer.append(path.as_str());
        self.input_buffer.append(" ");
        match &mut self.screen {
            Screen::AgentSession { input_mode, focus, .. } => {
                *input_mode = true;
                *focus = SessionFocus::Conversation;
            },
            _ => {},
        }
    }

    /// Handle a key that is bound to no action: with the explorer focused, `r`
    /// refreshes, `.` toggles ignored files, `@` refers to the selected file,
    /// `D` shows its diff, and `/` searches.
    fn handle_unbound_key(&mut self, key: KeyEvent)
        ensures
            final(self)@ == old(self)@.unbound_key(key),
    {
        let exploring = match &self.screen {
            Screen::AgentSession { focus, .. } => *focus == SessionFocus::Explorer,
            _ => false,
        };
        if !exploring || key.modifiers.control {
            return;
        }
        match key.code {
            KeyCode::Char(c) => {
                if c == 'r' {
                    self.explorer.invalidate_dirs();
                    self.request_explorer_refresh();
                } else if c == '.' {
                    self.explorer.show_ignored = !self.explorer.show_ignored;
                    self.request_explorer_refresh();
                } else if c == '@' {
                    self.insert_reference();
                } else if c == 'D' {
                    match self.explorer.selected_entry() {
                        Some(entry) => {
                            if !entry.is_dir {
                                self.request_explorer_diff(entry.path);
                            }
                        },
                        None => {},
                    }
                } else if c == '/' {
                    let remote = match &self.explorer.fs {
                        Some(fs) => fs.is_remote(),
                        None => false,
                    };
                    if remote {
                        self.search_mode = true;
                        let _dropped = take_text(&mut self.search_query);
                    } else {
                        self.say("Search needs a container-backed workspace".to_owned());
                    }
                }
            },
            _ => {},
        }
    }

    /// Hand an action to the screen.
    fn dispatch(&mut self, action: Action) -> (r: Option<Screen>)
        ensures
            (final(self)@, crate::app::actions::opt_screen(r)) == old(self)@.dispatched(action),
    {
        match &mut self.screen {
            Screen::AgentList { selected } => handle_list_action(
                action,
                selected,
                &self.agents,
                &mut self.should_quit,
            ),
            Screen::AgentSession { agent_id, focus, side_pane, scroll, .. } => {
                handle_session_action(
                    action,
                    agent_id.as_str(),
                    focus,
                    side_pane,
                    scroll,
                    &self.agents,
                    &mut self.explorer,
                )
            },
        }
    }

    /// Perform an action.
    fn handle_action(&mut self, action: Action)
        ensures
            final(self)@ == old(self)@.acted(action),
    {
        if action == Action::Command {
            self.command_mode = true;
            let _dropped = take_text(&mut self.command_buffer);
            return;
        }
        let running_before = self.running_search_id();
        let next = self.dispatch(action);
        let ghost s = self@;
        match next {
            Some(next) => {
                self.screen = next;
                match self.viewed_agent_id() {
                    Some(id) => self.ensure_agent_connected(id),
                    None => {},
                }
            },
            None => {},
        }
        proof {
            assert(self@ =~= s.gone_to(old(self)@.dispatched(action).1));
        }
        match running_before {
            Some(id) => {
                let gone = match self.running_search_id() {
                    Some(now) => now != id,
                    None => true,
                };
                if gone {
                    self.cancel_search(id);
                }
            },
            None => {},
        }
        if action == Action::ToggleExplorer && self.explorer.open && self.explorer.fs.is_some() {
            self.request_explorer_refresh();
        }
    }

    /// Handle a key press. It goes to whatever captures the keyboard, so that
    /// no keystroke can leak into another handler.
    pub fn handle_key(&mut self, key: KeyEvent)
        ensures
            final(self)@ == old(self)@.key_pressed(key),
    {
        self.status_message = None;
        if self.permission_pending.is_some() {
            self.handle_permission_key(key.code);
            return;
        }
        if !self.inbox.is_empty() {
            self.handle_inbox_key(key.code);
            return;
        }
        if self.command_mode {
            self.handle_command_key(key.code);
            return;
        }
        if self.search_mode {
            self.handle_search_key(key.code);
            return;
        }
        let composing_to = match &self.screen {
            Screen::AgentSession { input_mode, agent_id, .. } => {
                if *input_mode {
                    Some(agent_id.clone())
                } else {
                    None
                }
            },
            _ => None,
        };
        match composing_to {
            Some(agent_id) => {
                self.handle_input_key(key, agent_id.as_str());
                return;
            },
            None => {},
        }
        match self.config.bindings.action_for(&key) {
            Some(action) => self.handle_action(action),
            None => self.handle_unbound_key(key),
        }
    }

    /// React to a file that changed: a pane that nobody opened shows it.
    /// Replacing what the user opened would yank it away.
    pub fn handle_change(&mut self, change: ChangeEvent)
        ensures
            final(self)@ == old(self)@.changed(change.path@, opt_text(change.content)),
    {
        let may_replace = match &self.screen {
            Screen::AgentSession { side_pane, .. } => match side_pane {
                Some(pane) => pane.yields_to_auto_diff(),
                None => true,
            },
            _ => true,
        };
        if may_replace {
            let content = match change.content {
                Some(text) => text,
                None => String::new(),
            };
            proof {
                if change.content is None {
                    assert(content@ =~= seq![]);
                }
            }
            self.set_pane(Some(SidePane::Diff { path: change.path, content, scroll: 0 }));
        }
        if self.explorer.fs.is_some() {
            self.request_explorer_refresh();
        }
    }
}

} // verus!
