//! Application configuration.
//!
//! Fields that a config leaves out fall back to the built-in defaults, so that
//! a partial config doesn't wipe out the rest of the bindings. A binding that
//! does not parse is an error.
use crate::agent::opt_text;
use crate::keybind::{
    binding_of, leading_modifiers, no_modifiers, BindError, Binding, KeyCode, KeyEvent,
    KeyModifiers,
};
use crate::text::views;
use vstd::prelude::*;

pub mod laws;

verus! {

/// What a key can be bound to.
#[derive(Debug, Clone, Copy, PartialEq, Eq, Hash, Structural)]
pub enum Action {
    Quit,
    Up,
    Down,
    Left,
    Right,
    Activate,
    Back,
    TogglePane,
    DismissPane,
    Insert,
    Command,
    ToggleExplorer,
    FollowBottom,
}

/// The configuration.
#[derive(Debug, Clone)]
pub struct Config {
    pub bindings: Bindings,
}

/// The keys bound to each action.
#[derive(Debug, Clone)]
pub struct Bindings {
    pub quit: Vec<Binding>,
    pub up: Vec<Binding>,
    pub down: Vec<Binding>,
    pub left: Vec<Binding>,
    pub right: Vec<Binding>,
    pub activate: Vec<Binding>,
    pub back: Vec<Binding>,
    pub toggle_pane: Vec<Binding>,
    pub dismiss_pane: Vec<Binding>,
    pub insert: Vec<Binding>,
    pub command: Vec<Binding>,
    pub toggle_explorer: Vec<Binding>,
    pub follow_bottom: Vec<Binding>,
}

/// The bindings as a config file gives them: strings, and only the fields that
/// the file holds.
#[derive(Debug, Clone)]
pub struct RawBindings {
    pub quit: Option<Vec<String>>,
    pub up: Option<Vec<String>>,
    pub down: Option<Vec<String>>,
    pub left: Option<Vec<String>>,
    pub right: Option<Vec<String>>,
    pub activate: Option<Vec<String>>,
    pub back: Option<Vec<String>>,
    pub toggle_pane: Option<Vec<String>>,
    pub dismiss_pane: Option<Vec<String>>,
    pub insert: Option<Vec<String>>,
    pub command: Option<Vec<String>>,
    pub toggle_explorer: Option<Vec<String>>,
    pub follow_bottom: Option<Vec<String>>,
}

/// A key without modifiers.
pub open spec fn plain(code: KeyCode) -> Binding {
    Binding { code, mods: no_modifiers() }
}

/// A key with Ctrl.
pub open spec fn ctrl(code: KeyCode) -> Binding {
    Binding { code, mods: KeyModifiers { control: true, ..no_modifiers() } }
}

/// A key with Shift.
pub open spec fn shifted(code: KeyCode) -> Binding {
    Binding { code, mods: KeyModifiers { shift: true, ..no_modifiers() } }
}

/// The keys that an action has without a config.
pub open spec fn default_keys(action: Action) -> Seq<Binding> {
    match action {
        Action::Quit => seq![plain(KeyCode::Char('q')), ctrl(KeyCode::Char('c'))],
        Action::Up => seq![plain(KeyCode::Char('k')), plain(KeyCode::Up)],
        Action::Down => seq![plain(KeyCode::Char('j')), plain(KeyCode::Down)],
        Action::Left => seq![plain(KeyCode::Char('h')), plain(KeyCode::Left)],
        Action::Right => seq![plain(KeyCode::Char('l')), plain(KeyCode::Right)],
        Action::Activate => seq![plain(KeyCode::Enter)],
        Action::Back => seq![plain(KeyCode::Esc)],
        Action::TogglePane => seq![plain(KeyCode::Tab)],
        Action::DismissPane => seq![plain(KeyCode::Char('d'))],
        Action::Insert => seq![plain(KeyCode::Char('i'))],
        Action::Command => seq![plain(KeyCode::Char(':'))],
        Action::ToggleExplorer => seq![ctrl(KeyCode::Char('e'))],
        Action::FollowBottom => seq![shifted(KeyCode::Char('G'))],
    }
}

/// The actions, in the order in which their keys are tried.
pub open spec fn action_order() -> Seq<Action> {
    seq![
        Action::Quit,
        Action::Up,
        Action::Down,
        Action::Left,
        Action::Right,
        Action::Activate,
        Action::Back,
        Action::TogglePane,
        Action::DismissPane,
        Action::Insert,
        Action::Command,
        Action::ToggleExplorer,
        Action::FollowBottom,
    ]
}

/// Whether one of `keys` describes exactly this key event.
pub open spec fn bound_in(keys: Seq<Binding>, event: KeyEvent) -> bool {
    keys.contains(Binding { code: event.code, mods: event.modifiers })
}

impl Bindings {
    /// The keys bound to an action.
    pub open spec fn keys(&self, action: Action) -> Seq<Binding> {
        match action {
            Action::Quit => self.quit@,
            Action::Up => self.up@,
            Action::Down => self.down@,
            Action::Left => self.left@,
            Action::Right => self.right@,
            Action::Activate => self.activate@,
            Action::Back => self.back@,
            Action::TogglePane => self.toggle_pane@,
            Action::DismissPane => self.dismiss_pane@,
            Action::Insert => self.insert@,
            Action::Command => self.command@,
            Action::ToggleExplorer => self.toggle_explorer@,
            Action::FollowBottom => self.follow_bottom@,
        }
    }

    /// The first action from the `from`th on that has a key for this event.
    pub open spec fn first_action(&self, event: KeyEvent, from: int) -> Option<Action>
        decreases 13 - from,
    {
        if from < 0 || from >= 13 {
            None
        } else if bound_in(self.keys(action_order()[from]), event) {
            Some(action_order()[from])
        } else {
            self.first_action(event, from + 1)
        }
    }
}

/// Whether one of `keys` describes exactly this key event.
fn any_matches(keys: &Vec<Binding>, event: &KeyEvent) -> (r: bool)
    ensures
        r == bound_in(keys@, *event),
{
    let mut i: usize = 0;
    while i < keys.len()
        invariant
            i <= keys@.len(),
            forall|j: int|
                0 <= j < i ==> keys@[j] != (Binding { code: event.code, mods: event.modifiers }),
        decreases keys@.len() - i,
    {
        if keys[i].matches(event) {
            proof {
                assert(keys@[i as int] == (Binding { code: event.code, mods: event.modifiers }));
            }
            return true;
        }
        i = i + 1;
    }
    false
}

impl Bindings {
    /// The keys bound to an action.
    fn keys_for(&self, action: Action) -> (r: &Vec<Binding>)
        ensures
            r@ == self.keys(action),
    {
        match action {
            Action::Quit => &self.quit,
            Action::Up => &self.up,
            Action::Down => &self.down,
            Action::Left => &self.left,
            Action::Right => &self.right,
            Action::Activate => &self.activate,
            Action::Back => &self.back,
            Action::TogglePane => &self.toggle_pane,
            Action::DismissPane => &self.dismiss_pane,
            Action::Insert => &self.insert,
            Action::Command => &self.command,
            Action::ToggleExplorer => &self.toggle_explorer,
            Action::FollowBottom => &self.follow_bottom,
        }
    }

    /// Returns the first action whose configured bindings match this key event.
    pub fn action_for(&self, event: &KeyEvent) -> (r: Option<Action>)
        ensures
            r == self.first_action(*event, 0),
    {
        let order = [
            Action::Quit,
            Action::Up,
            Action::Down,
            Action::Left,
            Action::Right,
            Action::Activate,
            Action::Back,
            Action::TogglePane,
            Action::DismissPane,
            Action::Insert,
            Action::Command,
            Action::ToggleExplorer,
            Action::FollowBottom,
        ];
        proof {
            assert(order@ =~= action_order());
        }
        let mut i: usize = 0;
        while i < 13
            invariant
                i <= 13,
                order@ == action_order(),
                self.first_action(*event, 0) == self.first_action(*event, i as int),
            decreases 13 - i,
        {
            let action = order[i];
            if any_matches(self.keys_for(action), event) {
                return Some(action);
            }
            i = i + 1;
        }
        None
    }
}

/// The keys that an action has without a config.
fn default_for(action: Action) -> (r: Vec<Binding>)
    ensures
        r@ == default_keys(action),
{
    let none = KeyModifiers::none();
    match action {
        Action::Quit => vec![
            Binding::new(KeyCode::Char('q'), none),
            Binding::new(KeyCode::Char('c'), KeyModifiers::control()),
        ],
        Action::Up => vec![Binding::new(KeyCode::Char('k'), none), Binding::new(KeyCode::Up, none)],
        Action::Down => vec![
            Binding::new(KeyCode::Char('j'), none),
            Binding::new(KeyCode::Down, none),
        ],
        Action::Left => vec![
            Binding::new(KeyCode::Char('h'), none),
            Binding::new(KeyCode::Left, none),
        ],
        Action::Right => vec![
            Binding::new(KeyCode::Char('l'), none),
            Binding::new(KeyCode::Right, none),
        ],
        Action::Activate => vec![Binding::new(KeyCode::Enter, none)],
        Action::Back => vec![Binding::new(KeyCode::Esc, none)],
        Action::TogglePane => vec![Binding::new(KeyCode::Tab, none)],
        Action::DismissPane => vec![Binding::new(KeyCode::Char('d'), none)],
        Action::Insert => vec![Binding::new(KeyCode::Char('i'), none)],
        Action::Command => vec![Binding::new(KeyCode::Char(':'), none)],
        Action::ToggleExplorer => vec![Binding::new(KeyCode::Char('e'), KeyModifiers::control())],
        Action::FollowBottom => vec![Binding::new(KeyCode::Char('G'), KeyModifiers::shift())],
    }
}

impl Default for Bindings {
    /// Every action with its default keys.
    fn default() -> (r: Bindings)
        ensures
            forall|a: Action| #[trigger] r.keys(a) == default_keys(a),
    {
        Bindings {
            quit: default_for(Action::Quit),
            up: default_for(Action::Up),
            down: default_for(Action::Down),
            left: default_for(Action::Left),
            right: default_for(Action::Right),
            activate: default_for(Action::Activate),
            back: default_for(Action::Back),
            toggle_pane: default_for(Action::TogglePane),
            dismiss_pane: default_for(Action::DismissPane),
            insert: default_for(Action::Insert),
            command: default_for(Action::Command),
            toggle_explorer: default_for(Action::ToggleExplorer),
            follow_bottom: default_for(Action::FollowBottom),
        }
    }
}

impl Default for Config {
    /// The configuration without a config file.
    fn default() -> (r: Config)
        ensures
            forall|a: Action| #[trigger] r.bindings.keys(a) == default_keys(a),
    {
        Config { bindings: Bindings::default() }
    }
}

// ─── From a config file ────────────────────────────────────────────────

/// Whether every string is a binding.
pub open spec fn all_parse(specs: Seq<String>) -> bool {
    forall|i: int| 0 <= i < specs.len() ==> binding_of(#[trigger] specs[i]@) is Some
}

/// The bindings that the strings describe.
pub open spec fn parsed(specs: Seq<String>) -> Seq<Binding> {
    specs.map_values(|s: String| binding_of(s@)->0)
}

/// What a field of the config file gives for an action: its own bindings, or
/// the keys that the action had when the file leaves it out.
pub open spec fn field_keys(field: Option<Vec<String>>, had: Seq<Binding>) -> Seq<Binding> {
    match field {
        Some(specs) => parsed(specs@),
        None => had,
    }
}

/// Whether every binding of a field is valid.
pub open spec fn field_valid(field: Option<Vec<String>>) -> bool {
    match field {
        Some(specs) => all_parse(specs@),
        None => true,
    }
}

impl RawBindings {
    /// The strings that the file holds for an action.
    pub open spec fn field(&self, action: Action) -> Option<Vec<String>> {
        match action {
            Action::Quit => self.quit,
            Action::Up => self.up,
            Action::Down => self.down,
            Action::Left => self.left,
            Action::Right => self.right,
            Action::Activate => self.activate,
            Action::Back => self.back,
            Action::TogglePane => self.toggle_pane,
            Action::DismissPane => self.dismiss_pane,
            Action::Insert => self.insert,
            Action::Command => self.command,
            Action::ToggleExplorer => self.toggle_explorer,
            Action::FollowBottom => self.follow_bottom,
        }
    }
}

/// Parse each string of a list of bindings.
fn parse_each(specs: &Vec<String>) -> (r: Result<Vec<Binding>, BindError>)
    ensures
        all_parse(specs@) ==> r is Ok && r->Ok_0@ == parsed(specs@),
        !all_parse(specs@) ==> r is Err && exists|i: int|
            #![trigger specs@[i]]
            0 <= i < specs@.len() && binding_of(specs@[i]@) is None && r->Err_0.key@
                == leading_modifiers(specs@[i]@, no_modifiers()).1,
{
    let mut out: Vec<Binding> = Vec::new();
    let mut i: usize = 0;
    while i < specs.len()
        invariant
            i <= specs@.len(),
            out@ == parsed(specs@.take(i as int)),
            forall|j: int| 0 <= j < i ==> binding_of(#[trigger] specs@[j]@) is Some,
        decreases specs@.len() - i,
    {
        match Binding::from_str(specs[i].as_str()) {
            Ok(b) => {
                out.push(b);
                proof {
                    assert(specs@.take(i + 1) =~= specs@.take(i as int).push(specs@[i as int]));
                    assert(parsed(specs@.take(i + 1)) =~= out@);
                }
            },
            Err(e) => {
                proof {
                    assert(binding_of(specs@[i as int]@) is None);
                }
                return Err(e);
            },
        }
        i = i + 1;
    }
    proof {
        assert(specs@.take(i as int) =~= specs@);
    }
    Ok(out)
}

/// What a field of the config file gives for an action.
fn resolve(field: &Option<Vec<String>>, had: &Vec<Binding>) -> (r: Result<Vec<Binding>, BindError>)
    ensures
        field_valid(*field) ==> r is Ok && r->Ok_0@ == field_keys(*field, had@),
        !field_valid(*field) ==> r is Err && bad_key(*field, r->Err_0.key@),
{
    match field {
        Some(specs) => parse_each(specs),
        None => {
            let copy = had.clone();
            proof {
                assert(copy@ =~= had@);
            }
            Ok(copy)
        },
    }
}

/// Whether `key` is what stands behind the modifiers in an invalid binding of
/// the field.
pub open spec fn bad_key(field: Option<Vec<String>>, key: Seq<char>) -> bool {
    field is Some && exists|i: int|
        #![trigger field->0@[i]]
        0 <= i < field->0@.len() && binding_of(field->0@[i]@) is None && key == leading_modifiers(
            field->0@[i]@,
            no_modifiers(),
        ).1
}

impl Config {
    /// The configuration with a file on top of it: each field that the file
    /// holds replaces the keys of its action, and the others keep theirs. It
    /// fails exactly when a binding in it is not one.
    pub fn with_raw(&self, raw: &RawBindings) -> (r: Result<Config, BindError>)
        ensures
            (forall|a: Action| field_valid(#[trigger] raw.field(a))) ==> r is Ok && forall|a: Action|
                #[trigger] r->Ok_0.bindings.keys(a) == field_keys(
                    raw.field(a),
                    self.bindings.keys(a),
                ),
            (exists|a: Action| !field_valid(#[trigger] raw.field(a))) ==> r is Err && exists|a: Action|
                bad_key(#[trigger] raw.field(a), r->Err_0.key@),
    {
        let quit = match resolve(&raw.quit, &self.bindings.quit) {
            Ok(v) => v,
            Err(e) => {
                assert(raw.field(Action::Quit) == raw.quit);
                return Err(e);
            },
        };
        let up = match resolve(&raw.up, &self.bindings.up) {
            Ok(v) => v,
            Err(e) => {
                assert(raw.field(Action::Up) == raw.up);
                return Err(e);
            },
        };
        let down = match resolve(&raw.down, &self.bindings.down) {
            Ok(v) => v,
            Err(e) => {
                assert(raw.field(Action::Down) == raw.down);
                return Err(e);
            },
        };
        let left = match resolve(&raw.left, &self.bindings.left) {
            Ok(v) => v,
            Err(e) => {
                assert(raw.field(Action::Left) == raw.left);
                return Err(e);
            },
        };
        let right = match resolve(&raw.right, &self.bindings.right) {
            Ok(v) => v,
            Err(e) => {
                assert(raw.field(Action::Right) == raw.right);
                return Err(e);
            },
        };
        let activate = match resolve(&raw.activate, &self.bindings.activate) {
            Ok(v) => v,
            Err(e) => {
                assert(raw.field(Action::Activate) == raw.activate);
                return Err(e);
            },
        };
        let back = match resolve(&raw.back, &self.bindings.back) {
            Ok(v) => v,
            Err(e) => {
                assert(raw.field(Action::Back) == raw.back);
                return Err(e);
            },
        };
        let toggle_pane = match resolve(&raw.toggle_pane, &self.bindings.toggle_pane) {
            Ok(v) => v,
            Err(e) => {
                assert(raw.field(Action::TogglePane) == raw.toggle_pane);
                return Err(e);
            },
        };
        let dismiss_pane = match resolve(&raw.dismiss_pane, &self.bindings.dismiss_pane) {
            Ok(v) => v,
            Err(e) => {
                assert(raw.field(Action::DismissPane) == raw.dismiss_pane);
                return Err(e);
            },
        };
        let insert = match resolve(&raw.insert, &self.bindings.insert) {
            Ok(v) => v,
            Err(e) => {
                assert(raw.field(Action::Insert) == raw.insert);
                return Err(e);
            },
        };
        let command = match resolve(&raw.command, &self.bindings.command) {
            Ok(v) => v,
            Err(e) => {
                assert(raw.field(Action::Command) == raw.command);
                return Err(e);
            },
        };
        let toggle_explorer = match resolve(&raw.toggle_explorer, &self.bindings.toggle_explorer) {
            Ok(v) => v,
            Err(e) => {
                assert(raw.field(Action::ToggleExplorer) == raw.toggle_explorer);
                return Err(e);
            },
        };
        let follow_bottom = match resolve(&raw.follow_bottom, &self.bindings.follow_bottom) {
            Ok(v) => v,
            Err(e) => {
                assert(raw.field(Action::FollowBottom) == raw.follow_bottom);
                return Err(e);
            },
        };
        let bindings = Bindings {
            quit,
            up,
            down,
            left,
            right,
            activate,
            back,
            toggle_pane,
            dismiss_pane,
            insert,
            command,
            toggle_explorer,
            follow_bottom,
        };
        proof {
            assert forall|a: Action| field_valid(#[trigger] raw.field(a)) by {}
        }
        Ok(Config { bindings })
    }
}

// ─── From TOML ─────────────────────────────────────────────────────────

/// A TOML value.
#[verifier::external_type_specification]
#[verifier::external_body]
pub struct ExTomlValue(toml::Value);

/// What is wrong with a text that is not TOML.
#[verifier::external_type_specification]
#[verifier::external_body]
pub struct ExTomlError(toml::de::Error);

/// The document that a text holds, as `toml::from_str` reads it; `None` when it
/// fails.
pub uninterp spec fn toml_document(text: Seq<char>) -> Option<toml::Value>;

/// The entry of a table under a key, as `toml::Value::get` finds it.
pub uninterp spec fn toml_entry(v: toml::Value, key: Seq<char>) -> Option<toml::Value>;

/// Whether a value is a table, as `toml::Value::is_table` says.
pub uninterp spec fn toml_table(v: toml::Value) -> bool;

/// The members of an array, as `toml::Value::as_array` gives them.
pub uninterp spec fn toml_members(v: toml::Value) -> Option<Seq<toml::Value>>;

/// The text of a string, as `toml::Value::as_str` gives it.
pub uninterp spec fn toml_text(v: toml::Value) -> Option<Seq<char>>;

/// `toml::from_str` into a value: what it reads, and whether it fails, depends
/// on the text alone. Which texts are TOML is left unsaid.
#[verifier::external_body]
fn parse_toml(text: &str) -> (r: Result<toml::Value, toml::de::Error>)
    ensures
        match r {
            Ok(v) => toml_document(text@) == Some(v),
            Err(_) => toml_document(text@) is None,
        },
{
    toml::from_str(text)
}

/// `toml::Value::get` by key, with the entry copied: it depends on the value and
/// the key alone.
#[verifier::external_body]
fn entry(v: &toml::Value, key: &str) -> (r: Option<toml::Value>)
    ensures
        r == toml_entry(*v, key@),
{
    v.get(key).cloned()
}

/// `toml::Value::is_table`: it depends on the value alone.
#[verifier::external_body]
fn is_table(v: &toml::Value) -> (r: bool)
    ensures
        r == toml_table(*v),
{
    v.is_table()
}

/// `toml::Value::as_array`, with the members copied: they depend on the value
/// alone.
#[verifier::external_body]
fn members(v: &toml::Value) -> (r: Option<Vec<toml::Value>>)
    ensures
        match r {
            Some(m) => toml_members(*v) == Some(m@),
            None => toml_members(*v) is None,
        },
{
    v.as_array().cloned()
}

/// `toml::Value::as_str`, with the text copied: it depends on the value alone.
#[verifier::external_body]
fn text(v: &toml::Value) -> (r: Option<String>)
    ensures
        opt_text(r) == toml_text(*v),
{
    v.as_str().map(|s| s.to_owned())
}

/// Why a text is no configuration.
#[derive(Debug)]
pub enum ConfigError {
    /// It is not TOML.
    Toml(toml::de::Error),
    /// Its `bindings` are not a table.
    NotATable,
    /// What it binds to an action is not a list of strings.
    Field(Action),
    /// A binding in it is not one.
    Key(BindError),
}

/// The name of an action's field.
pub open spec fn field_name(action: Action) -> Seq<char> {
    match action {
        Action::Quit => "quit"@,
        Action::Up => "up"@,
        Action::Down => "down"@,
        Action::Left => "left"@,
        Action::Right => "right"@,
        Action::Activate => "activate"@,
        Action::Back => "back"@,
        Action::TogglePane => "toggle_pane"@,
        Action::DismissPane => "dismiss_pane"@,
        Action::Insert => "insert"@,
        Action::Command => "command"@,
        Action::ToggleExplorer => "toggle_explorer"@,
        Action::FollowBottom => "follow_bottom"@,
    }
}

/// The name of an action's field.
fn field_name_of(action: Action) -> (r: &'static str)
    ensures
        r@ == field_name(action),
{
    match action {
        Action::Quit => "quit",
        Action::Up => "up",
        Action::Down => "down",
        Action::Left => "left",
        Action::Right => "right",
        Action::Activate => "activate",
        Action::Back => "back",
        Action::TogglePane => "toggle_pane",
        Action::DismissPane => "dismiss_pane",
        Action::Insert => "insert",
        Action::Command => "command",
        Action::ToggleExplorer => "toggle_explorer",
        Action::FollowBottom => "follow_bottom",
    }
}

/// Whether a value is a list of strings.
pub open spec fn is_strings(v: toml::Value) -> bool {
    toml_members(v) is Some && forall|i: int|
        0 <= i < toml_members(v)->0.len() ==> toml_text(#[trigger] toml_members(v)->0[i]) is Some
}

/// The strings of a list.
pub open spec fn strings(v: toml::Value) -> Seq<Seq<char>> {
    toml_members(v)->0.map_values(|x: toml::Value| toml_text(x)->0)
}

/// What a table holds for an action is a list of strings, if it holds anything.
pub open spec fn well_shaped(table: toml::Value, action: Action) -> bool {
    match toml_entry(table, field_name(action)) {
        Some(v) => is_strings(v),
        None => true,
    }
}

/// Whether every string is a binding.
pub open spec fn are_bindings(specs: Seq<Seq<char>>) -> bool {
    forall|i: int| 0 <= i < specs.len() ==> binding_of(#[trigger] specs[i]) is Some
}

/// Whether what a table holds for an action are bindings.
pub open spec fn well_bound(table: toml::Value, action: Action) -> bool {
    match toml_entry(table, field_name(action)) {
        Some(v) => are_bindings(strings(v)),
        None => true,
    }
}

/// Whether `key` is what stands behind the modifiers in a string that a table
/// holds for an action and that is no binding.
pub open spec fn wrongly_bound(table: toml::Value, action: Action, key: Seq<char>) -> bool {
    match toml_entry(table, field_name(action)) {
        Some(v) => exists|i: int|
            0 <= i < strings(v).len() && binding_of(#[trigger] strings(v)[i]) is None && key
                == leading_modifiers(strings(v)[i], no_modifiers()).1,
        None => false,
    }
}

/// The keys that a table binds to an action: its own, or the keys that the
/// action had when it leaves them out.
pub open spec fn bound_keys(table: toml::Value, action: Action, had: Seq<Binding>) -> Seq<Binding> {
    match toml_entry(table, field_name(action)) {
        Some(v) => strings(v).map_values(|s: Seq<char>| binding_of(s)->0),
        None => had,
    }
}

/// The strings that a table holds for an action.
fn field_strings(table: &toml::Value, action: Action) -> (r: Result<Option<Vec<String>>, ()>)
    ensures
        r is Ok <==> well_shaped(*table, action),
        r is Ok ==> match toml_entry(*table, field_name(action)) {
            Some(v) => r->Ok_0 is Some && views(r->Ok_0->0@) == strings(v),
            None => r->Ok_0 is None,
        },
{
    let v = match entry(table, field_name_of(action)) {
        Some(v) => v,
        None => {
            return Ok(None);
        },
    };
    let list = match members(&v) {
        Some(l) => l,
        None => {
            return Err(());
        },
    };
    let mut out: Vec<String> = Vec::new();
    let mut i: usize = 0;
    proof {
        assert(views(out@) =~= strings(v).take(0));
    }
    while i < list.len()
        invariant
            i <= list@.len(),
            toml_entry(*table, field_name(action)) == Some(v),
            toml_members(v) == Some(list@),
            views(out@) == strings(v).take(i as int),
            forall|j: int| 0 <= j < i ==> toml_text(#[trigger] list@[j]) is Some,
        decreases list@.len() - i,
    {
        let ghost had = out@;
        match text(&list[i]) {
            Some(s) => {
                out.push(s);
                proof {
                    assert(views(out@) =~= views(had).push(s@));
                    assert(strings(v).take(i + 1) =~= strings(v).take(i as int).push(
                        strings(v)[i as int],
                    ));
                }
            },
            None => {
                proof {
                    assert(toml_text(toml_members(v)->0[i as int]) is None);
                }
                return Err(());
            },
        }
        i = i + 1;
    }
    proof {
        assert(strings(v).take(i as int) =~= strings(v));
    }
    Ok(Some(out))
}

impl RawBindings {
    /// Whether the strings are those that a table holds.
    pub open spec fn is_from(&self, table: toml::Value) -> bool {
        forall|a: Action|
            match toml_entry(table, field_name(a)) {
                Some(v) => (#[trigger] self.field(a)) is Some && views(self.field(a)->0@)
                    == strings(v),
                None => self.field(a) is None,
            }
    }

    /// The strings that a table holds, or the first action whose field is not a
    /// list of strings.
    fn from_table(table: &toml::Value) -> (r: Result<RawBindings, ConfigError>)
        ensures
            match r {
                Ok(raw) => (forall|a: Action| #[trigger] well_shaped(*table, a)) && raw.is_from(
                    *table,
                ),
                Err(e) => e matches ConfigError::Field(a) && !well_shaped(*table, a),
            },
    {
        let quit = match field_strings(table, Action::Quit) {
            Ok(f) => f,
            Err(_) => {
                return Err(ConfigError::Field(Action::Quit));
            },
        };
        let up = match field_strings(table, Action::Up) {
            Ok(f) => f,
            Err(_) => {
                return Err(ConfigError::Field(Action::Up));
            },
        };
        let down = match field_strings(table, Action::Down) {
            Ok(f) => f,
            Err(_) => {
                return Err(ConfigError::Field(Action::Down));
            },
        };
        let left = match field_strings(table, Action::Left) {
            Ok(f) => f,
            Err(_) => {
                return Err(ConfigError::Field(Action::Left));
            },
        };
        let right = match field_strings(table, Action::Right) {
            Ok(f) => f,
            Err(_) => {
                return Err(ConfigError::Field(Action::Right));
            },
        };
        let activate = match field_strings(table, Action::Activate) {
            Ok(f) => f,
            Err(_) => {
                return Err(ConfigError::Field(Action::Activate));
            },
        };
        let back = match field_strings(table, Action::Back) {
            Ok(f) => f,
            Err(_) => {
                return Err(ConfigError::Field(Action::Back));
            },
        };
        let toggle_pane = match field_strings(table, Action::TogglePane) {
            Ok(f) => f,
            Err(_) => {
                return Err(ConfigError::Field(Action::TogglePane));
            },
        };
        let dismiss_pane = match field_strings(table, Action::DismissPane) {
            Ok(f) => f,
            Err(_) => {
                return Err(ConfigError::Field(Action::DismissPane));
            },
        };
        let insert = match field_strings(table, Action::Insert) {
            Ok(f) => f,
            Err(_) => {
                return Err(ConfigError::Field(Action::Insert));
            },
        };
        let command = match field_strings(table, Action::Command) {
            Ok(f) => f,
            Err(_) => {
                return Err(ConfigError::Field(Action::Command));
            },
        };
        let toggle_explorer = match field_strings(table, Action::ToggleExplorer) {
            Ok(f) => f,
            Err(_) => {
                return Err(ConfigError::Field(Action::ToggleExplorer));
            },
        };
        let follow_bottom = match field_strings(table, Action::FollowBottom) {
            Ok(f) => f,
            Err(_) => {
                return Err(ConfigError::Field(Action::FollowBottom));
            },
        };
        let raw = RawBindings {
            quit,
            up,
            down,
            left,
            right,
            activate,
            back,
            toggle_pane,
            dismiss_pane,
            insert,
            command,
            toggle_explorer,
            follow_bottom,
        };
        proof {
            assert forall|a: Action| #[trigger] well_shaped(*table, a) by {}
        }
        Ok(raw)
    }
}

/// The bindings of a list are those of its strings.
proof fn lemma_field_from(field: Option<Vec<String>>, table: toml::Value, action: Action)
    requires
        match toml_entry(table, field_name(action)) {
            Some(v) => field is Some && views(field->0@) == strings(v),
            None => field is None,
        },
    ensures
        field_valid(field) == well_bound(table, action),
        forall|had: Seq<Binding>| #[trigger]
            field_keys(field, had) == bound_keys(table, action, had),
{
    match toml_entry(table, field_name(action)) {
        Some(v) => {
            let specs = field->0@;
            assert forall|i: int| 0 <= i < specs.len() implies #[trigger] specs[i]@ == strings(
                v,
            )[i] by {
                assert(views(specs)[i] == specs[i]@);
            }
            if all_parse(specs) {
                assert forall|i: int| 0 <= i < strings(v).len() implies binding_of(
                    #[trigger] strings(v)[i],
                ) is Some by {
                    assert(binding_of(specs[i]@) is Some);
                }
            }
            if are_bindings(strings(v)) {
                assert forall|i: int| 0 <= i < specs.len() implies binding_of(
                    #[trigger] specs[i]@,
                ) is Some by {
                    assert(binding_of(strings(v)[i]) is Some);
                }
            }
            assert(parsed(specs) =~= strings(v).map_values(|s: Seq<char>| binding_of(s)->0));
        },
        None => {},
    }
}

/// A string of a list that is no binding is one that the table holds.
proof fn lemma_bad_key_from(
    field: Option<Vec<String>>,
    table: toml::Value,
    action: Action,
    key: Seq<char>,
)
    requires
        match toml_entry(table, field_name(action)) {
            Some(v) => field is Some && views(field->0@) == strings(v),
            None => field is None,
        },
        bad_key(field, key),
    ensures
        wrongly_bound(table, action, key),
        !well_bound(table, action),
{
    let specs = field->0@;
    let i = choose|i: int|
        #![trigger specs[i]]
        0 <= i < specs.len() && binding_of(specs[i]@) is None && key == leading_modifiers(
            specs[i]@,
            no_modifiers(),
        ).1;
    assert(views(specs)[i] == specs[i]@);
}

/// What a table of bindings on top of others gives: an error when it is not a table, when it
/// holds something else than lists of strings, or when one of the strings is no
/// binding, in this order.
pub open spec fn bound_by(
    table: toml::Value,
    had: Bindings,
    r: Result<Config, ConfigError>,
) -> bool {
    if !toml_table(table) {
        r matches Err(ConfigError::NotATable)
    } else if exists|a: Action| !#[trigger] well_shaped(table, a) {
        r matches Err(ConfigError::Field(a)) && !well_shaped(table, a)
    } else if exists|a: Action| !#[trigger] well_bound(table, a) {
        &&& r is Err
        &&& r->Err_0 is Key
        &&& exists|a: Action| #[trigger] wrongly_bound(table, a, r->Err_0->Key_0.key@)
    } else {
        r is Ok && forall|a: Action| #[trigger]
            r->Ok_0.bindings.keys(a) == bound_keys(table, a, had.keys(a))
    }
}

impl Config {
    /// A copy of the configuration.
    fn copy(&self) -> (r: Config)
        ensures
            forall|a: Action| #[trigger] r.bindings.keys(a) == self.bindings.keys(a),
    {
        let b = &self.bindings;
        let r = Config {
            bindings: Bindings {
                quit: b.quit.clone(),
                up: b.up.clone(),
                down: b.down.clone(),
                left: b.left.clone(),
                right: b.right.clone(),
                activate: b.activate.clone(),
                back: b.back.clone(),
                toggle_pane: b.toggle_pane.clone(),
                dismiss_pane: b.dismiss_pane.clone(),
                insert: b.insert.clone(),
                command: b.command.clone(),
                toggle_explorer: b.toggle_explorer.clone(),
                follow_bottom: b.follow_bottom.clone(),
            },
        };
        proof {
            assert(r.bindings.quit@ =~= self.bindings.quit@);
            assert(r.bindings.up@ =~= self.bindings.up@);
            assert(r.bindings.down@ =~= self.bindings.down@);
            assert(r.bindings.left@ =~= self.bindings.left@);
            assert(r.bindings.right@ =~= self.bindings.right@);
            assert(r.bindings.activate@ =~= self.bindings.activate@);
            assert(r.bindings.back@ =~= self.bindings.back@);
            assert(r.bindings.toggle_pane@ =~= self.bindings.toggle_pane@);
            assert(r.bindings.dismiss_pane@ =~= self.bindings.dismiss_pane@);
            assert(r.bindings.insert@ =~= self.bindings.insert@);
            assert(r.bindings.command@ =~= self.bindings.command@);
            assert(r.bindings.toggle_explorer@ =~= self.bindings.toggle_explorer@);
            assert(r.bindings.follow_bottom@ =~= self.bindings.follow_bottom@);
        }
        r
    }

    /// The configuration with a table of bindings on top of it.
    fn with_table(&self, table: &toml::Value) -> (r: Result<Config, ConfigError>)
        ensures
            bound_by(*table, self.bindings, r),
    {
        if !is_table(table) {
            return Err(ConfigError::NotATable);
        }
        let raw = match RawBindings::from_table(table) {
            Ok(raw) => raw,
            Err(e) => {
                return Err(e);
            },
        };
        proof {
            assert forall|a: Action|
                field_valid(#[trigger] raw.field(a)) == well_bound(*table, a) && field_keys(
                    raw.field(a),
                    self.bindings.keys(a),
                ) == bound_keys(*table, a, self.bindings.keys(a)) by {
                lemma_field_from(raw.field(a), *table, a);
            }
        }
        match self.with_raw(&raw) {
            Ok(c) => {
                proof {
                    assert forall|a: Action| #[trigger] well_bound(*table, a) by {
                        assert(field_valid(raw.field(a)));
                    }
                    assert forall|a: Action| #[trigger]
                        c.bindings.keys(a) == bound_keys(*table, a, self.bindings.keys(a)) by {
                        assert(field_valid(raw.field(a)));
                    }
                }
                Ok(c)
            },
            Err(e) => {
                proof {
                    if forall|a: Action| field_valid(#[trigger] raw.field(a)) {
                        assert(false);
                    }
                    let bad = choose|a: Action| bad_key(#[trigger] raw.field(a), e.key@);
                    lemma_bad_key_from(raw.field(bad), *table, bad, e.key@);
                    let r = Err::<Config, ConfigError>(ConfigError::Key(e));
                    assert(wrongly_bound(*table, bad, r->Err_0->Key_0.key@));
                    assert(bound_by(*table, self.bindings, r));
                }
                Err(ConfigError::Key(e))
            },
        }
    }

    /// The configuration with a TOML text on top of it. Fields that the text
    /// leaves out keep their keys.
    pub fn with_str(&self, input: &str) -> (r: Result<Config, ConfigError>)
        ensures
            match toml_document(input@) {
                None => r matches Err(ConfigError::Toml(_)),
                Some(doc) => match toml_entry(doc, "bindings"@) {
                    None => r is Ok && forall|a: Action| #[trigger]
                        r->Ok_0.bindings.keys(a) == self.bindings.keys(a),
                    Some(table) => bound_by(table, self.bindings, r),
                },
            },
    {
        let doc = match parse_toml(input) {
            Ok(v) => v,
            Err(e) => {
                return Err(ConfigError::Toml(e));
            },
        };
        match entry(&doc, "bindings") {
            Some(t) => self.with_table(&t),
            None => Ok(self.copy()),
        }
    }

    /// The configuration that a TOML text gives. Fields that it leaves out fall
    /// back to the built-in defaults, so that a partial one does not wipe out
    /// the rest of the bindings.
    pub fn from_str(input: &str) -> (r: Result<Config, ConfigError>)
        ensures
            match toml_document(input@) {
                None => r matches Err(ConfigError::Toml(_)),
                Some(doc) => match toml_entry(doc, "bindings"@) {
                    None => r is Ok && forall|a: Action| #[trigger]
                        r->Ok_0.bindings.keys(a) == default_keys(a),
                    Some(table) => exists|had: Bindings|
                        (forall|a: Action| #[trigger] had.keys(a) == default_keys(a))
                            && #[trigger] bound_by(table, had, r),
                },
            },
    {
        Config::default().with_str(input)
    }
}

} // verus!
