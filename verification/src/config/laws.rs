//! What the bindings of a config mean for the keys that are pressed.
use crate::config::{
    action_order, bound_in, bound_keys, default_keys, Action, Bindings,
};
use crate::keybind::{binding_of, Binding, KeyCode, KeyEvent, KeyModifiers};
use vstd::prelude::*;

verus! {

/// No modifier.
pub open spec fn bare() -> KeyModifiers {
    KeyModifiers {
        shift: false,
        control: false,
        alt: false,
        super_key: false,
        hyper: false,
        meta: false,
    }
}

/// Whether these are the keys without a config.
pub open spec fn are_defaults(b: Bindings) -> bool {
    forall|a: Action| #[trigger] b.keys(a) == default_keys(a)
}

/// The action of a key that is pressed.
pub open spec fn pressed(b: Bindings, code: KeyCode, modifiers: KeyModifiers) -> Option<Action> {
    b.first_action(KeyEvent { code, modifiers }, 0)
}

/// A key that is pressed means the first action, in the order of the actions,
/// that it is bound to, and no action where it is bound to none.
pub proof fn law_a_key_means_the_first_action_it_is_bound_to(b: Bindings, event: KeyEvent, k: int)
    ensures
        0 <= k < 13 && bound_in(b.keys(action_order()[k]), event) && (forall|j: int|
            0 <= j < k ==> !bound_in(b.keys(#[trigger] action_order()[j]), event))
            ==> b.first_action(event, 0) == Some(action_order()[k]),
        (forall|j: int| 0 <= j < 13 ==> !bound_in(b.keys(#[trigger] action_order()[j]), event))
            ==> b.first_action(event, 0) is None,
{
    lemma_first_from(b, event, 0, k);
}

proof fn lemma_first_from(b: Bindings, event: KeyEvent, from: int, k: int)
    requires
        0 <= from <= 13,
    ensures
        from <= k < 13 && bound_in(b.keys(action_order()[k]), event) && (forall|j: int|
            from <= j < k ==> !bound_in(b.keys(#[trigger] action_order()[j]), event))
            ==> b.first_action(event, from) == Some(action_order()[k]),
        (forall|j: int| from <= j < 13 ==> !bound_in(b.keys(#[trigger] action_order()[j]), event))
            ==> b.first_action(event, from) is None,
    decreases 13 - from,
{
    if from < 13 {
        lemma_first_from(b, event, from + 1, k);
        assert(action_order()[from] == action_order()[from]);
    }
}

/// Without a config each action has its own keys, and each of these keys means
/// that action.
#[verifier::rlimit(60)]
pub proof fn law_the_default_keys_mean_their_actions(b: Bindings)
    requires
        are_defaults(b),
    ensures
        pressed(b, KeyCode::Char('q'), bare()) == Some(Action::Quit),
        pressed(b, KeyCode::Char('c'), (KeyModifiers { control: true, ..bare() })) == Some(Action::Quit),
        pressed(b, KeyCode::Char('k'), bare()) == Some(Action::Up),
        pressed(b, KeyCode::Up, bare()) == Some(Action::Up),
        pressed(b, KeyCode::Char('j'), bare()) == Some(Action::Down),
        pressed(b, KeyCode::Down, bare()) == Some(Action::Down),
        pressed(b, KeyCode::Char('h'), bare()) == Some(Action::Left),
        pressed(b, KeyCode::Left, bare()) == Some(Action::Left),
        pressed(b, KeyCode::Char('l'), bare()) == Some(Action::Right),
        pressed(b, KeyCode::Right, bare()) == Some(Action::Right),
        pressed(b, KeyCode::Enter, bare()) == Some(Action::Activate),
        pressed(b, KeyCode::Esc, bare()) == Some(Action::Back),
        pressed(b, KeyCode::Tab, bare()) == Some(Action::TogglePane),
        pressed(b, KeyCode::Char('d'), bare()) == Some(Action::DismissPane),
        pressed(b, KeyCode::Char('i'), bare()) == Some(Action::Insert),
        pressed(b, KeyCode::Char(':'), bare()) == Some(Action::Command),
        pressed(b, KeyCode::Char('e'), (KeyModifiers { control: true, ..bare() })) == Some(Action::ToggleExplorer),
        pressed(b, KeyCode::Char('G'), (KeyModifiers { shift: true, ..bare() })) == Some(Action::FollowBottom),
{
    lemma_default_key(b, KeyCode::Char('q'), bare(), 0);
    lemma_default_key(b, KeyCode::Char('c'), (KeyModifiers { control: true, ..bare() }), 0);
    lemma_default_key(b, KeyCode::Char('k'), bare(), 1);
    lemma_default_key(b, KeyCode::Up, bare(), 1);
    lemma_default_key(b, KeyCode::Char('j'), bare(), 2);
    lemma_default_key(b, KeyCode::Down, bare(), 2);
    lemma_default_key(b, KeyCode::Char('h'), bare(), 3);
    lemma_default_key(b, KeyCode::Left, bare(), 3);
    lemma_default_key(b, KeyCode::Char('l'), bare(), 4);
    lemma_default_key(b, KeyCode::Right, bare(), 4);
    lemma_default_key(b, KeyCode::Enter, bare(), 5);
    lemma_default_key(b, KeyCode::Esc, bare(), 6);
    lemma_default_key(b, KeyCode::Tab, bare(), 7);
    lemma_default_key(b, KeyCode::Char('d'), bare(), 8);
    lemma_default_key(b, KeyCode::Char('i'), bare(), 9);
    lemma_default_key(b, KeyCode::Char(':'), bare(), 10);
    lemma_default_key(b, KeyCode::Char('e'), (KeyModifiers { control: true, ..bare() }), 11);
    lemma_default_key(b, KeyCode::Char('G'), (KeyModifiers { shift: true, ..bare() }), 12);
}

/// A key that only the `k`th action has means that action.
proof fn lemma_default_key(b: Bindings, code: KeyCode, modifiers: KeyModifiers, k: int)
    requires
        are_defaults(b),
        0 <= k < 13,
        has_key(action_order()[k], code, modifiers),
        forall|j: int| 0 <= j < k ==> !has_key(#[trigger] action_order()[j], code, modifiers),
    ensures
        pressed(b, code, modifiers) == Some(action_order()[k]),
{
    let event = KeyEvent { code, modifiers };
    lemma_has_key(action_order()[k], code, modifiers);
    assert forall|j: int| 0 <= j < k implies !bound_in(
        b.keys(#[trigger] action_order()[j]),
        event,
    ) by {
        lemma_has_key(action_order()[j], code, modifiers);
    }
    lemma_first_from(b, event, 0, k);
}

/// Whether an action has a key without a config: at most two keys.
pub open spec fn has_key(action: Action, code: KeyCode, modifiers: KeyModifiers) -> bool {
    let keys = default_keys(action);
    let key = Binding { code, mods: modifiers };
    (keys.len() > 0 && keys[0] == key) || (keys.len() > 1 && keys[1] == key)
}

proof fn lemma_has_key(action: Action, code: KeyCode, modifiers: KeyModifiers)
    ensures
        has_key(action, code, modifiers) == bound_in(
            default_keys(action),
            KeyEvent { code, modifiers },
        ),
{
    let keys = default_keys(action);
    let key = Binding { code, mods: modifiers };
    assert(keys.len() <= 2);
    if keys.contains(key) {
        let i = choose|i: int| 0 <= i < keys.len() && keys[i] == key;
        assert(i == 0 || i == 1);
    }
    if has_key(action, code, modifiers) {
        if keys[0] == key {
            assert(keys.contains(keys[0]));
        } else {
            assert(keys.contains(keys[1]));
        }
    }
}

/// Each action is bound under its own name: where a table has an entry of that
/// name, its strings are the action's bindings, in order, and where it has none
/// the action keeps the keys that it had.
pub proof fn law_an_action_is_bound_under_its_name(table: toml::Value, had: Seq<Binding>)
    ensures
        bound_keys(table, Action::Quit, had) == bound_under(table, "quit"@, had),
        bound_keys(table, Action::Up, had) == bound_under(table, "up"@, had),
        bound_keys(table, Action::Down, had) == bound_under(table, "down"@, had),
        bound_keys(table, Action::Left, had) == bound_under(table, "left"@, had),
        bound_keys(table, Action::Right, had) == bound_under(table, "right"@, had),
        bound_keys(table, Action::Activate, had) == bound_under(table, "activate"@, had),
        bound_keys(table, Action::Back, had) == bound_under(table, "back"@, had),
        bound_keys(table, Action::TogglePane, had) == bound_under(table, "toggle_pane"@, had),
        bound_keys(table, Action::DismissPane, had) == bound_under(table, "dismiss_pane"@, had),
        bound_keys(table, Action::Insert, had) == bound_under(table, "insert"@, had),
        bound_keys(table, Action::Command, had) == bound_under(table, "command"@, had),
        bound_keys(table, Action::ToggleExplorer, had) == bound_under(table, "toggle_explorer"@, had),
        bound_keys(table, Action::FollowBottom, had) == bound_under(table, "follow_bottom"@, had),
{
}

/// What a table gives for the entry of a name.
pub open spec fn bound_under(table: toml::Value, name: Seq<char>, had: Seq<Binding>) -> Seq<
    Binding,
> {
    match crate::config::toml_entry(table, name) {
        Some(v) => {
            let members = crate::config::toml_members(v)->0;
            Seq::new(
                members.len(),
                |i: int| binding_of(crate::config::toml_text(members[i])->0)->0,
            )
        },
        None => had,
    }
}

/// A table of bindings is taken as a whole or refused: it is refused where it is
/// no table, where an action has something else than a list of strings, or where
/// a string is no binding; taken, each action has the keys that stand under its
/// name, or the keys that it had.
pub proof fn law_a_config_is_taken_as_a_whole_or_refused(
    table: toml::Value,
    had: Bindings,
    r: Result<crate::config::Config, crate::config::ConfigError>,
    action: Action,
)
    requires
        crate::config::bound_by(table, had, r),
    ensures
        !crate::config::toml_table(table) ==> r is Err && r->Err_0 is NotATable,
        r is Ok ==> crate::config::toml_table(table) && r->Ok_0.bindings.keys(action)
            == bound_keys(table, action, had.keys(action)),
        r is Ok && crate::config::toml_entry(table, crate::config::field_name(action)) is None
            ==> r->Ok_0.bindings.keys(action) == had.keys(action),
        crate::config::toml_table(table) && (forall|a: Action| #[trigger]
            crate::config::well_shaped(table, a)) && (forall|a: Action| #[trigger]
            crate::config::well_bound(table, a)) ==> r is Ok,
        !crate::config::well_shaped(table, action) ==> r is Err,
        !crate::config::well_bound(table, action) ==> r is Err,
{
}

/// What a field of a config holds are the action's keys, each as it is described
/// and in order; an action that the config leaves out keeps the keys that it had.
pub proof fn law_a_field_gives_its_keys(specs: Vec<String>, had: Seq<Binding>, i: int)
    ensures
        crate::config::field_keys(None, had) == had,
        crate::config::field_keys(Some(specs), had).len() == specs@.len(),
        0 <= i < specs@.len() ==> crate::config::field_keys(Some(specs), had)[i] == binding_of(
            specs@[i]@,
        )->0,
        crate::config::field_valid(None),
        0 <= i < specs@.len() && binding_of(specs@[i]@) is None ==> !crate::config::field_valid(
            Some(specs),
        ),
        (forall|j: int| 0 <= j < specs@.len() ==> binding_of(#[trigger] specs@[j]@) is Some)
            ==> crate::config::field_valid(Some(specs)),
{
}

} // verus!
