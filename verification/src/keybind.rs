//! Parsing and matching of keybindings.
//!
//! Bindings are written as strings in the config: a bare key (`"h"`, `"Tab"`,
//! `"Enter"`) optionally prefixed by one or more modifier chunks (`"C-"` for
//! Ctrl, `"S-"` for Shift, `"M-"` for Alt/Meta).
//!
//! A single uppercase ASCII letter automatically implies the Shift modifier
//! so that `"H"` matches the same event a terminal emits for Shift+H.
use crate::text::{chars_of, same};
use vstd::prelude::*;
use vstd::string::*;

verus! {

/// A key of the keyboard.
#[derive(Debug, Clone, Copy, PartialEq, Eq, Hash, Structural)]
pub enum KeyCode {
    Backspace,
    Enter,
    Left,
    Right,
    Up,
    Down,
    Home,
    End,
    PageUp,
    PageDown,
    Tab,
    BackTab,
    Delete,
    Insert,
    F(u8),
    Char(char),
    Null,
    Esc,
    /// Any other key, by a number that tells it apart.
    Other(u16),
}

/// The modifier keys held down with a key.
#[derive(Debug, Clone, Copy, PartialEq, Eq, Hash, Structural)]
pub struct KeyModifiers {
    pub shift: bool,
    pub control: bool,
    pub alt: bool,
    pub super_key: bool,
    pub hyper: bool,
    pub meta: bool,
}

/// No modifier.
pub open spec fn no_modifiers() -> KeyModifiers {
    KeyModifiers { shift: false, control: false, alt: false, super_key: false, hyper: false, meta: false }
}

impl KeyModifiers {
    /// No modifier.
    pub fn none() -> (r: KeyModifiers)
        ensures
            r == no_modifiers(),
    {
        KeyModifiers {
            shift: false,
            control: false,
            alt: false,
            super_key: false,
            hyper: false,
            meta: false,
        }
    }

    /// Shift alone.
    pub fn shift() -> (r: KeyModifiers)
        ensures
            r == (KeyModifiers { shift: true, ..no_modifiers() }),
    {
        let mut r = KeyModifiers::none();
        r.shift = true;
        r
    }

    /// Ctrl alone.
    pub fn control() -> (r: KeyModifiers)
        ensures
            r == (KeyModifiers { control: true, ..no_modifiers() }),
    {
        let mut r = KeyModifiers::none();
        r.control = true;
        r
    }

    /// Alt alone.
    pub fn alt() -> (r: KeyModifiers)
        ensures
            r == (KeyModifiers { alt: true, ..no_modifiers() }),
    {
        let mut r = KeyModifiers::none();
        r.alt = true;
        r
    }
}

/// A key press.
#[derive(Debug, Clone, Copy, PartialEq, Eq, Hash, Structural)]
pub struct KeyEvent {
    pub code: KeyCode,
    pub modifiers: KeyModifiers,
}

impl KeyEvent {
    /// A press of `code` with `modifiers`.
    pub fn new(code: KeyCode, modifiers: KeyModifiers) -> (r: KeyEvent)
        ensures
            r == (KeyEvent { code, modifiers }),
    {
        KeyEvent { code, modifiers }
    }
}

/// A key with the modifiers it is bound with.
#[derive(Debug, Clone, Copy, PartialEq, Eq, Hash, Structural)]
pub struct Binding {
    pub code: KeyCode,
    pub mods: KeyModifiers,
}

/// A binding names a key that does not exist.
#[derive(Debug, Clone)]
pub struct BindError {
    /// What stands in the binding behind its modifiers.
    pub key: String,
}

/// The modifiers at the front of a binding, added to `mods`, and what follows
/// them.
pub open spec fn leading_modifiers(s: Seq<char>, mods: KeyModifiers) -> (KeyModifiers, Seq<char>)
    decreases s.len(),
{
    if s.len() >= 2 && s[1] == '-' && s[0] == 'C' {
        leading_modifiers(s.skip(2), KeyModifiers { control: true, ..mods })
    } else if s.len() >= 2 && s[1] == '-' && s[0] == 'S' {
        leading_modifiers(s.skip(2), KeyModifiers { shift: true, ..mods })
    } else if s.len() >= 2 && s[1] == '-' && s[0] == 'M' {
        leading_modifiers(s.skip(2), KeyModifiers { alt: true, ..mods })
    } else {
        (mods, s)
    }
}

/// The key that a word names.
pub open spec fn named_key(s: Seq<char>) -> Option<KeyCode> {
    if s == "Tab"@ {
        Some(KeyCode::Tab)
    } else if s == "BackTab"@ {
        Some(KeyCode::BackTab)
    } else if s == "Enter"@ {
        Some(KeyCode::Enter)
    } else if s == "Esc"@ {
        Some(KeyCode::Esc)
    } else if s == "Backspace"@ {
        Some(KeyCode::Backspace)
    } else if s == "Delete"@ {
        Some(KeyCode::Delete)
    } else if s == "Space"@ {
        Some(KeyCode::Char(' '))
    } else if s == "Left"@ {
        Some(KeyCode::Left)
    } else if s == "Right"@ {
        Some(KeyCode::Right)
    } else if s == "Up"@ {
        Some(KeyCode::Up)
    } else if s == "Down"@ {
        Some(KeyCode::Down)
    } else if s == "Home"@ {
        Some(KeyCode::Home)
    } else if s == "End"@ {
        Some(KeyCode::End)
    } else if s == "PageUp"@ {
        Some(KeyCode::PageUp)
    } else if s == "PageDown"@ {
        Some(KeyCode::PageDown)
    } else {
        None
    }
}

/// The binding that a string describes: modifiers, then the name of a key or a
/// single character. An uppercase ASCII letter implies Shift.
pub open spec fn binding_of(s: Seq<char>) -> Option<Binding> {
    let (mods, rest) = leading_modifiers(s, no_modifiers());
    match named_key(rest) {
        Some(code) => Some(Binding { code, mods }),
        None => if rest.len() == 1 {
            Some(
                Binding {
                    code: KeyCode::Char(rest[0]),
                    mods: if 'A' <= rest[0] <= 'Z' {
                        KeyModifiers { shift: true, ..mods }
                    } else {
                        mods
                    },
                },
            )
        } else {
            None
        },
    }
}

/// The key that a word names.
fn key_named(s: &str) -> (r: Option<KeyCode>)
    ensures
        r == named_key(s@),
{
    if same(s, "Tab") {
        Some(KeyCode::Tab)
    } else if same(s, "BackTab") {
        Some(KeyCode::BackTab)
    } else if same(s, "Enter") {
        Some(KeyCode::Enter)
    } else if same(s, "Esc") {
        Some(KeyCode::Esc)
    } else if same(s, "Backspace") {
        Some(KeyCode::Backspace)
    } else if same(s, "Delete") {
        Some(KeyCode::Delete)
    } else if same(s, "Space") {
        Some(KeyCode::Char(' '))
    } else if same(s, "Left") {
        Some(KeyCode::Left)
    } else if same(s, "Right") {
        Some(KeyCode::Right)
    } else if same(s, "Up") {
        Some(KeyCode::Up)
    } else if same(s, "Down") {
        Some(KeyCode::Down)
    } else if same(s, "Home") {
        Some(KeyCode::Home)
    } else if same(s, "End") {
        Some(KeyCode::End)
    } else if same(s, "PageUp") {
        Some(KeyCode::PageUp)
    } else if same(s, "PageDown") {
        Some(KeyCode::PageDown)
    } else {
        None
    }
}

impl Binding {
    /// The binding of `code` with `mods`.
    pub fn new(code: KeyCode, mods: KeyModifiers) -> (r: Binding)
        ensures
            r == (Binding { code, mods }),
    {
        Binding { code, mods }
    }

    /// True when the binding describes exactly this key event.
    ///
    /// Modifier-aware (`Ctrl-q` will not match plain `q`) and case-sensitive
    /// for `Char` (`q` will not match `Q`).
    pub fn matches(&self, event: &KeyEvent) -> (r: bool)
        ensures
            r == (self.code == event.code && self.mods == event.modifiers),
    {
        self.code == event.code && self.mods == event.modifiers
    }

    /// Parse the string form of a binding.
    pub fn from_str(input: &str) -> (r: Result<Binding, BindError>)
        ensures
            match binding_of(input@) {
                Some(b) => r == Ok::<Binding, BindError>(b),
                None => r is Err && r->Err_0.key@ == leading_modifiers(input@, no_modifiers()).1,
            },
    {
        let v = chars_of(input);
        let mut mods = KeyModifiers::none();
        let mut i: usize = 0;
        proof {
            assert(input@.skip(0) =~= input@);
        }
        while v.len() - i >= 2 && v[i + 1] == '-' && (v[i] == 'C' || v[i] == 'S' || v[i] == 'M')
            invariant
                v@ == input@,
                i <= v.len(),
                leading_modifiers(input@, no_modifiers()) == leading_modifiers(
                    input@.skip(i as int),
                    mods,
                ),
            decreases v.len() - i,
        {
            proof {
                assert(input@.skip(i as int).skip(2) =~= input@.skip(i + 2));
            }
            if v[i] == 'C' {
                mods.control = true;
            } else if v[i] == 'S' {
                mods.shift = true;
            } else {
                mods.alt = true;
            }
            i = i + 2;
        }
        let rest = crate::text::text_of(v.as_slice(), i, v.len());
        proof {
            assert(rest@ =~= input@.skip(i as int));
        }
        match key_named(rest.as_str()) {
            Some(code) => Ok(Binding { code, mods }),
            None => {
                if v.len() - i == 1 {
                    let ch = v[i];
                    if 'A' <= ch && ch <= 'Z' {
                        mods.shift = true;
                    }
                    Ok(Binding { code: KeyCode::Char(ch), mods })
                } else {
                    Err(BindError { key: rest })
                }
            },
        }
    }
}

impl std::str::FromStr for Binding {
    type Err = BindError;

    /// Parse the string form of a binding, as `Binding::from_str` does.
    fn from_str(input: &str) -> (r: Result<Binding, BindError>)
        ensures
            match binding_of(input@) {
                Some(b) => r == Ok::<Binding, BindError>(b),
                None => r is Err && r->Err_0.key@ == leading_modifiers(input@, no_modifiers()).1,
            },
    {
        Binding::from_str(input)
    }
}

// ─── Laws ──────────────────────────────────────────────────────────────

/// A bare uppercase letter is the same binding as that letter with `S-` in
/// front.
pub proof fn law_uppercase_implies_shift(c: char)
    requires
        'A' <= c <= 'Z',
    ensures
        binding_of(seq![c]) == Some(
            Binding {
                code: KeyCode::Char(c),
                mods: KeyModifiers { shift: true, ..no_modifiers() },
            },
        ),
        binding_of(seq!['S', '-', c]) == binding_of(seq![c]),
{
    lemma_single_is_no_name(c);
    reveal_with_fuel(leading_modifiers, 2);
    assert(seq!['S', '-', c].skip(2) =~= seq![c]);
}

/// The order of the modifier chunks, and their repetition, makes no difference:
/// a chunk in front of any binding only adds its modifier.
pub proof fn law_modifier_chunks_accumulate(s: Seq<char>, mods: KeyModifiers)
    ensures
        leading_modifiers(seq!['C', '-'] + s, mods) == leading_modifiers(
            s,
            KeyModifiers { control: true, ..mods },
        ),
        leading_modifiers(seq!['S', '-'] + s, mods) == leading_modifiers(
            s,
            KeyModifiers { shift: true, ..mods },
        ),
        leading_modifiers(seq!['M', '-'] + s, mods) == leading_modifiers(
            s,
            KeyModifiers { alt: true, ..mods },
        ),
{
    assert((seq!['C', '-'] + s).skip(2) =~= s);
    assert((seq!['S', '-'] + s).skip(2) =~= s);
    assert((seq!['M', '-'] + s).skip(2) =~= s);
}

/// Modifiers that are held already are added to those at the front.
proof fn lemma_modifiers_add(s: Seq<char>, mods: KeyModifiers)
    ensures
        leading_modifiers(s, mods).1 == leading_modifiers(s, no_modifiers()).1,
        leading_modifiers(s, mods).0 == with_modifiers(
            leading_modifiers(s, no_modifiers()).0,
            mods,
        ),
    decreases s.len(),
{
    if s.len() >= 2 && s[1] == '-' && (s[0] == 'C' || s[0] == 'S' || s[0] == 'M') {
        let (one, all) = if s[0] == 'C' {
            (
                KeyModifiers { control: true, ..no_modifiers() },
                KeyModifiers { control: true, ..mods },
            )
        } else if s[0] == 'S' {
            (KeyModifiers { shift: true, ..no_modifiers() }, KeyModifiers { shift: true, ..mods })
        } else {
            (KeyModifiers { alt: true, ..no_modifiers() }, KeyModifiers { alt: true, ..mods })
        };
        lemma_modifiers_add(s.skip(2), one);
        lemma_modifiers_add(s.skip(2), all);
    }
}

/// Both sets of modifiers.
pub open spec fn with_modifiers(a: KeyModifiers, b: KeyModifiers) -> KeyModifiers {
    KeyModifiers {
        shift: a.shift || b.shift,
        control: a.control || b.control,
        alt: a.alt || b.alt,
        super_key: a.super_key || b.super_key,
        hyper: a.hyper || b.hyper,
        meta: a.meta || b.meta,
    }
}

/// A binding with more modifiers.
pub open spec fn held_with(b: Option<Binding>, mods: KeyModifiers) -> Option<Binding> {
    match b {
        Some(b) => Some(Binding { mods: with_modifiers(b.mods, mods), ..b }),
        None => None,
    }
}

/// A modifier chunk in front of a string describes the binding that the string
/// does with that modifier added, and none exactly where the string describes
/// none. So chunks may repeat, and come in any order.
pub proof fn law_a_chunk_adds_its_modifier(s: Seq<char>)
    ensures
        binding_of("C-"@ + s) == held_with(
            binding_of(s),
            KeyModifiers { control: true, ..no_modifiers() },
        ),
        binding_of("S-"@ + s) == held_with(
            binding_of(s),
            KeyModifiers { shift: true, ..no_modifiers() },
        ),
        binding_of("M-"@ + s) == held_with(
            binding_of(s),
            KeyModifiers { alt: true, ..no_modifiers() },
        ),
{
    reveal_strlit("C-");
    reveal_strlit("S-");
    reveal_strlit("M-");
    assert(("C-"@ + s).skip(2) =~= s);
    assert(("S-"@ + s).skip(2) =~= s);
    assert(("M-"@ + s).skip(2) =~= s);
    lemma_modifiers_add(s, KeyModifiers { control: true, ..no_modifiers() });
    lemma_modifiers_add(s, KeyModifiers { shift: true, ..no_modifiers() });
    lemma_modifiers_add(s, KeyModifiers { alt: true, ..no_modifiers() });
}

/// No name of a key is a single character.
proof fn lemma_single_is_no_name(c: char)
    ensures
        named_key(seq![c]) is None,
{
    let s = seq![c];
    assert(s.len() == 1);
    reveal_strlit("Tab");
    reveal_strlit("BackTab");
    reveal_strlit("Enter");
    reveal_strlit("Esc");
    reveal_strlit("Backspace");
    reveal_strlit("Delete");
    reveal_strlit("Space");
    reveal_strlit("Left");
    reveal_strlit("Right");
    reveal_strlit("Up");
    reveal_strlit("Down");
    reveal_strlit("Home");
    reveal_strlit("End");
    reveal_strlit("PageUp");
    reveal_strlit("PageDown");
}

/// Each key that has a name is bound by that name alone, without modifiers.
pub proof fn law_a_named_key_is_bound_by_its_name()
    ensures
        binding_of("Tab"@) == Some(Binding { code: KeyCode::Tab, mods: no_modifiers() }),
        binding_of("BackTab"@) == Some(Binding { code: KeyCode::BackTab, mods: no_modifiers() }),
        binding_of("Enter"@) == Some(Binding { code: KeyCode::Enter, mods: no_modifiers() }),
        binding_of("Esc"@) == Some(Binding { code: KeyCode::Esc, mods: no_modifiers() }),
        binding_of("Backspace"@) == Some(Binding { code: KeyCode::Backspace, mods: no_modifiers() }),
        binding_of("Delete"@) == Some(Binding { code: KeyCode::Delete, mods: no_modifiers() }),
        binding_of("Space"@) == Some(Binding { code: KeyCode::Char(' '), mods: no_modifiers() }),
        binding_of("Left"@) == Some(Binding { code: KeyCode::Left, mods: no_modifiers() }),
        binding_of("Right"@) == Some(Binding { code: KeyCode::Right, mods: no_modifiers() }),
        binding_of("Up"@) == Some(Binding { code: KeyCode::Up, mods: no_modifiers() }),
        binding_of("Down"@) == Some(Binding { code: KeyCode::Down, mods: no_modifiers() }),
        binding_of("Home"@) == Some(Binding { code: KeyCode::Home, mods: no_modifiers() }),
        binding_of("End"@) == Some(Binding { code: KeyCode::End, mods: no_modifiers() }),
        binding_of("PageUp"@) == Some(Binding { code: KeyCode::PageUp, mods: no_modifiers() }),
        binding_of("PageDown"@) == Some(Binding { code: KeyCode::PageDown, mods: no_modifiers() }),
{
    reveal_strlit("Tab");
    reveal_strlit("BackTab");
    reveal_strlit("Enter");
    reveal_strlit("Esc");
    reveal_strlit("Backspace");
    reveal_strlit("Delete");
    reveal_strlit("Space");
    reveal_strlit("Left");
    reveal_strlit("Right");
    reveal_strlit("Up");
    reveal_strlit("Down");
    reveal_strlit("Home");
    reveal_strlit("End");
    reveal_strlit("PageUp");
    reveal_strlit("PageDown");
    assert("Esc"@[1] == 's');
    assert("End"@[1] == 'n');
    assert("End"@ != "Esc"@);
    lemma_named("Tab"@, 'T', 'a', 3);
    lemma_named("BackTab"@, 'B', 'a', 7);
    lemma_named("Enter"@, 'E', 'n', 5);
    lemma_named("Esc"@, 'E', 's', 3);
    lemma_named("Backspace"@, 'B', 'a', 9);
    lemma_named("Delete"@, 'D', 'e', 6);
    lemma_named("Space"@, 'S', 'p', 5);
    lemma_named("Left"@, 'L', 'e', 4);
    lemma_named("Right"@, 'R', 'i', 5);
    lemma_named("Up"@, 'U', 'p', 2);
    lemma_named("Down"@, 'D', 'o', 4);
    lemma_named("Home"@, 'H', 'o', 4);
    lemma_named("End"@, 'E', 'n', 3);
    lemma_named("PageUp"@, 'P', 'a', 6);
    lemma_named("PageDown"@, 'P', 'a', 8);
}

/// A word whose second character is no dash has no modifiers.
proof fn lemma_named(s: Seq<char>, first: char, second: char, n: nat)
    requires
        n >= 2,
        s.len() == n,
        s[0] == first,
        s[1] == second,
        second != '-',
    ensures
        leading_modifiers(s, no_modifiers()) == (no_modifiers(), s),
{
}

/// A character stands for itself, without modifiers unless it is an uppercase
/// letter, and a word that names no key describes none.
pub proof fn law_a_character_is_bound_by_itself(c: char, s: Seq<char>)
    ensures
        !('A' <= c <= 'Z') ==> binding_of(seq![c]) == Some(
            Binding { code: KeyCode::Char(c), mods: no_modifiers() },
        ),
        s.len() == 0 ==> binding_of(s) is None,
        s.len() > 1 && s[1] != '-' && named_key(s) is None ==> binding_of(s) is None,
{
    lemma_single_is_no_name(c);
    if s.len() == 0 {
        reveal_strlit("Tab");
        reveal_strlit("BackTab");
        reveal_strlit("Enter");
        reveal_strlit("Esc");
        reveal_strlit("Backspace");
        reveal_strlit("Delete");
        reveal_strlit("Space");
        reveal_strlit("Left");
        reveal_strlit("Right");
        reveal_strlit("Up");
        reveal_strlit("Down");
        reveal_strlit("Home");
        reveal_strlit("End");
        reveal_strlit("PageUp");
        reveal_strlit("PageDown");
        assert("Tab"@.len() == 3);
        assert("BackTab"@.len() == 7);
        assert("Enter"@.len() == 5);
        assert("Esc"@.len() == 3);
        assert("Backspace"@.len() == 9);
        assert("Delete"@.len() == 6);
        assert("Space"@.len() == 5);
        assert("Left"@.len() == 4);
        assert("Right"@.len() == 5);
        assert("Up"@.len() == 2);
        assert("Down"@.len() == 4);
        assert("Home"@.len() == 4);
        assert("End"@.len() == 3);
        assert("PageUp"@.len() == 6);
        assert("PageDown"@.len() == 8);
    }
}

} // verus!
