//! Shared colour and padding helpers.
use crate::agent::AgentStatus;
use crate::text::{chars_of, concat2};
use crate::ui::scene::{in_hue, Hue, Look};
use vstd::prelude::*;
use vstd::string::*;

verus! {

/// The look of a pane's border.
pub open spec fn border_look(focused: bool) -> Look {
    if focused {
        in_hue(Hue::Yellow)
    } else {
        in_hue(Hue::DarkGray)
    }
}

/// Border colour for a focused vs unfocused pane.
pub fn border_style(focused: bool) -> (r: Look)
    ensures
        r == border_look(focused),
{
    if focused {
        Look::hue(Hue::Yellow)
    } else {
        Look::hue(Hue::DarkGray)
    }
}

/// The colour of an agent's status.
pub open spec fn status_hue(status: AgentStatus) -> Hue {
    match status {
        AgentStatus::Idle => Hue::Gray,
        AgentStatus::Running => Hue::Green,
        AgentStatus::Stopped => Hue::DarkGray,
        AgentStatus::Error => Hue::Red,
    }
}

/// Colour used to render an agent's `[status]` chip.
pub fn status_color(status: &AgentStatus) -> (r: Hue)
    ensures
        r == status_hue(*status),
{
    match status {
        AgentStatus::Idle => Hue::Gray,
        AgentStatus::Running => Hue::Green,
        AgentStatus::Stopped => Hue::DarkGray,
        AgentStatus::Error => Hue::Red,
    }
}

/// `n` spaces.
pub open spec fn blanks(n: nat) -> Seq<char> {
    Seq::new(n, |i: int| ' ')
}

/// `n` spaces.
pub fn spaces(n: usize) -> (r: String)
    ensures
        r@ == blanks(n as nat),
{
    let mut r = String::new();
    let mut i: usize = 0;
    proof {
        assert(r@ =~= blanks(0));
    }
    while i < n
        invariant
            i <= n,
            r@ == blanks(i as nat),
        decreases n - i,
    {
        r.push(' ');
        proof {
            assert(blanks(i as nat).push(' ') =~= blanks((i + 1) as nat));
        }
        i = i + 1;
    }
    r
}

/// What a text of `have` characters lacks to `want`.
pub open spec fn lacking(have: nat, want: nat) -> nat {
    if have < want {
        (want - have) as nat
    } else {
        0
    }
}

/// `text` at the left of at least `width` columns.
pub open spec fn flush_left(text: Seq<char>, width: nat) -> Seq<char> {
    text + blanks(lacking(text.len(), width))
}

/// `text` at the left of at least `width` columns.
pub fn pad_right(text: &str, width: usize) -> (r: String)
    ensures
        r@ == flush_left(text@, width as nat),
{
    let have: usize = chars_of(text).len();
    let fill = spaces(
        if have < width {
            width - have
        } else {
            0
        },
    );
    concat2(text, fill.as_str())
}

/// `text` at the right of at least `width` columns.
pub open spec fn flush_right(text: Seq<char>, width: nat) -> Seq<char> {
    blanks(lacking(text.len(), width)) + text
}

/// `text` at the right of at least `width` columns.
pub fn pad_left(text: &str, width: usize) -> (r: String)
    ensures
        r@ == flush_right(text@, width as nat),
{
    let have: usize = chars_of(text).len();
    let fill = spaces(
        if have < width {
            width - have
        } else {
            0
        },
    );
    concat2(fill.as_str(), text)
}

} // verus!
