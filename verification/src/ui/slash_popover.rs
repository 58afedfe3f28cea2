//! Slash-command autocomplete popover.
//!
//! When the user is composing a message that starts with `/`, the popover
//! shows the commands that the agent advertises. The user filters by typing
//! more of the name; `Tab` completes; `Up`/`Down` navigates.
use crate::agent::{AvailableCommand, AvailableCommandView};
use crate::order::{
    all_views, comes_first, law_sort_is_stable, lemma_sort_contains, sort_of, stable_sort, Ordered,
};
use crate::text::{
    before, chars_of, concat2, concat3, decimal, decimal_of, has_prefix, is_before, is_space,
    is_whitespace, lowercase, starts_with, to_lower,
};
use crate::ui::scene::{
    bordered, clamped, cut, in_hue, less, plain_look, Area, Border, Hue, Look, PieceView, Scene,
    StyledLine, Widget, WidgetView,
};
use vstd::prelude::*;
use vstd::string::*;

verus! {

/// The command name being typed: what follows a leading `/`, as long as it
/// holds no white space.
pub open spec fn slash_prefix(buffer: Seq<char>) -> Option<Seq<char>> {
    if buffer.len() > 0 && buffer[0] == '/' && forall|i: int|
        1 <= i < buffer.len() ==> !is_space(#[trigger] buffer[i]) {
        Some(buffer.skip(1))
    } else {
        None
    }
}

/// Whether a command's name starts with `prefix`, whatever the case.
pub open spec fn name_matches(command: AvailableCommandView, prefix: Seq<char>) -> bool {
    has_prefix(lowercase(command.name), lowercase(prefix))
}

/// The commands whose names start with `prefix`, by name.
pub open spec fn matching(commands: Seq<AvailableCommandView>, prefix: Seq<char>) -> Seq<
    AvailableCommandView,
> {
    sort_of(commands.filter(|c: AvailableCommandView| name_matches(c, prefix)))
}

/// The buffer that a command's name completes to.
pub open spec fn completion(name: Seq<char>) -> Seq<char> {
    "/"@ + name + " "@
}

impl<'a> Ordered for &'a AvailableCommand {
    fn precedes(&self, other: &Self) -> (r: bool) {
        is_before(self.name.as_str(), other.name.as_str())
    }
}

/// Parse the slash-command prefix out of `buffer`.
///
/// Returns the text after the leading `/` when the buffer is a command in
/// progress and the popover should be visible. Returns `None` when the buffer
/// is empty, doesn't start with `/`, or already holds white space (the user is
/// typing the argument, or a draft of several lines).
pub fn extract_prefix(buffer: &str) -> (r: Option<&str>)
    ensures
        match r {
            Some(p) => slash_prefix(buffer@) == Some(p@),
            None => slash_prefix(buffer@) is None,
        },
{
    let v = chars_of(buffer);
    if v.len() == 0 || v[0] != '/' {
        return None;
    }
    let mut i: usize = 1;
    while i < v.len()
        invariant
            v@ == buffer@,
            1 <= i <= v@.len(),
            forall|j: int| 1 <= j < i ==> !is_space(#[trigger] buffer@[j]),
        decreases v@.len() - i,
    {
        if is_whitespace(v[i]) {
            proof {
                assert(is_space(buffer@[i as int]));
            }
            return None;
        }
        i = i + 1;
    }
    let p = buffer.substring_char(1, v.len());
    proof {
        assert(p@ =~= buffer@.skip(1));
    }
    Some(p)
}

/// Filter `commands` by name prefix (case-insensitive), in alphabetical order.
pub fn filter<'a>(commands: &'a Vec<AvailableCommand>, prefix: &str) -> (r: Vec<
    &'a AvailableCommand,
>)
    ensures
        all_views(r@) == matching(all_views(commands@), prefix@),
{
    let needle = to_lower(prefix);
    let ghost all = all_views(commands@);
    let ghost keep = |c: AvailableCommandView| name_matches(c, prefix@);
    let mut out: Vec<&'a AvailableCommand> = Vec::new();
    let mut i: usize = 0;
    proof {
        reveal(Seq::filter);
        assert(all.take(0) =~= seq![]);
        assert(all_views(out@) =~= all.take(0).filter(keep));
    }
    while i < commands.len()
        invariant
            i <= commands@.len(),
            needle@ == lowercase(prefix@),
            all == all_views(commands@),
            keep == (|c: AvailableCommandView| name_matches(c, prefix@)),
            all_views(out@) == all.take(i as int).filter(keep),
        decreases commands@.len() - i,
    {
        let ghost had = out@;
        let ghost c = commands@[i as int]@;
        proof {
            reveal(Seq::filter);
            assert(all.take(i + 1).drop_last() =~= all.take(i as int));
            assert(all.take(i + 1).last() == c);
        }
        let name = to_lower(commands[i].name.as_str());
        if starts_with(name.as_str(), needle.as_str()) {
            out.push(&commands[i]);
            proof {
                assert(keep(c));
                assert(all_views(out@) =~= all_views(had).push(c));
            }
        } else {
            proof {
                assert(!keep(c));
            }
        }
        i = i + 1;
    }
    proof {
        assert(all.take(i as int) =~= all);
    }
    stable_sort(out)
}

/// The given command's name as a buffer: with its slash and a trailing space,
/// so the user can continue typing the argument.
pub fn completion_for(name: &str) -> (r: String)
    ensures
        r@ == completion(name@),
{
    concat3("/", name, " ")
}

/// The line of a command: its name, what it takes, and what it does.
pub open spec fn popover_item(c: AvailableCommandView) -> Seq<PieceView> {
    seq![
        PieceView { text: "/"@ + c.name, look: Look { bold: true, ..in_hue(Hue::Cyan) } },
        match c.hint {
            Some(hint) => PieceView { text: " <"@ + hint + ">"@, look: in_hue(Hue::DarkGray) },
            None => PieceView { text: seq![], look: plain_look() },
        },
        PieceView { text: " — "@ + c.description, look: in_hue(Hue::Gray) },
    ]
}

/// The popover's area: above the input box, with up to eight rows of commands,
/// as far as there is room. Without commands, or without room for one of them
/// inside the border, there is none.
pub open spec fn popover_area(input: Area, found: nat) -> Option<Area> {
    let wanted: u16 = if found < 8 {
        (found + 2) as u16
    } else {
        10
    };
    let rows = cut(wanted, less(input.y, 1));
    if found == 0 || rows < 3 {
        None
    } else {
        Some(Area { y: less(input.y, rows), height: rows, ..input })
    }
}

/// The popover.
pub open spec fn popover(input: Area, found: Seq<AvailableCommandView>, selected: usize) -> Seq<
    WidgetView,
> {
    match popover_area(input, found.len()) {
        None => seq![],
        Some(area) => seq![
            WidgetView::Clear { area },
            WidgetView::List {
                area,
                items: found.map_values(|c: AvailableCommandView| popover_item(c)),
                selected: Some(clamped(selected as int, 0, found.len() - 1) as usize),
                highlight: Look { bg: Some(Hue::Cyan), bold: true, ..in_hue(Hue::Black) },
                symbol: seq![],
                border: Some(
                    bordered(
                        " Commands ("@ + decimal(found.len()) + ") "@,
                        in_hue(Hue::Cyan),
                    ),
                ),
            },
        ],
    }
}

/// The line of a command.
fn popover_line(c: &AvailableCommand) -> (r: StyledLine)
    ensures
        r@ == popover_item(c@),
{
    let mut r = StyledLine::one(concat2("/", c.name.as_str()), Look::hue(Hue::Cyan).bold());
    match &c.hint {
        Some(hint) => r.push(concat3(" <", hint.as_str(), ">"), Look::hue(Hue::DarkGray)),
        None => {
            let none = String::new();
            proof {
                assert(none@ =~= seq![]);
            }
            r.push(none, Look::plain());
        },
    }
    r.push(concat2(" — ", c.description.as_str()), Look::hue(Hue::Gray));
    proof {
        assert(r@ =~= popover_item(c@));
    }
    r
}

/// Draw the popover above `input`, and return the area that was painted. Does
/// nothing if there are no matches, or no room.
pub fn render(
    scene: &mut Scene,
    input: Area,
    found: &Vec<&AvailableCommand>,
    selected: usize,
) -> (r: Option<Area>)
    ensures
        final(scene)@ == old(scene)@ + popover(input, all_views(found@), selected),
        r == popover_area(input, found@.len()),
{
    let ghost before = scene@;
    let wanted: u16 = if found.len() < 8 {
        found.len() as u16 + 2
    } else {
        10
    };
    let above: u16 = input.y.saturating_sub(1);
    let rows: u16 = if wanted < above {
        wanted
    } else {
        above
    };
    if found.len() == 0 || rows < 3 {
        proof {
            assert(before + Seq::<WidgetView>::empty() =~= before);
        }
        return None;
    }
    let area = Area {
        x: input.x,
        y: input.y.saturating_sub(rows),
        width: input.width,
        height: rows,
    };
    scene.draw(Widget::Clear { area });
    let ghost all = all_views(found@);
    let ghost item = |c: AvailableCommandView| popover_item(c);
    let mut items: Vec<StyledLine> = Vec::new();
    let mut i: usize = 0;
    proof {
        assert(all_views(items@) =~= all.take(0).map_values(item));
    }
    while i < found.len()
        invariant
            i <= found@.len(),
            all == all_views(found@),
            item == (|c: AvailableCommandView| popover_item(c)),
            all_views(items@) == all.take(i as int).map_values(item),
        decreases found@.len() - i,
    {
        let ghost had = items@;
        items.push(popover_line(found[i]));
        proof {
            assert(all_views(items@) =~= all_views(had).push(item(all[i as int])));
            assert(all.take(i + 1).map_values(item) =~= all.take(i as int).map_values(item).push(
                item(all[i as int]),
            ));
        }
        i = i + 1;
    }
    proof {
        assert(all.take(i as int) =~= all);
    }
    let chosen: usize = if selected < found.len() {
        selected
    } else {
        found.len() - 1
    };
    let count = decimal_of(found.len() as u64);
    let symbol = String::new();
    proof {
        assert(symbol@ =~= seq![]);
    }
    scene.draw(
        Widget::List {
            area,
            items,
            selected: Some(chosen),
            highlight: Look::hue(Hue::Black).on(Hue::Cyan).bold(),
            symbol,
            border: Some(
                Border::new(concat3(" Commands (", count.as_str(), ") "), Look::hue(Hue::Cyan)),
            ),
        },
    );
    proof {
        assert(scene@ =~= before + popover(input, all, selected));
    }
    Some(area)
}

// ─── Laws ──────────────────────────────────────────────────────────────

/// The popover floats above the input box: it ends where the box begins, and
/// never takes more than the rows that are above it.
pub proof fn law_the_popover_fits_above_the_input(input: Area, found: nat)
    ensures
        match popover_area(input, found) {
            Some(area) => area.y + area.height == input.y && 1 <= area.y && 3 <= area.height <= 10
                && area.x == input.x && area.width == input.width,
            None => found == 0 || input.y < 4,
        },
{
}

/// A completed command closes the popover: from then on an argument is typed.
pub proof fn law_completion_closes_the_popover(name: Seq<char>, argument: Seq<char>)
    ensures
        slash_prefix(completion(name) + argument) is None,
{
    reveal_strlit("/");
    reveal_strlit(" ");
    let b = completion(name) + argument;
    let i = name.len() as int + 1;
    assert(b[i] == ' ');
    assert(is_space(b[i]));
}

/// The popover lists commands that the agent advertised and that begin as typed,
/// in the order of their names.
pub proof fn law_matches_are_sorted(
    commands: Seq<AvailableCommandView>,
    prefix: Seq<char>,
    i: int,
    j: int,
)
    requires
        0 <= i < j < matching(commands, prefix).len(),
    ensures
        commands.contains(matching(commands, prefix)[i]),
        name_matches(matching(commands, prefix)[i], prefix),
        !before(matching(commands, prefix)[j].name, matching(commands, prefix)[i].name),
{
    let keep = |c: AvailableCommandView| name_matches(c, prefix);
    let kept = commands.filter(keep);
    let found = matching(commands, prefix);
    law_sort_is_stable(kept);
    assert(!comes_first(found[j], found[i]));
    assert(found.contains(found[i]));
    lemma_sort_contains(kept, found[i]);
    commands.lemma_filter_contains_rev(keep, found[i]);
    let k = choose|k: int| 0 <= k < kept.len() && kept[k] == found[i];
    commands.lemma_filter_pred(keep, k);
}

} // verus!
