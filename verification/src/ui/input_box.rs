//! Auto-sizing wrapped Message input box.
//!
//! The session screen sizes the box by calling [`compute_height`] and then
//! draws it with [`render`]. Characters count as one column each.
use crate::order::all_views;
use crate::text::{chars_of, lines, lines_of, position, split, split_on, views};
use crate::ui::scene::{
    bordered, clamped, in_hue, moved, one_piece, plain_look, scroll_to, scroll_to_row, Area, Border,
    Hue, Look, PieceView, Scene, StyledLine, Widget, WidgetView,
};
use vstd::prelude::*;
use vstd::string::*;

verus! {

/// The rows that a line of `n` characters takes: an empty one takes one.
pub open spec fn rows_of(n: nat, width: nat) -> nat {
    if n == 0 {
        1
    } else {
        ((n - 1) / width as int + 1) as nat
    }
}

/// The rows that lines take one below the other.
pub open spec fn stacked(pieces: Seq<Seq<char>>, width: nat) -> nat
    decreases pieces.len(),
{
    if pieces.len() == 0 {
        0
    } else {
        stacked(pieces.drop_last(), width) + rows_of(pieces.last().len(), width)
    }
}

/// The rows that a wrapped buffer takes.
pub open spec fn row_count(buffer: Seq<char>, width: nat) -> nat {
    if width == 0 {
        1
    } else {
        stacked(split(buffer, '\n'), width)
    }
}

/// The column behind the last of `n` wrapped characters.
pub open spec fn end_column(n: nat, width: nat) -> nat {
    if n == 0 {
        0
    } else {
        ((n - 1) % width as int + 1) as nat
    }
}

/// Where the caret stands behind a wrapped buffer: on its last row, behind the
/// last character.
pub open spec fn caret(buffer: Seq<char>, width: nat) -> (nat, nat) {
    if width == 0 {
        (0, 0)
    } else {
        (
            (row_count(buffer, width) - 1) as nat,
            end_column(split(buffer, '\n').last().len(), width),
        )
    }
}

/// The height of the box with its borders, from 3 to `max_rows`.
pub open spec fn box_height(buffer: Seq<char>, width: nat, max_rows: u16) -> u16 {
    clamped(row_count(buffer, width) as int + 2, 3, max_rows as int) as u16
}

/// How splitting goes on when a character is appended.
proof fn lemma_split_push(s: Seq<char>, c: char, x: char)
    ensures
        split(s, c).len() > 0,
        x == c ==> split(s.push(x), c) == split(s, c).push(seq![]),
        x != c ==> split(s.push(x), c) == split(s, c).drop_last().push(split(s, c).last().push(x)),
    decreases s.len(),
{
    crate::text::lemma_position(s, c);
    let k = position(s, c) as int;
    let t = s.push(x);
    crate::text::lemma_position(t, c);
    if k < s.len() {
        crate::text::lemma_position_is(t, c, k);
        let rest = s.skip(k + 1);
        lemma_split_push(rest, c, x);
        assert(t.take(k) =~= s.take(k));
        assert(t.skip(k + 1) =~= rest.push(x));
        let head = seq![s.take(k)];
        assert(split(s, c) == head + split(rest, c));
        assert(split(t, c) == head + split(rest.push(x), c));
        if x == c {
            assert(head + split(rest, c).push(seq![]) =~= (head + split(rest, c)).push(seq![]));
        } else {
            let r = split(rest, c);
            assert((head + r).drop_last() =~= head + r.drop_last());
            assert((head + r).last() == r.last());
            assert(head + r.drop_last().push(r.last().push(x)) =~= (head + r.drop_last()).push(
                r.last().push(x),
            ));
        }
    } else if x == c {
        crate::text::lemma_position_is(t, c, k);
        assert(t.take(k) =~= s);
        assert(t.skip(k + 1) =~= seq![]);
        let none = Seq::<char>::empty();
        crate::text::lemma_position(none, c);
        assert(split(none, c) =~= seq![none]);
        assert(split(t, c) =~= seq![s].push(none));
    } else {
        assert(position(t, c) == t.len()) by {
            crate::text::lemma_position_is(t, c, t.len() as int);
        }
        assert(split(t, c) =~= seq![t]);
        assert(seq![s].drop_last() =~= seq![]);
    }
}

/// One more wrapped character.
proof fn lemma_one_more(n: nat, width: nat)
    requires
        width > 0,
    ensures
        end_column(n, width) <= width,
        end_column(n, width) == width ==> rows_of(n + 1, width) == rows_of(n, width) + 1
            && end_column(n + 1, width) == 1,
        end_column(n, width) < width ==> rows_of(n + 1, width) == rows_of(n, width) && end_column(
            n + 1,
            width,
        ) == end_column(n, width) + 1,
        rows_of(n, width) >= 1,
{
    let w = width as int;
    if n == 0 {
        vstd::arithmetic::div_mod::lemma_fundamental_div_mod_converse(0, w, 0, 0);
    } else {
        let m = n - 1;
        vstd::arithmetic::div_mod::lemma_fundamental_div_mod(m, w);
        vstd::arithmetic::div_mod::lemma_mod_bound(m, w);
        vstd::arithmetic::div_mod::lemma_div_pos_is_pos(m, w);
        let q = m / w;
        let r = m % w;
        if r + 1 == w {
            assert(m + 1 == w * (q + 1) + 0) by (nonlinear_arith)
                requires
                    m == w * q + r,
                    r + 1 == w,
            ;
            vstd::arithmetic::div_mod::lemma_fundamental_div_mod_converse(m + 1, w, q + 1, 0);
        } else {
            vstd::arithmetic::div_mod::lemma_fundamental_div_mod_converse(m + 1, w, q, r + 1);
        }
    }
}

/// Rows and columns when a character is appended.
proof fn lemma_caret_push(s: Seq<char>, x: char, width: nat)
    requires
        width > 0,
    ensures
        row_count(s, width) >= 1,
        ({
            let (row, col) = caret(s, width);
            let (row2, col2) = caret(s.push(x), width);
            if x == '\n' {
                row2 == row + 1 && col2 == 0
            } else if col >= width {
                row2 == row + 1 && col2 == 1
            } else {
                row2 == row && col2 == col + 1
            }
        }),
{
    lemma_split_push(s, '\n', x);
    let p = split(s, '\n');
    let q = split(s.push(x), '\n');
    lemma_one_more(p.last().len(), width);
    if x == '\n' {
        assert(q.drop_last() =~= p);
    } else {
        assert(q.drop_last() =~= p.drop_last());
    }
}

/// A buffer takes at most one row more than it has characters.
proof fn lemma_row_bound(s: Seq<char>, width: nat)
    requires
        width > 0,
    ensures
        1 <= row_count(s, width) <= s.len() + 1,
    decreases s.len(),
{
    if s.len() == 0 {
        crate::text::lemma_position(s, '\n');
        assert(split(s, '\n') =~= seq![s]);
        assert(seq![s].drop_last() =~= seq![]);
        assert(stacked(Seq::<Seq<char>>::empty(), width) == 0);
    } else {
        lemma_row_bound(s.drop_last(), width);
        lemma_caret_push(s.drop_last(), s.last(), width);
        assert(s.drop_last().push(s.last()) =~= s);
        lemma_split_push(s.drop_last(), '\n', s.last());
        let p = split(s.drop_last(), '\n');
        lemma_one_more(p.last().len(), width);
        let q = split(s, '\n');
        lemma_one_more(q.last().len(), width);
    }
}

/// Number of terminal rows the wrapped `buffer` will occupy when laid out into
/// a paragraph of `width` columns.
pub fn wrapped_row_count(buffer: &str, width: usize) -> (r: usize)
    requires
        buffer@.len() < usize::MAX,
    ensures
        r == row_count(buffer@, width as nat),
        1 <= r <= buffer@.len() + 1,
{
    if width == 0 {
        return 1;
    }
    let pieces = split_on(buffer, '\n');
    let ghost all = split(buffer@, '\n');
    proof {
        lemma_row_bound(buffer@, width as nat);
        assert(all.take(0) =~= seq![]);
    }
    let mut rows: usize = 0;
    let mut i: usize = 0;
    while i < pieces.len()
        invariant
            i <= pieces@.len(),
            width > 0,
            all == views(pieces@),
            rows == stacked(all.take(i as int), width as nat),
            stacked(all, width as nat) <= usize::MAX,
        decreases pieces@.len() - i,
    {
        let cols: usize = pieces[i].as_str().unicode_len();
        let more: usize = if cols == 0 {
            1
        } else {
            // At most `cols` rows, so the sum stays within the whole.
            proof {
                vstd::arithmetic::div_mod::lemma_div_is_ordered_by_denominator(
                    cols as int - 1,
                    1,
                    width as int,
                );
            }
            (cols - 1) / width + 1
        };
        proof {
            let t = all.take(i + 1);
            assert(t.drop_last() =~= all.take(i as int));
            assert(t.last() == pieces@[i as int]@);
            lemma_stacked_prefix(all, i + 1, width as nat);
        }
        rows = rows + more;
        i = i + 1;
    }
    proof {
        assert(all.take(i as int) =~= all);
    }
    rows
}

/// The first lines take no more rows than all.
proof fn lemma_stacked_prefix(pieces: Seq<Seq<char>>, n: int, width: nat)
    requires
        0 <= n <= pieces.len(),
    ensures
        stacked(pieces.take(n), width) <= stacked(pieces, width),
    decreases pieces.len() - n,
{
    if n < pieces.len() {
        lemma_stacked_prefix(pieces, n + 1, width);
        assert(pieces.take(n + 1).drop_last() =~= pieces.take(n));
    } else {
        assert(pieces.take(n) =~= pieces);
    }
}

/// Height (in rows) the input box should request, clamped to `[3, max_rows]`.
/// Counts the top and bottom borders.
pub fn compute_height(buffer: &str, inner_width: usize, max_rows: u16) -> (r: u16)
    requires
        buffer@.len() < usize::MAX,
        max_rows >= 3,
    ensures
        r == box_height(buffer@, inner_width as nat, max_rows),
        3 <= r <= max_rows,
{
    let content: usize = wrapped_row_count(buffer, inner_width);
    if content < max_rows as usize - 2 {
        content as u16 + 2
    } else {
        max_rows
    }
}

/// Wrapped (row, column) position of the caret, which stands at the end of
/// `buffer`.
pub fn caret_position(buffer: &str, width: usize) -> (r: (usize, usize))
    requires
        buffer@.len() < usize::MAX,
    ensures
        (r.0 as nat, r.1 as nat) == caret(buffer@, width as nat),
        r.0 + 1 == row_count(buffer@, width as nat),
{
    if width == 0 {
        return (0, 0);
    }
    let v = chars_of(buffer);
    let mut row: usize = 0;
    let mut col: usize = 0;
    let mut i: usize = 0;
    proof {
        let none = Seq::<char>::empty();
        assert(buffer@.take(0) =~= none);
        crate::text::lemma_position(none, '\n');
        assert(split(none, '\n') =~= seq![none]);
        assert(seq![none].drop_last() =~= seq![]);
        assert(stacked(Seq::<Seq<char>>::empty(), width as nat) == 0);
    }
    while i < v.len()
        invariant
            v@ == buffer@,
            buffer@.len() < usize::MAX,
            width > 0,
            i <= v@.len(),
            (row as nat, col as nat) == caret(buffer@.take(i as int), width as nat),
            row <= i,
            col <= i,
        decreases v@.len() - i,
    {
        let ch = v[i];
        proof {
            assert(buffer@.take(i + 1) =~= buffer@.take(i as int).push(ch));
            lemma_caret_push(buffer@.take(i as int), ch, width as nat);
        }
        if ch == '\n' {
            row = row + 1;
            col = 0;
        } else if col >= width {
            row = row + 1;
            col = 1;
        } else {
            col = col + 1;
        }
        i = i + 1;
    }
    proof {
        assert(buffer@.take(i as int) =~= buffer@);
        lemma_row_bound(buffer@, width as nat);
    }
    (row, col)
}

/// The columns of text that a box holds.
pub open spec fn box_columns(area: Area) -> nat {
    if area.width > 3 {
        (area.width - 2) as nat
    } else {
        1
    }
}

/// The rows of text that a box holds.
pub open spec fn box_rows(area: Area) -> nat {
    if area.height > 3 {
        (area.height - 2) as nat
    } else {
        1
    }
}

/// The rows of a buffer that are above its box: the last ones are shown.
pub open spec fn hidden_rows(area: Area, buffer: Seq<char>) -> nat {
    let needed = row_count(buffer, box_columns(area));
    if needed > box_rows(area) {
        (needed - box_rows(area)) as nat
    } else {
        0
    }
}

/// Lines of plain text.
pub open spec fn plain_lines(text: Seq<char>) -> Seq<Seq<PieceView>> {
    lines(text).map_values(|l: Seq<char>| one_piece(l, plain_look()))
}

/// The input box.
pub open spec fn input_box(area: Area, buffer: Seq<char>) -> WidgetView {
    WidgetView::Text {
        area,
        lines: plain_lines(buffer),
        look: plain_look(),
        wrap: true,
        scroll: scroll_to(hidden_rows(area, buffer)),
        centered: false,
        border: Some(bordered(" Message "@, in_hue(Hue::Yellow))),
    }
}

/// The cursor in the input box.
pub open spec fn input_cursor(area: Area, buffer: Seq<char>) -> WidgetView {
    let (row, col) = caret(buffer, box_columns(area));
    let column = if col < box_columns(area) {
        col as int
    } else {
        box_columns(area) - 1
    };
    WidgetView::Cursor {
        x: moved(area.x, 1 + column),
        y: moved(area.y, 1 + row - hidden_rows(area, buffer)),
    }
}

/// Lines of plain text.
pub fn plain_lines_of(text: &str) -> (r: Vec<StyledLine>)
    ensures
        all_views(r@) == plain_lines(text@),
{
    let from = lines_of(text);
    let ghost all = lines(text@);
    let ghost line = |l: Seq<char>| one_piece(l, plain_look());
    let mut out: Vec<StyledLine> = Vec::new();
    let mut i: usize = 0;
    proof {
        assert(all_views(out@) =~= all.take(0).map_values(line));
    }
    while i < from.len()
        invariant
            i <= from@.len(),
            all == views(from@),
            line == (|l: Seq<char>| one_piece(l, plain_look())),
            all_views(out@) == all.take(i as int).map_values(line),
        decreases from@.len() - i,
    {
        let ghost had = out@;
        out.push(StyledLine::one(from[i].clone(), Look::plain()));
        proof {
            assert(all_views(out@) =~= all_views(had).push(line(all[i as int])));
            assert(all.take(i + 1).map_values(line) =~= all.take(i as int).map_values(line).push(
                line(all[i as int]),
            ));
        }
        i = i + 1;
    }
    proof {
        assert(all.take(i as int) =~= all);
    }
    out
}

/// Draw the input box with `buffer` in it. The cursor is placed at the end of
/// the buffer; the box scrolls if the buffer is taller than it.
pub fn render(scene: &mut Scene, area: Area, buffer: &str)
    requires
        buffer@.len() < usize::MAX,
    ensures
        final(scene)@ == old(scene)@.push(input_box(area, buffer@)).push(
            input_cursor(area, buffer@),
        ),
{
    let inner_width: usize = if area.width > 3 {
        (area.width - 2) as usize
    } else {
        1
    };
    let visible_rows: usize = if area.height > 3 {
        (area.height - 2) as usize
    } else {
        1
    };
    let needed: usize = wrapped_row_count(buffer, inner_width);
    let offset: usize = if needed > visible_rows {
        needed - visible_rows
    } else {
        0
    };
    scene.draw(
        Widget::Text {
            area,
            lines: plain_lines_of(buffer),
            look: Look::plain(),
            wrap: true,
            scroll: scroll_to_row(offset),
            centered: false,
            border: Some(Border::new(" Message ".to_owned(), Look::hue(Hue::Yellow))),
        },
    );
    let (row, col) = caret_position(buffer, inner_width);
    let column: usize = if col < inner_width {
        col
    } else {
        inner_width - 1
    };
    let below: usize = row - offset;
    scene.draw(
        Widget::Cursor {
            x: area.x.saturating_add(1 + column as u16),
            y: area.y.saturating_add(1 + below as u16),
        },
    );
}

// ─── Laws ──────────────────────────────────────────────────────────────

/// The caret is never above the box, and never below its last row: the end of
/// the buffer is in view. The rows above the box can be up to 65535, the most
/// that a text can be scrolled by.
pub proof fn law_the_caret_is_in_view(area: Area, buffer: Seq<char>)
    requires
        hidden_rows(area, buffer) <= u16::MAX,
    ensures
        match input_box(area, buffer) {
            WidgetView::Text { scroll, .. } => scroll <= caret(buffer, box_columns(area)).0 < scroll
                + box_rows(area),
            _ => false,
        },
{
    lemma_row_bound(buffer, box_columns(area));
}

/// The caret is on the last wrapped row, whatever the width.
pub proof fn law_the_caret_is_on_the_last_row(buffer: Seq<char>, width: nat)
    ensures
        caret(buffer, width).0 + 1 == row_count(buffer, width),
{
    if width > 0 {
        lemma_row_bound(buffer, width);
    }
}

/// Rows and columns of two texts with a line feed between them.
proof fn lemma_caret_joined(a: Seq<char>, b: Seq<char>, width: nat)
    requires
        width > 0,
    ensures
        row_count(a + "\n"@ + b, width) == row_count(a, width) + row_count(b, width),
        caret(a + "\n"@ + b, width).1 == caret(b, width).1,
    decreases b.len(),
{
    reveal_strlit("\n");
    let joined = a + "\n"@ + b;
    lemma_row_bound(a, width);
    lemma_row_bound(b, width);
    lemma_row_bound(joined, width);
    if b.len() == 0 {
        assert(joined =~= a.push('\n'));
        lemma_caret_push(a, '\n', width);
        assert(b =~= Seq::<char>::empty());
        crate::text::lemma_position(b, '\n');
        assert(split(b, '\n') =~= seq![b]);
    } else {
        let less = b.drop_last();
        lemma_caret_joined(a, less, width);
        lemma_row_bound(less, width);
        lemma_row_bound(a + "\n"@ + less, width);
        assert(joined =~= (a + "\n"@ + less).push(b.last()));
        assert(b =~= less.push(b.last()));
        lemma_caret_push(a + "\n"@ + less, b.last(), width);
        lemma_caret_push(less, b.last(), width);
    }
}

/// Lines are wrapped on their own: the rows of two texts with a line feed
/// between them add up.
pub proof fn law_rows_add_up(a: Seq<char>, b: Seq<char>, width: nat)
    requires
        width > 0,
    ensures
        row_count(a + "\n"@ + b, width) == row_count(a, width) + row_count(b, width),
{
    lemma_caret_joined(a, b, width);
}

/// The box grows with the message and never shrinks: appending a character
/// keeps its height or adds a row.
pub proof fn law_typing_never_shrinks_the_box(
    buffer: Seq<char>,
    c: char,
    width: nat,
    max_rows: u16,
)
    requires
        max_rows >= 3,
    ensures
        box_height(buffer, width, max_rows) <= box_height(buffer.push(c), width, max_rows),
        box_height(buffer.push(c), width, max_rows) <= box_height(buffer, width, max_rows) + 1,
{
    if width > 0 {
        lemma_row_bound(buffer, width);
        lemma_row_bound(buffer.push(c), width);
        lemma_caret_push(buffer, c, width);
    }
}

} // verus!
