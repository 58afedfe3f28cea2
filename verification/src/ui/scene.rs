//! What is drawn, as plain values: styled text in widgets, back to front.
use crate::order::all_views;
use ratatui::layout::{Constraint, Layout, Rect};
use ratatui::text::{Line, Span};
use ratatui::widgets::{Paragraph, Wrap};
use vstd::prelude::*;
use vstd::string::*;
use vstd::utf8::*;

verus! {

/// A colour of the terminal's palette.
#[derive(Debug, Clone, Copy, PartialEq, Eq, Structural)]
pub enum Hue {
    Black,
    Red,
    Green,
    Yellow,
    Blue,
    Magenta,
    Cyan,
    Gray,
    DarkGray,
    LightBlue,
    White,
}

/// How text looks. Without a colour it has the terminal's own.
#[derive(Debug, Clone, Copy, PartialEq, Eq)]
pub struct Look {
    pub fg: Option<Hue>,
    pub bg: Option<Hue>,
    pub bold: bool,
    pub italic: bool,
    pub reversed: bool,
}

/// Text as the terminal shows it by itself.
pub open spec fn plain_look() -> Look {
    Look { fg: None, bg: None, bold: false, italic: false, reversed: false }
}

/// Text in a colour.
pub open spec fn in_hue(hue: Hue) -> Look {
    Look { fg: Some(hue), ..plain_look() }
}

impl Look {
    /// Text as the terminal shows it by itself.
    pub fn plain() -> (r: Look)
        ensures
            r == plain_look(),
    {
        Look { fg: None, bg: None, bold: false, italic: false, reversed: false }
    }

    /// Text in a colour.
    pub fn hue(hue: Hue) -> (r: Look)
        ensures
            r == in_hue(hue),
    {
        Look { fg: Some(hue), bg: None, bold: false, italic: false, reversed: false }
    }

    /// The look on a background.
    pub fn on(self, hue: Hue) -> (r: Look)
        ensures
            r == (Look { bg: Some(hue), ..self }),
    {
        Look { fg: self.fg, bg: Some(hue), bold: self.bold, italic: self.italic, reversed: self.reversed }
    }

    /// The look in bold.
    pub fn bold(self) -> (r: Look)
        ensures
            r == (Look { bold: true, ..self }),
    {
        Look { fg: self.fg, bg: self.bg, bold: true, italic: self.italic, reversed: self.reversed }
    }

    /// The look in italics.
    pub fn italic(self) -> (r: Look)
        ensures
            r == (Look { italic: true, ..self }),
    {
        Look { fg: self.fg, bg: self.bg, bold: self.bold, italic: true, reversed: self.reversed }
    }

    /// The look with its colours exchanged.
    pub fn reversed(self) -> (r: Look)
        ensures
            r == (Look { reversed: true, ..self }),
    {
        Look { fg: self.fg, bg: self.bg, bold: self.bold, italic: self.italic, reversed: true }
    }
}

/// A piece of text in one look.
#[derive(Debug)]
pub struct Piece {
    pub text: String,
    pub look: Look,
}

pub struct PieceView {
    pub text: Seq<char>,
    pub look: Look,
}

impl View for Piece {
    type V = PieceView;

    open spec fn view(&self) -> PieceView {
        PieceView { text: self.text@, look: self.look }
    }
}

/// A line of text.
#[derive(Debug)]
pub struct StyledLine {
    pub pieces: Vec<Piece>,
}

impl View for StyledLine {
    type V = Seq<PieceView>;

    open spec fn view(&self) -> Seq<PieceView> {
        all_views(self.pieces@)
    }
}

/// A line of one piece.
pub open spec fn one_piece(text: Seq<char>, look: Look) -> Seq<PieceView> {
    seq![PieceView { text, look }]
}

impl StyledLine {
    /// A line without text.
    pub fn empty() -> (r: StyledLine)
        ensures
            r@ == Seq::<PieceView>::empty(),
    {
        let r = StyledLine { pieces: Vec::new() };
        proof {
            assert(r@ =~= seq![]);
        }
        r
    }

    /// A line of one piece.
    pub fn one(text: String, look: Look) -> (r: StyledLine)
        ensures
            r@ == one_piece(text@, look),
    {
        let mut r = StyledLine::empty();
        r.push(text, look);
        proof {
            assert(r@ =~= one_piece(text@, look));
        }
        r
    }

    /// Append a piece.
    pub fn push(&mut self, text: String, look: Look)
        ensures
            final(self)@ == old(self)@.push(PieceView { text: text@, look }),
    {
        self.pieces.push(Piece { text, look });
        proof {
            assert(self@ =~= old(self)@.push(PieceView { text: text@, look }));
        }
    }

    /// A copy of the line.
    pub fn copy(&self) -> (r: StyledLine)
        ensures
            r@ == self@,
    {
        let mut r = StyledLine::empty();
        let mut i: usize = 0;
        while i < self.pieces.len()
            invariant
                i <= self.pieces@.len(),
                r@ == self@.take(i as int),
            decreases self.pieces@.len() - i,
        {
            r.push(self.pieces[i].text.clone(), self.pieces[i].look);
            proof {
                assert(self@.take(i + 1) =~= self@.take(i as int).push(self@[i as int]));
            }
            i = i + 1;
        }
        proof {
            assert(self@.take(i as int) =~= self@);
        }
        r
    }
}

/// Copies of all lines, in order.
pub fn copy_lines(v: &Vec<StyledLine>) -> (r: Vec<StyledLine>)
    ensures
        all_views(r@) == all_views(v@),
{
    let mut out: Vec<StyledLine> = Vec::new();
    let mut i: usize = 0;
    while i < v.len()
        invariant
            i <= v@.len(),
            all_views(out@) == all_views(v@).take(i as int),
        decreases v@.len() - i,
    {
        let ghost had = out@;
        out.push(v[i].copy());
        proof {
            assert(all_views(out@) =~= all_views(had).push(v@[i as int]@));
            assert(all_views(v@).take(i + 1) =~= all_views(v@).take(i as int).push(v@[i as int]@));
        }
        i = i + 1;
    }
    proof {
        assert(all_views(v@).take(i as int) =~= all_views(v@));
    }
    out
}

/// A part of the screen, in cells.
#[derive(Debug, Clone, Copy, PartialEq, Eq, Structural)]
pub struct Area {
    pub x: u16,
    pub y: u16,
    pub width: u16,
    pub height: u16,
}

/// A coordinate moved by `by` cells, as far as there are coordinates.
pub open spec fn moved(at: u16, by: int) -> u16 {
    if at + by > u16::MAX {
        u16::MAX
    } else {
        (at + by) as u16
    }
}

/// What is left of a size.
pub open spec fn less(size: u16, by: u16) -> u16 {
    if size < by {
        0
    } else {
        (size - by) as u16
    }
}

/// A row as a scroll position. Rows behind the last position count as that.
pub open spec fn scroll_to(row: nat) -> u16 {
    if row < u16::MAX {
        row as u16
    } else {
        u16::MAX
    }
}

/// A row as a scroll position.
pub fn scroll_to_row(row: usize) -> (r: u16)
    ensures
        r == scroll_to(row as nat),
{
    if row < 65535 {
        row as u16
    } else {
        65535
    }
}

/// `rows` rows, as far as there is room for them.
pub open spec fn cut(rows: u16, room: u16) -> u16 {
    if room < rows {
        room
    } else {
        rows
    }
}

/// `n` brought into the range from `low` to `high`.
pub open spec fn clamped(n: int, low: int, high: int) -> int {
    if n < low {
        low
    } else if n > high {
        high
    } else {
        n
    }
}

impl Area {
    /// What is left inside a border.
    pub open spec fn inside(self) -> Area {
        Area {
            x: if self.width == 0 {
                self.x
            } else {
                moved(self.x, 1)
            },
            y: if self.height == 0 {
                self.y
            } else {
                moved(self.y, 1)
            },
            width: less(self.width, 2),
            height: less(self.height, 2),
        }
    }

    /// What is left inside a border.
    pub fn inner(&self) -> (r: Area)
        ensures
            r == self.inside(),
    {
        Area {
            x: if self.width == 0 {
                self.x
            } else {
                self.x.saturating_add(1)
            },
            y: if self.height == 0 {
                self.y
            } else {
                self.y.saturating_add(1)
            },
            width: self.width.saturating_sub(2),
            height: self.height.saturating_sub(2),
        }
    }

    /// The rows from `from` on, counted from the top.
    pub open spec fn band(self, from: int, rows: u16) -> Area {
        Area { y: moved(self.y, from), height: rows, ..self }
    }

    /// The rows from `from` on, counted from the top.
    pub fn rows(&self, from: u16, rows: u16) -> (r: Area)
        ensures
            r == self.band(from as int, rows),
    {
        Area { x: self.x, y: self.y.saturating_add(from), width: self.width, height: rows }
    }

    /// Whether an area lies in this one.
    pub open spec fn holds(self, part: Area) -> bool {
        &&& self.x <= part.x
        &&& part.x + part.width <= self.x + self.width
        &&& self.y <= part.y
        &&& part.y + part.height <= self.y + self.height
    }

    /// The part of this area in the middle of it with a given size.
    pub open spec fn middle(self, width: u16, height: u16) -> Area {
        Area {
            x: moved(self.x, less(self.width, width) as int / 2),
            y: moved(self.y, less(self.height, height) as int / 2),
            width,
            height,
        }
    }

    /// The part of this area in the middle of it with a given size.
    pub fn centered(&self, width: u16, height: u16) -> (r: Area)
        ensures
            r == self.middle(width, height),
    {
        Area {
            x: self.x.saturating_add(self.width.saturating_sub(width) / 2),
            y: self.y.saturating_add(self.height.saturating_sub(height) / 2),
            width,
            height,
        }
    }
}

/// The width of a popup: three fifths of the screen, and at least 20 cells
/// where there are as many.
pub open spec fn popup_width(width: u16) -> u16 {
    clamped(width as int * 3 / 5, clamped(20, 0, width as int), width as int) as u16
}

/// The width of a popup.
pub fn popup_width_of(width: u16) -> (r: u16)
    ensures
        r == popup_width(width),
        r <= width,
{
    let part: u16 = (width as u32 * 3 / 5) as u16;
    let least: u16 = if width < 20 {
        width
    } else {
        20
    };
    if part < least {
        least
    } else {
        part
    }
}

/// How much space a part of a layout asks for.
#[derive(Debug, Clone, Copy, PartialEq, Eq, Structural)]
pub enum Space {
    Length(u16),
    Min(u16),
    Percentage(u16),
}

/// The size of a part: what it asks for, or what the others leave.
pub open spec fn share(space: Space, rest: int) -> int {
    match space {
        Space::Length(n) => n as int,
        _ => rest,
    }
}

/// The sizes of parts, added up.
pub open spec fn shares(spaces: Seq<Space>, rest: int) -> int
    decreases spaces.len(),
{
    if spaces.len() == 0 {
        0
    } else {
        shares(spaces.drop_last(), rest) + share(spaces.last(), rest)
    }
}

/// Whether each part but one asks for a length, that one takes what is left,
/// and the lengths fit.
pub open spec fn shares_out(spaces: Seq<Space>, size: int) -> bool {
    &&& exists|k: int|
        #![trigger spaces[k]]
        0 <= k < spaces.len() && spaces[k] == Space::Min(0) && forall|i: int|
            0 <= i < spaces.len() && i != k ==> #[trigger] spaces[i] is Length
    &&& shares(spaces, 0) <= size
}

/// Whether a layout has up to four parts, at most two of which ask for something
/// else than a length.
pub open spec fn is_plain(spaces: Seq<Space>) -> bool {
    spaces.len() <= 4 && forall|i: int, j: int, k: int|
        0 <= i < j < k < spaces.len() ==> #[trigger] spaces[i] is Length || #[trigger] spaces[j] is Length
            || #[trigger] spaces[k] is Length
}

/// Whether the last two parts ask for percentages that make up the whole, behind
/// up to two others that ask for lengths, and the lengths fit.
pub open spec fn is_divided(spaces: Seq<Space>, size: int) -> bool {
    let n = spaces.len() as int;
    &&& 2 <= n <= 4
    &&& forall|i: int| 0 <= i < n - 2 ==> #[trigger] spaces[i] is Length
    &&& spaces[n - 2] is Percentage && spaces[n - 1] is Percentage
    &&& spaces[n - 2]->Percentage_0 + spaces[n - 1]->Percentage_0 == 100
    &&& shares(spaces.take(n - 2), 0) <= size
}

/// Whether a part takes up to its percentage of `size`, or up to a cell more.
pub open spec fn within_percentage(space: Space, size: int, got: int) -> bool {
    got * 100 <= space->Percentage_0 * size + 100
}

/// Whether `parts` are areas for the spaces, one below the other.
pub open spec fn splits_rows(area: Area, spaces: Seq<Space>, parts: Seq<Area>) -> bool {
    let rest = area.height - shares(spaces, 0);
    &&& parts.len() == spaces.len()
    &&& forall|i: int|
        0 <= i < parts.len() ==> area.holds(#[trigger] parts[i]) && parts[i].x == area.x
            && parts[i].width == area.width
    &&& is_plain(spaces) ==> forall|i: int, j: int|
        0 <= i < j < parts.len() ==> (#[trigger] parts[i]).y + parts[i].height <= (
        #[trigger] parts[j]).y
    &&& shares_out(spaces, area.height as int) && area.y + area.height <= u16::MAX ==> forall|
        i: int,
    |
        0 <= i < parts.len() ==> (#[trigger] parts[i]).y == area.y + shares(spaces.take(i), rest)
            && parts[i].height == share(spaces[i], rest)
}

/// Whether `parts` are areas for the spaces, side by side.
pub open spec fn splits_columns(area: Area, spaces: Seq<Space>, parts: Seq<Area>) -> bool {
    let rest = area.width - shares(spaces, 0);
    &&& parts.len() == spaces.len()
    &&& forall|i: int|
        0 <= i < parts.len() ==> area.holds(#[trigger] parts[i]) && parts[i].y == area.y
            && parts[i].height == area.height
    &&& is_plain(spaces) ==> forall|i: int, j: int|
        0 <= i < j < parts.len() ==> (#[trigger] parts[i]).x + parts[i].width <= (
        #[trigger] parts[j]).x
    &&& shares_out(spaces, area.width as int) && area.x + area.width <= u16::MAX ==> forall|i: int|
        0 <= i < parts.len() ==> (#[trigger] parts[i]).x == area.x + shares(spaces.take(i), rest)
            && parts[i].width == share(spaces[i], rest)
    &&& is_divided(spaces, area.width as int) && area.x + area.width <= u16::MAX ==> divides(
        area,
        spaces,
        parts,
    )
}

/// Whether `parts` stand side by side and fill the area: each part that asks for
/// a length has it, and the last two share the rest, each with no more than its
/// percentage of the whole.
pub open spec fn divides(area: Area, spaces: Seq<Space>, parts: Seq<Area>) -> bool {
    let n = spaces.len() as int;
    &&& forall|i: int|
        0 <= i < n - 2 ==> (#[trigger] parts[i]).x == area.x + shares(spaces.take(i), 0)
            && parts[i].width == share(spaces[i], 0)
    &&& parts[n - 2].x == area.x + shares(spaces.take(n - 2), 0)
    &&& parts[n - 1].x == parts[n - 2].x + parts[n - 2].width
    &&& parts[n - 1].x + parts[n - 1].width == area.x + area.width
    &&& within_percentage(spaces[n - 2], area.width as int, parts[n - 2].width as int)
    &&& within_percentage(spaces[n - 1], area.width as int, parts[n - 1].width as int)
}

/// `Layout::vertical(..).split(..)`: one area for each space, each as wide as
/// the whole and inside it. Up to four, with at most two that ask for no length,
/// lie in order without overlap. Where all but one of the spaces ask for lengths
/// that fit, they get them, and the one gets the rest. How the rows are shared
/// out otherwise is left unsaid: the solver behind it leaves some of it open.
#[verifier::external_body]
pub(crate) fn split_rows(area: Area, spaces: &Vec<Space>) -> (r: Vec<Area>)
    ensures
        splits_rows(area, spaces@, r@),
{
    let parts = spaces.iter().map(|s| match s {
        Space::Length(n) => Constraint::Length(*n),
        Space::Min(n) => Constraint::Min(*n),
        Space::Percentage(n) => Constraint::Percentage(*n),
    });
    let whole = Rect { x: area.x, y: area.y, width: area.width, height: area.height };
    let split = Layout::vertical(parts).split(whole);
    split.iter().map(|r| Area { x: r.x, y: r.y, width: r.width, height: r.height }).collect()
}

/// `Layout::horizontal(..).split(..)`: one area for each space, each as high as
/// the whole and inside it. Up to four, with at most two that ask for no length,
/// lie in order without overlap. Where all but one of the spaces ask for lengths
/// that fit, they get them, and the one gets the rest. Where the last two ask for
/// percentages that make up the whole, the lengths that fit come first, and the
/// two share what is left, neither with more than its percentage but for the
/// rounding to a cell. Which of them is cut short by the lengths, and how the
/// columns are shared out otherwise, is left unsaid: the solver behind it leaves
/// that open.
#[verifier::external_body]
pub(crate) fn split_columns(area: Area, spaces: &Vec<Space>) -> (r: Vec<Area>)
    ensures
        splits_columns(area, spaces@, r@),
{
    let parts = spaces.iter().map(|s| match s {
        Space::Length(n) => Constraint::Length(*n),
        Space::Min(n) => Constraint::Min(*n),
        Space::Percentage(n) => Constraint::Percentage(*n),
    });
    let whole = Rect { x: area.x, y: area.y, width: area.width, height: area.height };
    let split = Layout::horizontal(parts).split(whole);
    split.iter().map(|r| Area { x: r.x, y: r.y, width: r.width, height: r.height }).collect()
}

/// The texts of the pieces of lines.
pub open spec fn texts(lines: Seq<Seq<PieceView>>) -> Seq<Seq<Seq<char>>> {
    lines.map_values(|l: Seq<PieceView>| l.map_values(|p: PieceView| p.text))
}

/// The rows that a paragraph takes when its lines are wrapped to a width, as
/// `Paragraph::line_count` counts them.
pub uninterp spec fn wrapped_rows(lines: Seq<Seq<Seq<char>>>, width: u16) -> usize;

/// The widest paragraph that lines of any text are wrapped to. The word wrapper
/// adds up widths in 16 bits: of a line that it fills and of up to three clusters
/// of characters, none of them wider than the line.
pub const MAX_WRAP_WIDTH: u16 = 16383;

/// The characters of a line.
pub open spec fn line_chars(line: Seq<Seq<char>>) -> nat
    decreases line.len(),
{
    if line.len() == 0 {
        0
    } else {
        line_chars(line.drop_last()) + line.last().len()
    }
}

/// Whether a line is short, or of ASCII characters alone.
pub open spec fn is_tame(line: Seq<Seq<char>>) -> bool {
    line_chars(line) <= MAX_WRAP_WIDTH || forall|i: int|
        0 <= i < line.len() ==> is_ascii_chars(#[trigger] line[i])
}

/// Whether lines can be wrapped to a width without the sums of widths going over
/// 16 bits: to a small width any line can. To a larger one a short line can,
/// since no character is wider than three columns, and so can a line of ASCII
/// characters, which are clusters of one column each.
pub open spec fn can_wrap(lines: Seq<Seq<Seq<char>>>, width: u16) -> bool {
    width <= MAX_WRAP_WIDTH || (width <= u16::MAX - 2 && forall|i: int|
        0 <= i < lines.len() ==> is_tame(#[trigger] lines[i]))
}

/// Whether each line is short, or of ASCII characters alone.
pub fn all_tame(lines: &Vec<StyledLine>) -> (r: bool)
    ensures
        r == (forall|i: int|
            0 <= i < lines@.len() ==> is_tame(#[trigger] texts(all_views(lines@))[i])),
{
    let ghost all = texts(all_views(lines@));
    let mut i: usize = 0;
    while i < lines.len()
        invariant
            i <= lines@.len(),
            all == texts(all_views(lines@)),
            all.len() == lines@.len(),
            forall|j: int| 0 <= j < i ==> is_tame(#[trigger] all[j]),
        decreases lines@.len() - i,
    {
        if !lines[i].is_tame() {
            proof {
                assert(all[i as int] =~= lines@[i as int]@.map_values(|p: PieceView| p.text));
                assert(!is_tame(all[i as int]));
            }
            return false;
        }
        proof {
            assert(all[i as int] =~= lines@[i as int]@.map_values(|p: PieceView| p.text));
        }
        i = i + 1;
    }
    true
}

impl StyledLine {
    /// Whether the line is short, or of ASCII characters alone.
    fn is_tame(&self) -> (r: bool)
        ensures
            r == is_tame(self@.map_values(|p: PieceView| p.text)),
    {
        let ghost line = self@.map_values(|p: PieceView| p.text);
        let mut count: usize = 0;
        let mut ascii: bool = true;
        let mut i: usize = 0;
        proof {
            assert(line.take(0) =~= seq![]);
        }
        while i < self.pieces.len()
            invariant
                i <= self.pieces@.len(),
                line == self@.map_values(|p: PieceView| p.text),
                line.len() == self.pieces@.len(),
                count == line_chars(line.take(i as int)) || (count > MAX_WRAP_WIDTH && line_chars(
                    line.take(i as int),
                ) > MAX_WRAP_WIDTH),
                ascii == (forall|j: int| 0 <= j < i ==> is_ascii_chars(#[trigger] line[j])),
            decreases self.pieces@.len() - i,
        {
            let more: usize = self.pieces[i].text.as_str().unicode_len();
            proof {
                assert(line.take(i + 1).drop_last() =~= line.take(i as int));
                assert(line.take(i + 1).last() == self.pieces@[i as int].text@);
            }
            count = count.saturating_add(more);
            ascii = ascii && self.pieces[i].text.as_str().is_ascii();
            i = i + 1;
        }
        proof {
            assert(line.take(i as int) =~= line);
        }
        count <= 16383 || ascii
    }
}

/// `Paragraph::line_count` of a paragraph that wraps its lines without
/// trimming: the count depends on the texts and the width alone. Where a line
/// is broken is left unsaid. What could make the sums of widths overflow is left
/// out.
#[verifier::external_body]
pub(crate) fn line_count(lines: &Vec<StyledLine>, width: u16) -> (r: usize)
    requires
        can_wrap(texts(all_views(lines@)), width),
    ensures
        r == wrapped_rows(texts(all_views(lines@)), width),
{
    let text: Vec<Line> = lines.iter().map(
        |l| Line::from(l.pieces.iter().map(|p| Span::raw(p.text.as_str())).collect::<Vec<Span>>()),
    ).collect();
    Paragraph::new(text).wrap(Wrap { trim: false }).line_count(width)
}

/// A border around a widget.
#[derive(Debug)]
pub struct Border {
    pub title: String,
    pub look: Look,
    /// Whether the title stands in the middle.
    pub centered: bool,
}

pub struct BorderView {
    pub title: Seq<char>,
    pub look: Look,
    pub centered: bool,
}

impl View for Border {
    type V = BorderView;

    open spec fn view(&self) -> BorderView {
        BorderView { title: self.title@, look: self.look, centered: self.centered }
    }
}

/// A border with its title at the left.
pub open spec fn bordered(title: Seq<char>, look: Look) -> BorderView {
    BorderView { title, look, centered: false }
}

impl Border {
    /// A border with its title at the left.
    pub fn new(title: String, look: Look) -> (r: Border)
        ensures
            r@ == bordered(title@, look),
    {
        Border { title, look, centered: false }
    }
}

/// The view of an optional border.
pub open spec fn opt_border(o: Option<Border>) -> Option<BorderView> {
    match o {
        Some(b) => Some(b@),
        None => None,
    }
}

/// A thing to draw.
#[derive(Debug)]
pub enum Widget {
    /// Lines of text from the `scroll`th row on.
    Text {
        area: Area,
        lines: Vec<StyledLine>,
        /// The look of the whole area.
        look: Look,
        wrap: bool,
        scroll: u16,
        centered: bool,
        border: Option<Border>,
    },
    /// A list with a selected item.
    List {
        area: Area,
        items: Vec<StyledLine>,
        selected: Option<usize>,
        highlight: Look,
        /// What stands before the selected item.
        symbol: String,
        border: Option<Border>,
    },
    /// A border around nothing.
    Frame { area: Area, border: Border },
    /// Whatever was drawn here is gone.
    Clear { area: Area },
    /// A scrollbar on the right edge.
    Scrollbar { area: Area, look: Look, range: usize, position: usize },
    /// The terminal's cursor.
    Cursor { x: u16, y: u16 },
}

#[verifier::ext_equal]
pub enum WidgetView {
    Text {
        area: Area,
        lines: Seq<Seq<PieceView>>,
        look: Look,
        wrap: bool,
        scroll: u16,
        centered: bool,
        border: Option<BorderView>,
    },
    List {
        area: Area,
        items: Seq<Seq<PieceView>>,
        selected: Option<usize>,
        highlight: Look,
        symbol: Seq<char>,
        border: Option<BorderView>,
    },
    Frame { area: Area, border: BorderView },
    Clear { area: Area },
    Scrollbar { area: Area, look: Look, range: usize, position: usize },
    Cursor { x: u16, y: u16 },
}

impl View for Widget {
    type V = WidgetView;

    open spec fn view(&self) -> WidgetView {
        match self {
            Widget::Text { area, lines, look, wrap, scroll, centered, border } => WidgetView::Text {
                area: *area,
                lines: all_views(lines@),
                look: *look,
                wrap: *wrap,
                scroll: *scroll,
                centered: *centered,
                border: opt_border(*border),
            },
            Widget::List { area, items, selected, highlight, symbol, border } => WidgetView::List {
                area: *area,
                items: all_views(items@),
                selected: *selected,
                highlight: *highlight,
                symbol: symbol@,
                border: opt_border(*border),
            },
            Widget::Frame { area, border } => WidgetView::Frame { area: *area, border: border@ },
            Widget::Clear { area } => WidgetView::Clear { area: *area },
            Widget::Scrollbar { area, look, range, position } => WidgetView::Scrollbar {
                area: *area,
                look: *look,
                range: *range,
                position: *position,
            },
            Widget::Cursor { x, y } => WidgetView::Cursor { x: *x, y: *y },
        }
    }
}

/// What is drawn, back to front.
#[derive(Debug)]
pub struct Scene {
    pub widgets: Vec<Widget>,
}

impl View for Scene {
    type V = Seq<WidgetView>;

    open spec fn view(&self) -> Seq<WidgetView> {
        all_views(self.widgets@)
    }
}

impl Scene {
    /// A scene without widgets.
    pub fn new() -> (r: Scene)
        ensures
            r@ == Seq::<WidgetView>::empty(),
    {
        let r = Scene { widgets: Vec::new() };
        proof {
            assert(r@ =~= seq![]);
        }
        r
    }

    /// Draw a widget in front of the others.
    pub fn draw(&mut self, widget: Widget)
        ensures
            final(self)@ == old(self)@.push(widget@),
    {
        self.widgets.push(widget);
        proof {
            assert(self@ =~= old(self)@.push(widget@));
        }
    }
}

} // verus!
