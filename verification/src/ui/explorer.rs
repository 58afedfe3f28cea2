//! File-explorer side pane: a lazy tree view with git status cues.
use crate::explorer::{selection, EntryRow, EntryRowView, ExplorerState, ExplorerView, StatusKind};
use crate::order::all_views;
use crate::text::{concat2, concat3};
use crate::ui::scene::{
    bordered, in_hue, plain_look, Area, Border, Hue, Look, PieceView, StyledLine, Widget, WidgetView,
};
use crate::ui::style::{blanks, border_look, border_style, flush_right, pad_left};
use crate::workspace::{dir_label, dir_name};
use vstd::prelude::*;
use vstd::string::*;

verus! {

/// The letters that stand for the kinds of status.
#[derive(Debug)]
pub struct Markers {
    pub modified: String,
    pub added: String,
    pub deleted: String,
    pub renamed: String,
    pub untracked: String,
    pub ignored: String,
    pub conflicted: String,
}

pub struct MarkersView {
    pub modified: Seq<char>,
    pub added: Seq<char>,
    pub deleted: Seq<char>,
    pub renamed: Seq<char>,
    pub untracked: Seq<char>,
    pub ignored: Seq<char>,
    pub conflicted: Seq<char>,
}

impl View for Markers {
    type V = MarkersView;

    open spec fn view(&self) -> MarkersView {
        MarkersView {
            modified: self.modified@,
            added: self.added@,
            deleted: self.deleted@,
            renamed: self.renamed@,
            untracked: self.untracked@,
            ignored: self.ignored@,
            conflicted: self.conflicted@,
        }
    }
}

impl MarkersView {
    /// What stands for a kind of status.
    pub open spec fn of(self, kind: StatusKind) -> Seq<char> {
        match kind {
            StatusKind::Modified => self.modified,
            StatusKind::Added => self.added,
            StatusKind::Deleted => self.deleted,
            StatusKind::Renamed => self.renamed,
            StatusKind::Untracked => self.untracked,
            StatusKind::Ignored => self.ignored,
            StatusKind::Conflicted => self.conflicted,
        }
    }
}

impl Markers {
    /// What stands for a kind of status.
    pub fn marker(&self, kind: StatusKind) -> (r: &str)
        ensures
            r@ == self@.of(kind),
    {
        match kind {
            StatusKind::Modified => self.modified.as_str(),
            StatusKind::Added => self.added.as_str(),
            StatusKind::Deleted => self.deleted.as_str(),
            StatusKind::Renamed => self.renamed.as_str(),
            StatusKind::Untracked => self.untracked.as_str(),
            StatusKind::Ignored => self.ignored.as_str(),
            StatusKind::Conflicted => self.conflicted.as_str(),
        }
    }
}

/// The look of a status.
pub open spec fn status_look(kind: Option<StatusKind>) -> Look {
    match kind {
        None => plain_look(),
        Some(StatusKind::Modified) => in_hue(Hue::Yellow),
        Some(StatusKind::Added) => in_hue(Hue::Green),
        Some(StatusKind::Deleted) => in_hue(Hue::Red),
        Some(StatusKind::Renamed) => in_hue(Hue::Blue),
        Some(StatusKind::Untracked) => in_hue(Hue::Cyan),
        Some(StatusKind::Ignored) => in_hue(Hue::DarkGray),
        Some(StatusKind::Conflicted) => in_hue(Hue::Magenta),
    }
}

/// The look of an entry's name.
pub open spec fn name_look(entry: EntryRowView) -> Look {
    if entry.status == Some(StatusKind::Ignored) {
        in_hue(Hue::DarkGray)
    } else if entry.is_dir {
        Look { bold: true, ..in_hue(Hue::LightBlue) }
    } else {
        plain_look()
    }
}

/// What shows whether a directory is open.
pub open spec fn chevron(entry: EntryRowView) -> Seq<char> {
    if !entry.is_dir {
        "  "@
    } else if entry.expanded {
        "▼ "@
    } else {
        "▶ "@
    }
}

/// What stands before an entry's name.
pub open spec fn status_mark(entry: EntryRowView, markers: MarkersView) -> Seq<char> {
    match entry.status {
        Some(kind) => flush_right(markers.of(kind), 2) + " "@,
        None => "   "@,
    }
}

/// The line of an entry: indented by its depth, with its chevron, its status
/// and its name.
pub open spec fn entry_item(entry: EntryRowView, markers: MarkersView) -> Seq<PieceView> {
    seq![
        PieceView { text: blanks(2 * entry.depth as nat), look: plain_look() },
        PieceView { text: chevron(entry), look: plain_look() },
        PieceView { text: status_mark(entry, markers), look: status_look(entry.status) },
        PieceView { text: entry.name, look: name_look(entry) },
    ]
}

/// The pane's border.
pub open spec fn explorer_border(state: ExplorerView, focused: bool) -> crate::ui::scene::BorderView {
    let title = match state.fs {
        Some(fs) => dir_label(fs.root),
        None => "workspace"@,
    };
    bordered(" Explorer: "@ + title + " "@, border_look(focused))
}

/// The explorer pane.
pub open spec fn explorer_pane(
    area: Area,
    state: ExplorerView,
    markers: MarkersView,
    focused: bool,
) -> WidgetView {
    match state.fs {
        None => WidgetView::Frame { area, border: explorer_border(state, focused) },
        Some(_) => WidgetView::List {
            area,
            items: state.rows().map_values(|r: EntryRowView| entry_item(r, markers)),
            selected: if state.rows().len() == 0 {
                None
            } else {
                Some(selection(state.rows(), state.selected) as usize)
            },
            highlight: Look { bg: Some(Hue::Cyan), bold: true, ..in_hue(Hue::Black) },
            symbol: seq![],
            border: Some(explorer_border(state, focused)),
        },
    }
}

/// The look of a status.
fn status_color(kind: Option<StatusKind>) -> (r: Look)
    ensures
        r == status_look(kind),
{
    match kind {
        None => Look::plain(),
        Some(kind) => Look::hue(
            match kind {
                StatusKind::Modified => Hue::Yellow,
                StatusKind::Added => Hue::Green,
                StatusKind::Deleted => Hue::Red,
                StatusKind::Renamed => Hue::Blue,
                StatusKind::Untracked => Hue::Cyan,
                StatusKind::Ignored => Hue::DarkGray,
                StatusKind::Conflicted => Hue::Magenta,
            },
        ),
    }
}

/// The look of an entry's name.
fn entry_style(entry: &EntryRow) -> (r: Look)
    ensures
        r == name_look(entry@),
{
    let ignored = match entry.status {
        Some(kind) => kind == StatusKind::Ignored,
        None => false,
    };
    if ignored {
        Look::hue(Hue::DarkGray)
    } else if entry.is_dir {
        Look::hue(Hue::LightBlue).bold()
    } else {
        Look::plain()
    }
}

/// The indentation of an entry.
fn indent(depth: usize) -> (r: String)
    ensures
        r@ == blanks(2 * depth as nat),
{
    let mut r = String::new();
    let mut i: usize = 0;
    proof {
        assert(r@ =~= blanks(0));
    }
    while i < depth
        invariant
            i <= depth,
            r@ == blanks(2 * i as nat),
        decreases depth - i,
    {
        r.push(' ');
        r.push(' ');
        proof {
            assert(blanks(2 * i as nat).push(' ').push(' ') =~= blanks(2 * (i + 1) as nat));
        }
        i = i + 1;
    }
    r
}

/// The line of an entry.
pub fn entry_to_item(entry: &EntryRow, markers: &Markers) -> (r: StyledLine)
    ensures
        r@ == entry_item(entry@, markers@),
{
    let chevron = if entry.is_dir {
        if entry.expanded {
            "▼ "
        } else {
            "▶ "
        }
    } else {
        "  "
    };
    let marker = match entry.status {
        Some(kind) => {
            let m = pad_left(markers.marker(kind), 2);
            concat2(m.as_str(), " ")
        },
        None => "   ".to_owned(),
    };
    let mut r = StyledLine::one(indent(entry.depth), Look::plain());
    r.push(chevron.to_owned(), Look::plain());
    r.push(marker, status_color(entry.status));
    r.push(entry.name.clone(), entry_style(entry));
    proof {
        assert(r@ =~= entry_item(entry@, markers@));
    }
    r
}

/// Draw the explorer pane.
pub fn render(area: Area, state: &ExplorerState, markers: &Markers, focused: bool) -> (r: Widget)
    ensures
        r@ == explorer_pane(area, state@, markers@, focused),
{
    let name = match &state.fs {
        Some(fs) => dir_name(fs.root.as_str()),
        None => "workspace".to_owned(),
    };
    let border = Border::new(concat3(" Explorer: ", name.as_str(), " "), border_style(focused));
    if state.fs.is_none() {
        return Widget::Frame { area, border };
    }
    let entries = state.visible_entries();
    let ghost all = state@.rows();
    let ghost item = |r: EntryRowView| entry_item(r, markers@);
    let selected: Option<usize> = if entries.len() == 0 {
        None
    } else {
        Some(state.selected_index(&entries))
    };
    let mut items: Vec<StyledLine> = Vec::new();
    let mut i: usize = 0;
    proof {
        assert(all_views(items@) =~= all.take(0).map_values(item));
    }
    while i < entries.len()
        invariant
            i <= entries@.len(),
            all == all_views(entries@),
            item == (|r: EntryRowView| entry_item(r, markers@)),
            all_views(items@) == all.take(i as int).map_values(item),
        decreases entries@.len() - i,
    {
        let ghost had = items@;
        items.push(entry_to_item(&entries[i], markers));
        proof {
            assert(all_views(items@) =~= all_views(had).push(item(all[i as int])));
            assert(all.take(i + 1).map_values(item) =~= all.take(i as int).map_values(item).push(
                item(all[i as int]),
            ));
        }
        i = i + 1;
    }
    proof {
        assert(all.take(i as int) =~= all);
    }
    let symbol = String::new();
    proof {
        assert(symbol@ =~= seq![]);
    }
    Widget::List {
        area,
        items,
        selected,
        highlight: Look::hue(Hue::Black).on(Hue::Cyan).bold(),
        symbol,
        border: Some(border),
    }
}

} // verus!
