//! Explorer-facing side of [`App`]: servicing the lazy remote tree, opening
//! file previews and diffs, and refreshing git status.
use crate::app::{App, AppView};
use crate::effect::{Effect, EffectView};
use crate::explorer::ExplorerView;
use crate::paths::{join_path, path_join};
use vstd::prelude::*;
use vstd::string::*;
use vstd::utf8::*;

verus! {

/// Most bytes of a file that a preview shows.
pub const PREVIEW_CAP: u64 = 262144;

/// The text of bytes as `String::from_utf8_lossy` gives it.
pub uninterp spec fn lossy_text(bytes: Seq<u8>) -> Seq<char>;

/// `String::from_utf8_lossy`: the text depends on the bytes alone, and it is the
/// text that they encode if they are valid UTF-8. What stands for invalid bytes
/// is left unsaid.
#[verifier::external_body]
fn text_lossy(bytes: &[u8]) -> (r: String)
    ensures
        r@ == lossy_text(bytes@),
        valid_utf8(bytes@) ==> r@ == decode_utf8(bytes@),
{
    String::from_utf8_lossy(bytes).into_owned()
}

/// What a preview shows of a file's first bytes.
pub fn preview_text(bytes: &[u8], truncated: bool) -> (r: String)
    ensures
        r@ == with_truncation_mark(lossy_text(bytes@), truncated),
        valid_utf8(bytes@) ==> r@ == with_truncation_mark(decode_utf8(bytes@), truncated),
{
    mark_truncation(text_lossy(bytes), truncated)
}

/// The text of a preview, with a mark at its end when the file goes on.
pub open spec fn with_truncation_mark(text: Seq<char>, truncated: bool) -> Seq<char> {
    if truncated {
        text + "\n\n… [truncated preview — file larger than 256 KiB]"@
    } else {
        text
    }
}

/// The text of a preview, with a mark at its end when the file goes on.
pub fn mark_truncation(text: String, truncated: bool) -> (r: String)
    ensures
        r@ == with_truncation_mark(text@, truncated),
{
    let mut text = text;
    if truncated {
        text.append("\n\n… [truncated preview — file larger than 256 KiB]");
    }
    text
}

/// Where a preview is scrolled to so that a line is at its top. Lines behind the
/// last position count as that.
pub open spec fn line_offset(line: u64) -> u16 {
    if line == 0 {
        0
    } else if line <= u16::MAX {
        (line - 1) as u16
    } else {
        u16::MAX
    }
}

impl AppView {
    /// The state after a refresh of the git status was requested. Nothing is
    /// requested for a closed explorer or without a workspace; while a refresh
    /// is in flight the request waits for it.
    pub open spec fn refresh_requested(self) -> AppView {
        if !self.explorer.open || self.explorer.fs is None {
            self
        } else if self.explorer.is_refreshing {
            AppView { explorer: ExplorerView { refresh_pending: true, ..self.explorer }, ..self }
        } else {
            AppView {
                explorer: ExplorerView {
                    is_refreshing: true,
                    refresh_pending: false,
                    ..self.explorer
                },
                ..self
            }.emit(
                EffectView::RefreshStatus {
                    fs: self.explorer.fs->0,
                    include_ignored: self.explorer.show_ignored,
                },
            )
        }
    }

    /// The state after a file was requested for the side pane.
    pub open spec fn file_requested(self, rel: Seq<char>, scroll_to: u16) -> AppView {
        match (self.explorer.fs, self.viewed()) {
            (Some(fs), Some(agent_id)) => self.emit(
                EffectView::ReadFile {
                    fs,
                    agent_id,
                    rel,
                    full_path: path_join(fs.root, rel),
                    scroll_to,
                },
            ),
            _ => self,
        }
    }

    /// The state after a diff was requested for the side pane.
    pub open spec fn diff_requested(self, rel: Seq<char>) -> AppView {
        match (self.explorer.fs, self.viewed()) {
            (Some(fs), Some(agent_id)) => self.emit(
                EffectView::ReadDiff { fs, agent_id, rel, full_path: path_join(fs.root, rel) },
            ),
            _ => self,
        }
    }

    /// The state after the file that is waiting to be opened was requested.
    pub open spec fn pending_opened(self) -> AppView {
        match self.explorer.pending_open {
            None => self,
            Some(rel) => AppView {
                explorer: ExplorerView {
                    pending_open: None,
                    pending_open_line: None,
                    ..self.explorer
                },
                ..self
            }.file_requested(
                rel,
                match self.explorer.pending_open_line {
                    Some(line) => line_offset(line),
                    None => 0,
                },
            ),
        }
    }

    /// The state after the listings that the tree lacks were requested.
    pub open spec fn dirs_requested(self) -> AppView {
        match self.explorer.fs {
            Some(fs) if fs.remote is Some => {
                let missing = self.explorer.missing();
                AppView {
                    explorer: ExplorerView {
                        loading: self.explorer.loading.union(missing.to_set()),
                        ..self.explorer
                    },
                    effects: self.effects + missing.map_values(
                        |rel: Seq<char>| EffectView::ListDir { fs, rel },
                    ),
                    ..self
                }
            },
            _ => self,
        }
    }

    /// The state after the explorer's view was made consistent: a closed
    /// explorer asks for nothing.
    pub open spec fn synced(self) -> AppView {
        if self.explorer.open {
            self.pending_opened().dirs_requested()
        } else {
            self
        }
    }
}

impl App {
    /// Ask for a refresh of the git status. Coalesces bursty callers: if a
    /// refresh is already in flight, a follow-up runs once it lands.
    pub fn request_explorer_refresh(&mut self)
        ensures
            final(self)@ == old(self)@.refresh_requested(),
    {
        if !self.explorer.open {
            return;
        }
        let fs = match &self.explorer.fs {
            Some(fs) => fs.clone(),
            None => {
                return;
            },
        };
        if self.explorer.is_refreshing {
            self.explorer.refresh_pending = true;
            return;
        }
        self.explorer.is_refreshing = true;
        self.explorer.refresh_pending = false;
        let include_ignored = self.explorer.show_ignored;
        self.emit(Effect::RefreshStatus { fs, include_ignored });
    }

    /// Ask for a file, to be shown in the side pane from a line on.
    fn request_file(&mut self, rel: String, scroll_to: u16)
        ensures
            final(self)@ == old(self)@.file_requested(rel@, scroll_to),
    {
        let fs = match &self.explorer.fs {
            Some(fs) => fs.clone(),
            None => {
                return;
            },
        };
        let agent_id = match self.viewed_agent_id() {
            Some(id) => id,
            None => {
                return;
            },
        };
        let full_path = join_path(fs.root.as_str(), rel.as_str());
        self.emit(Effect::ReadFile { fs, agent_id, rel, full_path, scroll_to });
    }

    /// Ask for a file that was selected in the explorer.
    pub(crate) fn open_explorer_file(&mut self, rel: String)
        ensures
            final(self)@ == old(self)@.file_requested(rel@, 0),
    {
        self.request_file(rel, 0);
    }

    /// Ask for a file that holds a search result, jumping to its line.
    pub(crate) fn open_search_result(&mut self, rel: String, line: u64)
        ensures
            final(self)@ == old(self)@.file_requested(rel@, line_offset(line)),
    {
        let above: u16 = if line == 0 {
            0
        } else if line <= 65535 {
            (line - 1) as u16
        } else {
            65535
        };
        self.request_file(rel, above);
    }

    /// Ask for the working-tree diff of a file, to be shown in the side pane.
    pub(crate) fn request_explorer_diff(&mut self, rel: String)
        ensures
            final(self)@ == old(self)@.diff_requested(rel@),
    {
        let fs = match &self.explorer.fs {
            Some(fs) => fs.clone(),
            None => {
                return;
            },
        };
        let agent_id = match self.viewed_agent_id() {
            Some(id) => id,
            None => {
                return;
            },
        };
        let full_path = join_path(fs.root.as_str(), rel.as_str());
        self.emit(Effect::ReadDiff { fs, agent_id, rel, full_path });
    }

    /// Keep the explorer's view consistent after any event: service a pending
    /// file-open, and ask for the listings that a remote tree needs but has
    /// not got.
    pub(crate) fn sync_explorer(&mut self)
        ensures
            final(self)@ == old(self)@.synced(),
    {
        if !self.explorer.open {
            return;
        }
        let pending = self.explorer.pending_open.take();
        match pending {
            Some(rel) => {
                let line = self.explorer.pending_open_line.take();
                match line {
                    Some(line) => self.open_search_result(rel, line),
                    None => self.open_explorer_file(rel),
                }
            },
            None => {},
        }
        proof {
            assert(self@ =~= old(self)@.pending_opened());
        }
        self.request_dirs();
    }

    /// Ask for the listings that a remote tree needs but has not got.
    fn request_dirs(&mut self)
        ensures
            final(self)@ == old(self)@.dirs_requested(),
    {
        let ghost before = self@;
        let fs = match &self.explorer.fs {
            Some(fs) => fs.clone(),
            None => {
                return;
            },
        };
        if !fs.is_remote() {
            return;
        }
        let missing = self.explorer.missing_dirs();
        let ghost all = before.explorer.missing();
        let ghost list = |rel: Seq<char>| EffectView::ListDir { fs: fs@, rel };
        let mut i: usize = 0;
        proof {
            assert(all.take(0) =~= seq![]);
            assert(before.explorer.loading.union(all.take(0).to_set()) =~= before.explorer.loading);
            assert(before.effects + all.take(0).map_values(list) =~= before.effects);
        }
        while i < missing.len()
            invariant
                i <= missing@.len(),
                all == crate::text::views(missing@),
                list == (|rel: Seq<char>| EffectView::ListDir { fs: fs@, rel }),
                self@ == (AppView {
                    explorer: ExplorerView {
                        loading: before.explorer.loading.union(all.take(i as int).to_set()),
                        ..before.explorer
                    },
                    effects: before.effects + all.take(i as int).map_values(list),
                    ..before
                }),
            decreases missing@.len() - i,
        {
            let rel = missing[i].clone();
            let ghost now = self@;
            self.explorer.mark_dir_loading(rel.clone());
            self.emit(Effect::ListDir { fs: fs.clone(), rel });
            proof {
                let t = all.take(i as int);
                assert(all.take(i + 1) =~= t.push(rel@));
                assert(t.push(rel@).to_set() =~= t.to_set().insert(rel@)) by {
                    assert forall|x: Seq<char>| t.push(rel@).to_set().contains(x)
                        <==> t.to_set().insert(rel@).contains(x) by {
                        if t.contains(x) {
                            let k = choose|k: int| 0 <= k < t.len() && t[k] == x;
                            assert(t.push(rel@)[k] == x);
                        }
                        if x == rel@ {
                            assert(t.push(rel@)[t.len() as int] == x);
                        }
                        if t.push(rel@).contains(x) {
                            let k = choose|k: int| 0 <= k <= t.len() && t.push(rel@)[k] == x;
                            if k < t.len() {
                                assert(t[k] == x);
                            }
                        }
                    }
                }
                assert(now.explorer.loading.insert(rel@) =~= before.explorer.loading.union(
                    all.take(i + 1).to_set(),
                ));
                assert(now.effects.push(EffectView::ListDir { fs: fs@, rel: rel@ }) =~= before.effects
                    + all.take(i + 1).map_values(list));
                assert(self@ =~= (AppView {
                    explorer: ExplorerView {
                        loading: before.explorer.loading.union(all.take(i + 1).to_set()),
                        ..before.explorer
                    },
                    effects: before.effects + all.take(i + 1).map_values(list),
                    ..before
                }));
            }
            i = i + 1;
        }
        proof {
            assert(all.take(i as int) =~= all);
        }
    }
}

} // verus!
