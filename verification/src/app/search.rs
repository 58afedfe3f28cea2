//! Content-search side of [`App`]: launching a streaming search, cancelling
//! it, and showing its results.
use crate::app::{App, AppView};
use crate::effect::{Effect, EffectView};
use crate::protocol::{SearchParams, SearchParamsView};
use crate::text::{trim, trimmed};
use crate::types::{Screen, ScreenView, SessionFocus, SidePane, SidePaneView};
use vstd::prelude::*;

verus! {

/// Most content-search hits that a search streams back.
pub const SEARCH_MAX_RESULTS: u64 = 2000;

/// A search that has just begun.
pub open spec fn begun_search(query: Seq<char>, search_id: u64) -> SidePaneView {
    SidePaneView::Search {
        query,
        search_id,
        matches: seq![],
        selected: 0,
        scroll: 0,
        running: true,
        summary: None,
    }
}

impl AppView {
    /// The id of the currently-visible search if it is still running.
    pub open spec fn running_search(self) -> Option<u64> {
        match self.pane() {
            Some(SidePaneView::Search { search_id, running, .. }) if running => Some(search_id),
            _ => None,
        }
    }

    /// The state after a search was told to stop.
    pub open spec fn search_cancelled(self, search_id: u64) -> AppView {
        match self.explorer.fs {
            Some(fs) => self.emit(EffectView::CancelSearch { fs, search_id }),
            None => self,
        }
    }

    /// The state in which a search that was just begun shows its pane.
    pub open spec fn search_shown(self, query: Seq<char>, search_id: u64) -> AppView {
        match self.screen {
            ScreenView::AgentSession { agent_id, focus, side_pane, scroll, input_mode } => AppView {
                screen: ScreenView::AgentSession {
                    agent_id,
                    focus: SessionFocus::SidePane,
                    side_pane: Some(begun_search(query, search_id)),
                    scroll,
                    input_mode,
                },
                ..self
            },
            _ => self,
        }
    }

    /// The state after a search was launched: an empty query or a missing
    /// workspace launches none, and only a container-backed workspace can be
    /// searched. A search that is still running is stopped first.
    pub open spec fn search_launched(self, query: Seq<char>) -> AppView {
        let text = trimmed(query);
        if text.len() == 0 || self.explorer.fs is None {
            self
        } else if self.explorer.fs->0.remote is None {
            self.say("Search needs a container-backed workspace"@)
        } else {
            let stopped = match self.running_search() {
                Some(prev) => self.search_cancelled(prev),
                None => self,
            };
            let id = self.search_next_id;
            AppView {
                search_next_id: if id < u64::MAX {
                    (id + 1) as u64
                } else {
                    0
                },
                ..stopped
            }.search_shown(text, id).emit(
                EffectView::StartSearch {
                    fs: self.explorer.fs->0,
                    agent_id: self.viewed(),
                    params: SearchParamsView {
                        search_id: id,
                        query: text,
                        is_regex: false,
                        case_sensitive: false,
                        max_results: Some(SEARCH_MAX_RESULTS),
                    },
                },
            )
        }
    }
}

impl App {
    /// Launch a streaming workspace content search for `query`.
    pub(crate) fn launch_search(&mut self, query: String)
        ensures
            final(self)@ == old(self)@.search_launched(query@),
    {
        let query = trim(query.as_str());
        if query.as_str().is_empty() {
            return;
        }
        let fs = match &self.explorer.fs {
            Some(fs) => fs.clone(),
            None => {
                return;
            },
        };
        if !fs.is_remote() {
            self.say("Search needs a container-backed workspace".to_owned());
            return;
        }
        match self.running_search_id() {
            Some(prev) => self.cancel_search(prev),
            None => {},
        }
        let search_id: u64 = self.search_next_id;
        self.search_next_id = search_id.wrapping_add(1);
        match &mut self.screen {
            Screen::AgentSession { side_pane, focus, .. } => {
                *side_pane = Some(
                    SidePane::Search {
                        query: query.clone(),
                        search_id,
                        matches: Vec::new(),
                        selected: 0,
                        scroll: 0,
                        running: true,
                        summary: None,
                    },
                );
                proof {
                    assert(side_pane->0@ =~= begun_search(query@, search_id));
                }
                *focus = SessionFocus::SidePane;
            },
            _ => {},
        }
        let agent_id = self.viewed_agent_id();
        let params = SearchParams {
            search_id,
            query,
            is_regex: false,
            case_sensitive: false,
            max_results: Some(SEARCH_MAX_RESULTS),
        };
        self.emit(Effect::StartSearch { fs, agent_id, params });
    }

    /// The id of the currently-visible search if it is still running.
    pub fn running_search_id(&self) -> (r: Option<u64>)
        ensures
            r == self@.running_search(),
    {
        match &self.screen {
            Screen::AgentSession { side_pane, .. } => match side_pane {
                Some(SidePane::Search { search_id, running, .. }) => {
                    if *running {
                        Some(*search_id)
                    } else {
                        None
                    }
                },
                _ => None,
            },
            _ => None,
        }
    }

    /// Ask for a search to be stopped.
    pub(crate) fn cancel_search(&mut self, search_id: u64)
        ensures
            final(self)@ == old(self)@.search_cancelled(search_id),
    {
        let fs = match &self.explorer.fs {
            Some(fs) => fs.clone(),
            None => {
                return;
            },
        };
        self.emit(Effect::CancelSearch { fs, search_id });
    }
}

} // verus!
