//! What the application asks the program around it to do.
use crate::agent::{opt_text, ContainerInfo, ContainerInfoView, WorkspaceFs, WorkspaceFsView};
use crate::event::{AppEvent, AppEventView};
use crate::order::all_views;
use crate::pairing::{pair_views, PairView};
use crate::protocol::{SearchParams, SearchParamsView};
use crate::workspace::{WorkspaceEntry, WorkspaceEntryView};
use vstd::prelude::*;

verus! {

/// A piece of work for the program around the library. Work that has an
/// outcome reports it back as an [`AppEvent`].
#[derive(Debug)]
pub enum Effect {
    /// Send a prompt to an agent, over its channel if it has one.
    SendPrompt { agent_id: String, channel: Option<u64>, text: String },
    /// Start an agent's background task, reachable over the given channel. With
    /// `log` its wire messages are logged.
    StartAgent {
        agent_id: String,
        command: String,
        workspace: Option<String>,
        session_id: Option<String>,
        log: bool,
        channel: u64,
    },
    /// Abort a background task.
    AbortTask { task: u64 },
    /// Answer a permission request with an option, or with none to reject it.
    ReplyPermission { reply: u64, option_id: Option<String> },
    /// Watch a stream and ask for a redraw whenever it ticks.
    TrackStream { stream: u64 },
    /// Fetch the git status.
    RefreshStatus { fs: WorkspaceFs, include_ignored: bool },
    /// List a directory.
    ListDir { fs: WorkspaceFs, rel: String },
    /// Read a file for the side pane.
    ReadFile { fs: WorkspaceFs, agent_id: String, rel: String, full_path: String, scroll_to: u16 },
    /// Diff a file for the side pane.
    ReadDiff { fs: WorkspaceFs, agent_id: String, rel: String, full_path: String },
    /// Start a content search.
    StartSearch { fs: WorkspaceFs, agent_id: Option<String>, params: SearchParams },
    /// Stop a content search.
    CancelSearch { fs: WorkspaceFs, search_id: u64 },
    /// Connect the explorer to the service inside a container.
    ConnectService { agent_id: String, container: ContainerInfo, workspace: String },
    /// Read the branch inside a container.
    FetchBranch { agent_id: String, container: ContainerInfo, workspace: String },
    /// Store the list of workspaces.
    SaveWorkspaces { entries: Vec<WorkspaceEntry> },
    /// Store the session of a workspace.
    SaveState { workspace: String, session_id: Option<String> },
    /// Store the pairings: each once, in ascending order.
    SavePairings { pairs: Vec<(String, String)> },
    /// Generate the base layer of a workspace.
    GenerateLayer { workspace: String },
    /// Remove the container of a workspace, then reconnect its agent.
    RemoveContainer { agent_id: String, workspace: String },
    /// Handle an event after the ones that are already waiting.
    Emit(AppEvent),
    /// Serve MCP over a tunnel's byte stream.
    ServeTunnel { agent_id: String, tunnel_id: u64, stream: u64 },
    /// Stop serving a tunnel.
    CloseTunnel { tunnel_id: u64 },
    /// Complete the path of a command, to the next or the previous candidate.
    CompletePath { verb: String, partial: String, backward: bool },
    /// Forget the candidates of the last completion.
    ResetCompleter,
}

#[verifier::ext_equal]
pub enum EffectView {
    SendPrompt { agent_id: Seq<char>, channel: Option<u64>, text: Seq<char> },
    StartAgent {
        agent_id: Seq<char>,
        command: Seq<char>,
        workspace: Option<Seq<char>>,
        session_id: Option<Seq<char>>,
        log: bool,
        channel: u64,
    },
    AbortTask { task: u64 },
    ReplyPermission { reply: u64, option_id: Option<Seq<char>> },
    TrackStream { stream: u64 },
    RefreshStatus { fs: WorkspaceFsView, include_ignored: bool },
    ListDir { fs: WorkspaceFsView, rel: Seq<char> },
    ReadFile {
        fs: WorkspaceFsView,
        agent_id: Seq<char>,
        rel: Seq<char>,
        full_path: Seq<char>,
        scroll_to: u16,
    },
    ReadDiff {
        fs: WorkspaceFsView,
        agent_id: Seq<char>,
        rel: Seq<char>,
        full_path: Seq<char>,
    },
    StartSearch { fs: WorkspaceFsView, agent_id: Option<Seq<char>>, params: SearchParamsView },
    CancelSearch { fs: WorkspaceFsView, search_id: u64 },
    ConnectService { agent_id: Seq<char>, container: ContainerInfoView, workspace: Seq<char> },
    FetchBranch { agent_id: Seq<char>, container: ContainerInfoView, workspace: Seq<char> },
    SaveWorkspaces { entries: Seq<WorkspaceEntryView> },
    SaveState { workspace: Seq<char>, session_id: Option<Seq<char>> },
    SavePairings { pairs: Seq<PairView> },
    GenerateLayer { workspace: Seq<char> },
    RemoveContainer { agent_id: Seq<char>, workspace: Seq<char> },
    Emit(AppEventView),
    ServeTunnel { agent_id: Seq<char>, tunnel_id: u64, stream: u64 },
    CloseTunnel { tunnel_id: u64 },
    CompletePath { verb: Seq<char>, partial: Seq<char>, backward: bool },
    ResetCompleter,
}

impl View for Effect {
    type V = EffectView;

    open spec fn view(&self) -> EffectView {
        match self {
            Effect::SendPrompt { agent_id, channel, text } => EffectView::SendPrompt {
                agent_id: agent_id@,
                channel: *channel,
                text: text@,
            },
            Effect::StartAgent { agent_id, command, workspace, session_id, log, channel } =>
                EffectView::StartAgent {
                agent_id: agent_id@,
                command: command@,
                workspace: opt_text(*workspace),
                session_id: opt_text(*session_id),
                log: *log,
                channel: *channel,
            },
            Effect::AbortTask { task } => EffectView::AbortTask { task: *task },
            Effect::ReplyPermission { reply, option_id } => EffectView::ReplyPermission {
                reply: *reply,
                option_id: opt_text(*option_id),
            },
            Effect::TrackStream { stream } => EffectView::TrackStream { stream: *stream },
            Effect::RefreshStatus { fs, include_ignored } => EffectView::RefreshStatus {
                fs: fs@,
                include_ignored: *include_ignored,
            },
            Effect::ListDir { fs, rel } => EffectView::ListDir { fs: fs@, rel: rel@ },
            Effect::ReadFile { fs, agent_id, rel, full_path, scroll_to } => EffectView::ReadFile {
                fs: fs@,
                agent_id: agent_id@,
                rel: rel@,
                full_path: full_path@,
                scroll_to: *scroll_to,
            },
            Effect::ReadDiff { fs, agent_id, rel, full_path } => EffectView::ReadDiff {
                fs: fs@,
                agent_id: agent_id@,
                rel: rel@,
                full_path: full_path@,
            },
            Effect::StartSearch { fs, agent_id, params } => EffectView::StartSearch {
                fs: fs@,
                agent_id: opt_text(*agent_id),
                params: params@,
            },
            Effect::CancelSearch { fs, search_id } => EffectView::CancelSearch {
                fs: fs@,
                search_id: *search_id,
            },
            Effect::ConnectService { agent_id, container, workspace } =>
                EffectView::ConnectService {
                agent_id: agent_id@,
                container: container@,
                workspace: workspace@,
            },
            Effect::FetchBranch { agent_id, container, workspace } => EffectView::FetchBranch {
                agent_id: agent_id@,
                container: container@,
                workspace: workspace@,
            },
            Effect::SaveWorkspaces { entries } => EffectView::SaveWorkspaces {
                entries: all_views(entries@),
            },
            Effect::SaveState { workspace, session_id } => EffectView::SaveState {
                workspace: workspace@,
                session_id: opt_text(*session_id),
            },
            Effect::SavePairings { pairs } => EffectView::SavePairings {
                pairs: pair_views(pairs@),
            },
            Effect::GenerateLayer { workspace } => EffectView::GenerateLayer {
                workspace: workspace@,
            },
            Effect::RemoveContainer { agent_id, workspace } => EffectView::RemoveContainer {
                agent_id: agent_id@,
                workspace: workspace@,
            },
            Effect::Emit(e) => EffectView::Emit(e@),
            Effect::ServeTunnel { agent_id, tunnel_id, stream } => EffectView::ServeTunnel {
                agent_id: agent_id@,
                tunnel_id: *tunnel_id,
                stream: *stream,
            },
            Effect::CloseTunnel { tunnel_id } => EffectView::CloseTunnel { tunnel_id: *tunnel_id },
            Effect::CompletePath { verb, partial, backward } => EffectView::CompletePath {
                verb: verb@,
                partial: partial@,
                backward: *backward,
            },
            Effect::ResetCompleter => EffectView::ResetCompleter,
        }
    }
}

/// What is asked for is what is performed: each part of an effect is where its
/// name says.
pub proof fn law_an_effect_is_what_it_says(
    a: String,
    channel: Option<u64>,
    b: String,
    x: Option<String>,
    y: Option<String>,
    flag: bool,
    n: u64,
    fs: WorkspaceFs,
    c: String,
    row: u16,
    params: SearchParams,
    container: ContainerInfo,
    entries: Vec<WorkspaceEntry>,
    pairs: Vec<(String, String)>,
    m: u64,
)
    ensures
        (Effect::SendPrompt { agent_id: a, channel, text: b })@ == (
        EffectView::SendPrompt { agent_id: a@, channel, text: b@ }),
        (Effect::StartAgent {
            agent_id: a,
            command: b,
            workspace: x,
            session_id: y,
            log: flag,
            channel: n,
        })@ == (
        EffectView::StartAgent {
            agent_id: a@,
            command: b@,
            workspace: opt_text(x),
            session_id: opt_text(y),
            log: flag,
            channel: n,
        }),
        (Effect::AbortTask { task: n })@ == (EffectView::AbortTask { task: n }),
        (Effect::ReplyPermission { reply: n, option_id: x })@ == (
        EffectView::ReplyPermission { reply: n, option_id: opt_text(x) }),
        (Effect::TrackStream { stream: n })@ == (EffectView::TrackStream { stream: n }),
        (Effect::RefreshStatus { fs, include_ignored: flag })@ == (
        EffectView::RefreshStatus { fs: fs@, include_ignored: flag }),
        (Effect::ListDir { fs, rel: a })@ == (EffectView::ListDir { fs: fs@, rel: a@ }),
        (Effect::ReadFile { fs, agent_id: a, rel: b, full_path: c, scroll_to: row })@ == (
        EffectView::ReadFile { fs: fs@, agent_id: a@, rel: b@, full_path: c@, scroll_to: row }),
        (Effect::ReadDiff { fs, agent_id: a, rel: b, full_path: c })@ == (
        EffectView::ReadDiff { fs: fs@, agent_id: a@, rel: b@, full_path: c@ }),
        (Effect::StartSearch { fs, agent_id: x, params })@ == (
        EffectView::StartSearch { fs: fs@, agent_id: opt_text(x), params: params@ }),
        (Effect::CancelSearch { fs, search_id: n })@ == (
        EffectView::CancelSearch { fs: fs@, search_id: n }),
        (Effect::ConnectService { agent_id: a, container, workspace: b })@ == (
        EffectView::ConnectService { agent_id: a@, container: container@, workspace: b@ }),
        (Effect::FetchBranch { agent_id: a, container, workspace: b })@ == (
        EffectView::FetchBranch { agent_id: a@, container: container@, workspace: b@ }),
        (Effect::SaveWorkspaces { entries })@ == (
        EffectView::SaveWorkspaces { entries: all_views(entries@) }),
        (Effect::SaveState { workspace: a, session_id: x })@ == (
        EffectView::SaveState { workspace: a@, session_id: opt_text(x) }),
        (Effect::SavePairings { pairs })@ == (
        EffectView::SavePairings { pairs: pair_views(pairs@) }),
        (Effect::GenerateLayer { workspace: a })@ == (EffectView::GenerateLayer { workspace: a@ }),
        (Effect::RemoveContainer { agent_id: a, workspace: b })@ == (
        EffectView::RemoveContainer { agent_id: a@, workspace: b@ }),
        (Effect::ServeTunnel { agent_id: a, tunnel_id: n, stream: m })@ == (
        EffectView::ServeTunnel { agent_id: a@, tunnel_id: n, stream: m }),
        (Effect::CloseTunnel { tunnel_id: n })@ == (EffectView::CloseTunnel { tunnel_id: n }),
        (Effect::CompletePath { verb: a, partial: b, backward: flag })@ == (
        EffectView::CompletePath { verb: a@, partial: b@, backward: flag }),
{
}

} // verus!
