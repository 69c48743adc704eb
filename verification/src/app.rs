//! Application state: tab and screen navigation, model lists, dialogs, the
//! diagnostic log ring, and the orchestration of chat turns — starting a
//! turn and draining the relay once per scheduler tick.
//!
//! Network transport, terminal rendering and clocks live in the host
//! application; every method here takes plain values (timestamps in
//! milliseconds, already-fetched lists) and changes state deterministically.

use vstd::prelude::*;
use std::collections::VecDeque;
use crate::api::{ChatResponse, ChatResponseV, Model, ModelsDevModel, RunningModel, relay_channel, relay_try_recv, RecvOutcome};
use crate::chat::{ChatMessage, ChatSession, ChatSessionV, ChatState, ChatStateV, InputMode, MessageRole, TurnCtl, spec_active, spec_add_message, spec_apply_stream_event, spec_context, state_wf};
use crate::text::string_append;

verus! {

/// Most entries the diagnostic log keeps; the oldest are evicted first.
pub const LOG_CAP: usize = 1000;

/// Most relay events folded per scheduler tick, to bound per-tick latency.
pub const MAX_EVENTS_PER_DRAIN: usize = 10;

/// Milliseconds between automatic refreshes of the daemon state.
pub const REFRESH_INTERVAL_MS: i64 = 5000;

#[derive(Debug, Clone, PartialEq, Eq, Structural)]
pub enum CurrentScreen {
    Dashboard,
    Models,
    Logs,
    Chat,
    Help,
}

#[derive(Debug, Clone, PartialEq, Eq, Structural)]
pub enum ModelsViewMode {
    Installed,
    Available,
    All,
}

#[derive(Debug, Clone, PartialEq, Eq, Structural)]
pub enum ModelsTabView {
    Library,
    ApiExplorer,
    Network,
}

#[derive(Debug, Clone, Copy, PartialEq, Eq, Structural)]
pub enum LogLevel {
    Info,
    Warning,
    Error,
}

#[derive(Debug, Clone)]
pub struct LogEntry {
    /// Milliseconds since the Unix epoch, supplied by the caller.
    pub timestamp: i64,
    pub level: LogLevel,
    pub message: String,
}

pub ghost struct LogEntryV {
    pub timestamp: int,
    pub level: LogLevel,
    pub message: Seq<char>,
}

impl View for LogEntry {
    type V = LogEntryV;

    open spec fn view(&self) -> LogEntryV {
        LogEntryV {
            timestamp: self.timestamp as int,
            level: self.level,
            message: self.message@,
        }
    }
}

#[derive(Debug, Clone)]
pub struct SystemStatus {
    pub is_running: bool,
    pub version: String,
    pub models_loaded: usize,
    pub total_memory: u64,
    pub used_memory: u64,
}

#[derive(Debug, Clone)]
pub struct ApiExplorerState {
    pub selected_endpoint: usize,
    /// The highlighted row of the endpoint list, as the rendering layer
    /// shows it.
    pub endpoints_list_selected: Option<usize>,
    pub request_body: String,
    pub response_body: String,
    pub show_request_editor: bool,
    pub network_urls: Vec<String>,
}

#[derive(Debug, Clone)]
pub struct DiscoveredService {
    pub name: String,
    pub ip: String,
    pub port: u16,
    pub is_reachable: bool,
    pub version: Option<String>,
}

#[derive(Debug, Clone)]
pub struct ApiEndpoint {
    pub name: String,
    pub method: String,
    pub path: String,
    pub description: String,
    pub example_body: Option<String>,
}

/// The whole application state that the control loop owns and mutates.
/// The relay receive handle of the in-flight chat turn, when one exists,
/// sits in `chat_response_receiver`.
pub struct App {
    pub selected_tab: usize,
    pub current_screen: CurrentScreen,
    pub should_quit: bool,
    pub models: Vec<Model>,
    pub available_models: Vec<ModelsDevModel>,
    pub running_models: Vec<RunningModel>,
    pub logs: VecDeque<LogEntry>,
    pub selected_model_index: usize,
    /// The highlighted row of the model list, as the rendering layer shows
    /// it.
    pub models_list_selected: Option<usize>,
    pub show_pull_dialog: bool,
    pub pull_model_name: String,
    pub show_delete_confirmation: bool,
    pub model_to_delete: Option<String>,
    pub status: SystemStatus,
    pub last_refresh: i64,
    pub animation_tick: usize,
    pub models_view_mode: ModelsViewMode,
    pub models_tab_view: ModelsTabView,
    pub api_explorer_state: ApiExplorerState,
    pub discovered_services: Vec<DiscoveredService>,
    pub chat_state: ChatState,
    pub chat_response_receiver: Option<tokio::sync::mpsc::Receiver<ChatResponse>>,
}

// Field groups that a method leaves untouched, so that each contract can
// say exactly which area changed.

pub open spec fn same_shell(a: App, b: App) -> bool {
    &&& a.selected_tab == b.selected_tab
    &&& a.current_screen == b.current_screen
    &&& a.should_quit == b.should_quit
    &&& a.status == b.status
    &&& a.last_refresh == b.last_refresh
    &&& a.animation_tick == b.animation_tick
}

pub open spec fn same_models_area(a: App, b: App) -> bool {
    &&& a.models == b.models
    &&& a.available_models == b.available_models
    &&& a.running_models == b.running_models
    &&& a.selected_model_index == b.selected_model_index
    &&& a.models_list_selected == b.models_list_selected
    &&& a.models_view_mode == b.models_view_mode
    &&& a.models_tab_view == b.models_tab_view
}

pub open spec fn same_dialogs(a: App, b: App) -> bool {
    &&& a.show_pull_dialog == b.show_pull_dialog
    &&& a.pull_model_name == b.pull_model_name
    &&& a.show_delete_confirmation == b.show_delete_confirmation
    &&& a.model_to_delete == b.model_to_delete
}

pub open spec fn same_explorer(a: App, b: App) -> bool {
    &&& a.api_explorer_state == b.api_explorer_state
    &&& a.discovered_services == b.discovered_services
}

pub open spec fn same_chat(a: App, b: App) -> bool {
    &&& a.chat_state == b.chat_state
    &&& a.chat_response_receiver == b.chat_response_receiver
}

pub open spec fn same_logs(a: App, b: App) -> bool {
    a.logs == b.logs
}

/// A character sequence with its last character removed, if it has one.
pub open spec fn spec_pop_char(s: Seq<char>) -> Seq<char> {
    if s.len() > 0 {
        s.drop_last()
    } else {
        s
    }
}

/// A log ring gains the entry at the back; entries beyond capacity are
/// evicted oldest first.
pub open spec fn spec_add_log(
    logs: Seq<LogEntryV>,
    level: LogLevel,
    message: Seq<char>,
    now: int,
) -> Seq<LogEntryV> {
    let pushed = logs.push(LogEntryV { timestamp: now, level, message });
    if pushed.len() > LOG_CAP {
        pushed.skip(pushed.len() - LOG_CAP)
    } else {
        pushed
    }
}

impl App {
    /// The diagnostic log as the contracts see it.
    pub open spec fn logs_v(&self) -> Seq<LogEntryV> {
        self.logs@.map_values(|e: LogEntry| e@)
    }

    pub open spec fn wf(&self) -> bool {
        &&& state_wf(self.chat_state@)
        &&& self.logs@.len() <= LOG_CAP
        &&& self.selected_tab < 4
    }

    /// Fresh state: dashboard tab, no models known yet, one greeting log
    /// entry, one empty chat session, no turn in flight.
    pub fn new(now_ms: i64) -> (a: App)
        ensures
            a.wf(),
            a.selected_tab == 0,
            a.current_screen == CurrentScreen::Dashboard,
            !a.should_quit,
            a.models@.len() == 0,
            a.available_models@.len() == 0,
            a.running_models@.len() == 0,
            a.logs_v() =~= seq![
                LogEntryV {
                    timestamp: now_ms as int,
                    level: LogLevel::Info,
                    message: "🔄 llamaloop initialized - entering the eternal dance"@,
                },
            ],
            a.selected_model_index == 0,
            a.models_list_selected == Some(0usize),
            !a.show_pull_dialog,
            a.pull_model_name@ == Seq::<char>::empty(),
            !a.show_delete_confirmation,
            a.model_to_delete is None,
            !a.status.is_running,
            a.status.version@ == "Unknown"@,
            a.status.models_loaded == 0,
            a.status.total_memory == 0,
            a.status.used_memory == 0,
            a.last_refresh == now_ms,
            a.animation_tick == 0,
            a.models_view_mode == ModelsViewMode::All,
            a.models_tab_view == ModelsTabView::Library,
            a.api_explorer_state.selected_endpoint == 0,
            a.api_explorer_state.endpoints_list_selected == Some(0usize),
            a.api_explorer_state.request_body@ == Seq::<char>::empty(),
            a.api_explorer_state.response_body@ == Seq::<char>::empty(),
            !a.api_explorer_state.show_request_editor,
            a.api_explorer_state.network_urls@.len() == 0,
            a.discovered_services@.len() == 0,
            a.chat_state@.sessions.len() == 1,
            a.chat_state@.active_session_index == 0,
            a.chat_state@.available_models.len() == 0,
            a.chat_response_receiver is None,
    {
        let mut logs: VecDeque<LogEntry> = VecDeque::new();
        logs.push_back(LogEntry {
            timestamp: now_ms,
            level: LogLevel::Info,
            message: "🔄 llamaloop initialized - entering the eternal dance".to_owned(),
        });

        let a = App {
            selected_tab: 0,
            current_screen: CurrentScreen::Dashboard,
            should_quit: false,
            models: Vec::new(),
            available_models: Vec::new(),
            running_models: Vec::new(),
            logs,
            selected_model_index: 0,
            models_list_selected: Some(0),
            show_pull_dialog: false,
            pull_model_name: String::new(),
            show_delete_confirmation: false,
            model_to_delete: None,
            status: SystemStatus {
                is_running: false,
                version: "Unknown".to_owned(),
                models_loaded: 0,
                total_memory: 0,
                used_memory: 0,
            },
            last_refresh: now_ms,
            animation_tick: 0,
            models_view_mode: ModelsViewMode::All,
            models_tab_view: ModelsTabView::Library,
            api_explorer_state: ApiExplorerState {
                selected_endpoint: 0,
                endpoints_list_selected: Some(0),
                request_body: String::new(),
                response_body: String::new(),
                show_request_editor: false,
                network_urls: Vec::new(),
            },
            discovered_services: Vec::new(),
            chat_state: ChatState::new(Vec::new(), now_ms),
            chat_response_receiver: None,
        };
        a
    }

    /// Records one diagnostic line, evicting the oldest past capacity.
    pub fn add_log(&mut self, level: LogLevel, message: &str, now_ms: i64)
        requires
            old(self).wf(),
        ensures
            final(self).wf(),
            final(self).logs_v() == spec_add_log(old(self).logs_v(), level, message@, now_ms as int),
            same_shell(*final(self), *old(self)),
            same_models_area(*final(self), *old(self)),
            same_dialogs(*final(self), *old(self)),
            same_explorer(*final(self), *old(self)),
            same_chat(*final(self), *old(self)),
    {
        self.logs.push_back(LogEntry { timestamp: now_ms, level, message: message.to_owned() });
        if self.logs.len() > LOG_CAP {
            self.logs.pop_front();
        }
        proof {
            assert(self.logs_v() =~= spec_add_log(
                old(self).logs_v(),
                level,
                message@,
                now_ms as int,
            ));
        }
    }

    /// The screen each tab index selects.
    pub open spec fn spec_screen_of_tab(tab: int) -> CurrentScreen {
        if tab == 0 {
            CurrentScreen::Dashboard
        } else if tab == 1 {
            CurrentScreen::Models
        } else if tab == 2 {
            CurrentScreen::Logs
        } else if tab == 3 {
            CurrentScreen::Chat
        } else {
            CurrentScreen::Dashboard
        }
    }

    fn update_screen_from_tab(&mut self, now_ms: i64)
        requires
            old(self).wf(),
        ensures
            final(self).wf(),
            final(self).selected_tab == old(self).selected_tab,
            final(self).current_screen == Self::spec_screen_of_tab(old(self).selected_tab as int),
            (final(self).current_screen == CurrentScreen::Chat
                && old(self).chat_state@.available_models.len() == 0) ==> spec_chat_initialized(
                *old(self),
                *final(self),
                now_ms as int,
            ),
            !(final(self).current_screen == CurrentScreen::Chat
                && old(self).chat_state@.available_models.len() == 0) ==> {
                &&& same_chat(*final(self), *old(self))
                &&& same_logs(*final(self), *old(self))
            },
            final(self).should_quit == old(self).should_quit,
            final(self).status == old(self).status,
            final(self).last_refresh == old(self).last_refresh,
            final(self).animation_tick == old(self).animation_tick,
            same_models_area(*final(self), *old(self)),
            same_dialogs(*final(self), *old(self)),
            same_explorer(*final(self), *old(self)),
            final(self).chat_response_receiver == old(self).chat_response_receiver,
    {
        self.current_screen = if self.selected_tab == 0 {
            CurrentScreen::Dashboard
        } else if self.selected_tab == 1 {
            CurrentScreen::Models
        } else if self.selected_tab == 2 {
            CurrentScreen::Logs
        } else if self.selected_tab == 3 {
            CurrentScreen::Chat
        } else {
            CurrentScreen::Dashboard
        };

        if matches!(self.current_screen, CurrentScreen::Chat)
            && self.chat_state.available_models.len() == 0 {
            self.initialize_chat(now_ms);
        }
    }

    /// Cycles to the next of the four tabs and switches screens; entering
    /// the chat screen for the first time seeds the chat model list.
    pub fn next_tab(&mut self, now_ms: i64)
        requires
            old(self).wf(),
        ensures
            final(self).wf(),
            final(self).selected_tab == (old(self).selected_tab + 1) % 4,
            final(self).current_screen == Self::spec_screen_of_tab(
                (old(self).selected_tab + 1) % 4,
            ),
            same_models_area(*final(self), *old(self)),
            same_dialogs(*final(self), *old(self)),
            same_explorer(*final(self), *old(self)),
            final(self).chat_response_receiver == old(self).chat_response_receiver,
    {
        self.selected_tab = (self.selected_tab + 1) % 4;
        self.update_screen_from_tab(now_ms);
    }

    /// Cycles to the previous tab, wrapping from the first to the last.
    pub fn previous_tab(&mut self, now_ms: i64)
        requires
            old(self).wf(),
        ensures
            final(self).wf(),
            final(self).selected_tab == if old(self).selected_tab > 0 {
                old(self).selected_tab - 1
            } else {
                3
            },
            final(self).current_screen == Self::spec_screen_of_tab(
                final(self).selected_tab as int,
            ),
            same_models_area(*final(self), *old(self)),
            same_dialogs(*final(self), *old(self)),
            same_explorer(*final(self), *old(self)),
            final(self).chat_response_receiver == old(self).chat_response_receiver,
    {
        if self.selected_tab > 0 {
            self.selected_tab = self.selected_tab - 1;
        } else {
            self.selected_tab = 3;
        }
        self.update_screen_from_tab(now_ms);
    }

    /// Seeds the chat model list from the installed models; with none
    /// installed it only logs a warning.  Replaces the chat sessions when
    /// models exist, as a fresh chat surface over the new list.
    pub fn initialize_chat(&mut self, now_ms: i64)
        requires
            old(self).wf(),
        ensures
            final(self).wf(),
            spec_chat_initialized(*old(self), *final(self), now_ms as int),
            same_shell(*final(self), *old(self)),
            same_models_area(*final(self), *old(self)),
            same_dialogs(*final(self), *old(self)),
            same_explorer(*final(self), *old(self)),
            final(self).chat_response_receiver == old(self).chat_response_receiver,
    {
        let ghost names = self.models@.map_values(|m: Model| m.name@);
        let mut model_names: Vec<String> = Vec::new();
        let n = self.models.len();
        for i in 0..n
            invariant
                n == self.models@.len(),
                names == self.models@.map_values(|m: Model| m.name@),
                model_names@.map_values(|s: String| s@) == names.take(i as int),
                self == old(self),
        {
            let ghost prev = model_names@.map_values(|s: String| s@);
            let name = self.models[i].name.clone();
            proof {
                assert(name@ == names[i as int]);
            }
            model_names.push(name);
            proof {
                assert(model_names@.map_values(|s: String| s@) =~= prev.push(names[i as int]));
                assert(names.take(i + 1) =~= names.take(i as int).push(names[i as int]));
            }
        }
        proof {
            assert(self.models@.map_values(|m: Model| m.name@).take(n as int) =~= self.models@.map_values(
                |m: Model| m.name@,
            ));
        }

        if model_names.len() > 0 {
            self.chat_state = ChatState::new(model_names, now_ms);
            self.add_log(LogLevel::Info, "Chat initialized", now_ms);
        } else {
            self.add_log(LogLevel::Warning, "No models available for chat. Pull a model first!", now_ms);
        }
    }
}

impl App {
    /// Cycles the models screen through its three panes, resetting the
    /// pane's selection on arrival.
    pub fn toggle_models_tab(&mut self)
        requires
            old(self).wf(),
        ensures
            final(self).wf(),
            final(self).models_tab_view == (match old(self).models_tab_view {
                ModelsTabView::Library => ModelsTabView::ApiExplorer,
                ModelsTabView::ApiExplorer => ModelsTabView::Network,
                ModelsTabView::Network => ModelsTabView::Library,
            }),
            final(self).models_tab_view == ModelsTabView::Library ==> final(self).models_list_selected == Some(0usize),
            final(self).models_tab_view != ModelsTabView::Library ==> final(self).models_list_selected == old(self).models_list_selected,
            final(self).models_tab_view == ModelsTabView::ApiExplorer ==> final(self).api_explorer_state == (ApiExplorerState {
                endpoints_list_selected: Some(0usize),
                ..old(self).api_explorer_state
            }),
            final(self).models_tab_view != ModelsTabView::ApiExplorer ==> final(self).api_explorer_state == old(self).api_explorer_state,
            final(self).models == old(self).models,
            final(self).available_models == old(self).available_models,
            final(self).running_models == old(self).running_models,
            final(self).selected_model_index == old(self).selected_model_index,
            final(self).models_view_mode == old(self).models_view_mode,
            final(self).discovered_services == old(self).discovered_services,
            same_shell(*final(self), *old(self)),
            same_dialogs(*final(self), *old(self)),
            same_chat(*final(self), *old(self)),
            same_logs(*final(self), *old(self)),
    {
        self.models_tab_view = match self.models_tab_view {
            ModelsTabView::Library => ModelsTabView::ApiExplorer,
            ModelsTabView::ApiExplorer => ModelsTabView::Network,
            ModelsTabView::Network => ModelsTabView::Library,
        };
        if matches!(self.models_tab_view, ModelsTabView::Library) {
            self.models_list_selected = Some(0);
        } else if matches!(self.models_tab_view, ModelsTabView::ApiExplorer) {
            self.api_explorer_state.endpoints_list_selected = Some(0);
        }
    }

    /// How many rows the models list shows in the current view mode, held
    /// at the machine limit rather than overflowing.
    pub open spec fn spec_total_models(a: App) -> int {
        let total = match a.models_view_mode {
            ModelsViewMode::Installed => a.models@.len() as int,
            ModelsViewMode::Available => a.available_models@.len() as int,
            ModelsViewMode::All => a.models@.len() as int + a.available_models@.len() as int,
        };
        if total > usize::MAX {
            usize::MAX as int
        } else {
            total
        }
    }

    /// The highlighted row, defaulting to the top.
    pub open spec fn spec_list_cursor(a: App) -> int {
        match a.models_list_selected {
            Some(i) => i as int,
            None => 0,
        }
    }

    pub fn get_total_models_count(&self) -> (r: usize)
        ensures
            r as int == Self::spec_total_models(*self),
    {
        match self.models_view_mode {
            ModelsViewMode::Installed => self.models.len(),
            ModelsViewMode::Available => self.available_models.len(),
            ModelsViewMode::All => {
                let a = self.models.len();
                let b = self.available_models.len();
                if a > usize::MAX - b {
                    usize::MAX
                } else {
                    a + b
                }
            }
        }
    }

    /// Moves the models-list highlight one row up, when the models screen
    /// shows rows and the highlight is not already at the top.
    pub fn on_up(&mut self)
        requires
            old(self).wf(),
        ensures
            final(self).wf(),
            ({
                let moved = old(self).current_screen == CurrentScreen::Models
                    && Self::spec_total_models(*old(self)) > 0
                    && Self::spec_list_cursor(*old(self)) > 0;
                if moved {
                    &&& final(self).models_list_selected == Some(
                        (Self::spec_list_cursor(*old(self)) - 1) as usize,
                    )
                    &&& final(self).selected_model_index == Self::spec_list_cursor(*old(self)) - 1
                } else {
                    &&& final(self).models_list_selected == old(self).models_list_selected
                    &&& final(self).selected_model_index == old(self).selected_model_index
                }
            }),
            final(self).models == old(self).models,
            final(self).available_models == old(self).available_models,
            final(self).running_models == old(self).running_models,
            final(self).models_view_mode == old(self).models_view_mode,
            final(self).models_tab_view == old(self).models_tab_view,
            same_shell(*final(self), *old(self)),
            same_dialogs(*final(self), *old(self)),
            same_explorer(*final(self), *old(self)),
            same_chat(*final(self), *old(self)),
            same_logs(*final(self), *old(self)),
    {
        if matches!(self.current_screen, CurrentScreen::Models) {
            let total_models = self.get_total_models_count();
            if total_models > 0 {
                let current = match self.models_list_selected {
                    Some(i) => i,
                    None => 0,
                };
                if current > 0 {
                    self.models_list_selected = Some(current - 1);
                    self.selected_model_index = current - 1;
                }
            }
        }
    }

    /// Moves the models-list highlight one row down, when the models screen
    /// shows rows and the highlight is not already on the last row.
    pub fn on_down(&mut self)
        requires
            old(self).wf(),
        ensures
            final(self).wf(),
            ({
                let moved = old(self).current_screen == CurrentScreen::Models
                    && Self::spec_total_models(*old(self)) > 0
                    && Self::spec_list_cursor(*old(self)) < Self::spec_total_models(*old(self)) - 1;
                if moved {
                    &&& final(self).models_list_selected == Some(
                        (Self::spec_list_cursor(*old(self)) + 1) as usize,
                    )
                    &&& final(self).selected_model_index == Self::spec_list_cursor(*old(self)) + 1
                } else {
                    &&& final(self).models_list_selected == old(self).models_list_selected
                    &&& final(self).selected_model_index == old(self).selected_model_index
                }
            }),
            final(self).models == old(self).models,
            final(self).available_models == old(self).available_models,
            final(self).running_models == old(self).running_models,
            final(self).models_view_mode == old(self).models_view_mode,
            final(self).models_tab_view == old(self).models_tab_view,
            same_shell(*final(self), *old(self)),
            same_dialogs(*final(self), *old(self)),
            same_explorer(*final(self), *old(self)),
            same_chat(*final(self), *old(self)),
            same_logs(*final(self), *old(self)),
    {
        if matches!(self.current_screen, CurrentScreen::Models) {
            let total_models = self.get_total_models_count();
            if total_models > 0 {
                let current = match self.models_list_selected {
                    Some(i) => i,
                    None => 0,
                };
                if current < total_models - 1 {
                    self.models_list_selected = Some(current + 1);
                    self.selected_model_index = current + 1;
                }
            }
        }
    }

    /// Advances the animation counter (wrapping) and reports whether the
    /// periodic refresh is due.
    pub fn on_tick(&mut self, now_ms: i64) -> (refresh_due: bool)
        requires
            old(self).wf(),
        ensures
            final(self).wf(),
            final(self).animation_tick == if old(self).animation_tick == usize::MAX {
                0usize
            } else {
                (old(self).animation_tick + 1) as usize
            },
            refresh_due == (now_ms - old(self).last_refresh > REFRESH_INTERVAL_MS as int),
            final(self).selected_tab == old(self).selected_tab,
            final(self).current_screen == old(self).current_screen,
            final(self).should_quit == old(self).should_quit,
            final(self).status == old(self).status,
            final(self).last_refresh == old(self).last_refresh,
            same_models_area(*final(self), *old(self)),
            same_dialogs(*final(self), *old(self)),
            same_explorer(*final(self), *old(self)),
            same_chat(*final(self), *old(self)),
            same_logs(*final(self), *old(self)),
    {
        if self.animation_tick == usize::MAX {
            self.animation_tick = 0;
        } else {
            self.animation_tick = self.animation_tick + 1;
        }
        match now_ms.checked_sub(self.last_refresh) {
            Some(d) => d > REFRESH_INTERVAL_MS,
            None => now_ms > self.last_refresh,
        }
    }

    /// Remembers when the daemon state was last refreshed.
    pub fn mark_refreshed(&mut self, now_ms: i64)
        requires
            old(self).wf(),
        ensures
            final(self).wf(),
            *final(self) == (App { last_refresh: now_ms, ..*old(self) }),
    {
        self.last_refresh = now_ms;
    }

    /// Records whether the daemon answered its status probe, with the
    /// matching log line.
    pub fn record_status(&mut self, is_running: bool, now_ms: i64)
        requires
            old(self).wf(),
        ensures
            final(self).wf(),
            final(self).status == (SystemStatus { is_running, ..old(self).status }),
            final(self).logs_v() == if is_running {
                spec_add_log(old(self).logs_v(), LogLevel::Info, "Ollama is running"@, now_ms as int)
            } else {
                spec_add_log(
                    old(self).logs_v(),
                    LogLevel::Warning,
                    "Ollama is not responding"@,
                    now_ms as int,
                )
            },
            final(self).selected_tab == old(self).selected_tab,
            final(self).current_screen == old(self).current_screen,
            final(self).should_quit == old(self).should_quit,
            final(self).last_refresh == old(self).last_refresh,
            final(self).animation_tick == old(self).animation_tick,
            same_models_area(*final(self), *old(self)),
            same_dialogs(*final(self), *old(self)),
            same_explorer(*final(self), *old(self)),
            same_chat(*final(self), *old(self)),
    {
        self.status.is_running = is_running;
        if is_running {
            self.add_log(LogLevel::Info, "Ollama is running", now_ms);
        } else {
            self.add_log(LogLevel::Warning, "Ollama is not responding", now_ms);
        }
    }

    /// Records that the status probe itself failed; the caller logs the
    /// error it saw.
    pub fn record_status_failure(&mut self)
        requires
            old(self).wf(),
        ensures
            final(self).wf(),
            *final(self) == (App {
                status: SystemStatus { is_running: false, ..old(self).status },
                ..*old(self)
            }),
    {
        self.status.is_running = false;
    }

    /// Replaces the installed-model list and the loaded-model count.
    pub fn set_models(&mut self, models: Vec<Model>)
        requires
            old(self).wf(),
        ensures
            final(self).wf(),
            *final(self) == (App {
                models,
                status: SystemStatus {
                    models_loaded: models.len(),
                    ..old(self).status
                },
                ..*old(self)
            }),
    {
        let count = models.len();
        self.models = models;
        self.status.models_loaded = count;
    }

    /// Replaces the catalog of remotely available models.
    pub fn set_available_models(&mut self, available: Vec<ModelsDevModel>)
        requires
            old(self).wf(),
        ensures
            final(self).wf(),
            *final(self) == (App { available_models: available, ..*old(self) }),
    {
        self.available_models = available;
    }

    /// Shows or hides the pull dialog; opening it clears the name field.
    pub fn toggle_pull_dialog(&mut self)
        requires
            old(self).wf(),
        ensures
            final(self).wf(),
            final(self).show_pull_dialog == !old(self).show_pull_dialog,
            final(self).pull_model_name@ == if final(self).show_pull_dialog {
                Seq::<char>::empty()
            } else {
                old(self).pull_model_name@
            },
            final(self).show_delete_confirmation == old(self).show_delete_confirmation,
            final(self).model_to_delete == old(self).model_to_delete,
            same_shell(*final(self), *old(self)),
            same_models_area(*final(self), *old(self)),
            same_explorer(*final(self), *old(self)),
            same_chat(*final(self), *old(self)),
            same_logs(*final(self), *old(self)),
    {
        self.show_pull_dialog = !self.show_pull_dialog;
        if self.show_pull_dialog {
            self.pull_model_name = String::new();
        }
    }

    /// Asks for confirmation before deleting the highlighted installed
    /// model; a no-op when the highlight is out of range.
    pub fn request_delete_model(&mut self, now_ms: i64)
        requires
            old(self).wf(),
        ensures
            final(self).wf(),
            ({
                let idx = old(self).selected_model_index as int;
                if idx < old(self).models@.len() {
                    &&& final(self).show_delete_confirmation
                    &&& match final(self).model_to_delete {
                        Some(name) => name@ == old(self).models@[idx].name@,
                        None => false,
                    }
                    &&& final(self).logs_v() == spec_add_log(
                        old(self).logs_v(),
                        LogLevel::Warning,
                        "Delete confirmation requested for: "@ + old(self).models@[idx].name@,
                        now_ms as int,
                    )
                } else {
                    &&& final(self).show_delete_confirmation == old(self).show_delete_confirmation
                    &&& final(self).model_to_delete == old(self).model_to_delete
                    &&& same_logs(*final(self), *old(self))
                }
            }),
            final(self).show_pull_dialog == old(self).show_pull_dialog,
            final(self).pull_model_name == old(self).pull_model_name,
            same_shell(*final(self), *old(self)),
            same_models_area(*final(self), *old(self)),
            same_explorer(*final(self), *old(self)),
            same_chat(*final(self), *old(self)),
    {
        if self.selected_model_index < self.models.len() {
            let name = self.models[self.selected_model_index].name.clone();
            self.model_to_delete = Some(name.clone());
            self.show_delete_confirmation = true;
            let mut line = "Delete confirmation requested for: ".to_owned();
            string_append(&mut line, name.as_str());
            self.add_log(LogLevel::Warning, line.as_str(), now_ms);
        }
    }

    /// Dismisses the delete confirmation without deleting anything.
    pub fn cancel_delete(&mut self, now_ms: i64)
        requires
            old(self).wf(),
        ensures
            final(self).wf(),
            !final(self).show_delete_confirmation,
            final(self).model_to_delete is None,
            final(self).logs_v() == spec_add_log(
                old(self).logs_v(),
                LogLevel::Info,
                "Delete cancelled"@,
                now_ms as int,
            ),
            final(self).show_pull_dialog == old(self).show_pull_dialog,
            final(self).pull_model_name == old(self).pull_model_name,
            same_shell(*final(self), *old(self)),
            same_models_area(*final(self), *old(self)),
            same_explorer(*final(self), *old(self)),
            same_chat(*final(self), *old(self)),
    {
        self.show_delete_confirmation = false;
        self.model_to_delete = None;
        self.add_log(LogLevel::Info, "Delete cancelled", now_ms);
    }

    /// Cycles the models list through its three view modes and resets the
    /// highlight to the top.
    pub fn toggle_models_view(&mut self)
        requires
            old(self).wf(),
        ensures
            final(self).wf(),
            final(self).models_view_mode == (match old(self).models_view_mode {
                ModelsViewMode::All => ModelsViewMode::Installed,
                ModelsViewMode::Installed => ModelsViewMode::Available,
                ModelsViewMode::Available => ModelsViewMode::All,
            }),
            final(self).selected_model_index == 0,
            final(self).models_list_selected == Some(0usize),
            final(self).models == old(self).models,
            final(self).available_models == old(self).available_models,
            final(self).running_models == old(self).running_models,
            final(self).models_tab_view == old(self).models_tab_view,
            same_shell(*final(self), *old(self)),
            same_dialogs(*final(self), *old(self)),
            same_explorer(*final(self), *old(self)),
            same_chat(*final(self), *old(self)),
            same_logs(*final(self), *old(self)),
    {
        self.models_view_mode = match self.models_view_mode {
            ModelsViewMode::All => ModelsViewMode::Installed,
            ModelsViewMode::Installed => ModelsViewMode::Available,
            ModelsViewMode::Available => ModelsViewMode::All,
        };
        self.selected_model_index = 0;
        self.models_list_selected = Some(0);
    }

    /// Types one character into the active session's input buffer, in
    /// editing mode only.
    pub fn handle_chat_input(&mut self, c: char)
        requires
            old(self).wf(),
        ensures
            final(self).wf(),
            old(self).chat_state@.input_mode == InputMode::Editing ==> final(self).chat_state@
                == (ChatStateV {
                sessions: old(self).chat_state@.sessions.update(
                    old(self).chat_state@.active_session_index,
                    ChatSessionV {
                        input_buffer: spec_active(old(self).chat_state@).input_buffer.push(c),
                        ..spec_active(old(self).chat_state@)
                    },
                ),
                ..old(self).chat_state@
            }),
            old(self).chat_state@.input_mode != InputMode::Editing ==> final(self).chat_state
                == old(self).chat_state,
            final(self).chat_response_receiver == old(self).chat_response_receiver,
            same_shell(*final(self), *old(self)),
            same_models_area(*final(self), *old(self)),
            same_dialogs(*final(self), *old(self)),
            same_explorer(*final(self), *old(self)),
            same_logs(*final(self), *old(self)),
    {
        if matches!(self.chat_state.input_mode, InputMode::Editing) {
            let i = self.chat_state.active_session_index;
            let session = &mut self.chat_state.sessions[i];
            crate::text::string_push(&mut session.input_buffer, c);
            proof {
                assert(self.chat_state@.sessions =~= old(self).chat_state@.sessions.update(
                    old(self).chat_state@.active_session_index,
                    ChatSessionV {
                        input_buffer: spec_active(old(self).chat_state@).input_buffer.push(c),
                        ..spec_active(old(self).chat_state@)
                    },
                ));
                assert(self.chat_state@ =~= ChatStateV {
                    sessions: self.chat_state@.sessions,
                    ..old(self).chat_state@
                });
            }
        }
    }

    /// Erases the last character of the active session's input buffer, in
    /// editing mode only.
    pub fn handle_chat_backspace(&mut self)
        requires
            old(self).wf(),
        ensures
            final(self).wf(),
            old(self).chat_state@.input_mode == InputMode::Editing ==> final(self).chat_state@
                == (ChatStateV {
                sessions: old(self).chat_state@.sessions.update(
                    old(self).chat_state@.active_session_index,
                    ChatSessionV {
                        input_buffer: spec_pop_char(spec_active(old(self).chat_state@).input_buffer),
                        ..spec_active(old(self).chat_state@)
                    },
                ),
                ..old(self).chat_state@
            }),
            old(self).chat_state@.input_mode != InputMode::Editing ==> final(self).chat_state
                == old(self).chat_state,
            final(self).chat_response_receiver == old(self).chat_response_receiver,
            same_shell(*final(self), *old(self)),
            same_models_area(*final(self), *old(self)),
            same_dialogs(*final(self), *old(self)),
            same_explorer(*final(self), *old(self)),
            same_logs(*final(self), *old(self)),
    {
        if matches!(self.chat_state.input_mode, InputMode::Editing) {
            let i = self.chat_state.active_session_index;
            let session = &mut self.chat_state.sessions[i];
            let _ = crate::text::string_pop(&mut session.input_buffer);
            proof {
                assert(self.chat_state@.sessions =~= old(self).chat_state@.sessions.update(
                    old(self).chat_state@.active_session_index,
                    ChatSessionV {
                        input_buffer: spec_pop_char(spec_active(old(self).chat_state@).input_buffer),
                        ..spec_active(old(self).chat_state@)
                    },
                ));
                assert(self.chat_state@ =~= ChatStateV {
                    sessions: self.chat_state@.sessions,
                    ..old(self).chat_state@
                });
            }
        }
    }

    /// Switches between normal and editing mode; model selection falls back
    /// to normal.
    pub fn toggle_chat_input_mode(&mut self)
        requires
            old(self).wf(),
        ensures
            final(self).wf(),
            final(self).chat_state@ == (ChatStateV {
                input_mode: match old(self).chat_state@.input_mode {
                    InputMode::Normal => InputMode::Editing,
                    InputMode::Editing => InputMode::Normal,
                    InputMode::ModelSelection => InputMode::Normal,
                },
                ..old(self).chat_state@
            }),
            final(self).chat_response_receiver == old(self).chat_response_receiver,
            same_shell(*final(self), *old(self)),
            same_models_area(*final(self), *old(self)),
            same_dialogs(*final(self), *old(self)),
            same_explorer(*final(self), *old(self)),
            same_logs(*final(self), *old(self)),
    {
        self.chat_state.input_mode = match self.chat_state.input_mode {
            InputMode::Normal => InputMode::Editing,
            InputMode::Editing => InputMode::Normal,
            InputMode::ModelSelection => InputMode::Normal,
        };
        proof {
            assert(self.chat_state@ =~= ChatStateV {
                input_mode: self.chat_state@.input_mode,
                ..old(self).chat_state@
            });
        }
    }
}

/// The bytes the running models hold in memory, summed.
pub open spec fn spec_mem_sum(models: Seq<RunningModel>) -> int
    decreases models.len(),
{
    if models.len() == 0 {
        0
    } else {
        spec_mem_sum(models.drop_last()) + models.last().size
    }
}

/// The same sum held at the machine limit rather than overflowing.
pub open spec fn spec_mem_used(models: Seq<RunningModel>) -> int {
    if spec_mem_sum(models) > u64::MAX as int {
        u64::MAX as int
    } else {
        spec_mem_sum(models)
    }
}

proof fn lemma_mem_sum_nonneg(models: Seq<RunningModel>)
    ensures
        spec_mem_sum(models) >= 0,
    decreases models.len(),
{
    if models.len() > 0 {
        lemma_mem_sum_nonneg(models.drop_last());
    }
}

/// Everything the session engine needs to start a turn's transport: the
/// model and the full ordered message context.
pub struct ChatTurnRequest {
    pub model: String,
    pub messages: Vec<ChatMessage>,
}

/// The active session once a turn begins: the pending input moves into the
/// log as a user message (and into the history ring), the edit buffer and
/// the accumulator clear, and streaming starts.
pub open spec fn spec_begin_turn(s: ChatSessionV, now: int) -> ChatSessionV {
    let submitted = spec_add_message(
        ChatSessionV { input_buffer: Seq::<char>::empty(), ..s },
        MessageRole::User,
        s.input_buffer,
        now,
    );
    ChatSessionV {
        is_streaming: true,
        current_response: Seq::<char>::empty(),
        ..submitted
    }
}

impl App {
    /// Replaces the process list and recomputes the memory in use.
    pub fn set_running_models(&mut self, running: Vec<RunningModel>)
        requires
            old(self).wf(),
        ensures
            final(self).wf(),
            *final(self) == (App {
                running_models: running,
                status: SystemStatus {
                    used_memory: spec_mem_used(running@) as u64,
                    ..old(self).status
                },
                ..*old(self)
            }),
    {
        let mut used: u64 = 0;
        proof {
            assert(running@.take(0) =~= Seq::<RunningModel>::empty());
        }
        let n = running.len();
        for i in 0..n
            invariant
                n == running@.len(),
                used as int == spec_mem_used(running@.take(i as int)),
        {
            let size = running[i].size;
            proof {
                assert(running@.take(i + 1).drop_last() =~= running@.take(i as int));
                assert(running@.take(i + 1).last() == running@[i as int]);
                lemma_mem_sum_nonneg(running@.take(i as int));
            }
            if used > u64::MAX - size {
                used = u64::MAX;
            } else {
                used = used + size;
            }
        }
        proof {
            assert(running@.take(n as int) =~= running@);
        }
        self.running_models = running;
        self.status.used_memory = used;
    }

    /// The static table of daemon endpoints the API explorer offers.
    pub fn get_api_endpoints() -> (r: Vec<ApiEndpoint>)
        ensures
            r@.len() == 11,
            r@[0].name@ == "List Models"@ && r@[0].method@ == "GET"@ && r@[0].path@
                == "/api/tags"@,
            r@[1].name@ == "Generate Completion"@ && r@[1].method@ == "POST"@ && r@[1].path@
                == "/api/generate"@,
            r@[2].name@ == "Chat Completion"@ && r@[2].method@ == "POST"@ && r@[2].path@
                == "/api/chat"@,
            r@[3].name@ == "Pull Model"@ && r@[3].method@ == "POST"@ && r@[3].path@
                == "/api/pull"@,
            r@[4].name@ == "Push Model"@ && r@[4].method@ == "POST"@ && r@[4].path@
                == "/api/push"@,
            r@[5].name@ == "Create Model"@ && r@[5].method@ == "POST"@ && r@[5].path@
                == "/api/create"@,
            r@[6].name@ == "Copy Model"@ && r@[6].method@ == "POST"@ && r@[6].path@
                == "/api/copy"@,
            r@[7].name@ == "Delete Model"@ && r@[7].method@ == "DELETE"@ && r@[7].path@
                == "/api/delete"@,
            r@[8].name@ == "Show Model Info"@ && r@[8].method@ == "POST"@ && r@[8].path@
                == "/api/show"@,
            r@[9].name@ == "List Running Models"@ && r@[9].method@ == "GET"@ && r@[9].path@
                == "/api/ps"@,
            r@[10].name@ == "Generate Embeddings"@ && r@[10].method@ == "POST"@ && r@[10].path@
                == "/api/embed"@,
    {
        let mut endpoints: Vec<ApiEndpoint> = Vec::new();
        endpoints.push(ApiEndpoint {
            name: "List Models".to_owned(),
            method: "GET".to_owned(),
            path: "/api/tags".to_owned(),
            description: "List available models".to_owned(),
            example_body: None,
        });
        endpoints.push(ApiEndpoint {
            name: "Generate Completion".to_owned(),
            method: "POST".to_owned(),
            path: "/api/generate".to_owned(),
            description: "Generate a response for a given prompt".to_owned(),
            example_body: Some(
                "{\n  \"model\": \"llama3.2\",\n  \"prompt\": \"Why is the sky blue?\",\n  \"stream\": false\n}".to_owned(),
            ),
        });
        endpoints.push(ApiEndpoint {
            name: "Chat Completion".to_owned(),
            method: "POST".to_owned(),
            path: "/api/chat".to_owned(),
            description: "Generate chat completion".to_owned(),
            example_body: Some(
                "{\n  \"model\": \"llama3.2\",\n  \"messages\": [\n    {\"role\": \"user\", \"content\": \"Hello!\"}\n  ]\n}".to_owned(),
            ),
        });
        endpoints.push(ApiEndpoint {
            name: "Pull Model".to_owned(),
            method: "POST".to_owned(),
            path: "/api/pull".to_owned(),
            description: "Download a model".to_owned(),
            example_body: Some("{\n  \"name\": \"llama3.2\"\n}".to_owned()),
        });
        endpoints.push(ApiEndpoint {
            name: "Push Model".to_owned(),
            method: "POST".to_owned(),
            path: "/api/push".to_owned(),
            description: "Push a model to registry".to_owned(),
            example_body: Some("{\n  \"name\": \"llama3.2\"\n}".to_owned()),
        });
        endpoints.push(ApiEndpoint {
            name: "Create Model".to_owned(),
            method: "POST".to_owned(),
            path: "/api/create".to_owned(),
            description: "Create a model from Modelfile".to_owned(),
            example_body: Some(
                "{\n  \"name\": \"my-model\",\n  \"modelfile\": \"FROM llama3.2\\nSYSTEM You are a helpful assistant.\"\n}".to_owned(),
            ),
        });
        endpoints.push(ApiEndpoint {
            name: "Copy Model".to_owned(),
            method: "POST".to_owned(),
            path: "/api/copy".to_owned(),
            description: "Copy a model".to_owned(),
            example_body: Some(
                "{\n  \"source\": \"llama3.2\",\n  \"destination\": \"my-llama\"\n}".to_owned(),
            ),
        });
        endpoints.push(ApiEndpoint {
            name: "Delete Model".to_owned(),
            method: "DELETE".to_owned(),
            path: "/api/delete".to_owned(),
            description: "Delete a model".to_owned(),
            example_body: Some("{\n  \"name\": \"llama3.2\"\n}".to_owned()),
        });
        endpoints.push(ApiEndpoint {
            name: "Show Model Info".to_owned(),
            method: "POST".to_owned(),
            path: "/api/show".to_owned(),
            description: "Show model information".to_owned(),
            example_body: Some("{\n  \"name\": \"llama3.2\"\n}".to_owned()),
        });
        endpoints.push(ApiEndpoint {
            name: "List Running Models".to_owned(),
            method: "GET".to_owned(),
            path: "/api/ps".to_owned(),
            description: "List running models".to_owned(),
            example_body: None,
        });
        endpoints.push(ApiEndpoint {
            name: "Generate Embeddings".to_owned(),
            method: "POST".to_owned(),
            path: "/api/embed".to_owned(),
            description: "Generate embeddings from a model".to_owned(),
            example_body: Some(
                "{\n  \"model\": \"llama3.2\",\n  \"input\": \"Here is some text to embed\"\n}".to_owned(),
            ),
        });
        endpoints
    }

    /// Starts a chat turn from the active session's pending input.  With an
    /// empty input this is a no-op; with no installed models the refusal is
    /// surfaced as a system message instead of a doomed request.  Otherwise
    /// the session transitions to streaming, a fresh bounded relay is
    /// created, its receive handle is kept for the per-tick drain, and the
    /// request context plus the relay send handle are returned for the
    /// transport task.
    pub fn send_chat_message(&mut self, now_ms: i64) -> (r: Option<
        (ChatTurnRequest, tokio::sync::mpsc::Sender<ChatResponse>),
    >)
        requires
            old(self).wf(),
        ensures
            final(self).wf(),
            ({
                let pre = old(self).chat_state@;
                let active = spec_active(pre);
                if active.input_buffer.len() == 0 {
                    r is None && *final(self) == *old(self)
                } else if old(self).models@.len() == 0 {
                    &&& r is None
                    &&& final(self).chat_state@ == (ChatStateV {
                        sessions: pre.sessions.update(
                            pre.active_session_index,
                            spec_add_message(
                                active,
                                MessageRole::System,
                                "❌ No models available. Please go to Models tab and pull a model first!"@,
                                now_ms as int,
                            ),
                        ),
                        ..pre
                    })
                    &&& final(self).logs_v() == spec_add_log(
                        old(self).logs_v(),
                        LogLevel::Error,
                        "No models available. Please pull a model first!"@,
                        now_ms as int,
                    )
                    &&& final(self).chat_response_receiver == old(self).chat_response_receiver
                    &&& same_shell(*final(self), *old(self))
                    &&& same_models_area(*final(self), *old(self))
                    &&& same_dialogs(*final(self), *old(self))
                    &&& same_explorer(*final(self), *old(self))
                } else {
                    match r {
                        Some((req, tx)) => {
                            &&& req.model@ == active.current_model
                            &&& req.messages@.map_values(|m: ChatMessage| m@) == spec_context(
                                spec_begin_turn(active, now_ms as int).messages,
                            )
                            &&& final(self).chat_state@ == (ChatStateV {
                                sessions: pre.sessions.update(
                                    pre.active_session_index,
                                    spec_begin_turn(active, now_ms as int),
                                ),
                                ..pre
                            })
                            &&& final(self).chat_response_receiver is Some
                            &&& final(self).logs_v() == spec_add_log(
                                old(self).logs_v(),
                                LogLevel::Info,
                                "Sending message to "@ + active.current_model,
                                now_ms as int,
                            )
                            &&& same_shell(*final(self), *old(self))
                            &&& same_models_area(*final(self), *old(self))
                            &&& same_dialogs(*final(self), *old(self))
                            &&& same_explorer(*final(self), *old(self))
                        }
                        None => false,
                    }
                }
            }),
    {
        let i = self.chat_state.active_session_index;
        if self.chat_state.sessions[i].input_buffer.as_str().is_empty() {
            return None;
        }

        if self.models.len() == 0 {
            self.add_log(
                LogLevel::Error,
                "No models available. Please pull a model first!",
                now_ms,
            );
            let session = &mut self.chat_state.sessions[i];
            session.add_message(
                MessageRole::System,
                "❌ No models available. Please go to Models tab and pull a model first!".to_owned(),
                now_ms,
            );
            proof {
                assert(self.chat_state@.sessions =~= old(self).chat_state@.sessions.update(
                    old(self).chat_state@.active_session_index,
                    spec_add_message(
                        spec_active(old(self).chat_state@),
                        MessageRole::System,
                        "❌ No models available. Please go to Models tab and pull a model first!"@,
                        now_ms as int,
                    ),
                ));
                assert(self.chat_state@ =~= ChatStateV {
                    sessions: self.chat_state@.sessions,
                    ..old(self).chat_state@
                });
            }
            return None;
        }

        let session = &mut self.chat_state.sessions[i];
        let message = session.input_buffer.clone();
        session.input_buffer = String::new();
        session.add_message(MessageRole::User, message, now_ms);
        session.is_streaming = true;
        session.current_response = String::new();
        let model = session.current_model.clone();
        let messages = session.get_context_for_api();
        proof {
            assert(session@ =~= spec_begin_turn(
                spec_active(old(self).chat_state@),
                now_ms as int,
            ));
        }

        let (tx, rx) = relay_channel(100);
        proof {
            assert(self.chat_state@.sessions =~= old(self).chat_state@.sessions.update(
                old(self).chat_state@.active_session_index,
                spec_begin_turn(spec_active(old(self).chat_state@), now_ms as int),
            ));
            assert(self.chat_state@ =~= ChatStateV {
                sessions: self.chat_state@.sessions,
                ..old(self).chat_state@
            });
            assert(state_wf(self.chat_state@));
        }
        self.chat_response_receiver = Some(rx);

        let mut line = "Sending message to ".to_owned();
        string_append(&mut line, model.as_str());
        self.add_log(LogLevel::Info, line.as_str(), now_ms);

        Some((ChatTurnRequest { model, messages }, tx))
    }
}

/// What one poll of the relay reported, as the drain contract sees it.
pub ghost enum PollV {
    Event(ChatResponseV),
    Empty,
    Disconnected,
}

/// What one drain pass does to the active session, the log and the relay
/// handle, given what the relay reported at each poll: events fold in order
/// until one ends the turn (which releases the relay), an empty report ends
/// the pass with the relay kept, and a disconnect before any terminal event
/// clears the streaming flag, discards the unflushed accumulator, and
/// releases the relay.
pub open spec fn spec_drain(
    s: ChatSessionV,
    logs: Seq<LogEntryV>,
    polls: Seq<PollV>,
    now: int,
) -> (ChatSessionV, Seq<LogEntryV>, bool)
    decreases polls.len(),
{
    if polls.len() == 0 {
        (s, logs, false)
    } else {
        match polls[0] {
            PollV::Empty => (s, logs, false),
            PollV::Disconnected => (
                ChatSessionV { is_streaming: false, ..s },
                spec_add_log(logs, LogLevel::Error, "Chat stream disconnected"@, now),
                true,
            ),
            PollV::Event(ev) => {
                let step = spec_apply_stream_event(s, ev, now);
                if step.1 == TurnCtl::Continue {
                    spec_drain(step.0, logs, polls.skip(1), now)
                } else if step.1 == TurnCtl::Errored {
                    (step.0, logs, true)
                } else {
                    (
                        step.0,
                        spec_add_log(logs, LogLevel::Info, "Response completed"@, now),
                        true,
                    )
                }
            }
        }
    }
}

/// Advancing the engine when the relay reports nothing new leaves the
/// session, the log and the relay handle exactly as they were.
pub proof fn lemma_drain_empty_is_noop(s: ChatSessionV, logs: Seq<LogEntryV>, now: int)
    ensures
        spec_drain(s, logs, seq![PollV::Empty], now) == (s, logs, false),
        spec_drain(s, logs, Seq::<PollV>::empty(), now) == (s, logs, false),
{
}

/// Every poll is an event the session folds and continues past.
spec fn drains_through(s: ChatSessionV, polls: Seq<PollV>, now: int) -> bool
    decreases polls.len(),
{
    if polls.len() == 0 {
        true
    } else {
        match polls[0] {
            PollV::Event(ev) => {
                let step = spec_apply_stream_event(s, ev, now);
                &&& step.1 == TurnCtl::Continue
                &&& drains_through(step.0, polls.skip(1), now)
            }
            _ => false,
        }
    }
}

proof fn lemma_drain_through_no_stop(
    s: ChatSessionV,
    logs: Seq<LogEntryV>,
    polls: Seq<PollV>,
    now: int,
)
    requires
        drains_through(s, polls, now),
    ensures
        spec_drain(s, logs, polls, now).1 == logs,
        !spec_drain(s, logs, polls, now).2,
    decreases polls.len(),
{
    if polls.len() > 0 {
        let ev = polls[0]->Event_0;
        let step = spec_apply_stream_event(s, ev, now);
        lemma_drain_through_no_stop(step.0, logs, polls.skip(1), now);
    }
}

proof fn lemma_drain_extend(
    s: ChatSessionV,
    logs: Seq<LogEntryV>,
    polls: Seq<PollV>,
    more: Seq<PollV>,
    now: int,
)
    requires
        drains_through(s, polls, now),
    ensures
        spec_drain(s, logs, polls + more, now) == spec_drain(
            spec_drain(s, logs, polls, now).0,
            logs,
            more,
            now,
        ),
    decreases polls.len(),
{
    if polls.len() == 0 {
        assert(polls + more =~= more);
    } else {
        let ev = polls[0]->Event_0;
        let step = spec_apply_stream_event(s, ev, now);
        assert((polls + more)[0] == polls[0]);
        assert((polls + more).skip(1) =~= polls.skip(1) + more);
        lemma_drain_extend(step.0, logs, polls.skip(1), more, now);
    }
}

proof fn lemma_drains_through_snoc(
    s: ChatSessionV,
    polls: Seq<PollV>,
    ev: ChatResponseV,
    now: int,
)
    requires
        drains_through(s, polls, now),
        spec_apply_stream_event(
            spec_drain(s, Seq::<LogEntryV>::empty(), polls, now).0,
            ev,
            now,
        ).1 == TurnCtl::Continue,
    ensures
        drains_through(s, polls.push(PollV::Event(ev)), now),
    decreases polls.len(),
{
    reveal_with_fuel(drains_through, 3);
    reveal_with_fuel(spec_drain, 3);
    if polls.len() == 0 {
        let one = polls.push(PollV::Event(ev));
        assert(one[0] == PollV::Event(ev));
        assert(one.skip(1) =~= Seq::<PollV>::empty());
        assert(spec_drain(s, Seq::<LogEntryV>::empty(), polls, now).0 == s);
    } else {
        let head = polls[0]->Event_0;
        let step = spec_apply_stream_event(s, head, now);
        assert(polls.push(PollV::Event(ev))[0] == polls[0]);
        assert(polls.push(PollV::Event(ev)).skip(1) =~= polls.skip(1).push(PollV::Event(ev)));
        lemma_drains_through_snoc(step.0, polls.skip(1), ev, now);
    }
}

/// The session-component of a drain does not depend on the log it threads
/// through.
proof fn lemma_drain_session_ignores_logs(
    s: ChatSessionV,
    logs1: Seq<LogEntryV>,
    logs2: Seq<LogEntryV>,
    polls: Seq<PollV>,
    now: int,
)
    ensures
        spec_drain(s, logs1, polls, now).0 == spec_drain(s, logs2, polls, now).0,
        spec_drain(s, logs1, polls, now).2 == spec_drain(s, logs2, polls, now).2,
    decreases polls.len(),
{
    if polls.len() > 0 {
        match polls[0] {
            PollV::Event(ev) => {
                let step = spec_apply_stream_event(s, ev, now);
                if step.1 == TurnCtl::Continue {
                    lemma_drain_session_ignores_logs(step.0, logs1, logs2, polls.skip(1), now);
                }
            }
            _ => {}
        }
    }
}

/// How one drain pass may relate a pre-state to a post-state, for some
/// sequence of relay reports no longer than the per-tick batch limit.
pub open spec fn drain_relates(pre: App, post: App, polls: Seq<PollV>, now: int) -> bool {
    let r = spec_drain(spec_active(pre.chat_state@), pre.logs_v(), polls, now);
    &&& polls.len() <= MAX_EVENTS_PER_DRAIN
    &&& post.chat_state@ == (ChatStateV {
        sessions: pre.chat_state@.sessions.update(pre.chat_state@.active_session_index, r.0),
        ..pre.chat_state@
    })
    &&& post.logs_v() == r.1
    &&& (if r.2 {
        post.chat_response_receiver is None
    } else {
        post.chat_response_receiver is Some
    })
    &&& post.selected_tab == pre.selected_tab
    &&& post.current_screen == pre.current_screen
    &&& post.should_quit == pre.should_quit
    &&& post.status == pre.status
    &&& post.last_refresh == pre.last_refresh
    &&& post.animation_tick == pre.animation_tick
    &&& same_models_area(post, pre)
    &&& same_dialogs(post, pre)
    &&& same_explorer(post, pre)
}

impl App {
    /// One non-blocking drain-and-fold pass: up to [`MAX_EVENTS_PER_DRAIN`]
    /// buffered events fold into the active session, stopping early when
    /// the relay is empty for now, when the turn ends (`done`, or a system
    /// fragment), or when the producer is gone.  Without a turn in flight
    /// this is a no-op.  What arrives is up to the transport task, so the
    /// contract promises the relation to *some* report sequence; the fold
    /// of each report is pinned exactly by [`spec_drain`].
    pub fn process_chat_response(&mut self, now_ms: i64)
        requires
            old(self).wf(),
        ensures
            final(self).wf(),
            old(self).chat_response_receiver is None ==> *final(self) == *old(self),
            old(self).chat_response_receiver is Some ==> exists|polls: Seq<PollV>|
                #[trigger] drain_relates(*old(self), *final(self), polls, now_ms as int),
    {
        let ghost now = now_ms as int;
        let ghost pre = *old(self);
        let ghost s0 = spec_active(pre.chat_state@);
        let ghost logs0 = pre.logs_v();

        let mut rx_opt: Option<tokio::sync::mpsc::Receiver<ChatResponse>> = None;
        core::mem::swap(&mut self.chat_response_receiver, &mut rx_opt);
        let mut rx = match rx_opt {
            Some(r) => r,
            None => {
                return ;
            }
        };

        let i = self.chat_state.active_session_index;
        let ghost polls0: Seq<PollV> = Seq::<PollV>::empty();
        proof {
            assert(pre.chat_state@.sessions.update(pre.chat_state@.active_session_index, s0)
                =~= pre.chat_state@.sessions);
            assert(self.chat_state@ =~= ChatStateV {
                sessions: pre.chat_state@.sessions.update(
                    pre.chat_state@.active_session_index,
                    s0,
                ),
                ..pre.chat_state@
            });
        }
        let ghost mut polls: Seq<PollV> = Seq::<PollV>::empty();
        let mut processed: usize = 0;
        while processed < MAX_EVENTS_PER_DRAIN
            invariant
                processed <= MAX_EVENTS_PER_DRAIN,
                polls.len() == processed,
                now == now_ms as int,
                pre == *old(self),
                pre.chat_response_receiver is Some,
                pre.wf(),
                i == pre.chat_state.active_session_index,
                s0 == spec_active(pre.chat_state@),
                logs0 == pre.logs_v(),
                drains_through(s0, polls, now),
                self.wf(),
                self.chat_state@ == (ChatStateV {
                    sessions: pre.chat_state@.sessions.update(
                        pre.chat_state@.active_session_index,
                        spec_drain(s0, logs0, polls, now).0,
                    ),
                    ..pre.chat_state@
                }),
                self.logs_v() == logs0,
                self.chat_response_receiver is None,
                self.selected_tab == pre.selected_tab,
                self.current_screen == pre.current_screen,
                self.should_quit == pre.should_quit,
                self.status == pre.status,
                self.last_refresh == pre.last_refresh,
                self.animation_tick == pre.animation_tick,
                same_models_area(*self, pre),
                same_dialogs(*self, pre),
                same_explorer(*self, pre),
            decreases MAX_EVENTS_PER_DRAIN - processed,
        {
            let ghost mid = spec_drain(s0, logs0, polls, now).0;
            proof {
                lemma_drain_through_no_stop(s0, logs0, polls, now);
                lemma_drain_session_ignores_logs(
                    s0,
                    logs0,
                    Seq::<LogEntryV>::empty(),
                    polls,
                    now,
                );
                assert(spec_active(self.chat_state@) == mid);
            }
            match relay_try_recv(&mut rx) {
                RecvOutcome::Event(ev) => {
                    let ghost evv = ev@;
                    processed = processed + 1;
                    let ctl = self.chat_state.apply_event_to_active(ev, now_ms);
                    let ghost step = spec_apply_stream_event(mid, evv, now);
                    proof {
                        assert(self.chat_state@.sessions =~= pre.chat_state@.sessions.update(
                            pre.chat_state@.active_session_index,
                            step.0,
                        ));
                        assert(self.chat_state@ =~= ChatStateV {
                            sessions: self.chat_state@.sessions,
                            ..pre.chat_state@
                        });
                        reveal_with_fuel(spec_drain, 3);
                        lemma_drain_extend(s0, logs0, polls, seq![PollV::Event(evv)], now);
                        assert(polls + seq![PollV::Event(evv)] =~= polls.push(
                            PollV::Event(evv),
                        ));
                        assert(seq![PollV::Event(evv)].skip(1) =~= Seq::<PollV>::empty());
                    }
                    match ctl {
                        TurnCtl::Continue => {
                            proof {
                                lemma_drains_through_snoc(s0, polls, evv, now);
                                polls = polls.push(PollV::Event(evv));
                            }
                        }
                        TurnCtl::Errored => {
                            proof {
                                polls = polls.push(PollV::Event(evv));
                                assert(drain_relates(*old(self), *self, polls, now_ms as int));
                            }
                            return ;
                        }
                        TurnCtl::Finished => {
                            self.add_log(LogLevel::Info, "Response completed", now_ms);
                            proof {
                                polls = polls.push(PollV::Event(evv));
                                assert(drain_relates(*old(self), *self, polls, now_ms as int));
                            }
                            return ;
                        }
                    }
                }
                RecvOutcome::Empty => {
                    let mut back: Option<tokio::sync::mpsc::Receiver<ChatResponse>> = Some(rx);
                    core::mem::swap(&mut self.chat_response_receiver, &mut back);
                    proof {
                        reveal_with_fuel(spec_drain, 3);
                        lemma_drain_extend(s0, logs0, polls, seq![PollV::Empty], now);
                        assert(polls + seq![PollV::Empty] =~= polls.push(PollV::Empty));
                        polls = polls.push(PollV::Empty);
                        assert(drain_relates(*old(self), *self, polls, now_ms as int));
                    }
                    return ;
                }
                RecvOutcome::Disconnected => {
                    self.chat_state.halt_active_streaming();
                    proof {
                        assert(self.chat_state@.sessions =~= pre.chat_state@.sessions.update(
                            pre.chat_state@.active_session_index,
                            ChatSessionV { is_streaming: false, ..mid },
                        ));
                        assert(self.chat_state@ =~= ChatStateV {
                            sessions: self.chat_state@.sessions,
                            ..pre.chat_state@
                        });
                    }
                    self.add_log(LogLevel::Error, "Chat stream disconnected", now_ms);
                    proof {
                        reveal_with_fuel(spec_drain, 3);
                        lemma_drain_extend(s0, logs0, polls, seq![PollV::Disconnected], now);
                        assert(polls + seq![PollV::Disconnected] =~= polls.push(
                            PollV::Disconnected,
                        ));
                        polls = polls.push(PollV::Disconnected);
                        assert(drain_relates(*old(self), *self, polls, now_ms as int));
                    }
                    return ;
                }
            }
        }
        let mut back: Option<tokio::sync::mpsc::Receiver<ChatResponse>> = Some(rx);
        core::mem::swap(&mut self.chat_response_receiver, &mut back);
        proof {
            lemma_drain_through_no_stop(s0, logs0, polls, now);
            assert(drain_relates(*old(self), *self, polls, now_ms as int));
        }
    }
}

/// What seeding the chat surface does: with installed models, a fresh chat
/// state over their names and an informational log line; without any, only
/// a warning log line.
pub open spec fn spec_chat_initialized(pre: App, post: App, now: int) -> bool {
    let names = pre.models@.map_values(|m: Model| m.name@);
    if names.len() > 0 {
        &&& post.chat_state@.available_models == names
        &&& post.chat_state@.sessions.len() == 1
        &&& post.chat_state@.sessions[0] == crate::chat::spec_new_session(names[0], now)
        &&& post.chat_state@.active_session_index == 0
        &&& post.chat_state@.input_mode == InputMode::Normal
        &&& !post.chat_state@.show_model_selector
        &&& post.chat_state@.selected_model_index == 0
        &&& post.logs_v() == spec_add_log(pre.logs_v(), LogLevel::Info, "Chat initialized"@, now)
    } else {
        &&& post.chat_state == pre.chat_state
        &&& post.logs_v() == spec_add_log(
            pre.logs_v(),
            LogLevel::Warning,
            "No models available for chat. Pull a model first!"@,
            now,
        )
    }
}

} // verus!
