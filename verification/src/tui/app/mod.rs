//! The application's state and what its events do to it.
//!
//! Work outside this state (hooks, files, the clipboard, the clock) is done
//! around it: its results come in as arguments, and what is asked for goes out
//! as [`Effect`]s. Times are in milliseconds.

pub mod editing;
pub mod history;
pub mod inflight;
pub mod modes;
pub mod pasting;
pub mod searching;
pub mod session;
pub mod session_laws;
pub mod startup;
pub mod statuses;
pub mod submitting;
pub mod transcript_laws;
pub mod transcripts;

use std::collections::{BTreeMap, BTreeSet, VecDeque};

use vstd::prelude::*;

use crate::json::JsonValue;
use crate::models::{Message, SystemPrompt};
use crate::tui::cells::{
    ActiveCell, CycleConfig, HistoryCell, PlanState, QueuedMessage, SessionContextReference,
    TodoList, ToolDetailRecord, TurnCacheRecord,
};
use crate::tui::composer::ComposerState;
use crate::tui::hooks::Effect;
use crate::tui::settings::{
    ApiProvider, AppMode, ApprovalMode, ComposerDensity, CostCurrency, OnboardingState,
    ReasoningEffort, Rgb, SidebarFocus, TranscriptSpacing,
};
use crate::tui::status::StatusToast;
use crate::tui::tables::NameMap;
use crate::tui::viewport::ViewportState;

verus! {

/// Token counts of the session.
#[derive(Debug)]
pub struct SessionState {
    pub total_tokens: u32,
    pub last_prompt_tokens: Option<u32>,
    pub last_completion_tokens: Option<u32>,
    pub last_prompt_cache_hit_tokens: Option<u32>,
    pub last_prompt_cache_miss_tokens: Option<u32>,
    pub last_reasoning_replay_tokens: Option<u32>,
    pub turn_cache_history: VecDeque<TurnCacheRecord>,
}

/// The transcript, the cells in flight, and what is recorded about both.
#[derive(Debug)]
pub struct TranscriptState {
    pub history: Vec<HistoryCell>,
    pub history_version: u64,
    /// One revision for each cell of `history`.
    pub history_revisions: Vec<u64>,
    pub next_history_revision: u64,
    /// The cell of each tool call.
    pub tool_cells: NameMap<usize>,
    pub tool_details_by_cell: BTreeMap<usize, ToolDetailRecord>,
    pub context_references_by_cell: BTreeMap<usize, Vec<SessionContextReference>>,
    pub session_context_references: Vec<SessionContextReference>,
    pub session_artifacts: Vec<String>,
    pub active_cell: Option<ActiveCell>,
    pub active_cell_revision: u64,
    pub active_tool_details: NameMap<ToolDetailRecord>,
    pub exploring_cell: Option<usize>,
    pub exploring_entries: NameMap<usize>,
    pub streaming_message_index: Option<usize>,
    pub streaming_thinking_active_entry: Option<usize>,
    pub subagent_card_index: NameMap<usize>,
    pub last_fanout_card_index: Option<usize>,
    pub collapsed_cells: BTreeSet<usize>,
    pub collapsed_cell_map: Vec<usize>,
}

/// What is said in the status line.
#[derive(Debug)]
pub struct StatusState {
    pub status_message: Option<String>,
    pub status_toasts: VecDeque<StatusToast>,
    pub sticky_status: Option<StatusToast>,
    pub last_status_message_seen: Option<String>,
}

/// The policies to return to when the mode without approvals ends.
#[derive(Debug, Clone, Copy, PartialEq, Eq, Structural)]
pub struct YoloRestoreState {
    pub allow_shell: bool,
    pub trust_mode: bool,
    pub approval_mode: ApprovalMode,
}

/// What the application may do on its own.
#[derive(Debug, Clone, Copy, PartialEq, Eq, Structural)]
pub struct PolicyState {
    pub mode: AppMode,
    pub yolo: bool,
    pub yolo_restore: Option<YoloRestoreState>,
    pub allow_shell: bool,
    pub trust_mode: bool,
    pub approval_mode: ApprovalMode,
    pub plan_prompt_pending: bool,
    pub plan_tool_used_in_turn: bool,
}

/// Which model is asked, and how.
#[derive(Debug)]
pub struct ModelState {
    pub model: String,
    pub auto_model: bool,
    pub last_effective_model: Option<String>,
    pub api_provider: ApiProvider,
    pub reasoning_effort: ReasoningEffort,
    pub last_effective_reasoning_effort: Option<ReasoningEffort>,
    pub auto_compact: bool,
    pub compact_threshold: usize,
    pub cycle: CycleConfig,
}

/// The first-run dialogue.
#[derive(Debug)]
pub struct OnboardingFlow {
    pub state: OnboardingState,
    pub needs_api_key: bool,
    pub workspace_trust_gate: bool,
    pub api_key_env_only: bool,
    pub api_key_input: String,
    pub api_key_cursor: usize,
}

/// Messages that wait for the turn in flight.
#[derive(Debug)]
pub struct QueueState {
    pub queued_messages: VecDeque<QueuedMessage>,
    pub queued_draft: Option<QueuedMessage>,
    pub pending_steers: VecDeque<QueuedMessage>,
    pub rejected_steers: VecDeque<String>,
    pub submit_pending_steers_after_interrupt: bool,
}

/// The conversation with the model.
#[derive(Debug)]
pub struct ConversationState {
    pub api_messages: Vec<Message>,
    pub system_prompt: Option<SystemPrompt>,
    pub current_session_id: Option<String>,
    pub project_doc: Option<String>,
    /// What the session works towards.
    pub goal: Option<String>,
    pub is_compacting: bool,
    pub cycle_count: u32,
    pub cycle_briefings: Vec<String>,
}

/// The turn in flight. Times are in milliseconds.
#[derive(Debug)]
pub struct TurnState {
    pub turn_started_at: Option<u64>,
    pub cumulative_turn_ms: u64,
    pub runtime_turn_id: Option<String>,
    pub runtime_turn_status: Option<String>,
    pub turn_error_posted: bool,
    pub dispatch_started_at: Option<u64>,
    pub thinking_started_at: Option<u64>,
    pub last_send_at: Option<u64>,
    pub reasoning_buffer: String,
    pub reasoning_header: Option<String>,
    pub last_reasoning: Option<String>,
    /// Tool calls that wait: their identifier, name and input.
    pub pending_tool_uses: Vec<(String, String, JsonValue)>,
    pub ignored_tool_calls: NameMap<()>,
    pub last_exec_wait_command: Option<String>,
    pub tool_log: Vec<String>,
    pub active_skill: Option<String>,
    pub approval_session_approved: NameMap<()>,
    pub approval_session_denied: NameMap<()>,
    pub bracketed_paste_seen: bool,
    pub edit_in_progress: bool,
}

/// Sub-agents and tasks.
#[derive(Debug)]
pub struct AgentState {
    pub subagent_cache: Vec<String>,
    pub agent_progress: NameMap<String>,
    pub pending_subagent_dispatch: Option<String>,
    pub agent_activity_started_at: Option<u64>,
    pub task_panel: Vec<String>,
}

/// How the interface looks and behaves.
#[derive(Debug)]
pub struct Preferences {
    pub calm_mode: bool,
    pub low_motion: bool,
    pub fancy_animations: bool,
    pub show_thinking: bool,
    pub verbose_transcript: bool,
    pub show_tool_details: bool,
    pub ui_locale: String,
    pub cost_currency: CostCurrency,
    pub composer_density: ComposerDensity,
    pub composer_border: bool,
    pub composer_arrows_scroll: bool,
    pub transcript_spacing: TranscriptSpacing,
    pub sidebar_width_percent: u16,
    pub sidebar_focus: SidebarFocus,
    pub context_panel: bool,
    pub max_input_history: usize,
    pub use_paste_burst_detection: bool,
    /// The items of the footer, by name.
    pub status_items: Vec<String>,
    pub background: Rgb,
}

/// Where and with what the application runs.
#[derive(Debug)]
pub struct Environment {
    pub workspace: String,
    pub config_path: Option<String>,
    pub config_profile: Option<String>,
    pub mcp_config_path: String,
    pub mcp_configured_count: usize,
    pub skills_dir: String,
    pub cached_skills: Vec<(String, String)>,
    pub memory_path: String,
    pub use_memory: bool,
    pub use_alt_screen: bool,
    pub use_mouse_capture: bool,
    pub use_bracketed_paste: bool,
    pub max_subagents: usize,
    pub hook_session_id: String,
    pub lsp_enabled: bool,
    pub mcp_restart_required: bool,
    pub workspace_context: Option<String>,
    pub workspace_context_refreshed_at: Option<u64>,
}

/// The application's state.
#[derive(Debug)]
pub struct App {
    pub composer: ComposerState,
    pub viewport: ViewportState,
    pub session: SessionState,
    pub transcript: TranscriptState,
    pub status: StatusState,
    pub policy: PolicyState,
    pub model_state: ModelState,
    pub onboarding: OnboardingFlow,
    pub queue: QueueState,
    pub conversation: ConversationState,
    pub turn: TurnState,
    pub agents: AgentState,
    pub preferences: Preferences,
    pub environment: Environment,
    pub plan_state: PlanState,
    pub todos: TodoList,
    pub is_loading: bool,
    pub offline_mode: bool,
    pub user_scrolled_during_stream: bool,
    pub quit_armed_until: Option<u64>,
    pub needs_redraw: bool,
    /// Work asked for that is not done yet.
    pub effects: Vec<Effect>,
}

} // verus!
