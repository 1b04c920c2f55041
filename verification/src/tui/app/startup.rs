//! The state that a session starts in.

use std::collections::{BTreeMap, BTreeSet, VecDeque};

use vstd::prelude::*;

use crate::models::{
    compaction_threshold, compaction_threshold_for_model_and_effort, DEFAULT_TEXT_MODEL,
};
use crate::paths::{join_path, path_below};
use crate::text::{char_count, texts};
use crate::tui::app::{
    AgentState, App, ConversationState, Environment, ModelState, OnboardingFlow, PolicyState,
    Preferences, QueueState, SessionState, StatusState, TranscriptState, TurnState,
    YoloRestoreState,
};
use crate::tui::cells::{CycleConfig, PlanState, TodoList};
use crate::tui::composer::{ComposerModel, ComposerState, VimMode};
use crate::tui::paste_burst::{PasteBurst, PasteBurstModel};
use crate::tui::settings::{
    first_onboarding_state, initial_onboarding_state, is_trust_gate,
    onboarding_is_workspace_trust_gate, setting_is, setting_name, ApiProvider, AppMode,
    ApprovalMode, ComposerDensity, Config, CostCurrency, ReasoningEffort, Rgb, Settings,
    SidebarFocus, Startup, TranscriptSpacing, TuiOptions,
};
use crate::tui::tables::NameMap;
use crate::tui::viewport::ViewportState;

verus! {

/// The provider at startup: the settings' choice over the configuration's.
pub open spec fn startup_provider(config: Config, settings: Settings) -> ApiProvider {
    match settings.default_provider {
        Some(name) => match ApiProvider::named(name@) {
            Some(provider) => provider,
            None => config.provider_choice(),
        },
        None => config.provider_choice(),
    }
}

/// The model at startup: the one set for the provider, the one set by default
/// where the provider is DeepSeek, or the one asked for.
pub open spec fn startup_model(asked: Seq<char>, provider: ApiProvider, settings: Settings) -> Seq<char> {
    if settings.provider_models@.contains_key(provider.name()) {
        settings.provider_models@[provider.name()]@
    } else if (provider == ApiProvider::Deepseek || provider == ApiProvider::DeepseekCN)
        && settings.default_model is Some {
        settings.default_model->0@
    } else {
        asked
    }
}

/// The model is chosen for each request.
pub open spec fn is_auto_model(model: Seq<char>) -> bool {
    setting_name(model) == "auto"@
}

/// The mode at startup.
pub open spec fn startup_mode(options: TuiOptions, settings: Settings) -> AppMode {
    if options.yolo {
        AppMode::Yolo
    } else if options.start_in_agent_mode {
        AppMode::Agent
    } else {
        AppMode::named(settings.default_mode@)
    }
}

/// The skills directory at startup: the workspace's own, the user's own where
/// none is configured, or the one asked for.
pub open spec fn startup_skills_dir(options: TuiOptions, config: Config, startup: Startup) -> Seq<char> {
    if startup.agents_skills_dir_exists {
        path_below(path_below(options.workspace@, ".agents"@), "skills"@)
    } else if startup.local_skills_dir_exists {
        path_below(options.workspace@, "skills"@)
    } else if config.skills_dir is None && startup.global_agents_skills_dir is Some {
        startup.global_agents_skills_dir->0@
    } else {
        options.skills_dir@
    }
}

/// The footer's items at startup: those that are configured, or the usual ones.
pub open spec fn startup_status_items(config: Config, startup: Startup) -> Seq<Seq<char>> {
    match config.status_items {
        Some(items) => texts(items@),
        None => texts(startup.default_status_items@),
    }
}

/// The background at startup: the one that the settings ask for, or the
/// theme's.
pub open spec fn startup_background(startup: Startup) -> Rgb {
    match startup.chosen_background {
        Some(color) => color,
        None => startup.theme_background,
    }
}

/// The text that the composer starts with.
pub open spec fn startup_input(initial: Option<String>) -> Seq<char> {
    match initial {
        Some(text) => text@,
        None => Seq::empty(),
    }
}

/// The composer at startup: its text with the cursor behind it, nothing
/// recalled, and the editing mode that the settings ask for.
pub open spec fn startup_composer(options: TuiOptions, startup: Startup) -> ComposerModel {
    ComposerModel {
        input: startup_input(options.initial_input),
        cursor: startup_input(options.initial_input).len() as int,
        kill_buffer: Seq::empty(),
        paste_burst: PasteBurstModel::idle(),
        input_history: texts(startup.input_history@),
        draft_history: Seq::empty(),
        history_index: None,
        navigation_draft: None,
        search: None,
        selected_attachment: None,
        slash_menu_selected: 0,
        slash_menu_hidden: false,
        mention_menu_selected: 0,
        mention_menu_hidden: false,
        vim_enabled: setting_name(startup.settings.composer_vim_mode@) == "vim"@,
        vim_mode: VimMode::Normal,
        vim_pending_d: false,
    }
}

fn start_composer(initial: Option<String>, input_history: Vec<String>, vim_enabled: bool) -> (res:
    ComposerState)
    ensures
        res@ == (ComposerModel {
            input: startup_input(initial),
            cursor: startup_input(initial).len() as int,
            kill_buffer: Seq::empty(),
            paste_burst: PasteBurstModel::idle(),
            input_history: texts(input_history@),
            draft_history: Seq::empty(),
            history_index: None,
            navigation_draft: None,
            search: None,
            selected_attachment: None,
            slash_menu_selected: 0,
            slash_menu_hidden: false,
            mention_menu_selected: 0,
            mention_menu_hidden: false,
            vim_enabled,
            vim_mode: VimMode::Normal,
            vim_pending_d: false,
        }),
{
    let input = match initial {
        Some(text) => text,
        None => String::new(),
    };
    proof { assert(input@ =~= startup_input(initial)); }
    let cursor_position = char_count(input.as_str());
    let res = ComposerState {
        input,
        cursor_position,
        kill_buffer: String::new(),
        paste_burst: PasteBurst::default(),
        input_history,
        draft_history: VecDeque::new(),
        history_index: None,
        history_navigation_draft: None,
        composer_history_search: None,
        selected_attachment_index: None,
        slash_menu_selected: 0,
        slash_menu_hidden: false,
        mention_menu_selected: 0,
        mention_menu_hidden: false,
        vim_enabled,
        vim_mode: VimMode::Normal,
        vim_pending_d: false,
    };
    proof {
        assert(res.kill_buffer@ =~= Seq::empty());
        assert(texts(res.draft_history@) =~= Seq::empty());
    }
    res
}

fn copied_texts(list: &Vec<String>) -> (res: Vec<String>)
    ensures
        texts(res@) == texts(list@),
{
    let mut out: Vec<String> = Vec::new();
    let mut i: usize = 0;
    while i < list.len()
        invariant
            i <= list@.len(),
            out@.len() == i,
            forall|k: int| 0 <= k < i ==> (#[trigger] out@[k])@ == list@[k]@,
        decreases list@.len() - i,
    {
        out.push(list[i].clone());
        i += 1;
    }
    proof { assert(texts(out@) =~= texts(list@)); }
    out
}

impl SessionState {
    /// Nothing is recorded of the last turns.
    pub open spec fn has_no_turns(self) -> bool {
        &&& self.last_prompt_tokens is None
        &&& self.last_completion_tokens is None
        &&& self.last_prompt_cache_hit_tokens is None
        &&& self.last_prompt_cache_miss_tokens is None
        &&& self.last_reasoning_replay_tokens is None
        &&& self.turn_cache_history@.len() == 0
    }
}

impl Default for SessionState {
    fn default() -> (res: Self)
        ensures
            res.total_tokens == 0,
            res.has_no_turns(),
    {
        SessionState {
            total_tokens: 0,
            last_prompt_tokens: None,
            last_completion_tokens: None,
            last_prompt_cache_hit_tokens: None,
            last_prompt_cache_miss_tokens: None,
            last_reasoning_replay_tokens: None,
            turn_cache_history: VecDeque::new(),
        }
    }
}

impl TranscriptState {
    /// There is no transcript yet.
    pub open spec fn is_blank(self) -> bool {
        &&& self.history@.len() == 0
        &&& self.history_version == 0
        &&& self.history_revisions@.len() == 0
        &&& self.next_history_revision == 1
        &&& self.tool_cells@ == Map::<Seq<char>, usize>::empty()
        &&& self.tool_details_by_cell@.dom() == Set::<usize>::empty()
        &&& self.context_references_by_cell@.dom() == Set::<usize>::empty()
        &&& self.session_context_references@.len() == 0
        &&& self.session_artifacts@.len() == 0
        &&& self.active_cell is None
        &&& self.active_cell_revision == 0
        &&& self.active_tool_details@.dom() == Set::<Seq<char>>::empty()
        &&& self.exploring_cell is None
        &&& self.exploring_entries@ == Map::<Seq<char>, usize>::empty()
        &&& self.streaming_message_index is None
        &&& self.streaming_thinking_active_entry is None
        &&& self.subagent_card_index@ == Map::<Seq<char>, usize>::empty()
        &&& self.last_fanout_card_index is None
        &&& self.collapsed_cells@ == Set::<usize>::empty()
        &&& self.collapsed_cell_map@.len() == 0
    }
}

impl Default for TranscriptState {
    fn default() -> (res: Self)
        ensures
            res.is_blank(),
    {
        TranscriptState {
            history: Vec::new(),
            history_version: 0,
            history_revisions: Vec::new(),
            next_history_revision: 1,
            tool_cells: NameMap::new(),
            tool_details_by_cell: BTreeMap::new(),
            context_references_by_cell: BTreeMap::new(),
            session_context_references: Vec::new(),
            session_artifacts: Vec::new(),
            active_cell: None,
            active_cell_revision: 0,
            active_tool_details: NameMap::new(),
            exploring_cell: None,
            exploring_entries: NameMap::new(),
            streaming_message_index: None,
            streaming_thinking_active_entry: None,
            subagent_card_index: NameMap::new(),
            last_fanout_card_index: None,
            collapsed_cells: BTreeSet::new(),
            collapsed_cell_map: Vec::new(),
        }
    }
}

impl StatusState {
    /// Nothing is said.
    pub open spec fn is_silent(self) -> bool {
        &&& self.status_message is None
        &&& self.status_toasts@.len() == 0
        &&& self.sticky_status is None
        &&& self.last_status_message_seen is None
    }
}

impl Default for StatusState {
    fn default() -> (res: Self)
        ensures
            res.is_silent(),
    {
        StatusState {
            status_message: None,
            status_toasts: VecDeque::new(),
            sticky_status: None,
            last_status_message_seen: None,
        }
    }
}

impl QueueState {
    /// Nothing waits.
    pub open spec fn is_blank(self) -> bool {
        &&& self.queued_messages@.len() == 0
        &&& self.queued_draft is None
        &&& self.pending_steers@.len() == 0
        &&& self.rejected_steers@.len() == 0
        &&& !self.submit_pending_steers_after_interrupt
    }
}

impl Default for QueueState {
    fn default() -> (res: Self)
        ensures
            res.is_blank(),
    {
        QueueState {
            queued_messages: VecDeque::new(),
            queued_draft: None,
            pending_steers: VecDeque::new(),
            rejected_steers: VecDeque::new(),
            submit_pending_steers_after_interrupt: false,
        }
    }
}

impl ConversationState {
    /// Nothing was said yet.
    pub open spec fn is_blank(self) -> bool {
        &&& self.api_messages@.len() == 0
        &&& self.system_prompt is None
        &&& self.current_session_id is None
        &&& self.project_doc is None
        &&& self.goal is None
        &&& !self.is_compacting
        &&& self.cycle_count == 0
        &&& self.cycle_briefings@.len() == 0
    }
}

impl Default for ConversationState {
    fn default() -> (res: Self)
        ensures
            res.is_blank(),
    {
        ConversationState {
            api_messages: Vec::new(),
            system_prompt: None,
            current_session_id: None,
            project_doc: None,
            goal: None,
            is_compacting: false,
            cycle_count: 0,
            cycle_briefings: Vec::new(),
        }
    }
}

impl TurnState {
    /// There was no turn yet.
    pub open spec fn is_blank(self) -> bool {
        &&& self.turn_started_at is None
        &&& self.cumulative_turn_ms == 0
        &&& self.runtime_turn_id is None
        &&& self.runtime_turn_status is None
        &&& !self.turn_error_posted
        &&& self.dispatch_started_at is None
        &&& self.thinking_started_at is None
        &&& self.last_send_at is None
        &&& self.reasoning_buffer@.len() == 0
        &&& self.reasoning_header is None
        &&& self.last_reasoning is None
        &&& self.pending_tool_uses@.len() == 0
        &&& self.ignored_tool_calls@ == Map::<Seq<char>, ()>::empty()
        &&& self.last_exec_wait_command is None
        &&& self.tool_log@.len() == 0
        &&& self.active_skill is None
        &&& self.approval_session_approved@ == Map::<Seq<char>, ()>::empty()
        &&& self.approval_session_denied@ == Map::<Seq<char>, ()>::empty()
        &&& !self.bracketed_paste_seen
        &&& !self.edit_in_progress
    }
}

impl Default for TurnState {
    fn default() -> (res: Self)
        ensures
            res.is_blank(),
    {
        TurnState {
            turn_started_at: None,
            cumulative_turn_ms: 0,
            runtime_turn_id: None,
            runtime_turn_status: None,
            turn_error_posted: false,
            dispatch_started_at: None,
            thinking_started_at: None,
            last_send_at: None,
            reasoning_buffer: String::new(),
            reasoning_header: None,
            last_reasoning: None,
            pending_tool_uses: Vec::new(),
            ignored_tool_calls: NameMap::new(),
            last_exec_wait_command: None,
            tool_log: Vec::new(),
            active_skill: None,
            approval_session_approved: NameMap::new(),
            approval_session_denied: NameMap::new(),
            bracketed_paste_seen: false,
            edit_in_progress: false,
        }
    }
}

impl AgentState {
    /// There are no sub-agents and tasks yet.
    pub open spec fn is_blank(self) -> bool {
        &&& self.subagent_cache@.len() == 0
        &&& self.agent_progress@ == Map::<Seq<char>, String>::empty()
        &&& self.pending_subagent_dispatch is None
        &&& self.agent_activity_started_at is None
        &&& self.task_panel@.len() == 0
    }
}

impl Default for AgentState {
    fn default() -> (res: Self)
        ensures
            res.is_blank(),
    {
        AgentState {
            subagent_cache: Vec::new(),
            agent_progress: NameMap::new(),
            pending_subagent_dispatch: None,
            agent_activity_started_at: None,
            task_panel: Vec::new(),
        }
    }
}

impl PolicyState {
    /// The policies of a session that starts in this mode. Without approvals,
    /// the configured policies are kept for the mode's end.
    pub open spec fn starting(mode: AppMode, allow_shell: bool, config: Config) -> PolicyState {
        let yolo = mode == AppMode::Yolo;
        PolicyState {
            mode,
            yolo,
            yolo_restore: if yolo {
                Some(
                    YoloRestoreState {
                        allow_shell: config.permits_shell(),
                        trust_mode: false,
                        approval_mode: config.approval_choice(),
                    },
                )
            } else {
                None
            },
            allow_shell: allow_shell || yolo,
            trust_mode: yolo,
            approval_mode: if yolo {
                ApprovalMode::Auto
            } else {
                config.approval_choice()
            },
            plan_prompt_pending: false,
            plan_tool_used_in_turn: false,
        }
    }

    fn start(mode: AppMode, allow_shell: bool, config: &Config) -> (res: Self)
        ensures
            res == PolicyState::starting(mode, allow_shell, *config),
    {
        let yolo = mode == AppMode::Yolo;
        let configured = config.approval_mode();
        PolicyState {
            mode,
            yolo,
            yolo_restore: if yolo {
                Some(
                    YoloRestoreState {
                        allow_shell: config.allow_shell(),
                        trust_mode: false,
                        approval_mode: configured,
                    },
                )
            } else {
                None
            },
            allow_shell: allow_shell || yolo,
            trust_mode: yolo,
            approval_mode: if yolo {
                ApprovalMode::Auto
            } else {
                configured
            },
            plan_prompt_pending: false,
            plan_tool_used_in_turn: false,
        }
    }
}

impl Preferences {
    /// The preferences as the settings and the configuration have them.
    pub open spec fn follow(self, settings: Settings, config: Config) -> bool {
        &&& self.calm_mode == settings.calm_mode
        &&& self.low_motion == settings.low_motion
        &&& self.fancy_animations == settings.fancy_animations
        &&& self.show_thinking == settings.show_thinking
        &&& !self.verbose_transcript
        &&& self.show_tool_details == settings.show_tool_details
        &&& self.cost_currency == CostCurrency::named(settings.cost_currency@)
        &&& self.composer_density == ComposerDensity::named(settings.composer_density@)
        &&& self.composer_border == settings.composer_border
        &&& self.composer_arrows_scroll == (config.composer_arrows_scroll == Some(true))
        &&& self.transcript_spacing == TranscriptSpacing::named(settings.transcript_spacing@)
        &&& self.sidebar_width_percent == settings.sidebar_width_percent
        &&& self.sidebar_focus == SidebarFocus::named(settings.sidebar_focus@)
        &&& self.context_panel == settings.context_panel
        &&& self.max_input_history == settings.max_input_history
        &&& self.use_paste_burst_detection == settings.paste_burst_detection
    }

    fn start(
        settings: &Settings,
        config: &Config,
        ui_locale: String,
        status_items: Vec<String>,
        background: Rgb,
    ) -> (res: Self)
        ensures
            res.follow(*settings, *config),
            res.ui_locale == ui_locale,
            res.status_items == status_items,
            res.background == background,
    {
        let composer_arrows_scroll = match config.composer_arrows_scroll {
            Some(enabled) => enabled,
            None => false,
        };
        Preferences {
            calm_mode: settings.calm_mode,
            low_motion: settings.low_motion,
            fancy_animations: settings.fancy_animations,
            show_thinking: settings.show_thinking,
            verbose_transcript: false,
            show_tool_details: settings.show_tool_details,
            ui_locale,
            cost_currency: CostCurrency::from_setting(settings.cost_currency.as_str()),
            composer_density: ComposerDensity::from_setting(settings.composer_density.as_str()),
            composer_border: settings.composer_border,
            composer_arrows_scroll,
            transcript_spacing: TranscriptSpacing::from_setting(
                settings.transcript_spacing.as_str(),
            ),
            sidebar_width_percent: settings.sidebar_width_percent,
            sidebar_focus: SidebarFocus::from_setting(settings.sidebar_focus.as_str()),
            context_panel: settings.context_panel,
            max_input_history: settings.max_input_history,
            use_paste_burst_detection: settings.paste_burst_detection,
            status_items,
            background,
        }
    }
}

impl ModelState {
    /// The model and effort that a session starts with.
    pub open spec fn is_starting(self, asked: Seq<char>, config: Config, settings: Settings) -> bool {
        &&& self.api_provider == startup_provider(config, settings)
        &&& self.model@ == startup_model(asked, self.api_provider, settings)
        &&& self.auto_model == is_auto_model(self.model@)
        &&& self.last_effective_model is None
        &&& self.reasoning_effort == (if self.auto_model {
            ReasoningEffort::Auto
        } else {
            config.effort_choice()
        })
        &&& self.last_effective_reasoning_effort is None
        &&& self.auto_compact == settings.auto_compact
        &&& self.compact_threshold == compaction_threshold(
            if self.auto_model {
                DEFAULT_TEXT_MODEL@
            } else {
                self.model@
            },
        )
        &&& self.cycle == (CycleConfig {
            enabled: true,
            threshold_tokens: 768_000,
            briefing_max_tokens: 3_000,
        })
    }

    fn start(asked: String, config: &Config, settings: &Settings) -> (res: Self)
        ensures
            res.is_starting(asked@, *config, *settings),
    {
        let provider = match &settings.default_provider {
            Some(name) => match ApiProvider::parse(name.as_str()) {
                Some(provider) => provider,
                None => config.api_provider(),
            },
            None => config.api_provider(),
        };
        let is_deepseek = match provider {
            ApiProvider::Deepseek => true,
            ApiProvider::DeepseekCN => true,
            _ => false,
        };
        let model = match settings.provider_models.get(provider.as_str()) {
            Some(model) => model.clone(),
            None => match &settings.default_model {
                Some(model) => if is_deepseek {
                    model.clone()
                } else {
                    asked
                },
                None => asked,
            },
        };
        let auto_model = setting_is(model.as_str(), "auto");
        let effort_setting = match &config.reasoning_effort {
            Some(effort) => Some(effort.as_str()),
            None => None,
        };
        let compact_threshold = if auto_model {
            compaction_threshold_for_model_and_effort(DEFAULT_TEXT_MODEL, effort_setting)
        } else {
            compaction_threshold_for_model_and_effort(model.as_str(), effort_setting)
        };
        let reasoning_effort = if auto_model {
            ReasoningEffort::Auto
        } else {
            config.effort()
        };
        ModelState {
            model,
            auto_model,
            last_effective_model: None,
            api_provider: provider,
            reasoning_effort,
            last_effective_reasoning_effort: None,
            auto_compact: settings.auto_compact,
            compact_threshold,
            cycle: CycleConfig::default(),
        }
    }
}

impl OnboardingFlow {
    /// The dialogue as it starts.
    pub open spec fn is_starting(self, skip: bool, startup: Startup, mode: AppMode) -> bool {
        let needs_trust = mode != AppMode::Yolo && startup.needs_workspace_trust;
        &&& self.state == first_onboarding_state(
            skip,
            startup.was_onboarded,
            startup.needs_api_key,
            needs_trust,
        )
        &&& self.workspace_trust_gate == is_trust_gate(
            skip,
            startup.was_onboarded,
            startup.needs_api_key,
            needs_trust,
        )
        &&& self.needs_api_key == startup.needs_api_key
        &&& self.api_key_env_only == startup.api_key_env_only
        &&& self.api_key_input@.len() == 0
        &&& self.api_key_cursor == 0
    }
}

impl Environment {
    /// The surroundings as they were asked for and found.
    pub open spec fn is_starting(self, options: TuiOptions, config: Config, startup: Startup) -> bool {
        &&& self.workspace == options.workspace
        &&& self.config_path == options.config_path
        &&& self.config_profile == options.config_profile
        &&& self.mcp_config_path == options.mcp_config_path
        &&& self.mcp_configured_count == startup.mcp_configured_count
        &&& self.skills_dir@ == startup_skills_dir(options, config, startup)
        &&& self.cached_skills == startup.cached_skills
        &&& self.memory_path == options.memory_path
        &&& self.use_memory == options.use_memory
        &&& self.use_alt_screen == options.use_alt_screen
        &&& self.use_mouse_capture == options.use_mouse_capture
        &&& self.use_bracketed_paste == options.use_bracketed_paste
        &&& self.max_subagents == options.max_subagents
        &&& self.hook_session_id == startup.hook_session_id
        &&& self.lsp_enabled == (config.lsp_enabled != Some(false))
        &&& !self.mcp_restart_required
        &&& self.workspace_context is None
        &&& self.workspace_context_refreshed_at is None
    }
}

impl App {
    /// Nothing has happened in the session yet.
    pub open spec fn is_unused(self) -> bool {
        &&& self.viewport.is_fresh()
        &&& self.session.total_tokens == 0
        &&& self.session.has_no_turns()
        &&& self.transcript.is_blank()
        &&& self.status.is_silent()
        &&& self.queue.is_blank()
        &&& self.conversation.is_blank()
        &&& self.turn.is_blank()
        &&& self.agents.is_blank()
        &&& self.plan_state.is_blank()
        &&& self.todos.items@.len() == 0
        &&& !self.is_loading
        &&& !self.offline_mode
        &&& !self.user_scrolled_during_stream
        &&& self.quit_armed_until is None
        &&& self.needs_redraw
        &&& self.effects@.len() == 0
    }

    /// A session starts.
    pub fn new(options: TuiOptions, config: &Config, startup: Startup) -> (res: Self)
        ensures
            res.is_unused(),
            res.composer@ == startup_composer(options, startup),
            res.policy == PolicyState::starting(
                startup_mode(options, startup.settings),
                options.allow_shell,
                *config,
            ),
            res.model_state.is_starting(options.model@, *config, startup.settings),
            res.onboarding.is_starting(options.skip_onboarding, startup, res.policy.mode),
            res.preferences.follow(startup.settings, *config),
            res.preferences.ui_locale == startup.ui_locale,
            texts(res.preferences.status_items@) == startup_status_items(*config, startup),
            res.preferences.background == startup_background(startup),
            res.environment.is_starting(options, *config, startup),
    {
        let mode = if options.yolo {
            AppMode::Yolo
        } else if options.start_in_agent_mode {
            AppMode::Agent
        } else {
            AppMode::from_setting(startup.settings.default_mode.as_str())
        };
        let needs_trust = mode != AppMode::Yolo && startup.needs_workspace_trust;
        let onboarding = OnboardingFlow {
            state: initial_onboarding_state(
                options.skip_onboarding,
                startup.was_onboarded,
                startup.needs_api_key,
                needs_trust,
            ),
            needs_api_key: startup.needs_api_key,
            workspace_trust_gate: onboarding_is_workspace_trust_gate(
                options.skip_onboarding,
                startup.was_onboarded,
                startup.needs_api_key,
                needs_trust,
            ),
            api_key_env_only: startup.api_key_env_only,
            api_key_input: String::new(),
            api_key_cursor: 0,
        };
        let skills_dir = if startup.agents_skills_dir_exists {
            let agents = join_path(options.workspace.as_str(), ".agents");
            join_path(agents.as_str(), "skills")
        } else if startup.local_skills_dir_exists {
            join_path(options.workspace.as_str(), "skills")
        } else if config.skills_dir.is_none() && startup.global_agents_skills_dir.is_some() {
            startup.global_agents_skills_dir.unwrap()
        } else {
            options.skills_dir
        };
        let status_items = match &config.status_items {
            Some(items) => copied_texts(items),
            None => startup.default_status_items,
        };
        let background = match startup.chosen_background {
            Some(color) => color,
            None => startup.theme_background,
        };
        let vim_enabled = setting_is(startup.settings.composer_vim_mode.as_str(), "vim");
        let lsp_enabled = match config.lsp_enabled {
            Some(enabled) => enabled,
            None => true,
        };
        let environment = Environment {
            workspace: options.workspace,
            config_path: options.config_path,
            config_profile: options.config_profile,
            mcp_config_path: options.mcp_config_path,
            mcp_configured_count: startup.mcp_configured_count,
            skills_dir,
            cached_skills: startup.cached_skills,
            memory_path: options.memory_path,
            use_memory: options.use_memory,
            use_alt_screen: options.use_alt_screen,
            use_mouse_capture: options.use_mouse_capture,
            use_bracketed_paste: options.use_bracketed_paste,
            max_subagents: options.max_subagents,
            hook_session_id: startup.hook_session_id,
            lsp_enabled,
            mcp_restart_required: false,
            workspace_context: None,
            workspace_context_refreshed_at: None,
        };
        App {
            composer: start_composer(options.initial_input, startup.input_history, vim_enabled),
            viewport: ViewportState::default(),
            session: SessionState::default(),
            transcript: TranscriptState::default(),
            status: StatusState::default(),
            policy: PolicyState::start(mode, options.allow_shell, config),
            model_state: ModelState::start(options.model, config, &startup.settings),
            onboarding,
            queue: QueueState::default(),
            conversation: ConversationState::default(),
            turn: TurnState::default(),
            agents: AgentState::default(),
            preferences: Preferences::start(
                &startup.settings,
                config,
                startup.ui_locale,
                status_items,
                background,
            ),
            environment,
            plan_state: PlanState::default(),
            todos: TodoList::new(),
            is_loading: false,
            offline_mode: false,
            user_scrolled_during_stream: false,
            quit_armed_until: None,
            needs_redraw: true,
            effects: Vec::new(),
        }
    }
}

} // verus!
