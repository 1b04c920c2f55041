//! Modes, preferences and configuration of the user interface.

use vstd::prelude::*;

use crate::text::{ascii_lowercase, same_text, to_ascii_lowercase, trim, trimmed};
use crate::tui::tables::NameMap;

verus! {

/// How a setting's value is read: without surrounding blanks, in lower case.
pub open spec fn setting_name(value: Seq<char>) -> Seq<char> {
    ascii_lowercase(trimmed(value))
}

fn read_setting(value: &str) -> (res: String)
    ensures
        res@ == setting_name(value@),
{
    to_ascii_lowercase(trim(value).as_str())
}

fn is_setting(value: &String, name: &str) -> (res: bool)
    ensures
        res == (value@ == name@),
{
    same_text(value.as_str(), name)
}

/// Whether a setting's value names `name`.
pub fn setting_is(value: &str, name: &str) -> (res: bool)
    ensures
        res == (setting_name(value@) == name@),
{
    is_setting(&read_setting(value), name)
}

// ---------------------------------------------------------------------------
// Modes
// ---------------------------------------------------------------------------

/// What the application may do on its own.
#[derive(Debug, Clone, Copy, PartialEq, Eq, Structural)]
pub enum AppMode {
    Agent,
    Yolo,
    Plan,
}

impl AppMode {
    /// The name shown for a mode.
    pub open spec fn name(self) -> Seq<char> {
        match self {
            AppMode::Agent => "AGENT"@,
            AppMode::Yolo => "YOLO"@,
            AppMode::Plan => "PLAN"@,
        }
    }

    /// The name shown for a mode.
    pub fn label(self) -> (res: &'static str)
        ensures
            res@ == self.name(),
    {
        match self {
            AppMode::Agent => "AGENT",
            AppMode::Yolo => "YOLO",
            AppMode::Plan => "PLAN",
        }
    }

    /// The mode a setting names.
    pub open spec fn named(value: Seq<char>) -> AppMode {
        if setting_name(value) == "plan"@ {
            AppMode::Plan
        } else if setting_name(value) == "yolo"@ {
            AppMode::Yolo
        } else {
            AppMode::Agent
        }
    }

    /// The mode a setting names.
    pub fn from_setting(value: &str) -> (res: AppMode)
        ensures
            res == AppMode::named(value@),
    {
        if setting_is(value, "plan") {
            AppMode::Plan
        } else if setting_is(value, "yolo") {
            AppMode::Yolo
        } else {
            AppMode::Agent
        }
    }

    /// The mode behind this one: Plan, Agent, Yolo, and round again.
    pub open spec fn next(self) -> AppMode {
        match self {
            AppMode::Plan => AppMode::Agent,
            AppMode::Agent => AppMode::Yolo,
            AppMode::Yolo => AppMode::Plan,
        }
    }

    /// The mode before this one.
    pub open spec fn previous(self) -> AppMode {
        match self {
            AppMode::Agent => AppMode::Plan,
            AppMode::Yolo => AppMode::Agent,
            AppMode::Plan => AppMode::Yolo,
        }
    }
}

/// Cycling forward and backward undo each other, and three steps come round.
pub proof fn mode_cycle_is_a_ring(mode: AppMode)
    ensures
        mode.next().previous() == mode,
        mode.previous().next() == mode,
        mode.next().next().next() == mode,
        mode.next() != mode,
{
}

/// How tool calls are approved.
#[derive(Debug, Clone, Copy, PartialEq, Eq, Structural)]
pub enum ApprovalMode {
    Auto,
    Suggest,
    Never,
}

impl ApprovalMode {
    /// The policy a configuration names, where it names one.
    pub open spec fn named(value: Seq<char>) -> Option<ApprovalMode> {
        if setting_name(value) == "auto"@ {
            Some(ApprovalMode::Auto)
        } else if setting_name(value) == "suggest"@ {
            Some(ApprovalMode::Suggest)
        } else if setting_name(value) == "never"@ {
            Some(ApprovalMode::Never)
        } else {
            None
        }
    }

    /// The policy a configuration names, where it names one.
    pub fn from_config_value(value: &str) -> (res: Option<ApprovalMode>)
        ensures
            res == ApprovalMode::named(value@),
    {
        if setting_is(value, "auto") {
            Some(ApprovalMode::Auto)
        } else if setting_is(value, "suggest") {
            Some(ApprovalMode::Suggest)
        } else if setting_is(value, "never") {
            Some(ApprovalMode::Never)
        } else {
            None
        }
    }
}

/// How hard the model is asked to think.
#[derive(Debug, Clone, Copy, PartialEq, Eq, Structural)]
pub enum ReasoningEffort {
    Off,
    Low,
    Medium,
    High,
    Auto,
    Max,
}

impl ReasoningEffort {
    /// The effort behind this one, among the three that behave differently:
    /// off, high, maximal, and round again.
    pub open spec fn next(self) -> ReasoningEffort {
        match self {
            ReasoningEffort::Off => ReasoningEffort::High,
            ReasoningEffort::Low => ReasoningEffort::Max,
            ReasoningEffort::Medium => ReasoningEffort::Max,
            ReasoningEffort::High => ReasoningEffort::Max,
            ReasoningEffort::Auto => ReasoningEffort::Off,
            ReasoningEffort::Max => ReasoningEffort::Off,
        }
    }

    /// The effort behind this one.
    pub fn cycle_next(self) -> (res: ReasoningEffort)
        ensures
            res == self.next(),
    {
        match self {
            ReasoningEffort::Off => ReasoningEffort::High,
            ReasoningEffort::Low => ReasoningEffort::Max,
            ReasoningEffort::Medium => ReasoningEffort::Max,
            ReasoningEffort::High => ReasoningEffort::Max,
            ReasoningEffort::Auto => ReasoningEffort::Off,
            ReasoningEffort::Max => ReasoningEffort::Off,
        }
    }

    /// The short name of an effort.
    pub open spec fn name(self) -> Seq<char> {
        match self {
            ReasoningEffort::Off => "off"@,
            ReasoningEffort::Low => "low"@,
            ReasoningEffort::Medium => "medium"@,
            ReasoningEffort::High => "high"@,
            ReasoningEffort::Auto => "auto"@,
            ReasoningEffort::Max => "max"@,
        }
    }

    /// The short name of an effort.
    pub fn short_label(self) -> (res: &'static str)
        ensures
            res@ == self.name(),
    {
        match self {
            ReasoningEffort::Off => "off",
            ReasoningEffort::Low => "low",
            ReasoningEffort::Medium => "medium",
            ReasoningEffort::High => "high",
            ReasoningEffort::Auto => "auto",
            ReasoningEffort::Max => "max",
        }
    }

    /// What is sent for an effort; automatic effort sends nothing.
    pub fn api_value(self) -> (res: Option<&'static str>)
        ensures
            match res {
                Some(value) => self != ReasoningEffort::Auto && value@ == self.name(),
                None => self == ReasoningEffort::Auto,
            },
    {
        match self {
            ReasoningEffort::Auto => None,
            _ => Some(self.short_label()),
        }
    }

    /// The effort a setting names; the maximal one where it names none.
    pub open spec fn named(value: Seq<char>) -> ReasoningEffort {
        if setting_name(value) == "off"@ {
            ReasoningEffort::Off
        } else if setting_name(value) == "low"@ {
            ReasoningEffort::Low
        } else if setting_name(value) == "medium"@ {
            ReasoningEffort::Medium
        } else if setting_name(value) == "high"@ {
            ReasoningEffort::High
        } else if setting_name(value) == "auto"@ {
            ReasoningEffort::Auto
        } else {
            ReasoningEffort::Max
        }
    }

    /// The effort a setting names.
    pub fn from_setting(value: &str) -> (res: ReasoningEffort)
        ensures
            res == ReasoningEffort::named(value@),
    {
        if setting_is(value, "off") {
            ReasoningEffort::Off
        } else if setting_is(value, "low") {
            ReasoningEffort::Low
        } else if setting_is(value, "medium") {
            ReasoningEffort::Medium
        } else if setting_is(value, "high") {
            ReasoningEffort::High
        } else if setting_is(value, "auto") {
            ReasoningEffort::Auto
        } else {
            ReasoningEffort::Max
        }
    }
}

/// Cycling leads to off, high or maximal effort, and among these three steps
/// come round.
pub proof fn effort_cycle_comes_round(effort: ReasoningEffort)
    ensures
        ({
            let e = effort.next();
            &&& e == ReasoningEffort::Off || e == ReasoningEffort::High || e == ReasoningEffort::Max
            &&& e.next().next().next() == e
        }),
{
}

/// Who serves the model.
#[derive(Debug, Clone, Copy, PartialEq, Eq, Structural)]
pub enum ApiProvider {
    Deepseek,
    DeepseekCN,
    NvidiaNim,
    OpenAi,
    OpenRouter,
    Novita,
}

impl ApiProvider {
    /// The name of a provider.
    pub open spec fn name(self) -> Seq<char> {
        match self {
            ApiProvider::Deepseek => "deepseek"@,
            ApiProvider::DeepseekCN => "deepseek-cn"@,
            ApiProvider::NvidiaNim => "nvidia-nim"@,
            ApiProvider::OpenAi => "openai"@,
            ApiProvider::OpenRouter => "openrouter"@,
            ApiProvider::Novita => "novita"@,
        }
    }

    /// The name of a provider.
    pub fn as_str(self) -> (res: &'static str)
        ensures
            res@ == self.name(),
    {
        match self {
            ApiProvider::Deepseek => "deepseek",
            ApiProvider::DeepseekCN => "deepseek-cn",
            ApiProvider::NvidiaNim => "nvidia-nim",
            ApiProvider::OpenAi => "openai",
            ApiProvider::OpenRouter => "openrouter",
            ApiProvider::Novita => "novita",
        }
    }

    /// The provider that a setting names, where it names one.
    pub open spec fn named(value: Seq<char>) -> Option<ApiProvider> {
        if setting_name(value) == ApiProvider::Deepseek.name() {
            Some(ApiProvider::Deepseek)
        } else if setting_name(value) == ApiProvider::DeepseekCN.name() {
            Some(ApiProvider::DeepseekCN)
        } else if setting_name(value) == ApiProvider::NvidiaNim.name() {
            Some(ApiProvider::NvidiaNim)
        } else if setting_name(value) == ApiProvider::OpenAi.name() {
            Some(ApiProvider::OpenAi)
        } else if setting_name(value) == ApiProvider::OpenRouter.name() {
            Some(ApiProvider::OpenRouter)
        } else if setting_name(value) == ApiProvider::Novita.name() {
            Some(ApiProvider::Novita)
        } else {
            None
        }
    }

    /// The provider that a setting names, where it names one.
    pub fn parse(value: &str) -> (res: Option<ApiProvider>)
        ensures
            res == ApiProvider::named(value@),
    {
        if setting_is(value, "deepseek") {
            Some(ApiProvider::Deepseek)
        } else if setting_is(value, "deepseek-cn") {
            Some(ApiProvider::DeepseekCN)
        } else if setting_is(value, "nvidia-nim") {
            Some(ApiProvider::NvidiaNim)
        } else if setting_is(value, "openai") {
            Some(ApiProvider::OpenAi)
        } else if setting_is(value, "openrouter") {
            Some(ApiProvider::OpenRouter)
        } else if setting_is(value, "novita") {
            Some(ApiProvider::Novita)
        } else {
            None
        }
    }
}

/// The currency that costs are shown in.
#[derive(Debug, Clone, Copy, PartialEq, Eq, Structural)]
pub enum CostCurrency {
    Usd,
    Cny,
}

impl CostCurrency {
    /// The currency a setting names; dollars where it names none.
    pub open spec fn named(value: Seq<char>) -> CostCurrency {
        if setting_name(value) == "cny"@ {
            CostCurrency::Cny
        } else {
            CostCurrency::Usd
        }
    }

    /// The currency a setting names.
    pub fn from_setting(value: &str) -> (res: CostCurrency)
        ensures
            res == CostCurrency::named(value@),
    {
        if setting_is(value, "cny") {
            CostCurrency::Cny
        } else {
            CostCurrency::Usd
        }
    }
}

/// How much room the composer takes.
#[derive(Debug, Clone, Copy, PartialEq, Eq, Structural)]
pub enum ComposerDensity {
    Compact,
    Comfortable,
    Spacious,
}

impl ComposerDensity {
    /// The density a setting names; comfortable where it names none.
    pub open spec fn named(value: Seq<char>) -> ComposerDensity {
        if setting_name(value) == "compact"@ {
            ComposerDensity::Compact
        } else if setting_name(value) == "spacious"@ {
            ComposerDensity::Spacious
        } else {
            ComposerDensity::Comfortable
        }
    }

    /// The density a setting names.
    pub fn from_setting(value: &str) -> (res: ComposerDensity)
        ensures
            res == ComposerDensity::named(value@),
    {
        if setting_is(value, "compact") {
            ComposerDensity::Compact
        } else if setting_is(value, "spacious") {
            ComposerDensity::Spacious
        } else {
            ComposerDensity::Comfortable
        }
    }
}

/// How much room stands between transcript cells.
#[derive(Debug, Clone, Copy, PartialEq, Eq, Structural)]
pub enum TranscriptSpacing {
    Compact,
    Comfortable,
    Spacious,
}

impl TranscriptSpacing {
    /// The spacing a setting names; comfortable where it names none.
    pub open spec fn named(value: Seq<char>) -> TranscriptSpacing {
        if setting_name(value) == "compact"@ {
            TranscriptSpacing::Compact
        } else if setting_name(value) == "spacious"@ {
            TranscriptSpacing::Spacious
        } else {
            TranscriptSpacing::Comfortable
        }
    }

    /// The spacing a setting names.
    pub fn from_setting(value: &str) -> (res: TranscriptSpacing)
        ensures
            res == TranscriptSpacing::named(value@),
    {
        if setting_is(value, "compact") {
            TranscriptSpacing::Compact
        } else if setting_is(value, "spacious") {
            TranscriptSpacing::Spacious
        } else {
            TranscriptSpacing::Comfortable
        }
    }
}

/// What the sidebar shows.
#[derive(Debug, Clone, Copy, PartialEq, Eq, Structural)]
pub enum SidebarFocus {
    Auto,
    Plan,
    Todos,
    Tasks,
    Agents,
    Context,
}

impl SidebarFocus {
    /// The focus a setting names; automatic where it names none.
    pub open spec fn named(value: Seq<char>) -> SidebarFocus {
        if setting_name(value) == "plan"@ {
            SidebarFocus::Plan
        } else if setting_name(value) == "todos"@ {
            SidebarFocus::Todos
        } else if setting_name(value) == "tasks"@ {
            SidebarFocus::Tasks
        } else if setting_name(value) == "agents"@ {
            SidebarFocus::Agents
        } else if setting_name(value) == "context"@ {
            SidebarFocus::Context
        } else {
            SidebarFocus::Auto
        }
    }

    /// The focus a setting names.
    pub fn from_setting(value: &str) -> (res: SidebarFocus)
        ensures
            res == SidebarFocus::named(value@),
    {
        if setting_is(value, "plan") {
            SidebarFocus::Plan
        } else if setting_is(value, "todos") {
            SidebarFocus::Todos
        } else if setting_is(value, "tasks") {
            SidebarFocus::Tasks
        } else if setting_is(value, "agents") {
            SidebarFocus::Agents
        } else if setting_is(value, "context") {
            SidebarFocus::Context
        } else {
            SidebarFocus::Auto
        }
    }
}

/// How a submitted input is routed.
#[derive(Debug, Clone, Copy, PartialEq, Eq, Structural)]
pub enum SubmitDisposition {
    Immediate,
    Queue,
    Steer,
    QueueFollowUp,
}

// ---------------------------------------------------------------------------
// Onboarding
// ---------------------------------------------------------------------------

/// Where the first-run dialogue stands.
#[derive(Debug, Clone, Copy, PartialEq, Eq, Structural)]
pub enum OnboardingState {
    Welcome,
    Language,
    ApiKey,
    TrustDirectory,
    Tips,
    /// There is no dialogue.
    Finished,
}

/// A user who is through with the dialogue is asked only whether to trust the
/// workspace.
pub open spec fn is_trust_gate(skip: bool, was_onboarded: bool, needs_key: bool, needs_trust: bool) -> bool {
    !skip && was_onboarded && !needs_key && needs_trust
}

/// Where the dialogue starts.
pub open spec fn first_onboarding_state(
    skip: bool,
    was_onboarded: bool,
    needs_key: bool,
    needs_trust: bool,
) -> OnboardingState {
    if skip {
        OnboardingState::Finished
    } else if !was_onboarded || needs_key {
        OnboardingState::Welcome
    } else if needs_trust {
        OnboardingState::TrustDirectory
    } else {
        OnboardingState::Finished
    }
}

/// Where the dialogue starts.
pub fn initial_onboarding_state(
    skip_onboarding: bool,
    was_onboarded: bool,
    needs_api_key: bool,
    needs_workspace_trust: bool,
) -> (res: OnboardingState)
    ensures
        res == first_onboarding_state(
            skip_onboarding,
            was_onboarded,
            needs_api_key,
            needs_workspace_trust,
        ),
        is_trust_gate(skip_onboarding, was_onboarded, needs_api_key, needs_workspace_trust) == (res
            == OnboardingState::TrustDirectory),
{
    if skip_onboarding {
        OnboardingState::Finished
    } else if !was_onboarded || needs_api_key {
        OnboardingState::Welcome
    } else if needs_workspace_trust {
        OnboardingState::TrustDirectory
    } else {
        OnboardingState::Finished
    }
}

/// Whether the dialogue asks only for trust in the workspace.
pub fn onboarding_is_workspace_trust_gate(
    skip_onboarding: bool,
    was_onboarded: bool,
    needs_api_key: bool,
    needs_workspace_trust: bool,
) -> (res: bool)
    ensures
        res == is_trust_gate(skip_onboarding, was_onboarded, needs_api_key, needs_workspace_trust),
{
    !skip_onboarding && was_onboarded && !needs_api_key && needs_workspace_trust
}

// ---------------------------------------------------------------------------
// Configuration
// ---------------------------------------------------------------------------

/// The configuration file, as far as the interface reads it.
#[derive(Debug)]
pub struct Config {
    pub provider: Option<String>,
    pub reasoning_effort: Option<String>,
    pub allow_shell: Option<bool>,
    pub approval_policy: Option<String>,
    pub skills_dir: Option<String>,
    pub lsp_enabled: Option<bool>,
    pub composer_arrows_scroll: Option<bool>,
    /// The items of the footer, by name.
    pub status_items: Option<Vec<String>>,
}

impl Default for Config {
    fn default() -> (res: Self)
        ensures
            res == (Config {
                provider: None,
                reasoning_effort: None,
                allow_shell: None,
                approval_policy: None,
                skills_dir: None,
                lsp_enabled: None,
                composer_arrows_scroll: None,
                status_items: None,
            }),
    {
        Config {
            provider: None,
            reasoning_effort: None,
            allow_shell: None,
            approval_policy: None,
            skills_dir: None,
            lsp_enabled: None,
            composer_arrows_scroll: None,
            status_items: None,
        }
    }
}

impl Config {
    /// The provider that is configured.
    pub open spec fn provider_choice(self) -> ApiProvider {
        match self.provider {
            Some(name) => match ApiProvider::named(name@) {
                Some(p) => p,
                None => ApiProvider::Deepseek,
            },
            None => ApiProvider::Deepseek,
        }
    }

    /// The provider that is configured.
    pub fn api_provider(&self) -> (res: ApiProvider)
        ensures
            res == self.provider_choice(),
    {
        match &self.provider {
            Some(name) => match ApiProvider::parse(name.as_str()) {
                Some(p) => p,
                None => ApiProvider::Deepseek,
            },
            None => ApiProvider::Deepseek,
        }
    }

    /// Shell commands are allowed by the configuration.
    pub open spec fn permits_shell(self) -> bool {
        self.allow_shell == Some(true)
    }

    /// Whether shell commands are allowed by the configuration.
    pub fn allow_shell(&self) -> (res: bool)
        ensures
            res == self.permits_shell(),
    {
        match self.allow_shell {
            Some(allowed) => allowed,
            None => false,
        }
    }

    /// The approval policy that is configured; suggestions where there is none.
    pub open spec fn approval_choice(self) -> ApprovalMode {
        match self.approval_policy {
            Some(policy) => match ApprovalMode::named(policy@) {
                Some(mode) => mode,
                None => ApprovalMode::Suggest,
            },
            None => ApprovalMode::Suggest,
        }
    }

    /// The approval policy that is configured.
    pub fn approval_mode(&self) -> (res: ApprovalMode)
        ensures
            res == self.approval_choice(),
    {
        match &self.approval_policy {
            Some(policy) => match ApprovalMode::from_config_value(policy.as_str()) {
                Some(mode) => mode,
                None => ApprovalMode::Suggest,
            },
            None => ApprovalMode::Suggest,
        }
    }

    /// The effort that is configured; the maximal one where there is none.
    pub open spec fn effort_choice(self) -> ReasoningEffort {
        match self.reasoning_effort {
            Some(effort) => ReasoningEffort::named(effort@),
            None => ReasoningEffort::Max,
        }
    }

    /// The effort that is configured.
    pub fn effort(&self) -> (res: ReasoningEffort)
        ensures
            res == self.effort_choice(),
    {
        match &self.reasoning_effort {
            Some(effort) => ReasoningEffort::from_setting(effort.as_str()),
            None => ReasoningEffort::Max,
        }
    }
}

/// The user's settings, as far as the interface reads them.
#[derive(Debug)]
pub struct Settings {
    pub default_provider: Option<String>,
    pub default_model: Option<String>,
    pub provider_models: NameMap<String>,
    pub default_mode: String,
    pub auto_compact: bool,
    pub calm_mode: bool,
    pub low_motion: bool,
    pub fancy_animations: bool,
    pub show_thinking: bool,
    pub show_tool_details: bool,
    pub locale: String,
    pub cost_currency: String,
    pub composer_density: String,
    pub composer_border: bool,
    pub composer_vim_mode: String,
    pub transcript_spacing: String,
    pub sidebar_width_percent: u16,
    pub sidebar_focus: String,
    pub context_panel: bool,
    pub max_input_history: usize,
    pub paste_burst_detection: bool,
    pub background_color: Option<String>,
}

impl Default for Settings {
    fn default() -> (res: Self)
        ensures
            res.default_provider is None,
            res.default_model is None,
            res.provider_models@ == Map::<Seq<char>, String>::empty(),
            res.default_mode@ == "agent"@,
            !res.auto_compact,
            !res.calm_mode,
            !res.low_motion,
            !res.fancy_animations,
            res.show_thinking,
            res.show_tool_details,
            res.locale@ == "auto"@,
            res.cost_currency@ == "usd"@,
            res.composer_density@ == "comfortable"@,
            res.composer_border,
            res.composer_vim_mode@ == "normal"@,
            res.transcript_spacing@ == "comfortable"@,
            res.sidebar_width_percent == 28,
            res.sidebar_focus@ == "auto"@,
            !res.context_panel,
            res.max_input_history == 100,
            res.paste_burst_detection,
            res.background_color is None,
    {
        Settings {
            default_provider: None,
            default_model: None,
            provider_models: NameMap::new(),
            default_mode: "agent".to_owned(),
            auto_compact: false,
            calm_mode: false,
            low_motion: false,
            fancy_animations: false,
            show_thinking: true,
            show_tool_details: true,
            locale: "auto".to_owned(),
            cost_currency: "usd".to_owned(),
            composer_density: "comfortable".to_owned(),
            composer_border: true,
            composer_vim_mode: "normal".to_owned(),
            transcript_spacing: "comfortable".to_owned(),
            sidebar_width_percent: 28,
            sidebar_focus: "auto".to_owned(),
            context_panel: false,
            max_input_history: 100,
            paste_burst_detection: true,
            background_color: None,
        }
    }
}

/// Command-line options.
#[derive(Debug)]
pub struct TuiOptions {
    pub model: String,
    pub workspace: String,
    pub config_path: Option<String>,
    pub config_profile: Option<String>,
    pub allow_shell: bool,
    pub use_alt_screen: bool,
    pub use_mouse_capture: bool,
    pub use_bracketed_paste: bool,
    pub max_subagents: usize,
    pub skills_dir: String,
    pub memory_path: String,
    pub notes_path: String,
    pub mcp_config_path: String,
    pub use_memory: bool,
    pub start_in_agent_mode: bool,
    pub skip_onboarding: bool,
    pub yolo: bool,
    pub resume_session_id: Option<String>,
    pub initial_input: Option<String>,
}

/// A colour.
#[derive(Debug, Clone, Copy, PartialEq, Eq, Structural)]
pub struct Rgb {
    pub red: u8,
    pub green: u8,
    pub blue: u8,
}

/// What was found on the machine at startup.
#[derive(Debug)]
pub struct Startup {
    pub settings: Settings,
    pub ui_locale: String,
    pub needs_api_key: bool,
    pub api_key_env_only: bool,
    pub was_onboarded: bool,
    pub needs_workspace_trust: bool,
    pub agents_skills_dir_exists: bool,
    pub local_skills_dir_exists: bool,
    /// The user's own skills directory, where it exists.
    pub global_agents_skills_dir: Option<String>,
    pub cached_skills: Vec<(String, String)>,
    pub input_history: Vec<String>,
    pub mcp_configured_count: usize,
    pub hook_session_id: String,
    /// The footer's items where none are configured.
    pub default_status_items: Vec<String>,
    /// The background of the theme that suits the terminal.
    pub theme_background: Rgb,
    /// The background that the settings ask for, where it is a colour.
    pub chosen_background: Option<Rgb>,
}

impl Default for Startup {
    fn default() -> (res: Self)
        ensures
            res.settings.default_provider is None,
            res.settings.default_model is None,
            res.settings.provider_models@ == Map::<Seq<char>, String>::empty(),
            res.settings.default_mode@ == "agent"@,
            res.ui_locale@ == "en"@,
            !res.needs_api_key,
            !res.api_key_env_only,
            res.was_onboarded,
            !res.needs_workspace_trust,
            !res.agents_skills_dir_exists,
            !res.local_skills_dir_exists,
            res.global_agents_skills_dir is None,
            res.cached_skills@.len() == 0,
            res.input_history@.len() == 0,
            res.mcp_configured_count == 0,
            res.hook_session_id@.len() == 0,
            res.default_status_items@.len() == 0,
            res.theme_background == (Rgb { red: 0, green: 0, blue: 0 }),
            res.chosen_background is None,
    {
        Startup {
            settings: Settings::default(),
            ui_locale: "en".to_owned(),
            needs_api_key: false,
            api_key_env_only: false,
            was_onboarded: true,
            needs_workspace_trust: false,
            agents_skills_dir_exists: false,
            local_skills_dir_exists: false,
            global_agents_skills_dir: None,
            cached_skills: Vec::new(),
            input_history: Vec::new(),
            mcp_configured_count: 0,
            hook_session_id: String::new(),
            default_status_items: Vec::new(),
            theme_background: Rgb { red: 0, green: 0, blue: 0 },
            chosen_background: None,
        }
    }
}

} // verus!
