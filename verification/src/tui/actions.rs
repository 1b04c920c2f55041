//! What the interface asks the rest of the program to do.

use vstd::prelude::*;

use crate::compaction::rules::CompactionConfig;
use crate::models::{Message, SystemPrompt};
use crate::tui::settings::ApiProvider;

verus! {

/// How the configuration is edited.
#[derive(Debug, Clone, Copy, PartialEq, Eq, Structural)]
pub enum ConfigUiMode {
    Native,
    Tui,
    Web,
}

/// Something the interface asks for.
#[allow(inconsistent_fields)]
#[derive(Debug, Clone, PartialEq)]
pub enum AppAction {
    Quit,
    SaveSession(String),
    LoadSession(String),
    SyncSession {
        session_id: Option<String>,
        messages: Vec<Message>,
        system_prompt: Option<SystemPrompt>,
        model: String,
        workspace: String,
    },
    OpenConfigEditor(ConfigUiMode),
    OpenConfigView,
    OpenModelPicker,
    OpenProviderPicker,
    OpenModePicker,
    OpenStatusPicker,
    OpenFeedbackPicker,
    OpenExternalUrl { url: String, label: String },
    /// Sends a message to the model.
    SendMessage(String),
    /// Runs a turn whose prompt the model reads piece by piece.
    Rlm { prompt: String, model: String, child_model: String, max_depth: u32 },
    ListSubAgents,
    FetchModels,
    CacheWarmup,
    /// Switches to another provider without a restart.
    SwitchProvider { provider: ApiProvider, model: Option<String> },
    UpdateCompaction(CompactionConfig),
    OpenContextInspector,
    CompactContext,
    TaskAdd { prompt: String },
    TaskList,
    TaskShow { id: String },
    TaskCancel { id: String },
    ShellJob(ShellJobAction),
    Mcp(McpUiAction),
    /// Switches to another configuration profile without a restart.
    SwitchProfile { profile: String },
    ShareSession { history_len: usize, model: String, mode: String },
}

/// Something asked of shell jobs.
#[allow(inconsistent_fields)]
#[derive(Debug, Clone, PartialEq, Eq)]
pub enum ShellJobAction {
    List,
    Show { id: String },
    Poll { id: String, wait: bool },
    SendStdin { id: String, input: String, close: bool },
    Cancel { id: String },
}

/// Something asked of the tool servers.
#[allow(inconsistent_fields)]
#[derive(Debug, Clone, PartialEq, Eq)]
pub enum McpUiAction {
    Show,
    Init { force: bool },
    AddStdio { name: String, command: String, args: Vec<String> },
    AddHttp { name: String, url: String },
    Enable { name: String },
    Disable { name: String },
    Remove { name: String },
    Validate,
    Reload,
}

} // verus!
