//! What is handed to the hooks that run on events of the interface.

use vstd::prelude::*;

use crate::text::opt_text;

verus! {

/// What a hook runs on.
#[derive(Debug, Clone, Copy, PartialEq, Eq, Structural)]
pub enum HookEvent {
    SessionStart,
    SessionEnd,
    MessageSubmit,
    ToolCallBefore,
    ToolCallAfter,
    ModeChange,
}

/// What a hook is told.
#[derive(Debug)]
pub struct HookContext {
    pub mode: Option<String>,
    pub previous_mode: Option<String>,
    pub workspace: Option<String>,
    pub model: Option<String>,
    pub session_id: Option<String>,
    pub total_tokens: Option<u32>,
}

/// The mathematical form of a [`HookContext`].
#[verifier::ext_equal]
pub struct HookContextModel {
    pub mode: Option<Seq<char>>,
    pub previous_mode: Option<Seq<char>>,
    pub workspace: Option<Seq<char>>,
    pub model: Option<Seq<char>>,
    pub session_id: Option<Seq<char>>,
    pub total_tokens: Option<u32>,
}

impl View for HookContext {
    type V = HookContextModel;

    open spec fn view(&self) -> HookContextModel {
        HookContextModel {
            mode: opt_text(self.mode),
            previous_mode: opt_text(self.previous_mode),
            workspace: opt_text(self.workspace),
            model: opt_text(self.model),
            session_id: opt_text(self.session_id),
            total_tokens: self.total_tokens,
        }
    }
}

/// Work outside the interface's own state that it asks for.
#[derive(Debug)]
pub enum Effect {
    /// Run the hooks of an event.
    RunHooks { event: HookEvent, context: HookContext },
    /// Add an input to the history kept across sessions.
    AppendInputHistory { input: String },
}

/// The mathematical form of an [`Effect`].
#[verifier::ext_equal]
pub enum EffectModel {
    RunHooks { event: HookEvent, context: HookContextModel },
    AppendInputHistory { input: Seq<char> },
}

impl View for Effect {
    type V = EffectModel;

    open spec fn view(&self) -> EffectModel {
        match *self {
            Effect::RunHooks { event, context } => EffectModel::RunHooks {
                event,
                context: context@,
            },
            Effect::AppendInputHistory { input } => EffectModel::AppendInputHistory {
                input: input@,
            },
        }
    }
}

/// The models of a list of effects.
pub open spec fn effect_models(effects: Seq<Effect>) -> Seq<EffectModel> {
    effects.map_values(|e: Effect| e@)
}

} // verus!
