//! The session: telemetry, models and budgets, onboarding, and quitting.

use vstd::prelude::*;

use crate::compaction::rules::{CompactionConfig, MINIMUM_AUTO_COMPACTION_TOKENS};
use crate::models::{
    compaction_threshold, compaction_threshold_for_model_and_effort, DEFAULT_TEXT_MODEL,
};
use crate::text::{same_text, trim, trimmed};
use crate::tui::app::{App, ModelState, OnboardingFlow, Preferences, SessionState};
use crate::tui::cells::{CycleConfig, PlanState, TurnCacheRecord};
use crate::tui::recall::last_of;
use crate::tui::settings::{OnboardingState, ReasoningEffort, SidebarFocus, TranscriptSpacing};

verus! {

/// How many turns the cache telemetry holds.
pub const TURN_CACHE_HISTORY_CAP: usize = 50;

/// How long a second request to quit is waited for, in milliseconds.
pub const QUIT_CONFIRMATION_WINDOW_MS: u64 = 2_000;

// ---------------------------------------------------------------------------
// Telemetry
// ---------------------------------------------------------------------------

impl SessionState {
    /// The session with other telemetry.
    pub open spec fn with_turns(self, turns: SessionState) -> SessionState {
        SessionState { turn_cache_history: turns.turn_cache_history, ..self }
    }

    fn push_turn(&mut self, record: TurnCacheRecord)
        ensures
            final(self).turn_cache_history@ == last_of(
                old(self).turn_cache_history@.push(record),
                TURN_CACHE_HISTORY_CAP as int,
            ),
            *final(self) == old(self).with_turns(*final(self)),
    {
        self.turn_cache_history.push_back(record);
        let ghost all = self.turn_cache_history@;
        proof { assert(all.skip(0) =~= all); }
        let ghost mut dropped: int = 0;
        while self.turn_cache_history.len() > TURN_CACHE_HISTORY_CAP
            invariant
                0 <= dropped <= all.len(),
                self.turn_cache_history@ == all.skip(dropped),
                dropped > 0 ==> self.turn_cache_history@.len() >= TURN_CACHE_HISTORY_CAP,
                *self == old(self).with_turns(*self),
            decreases self.turn_cache_history@.len(),
        {
            let _ = self.turn_cache_history.pop_front();
            proof {
                dropped = dropped + 1;
                assert(self.turn_cache_history@ =~= all.skip(dropped));
            }
        }
        proof {
            assert(self.turn_cache_history@ =~= last_of(all, TURN_CACHE_HISTORY_CAP as int));
        }
    }
}

/// The cache telemetry never holds more turns than its cap, once turns are
/// added, and the last one is the one added.
pub proof fn turns_are_bounded(turns: Seq<TurnCacheRecord>, record: TurnCacheRecord)
    ensures
        ({
            let after = last_of(turns.push(record), TURN_CACHE_HISTORY_CAP as int);
            &&& 0 < after.len() <= TURN_CACHE_HISTORY_CAP
            &&& after.last() == record
        }),
{
}

impl App {
    /// Adds the cache telemetry of a turn. The oldest turns give way beyond the
    /// cap.
    pub fn push_turn_cache_record(&mut self, record: TurnCacheRecord)
        ensures
            final(self).session.turn_cache_history@ == last_of(
                old(self).session.turn_cache_history@.push(record),
                TURN_CACHE_HISTORY_CAP as int,
            ),
            *final(self) == (App {
                session: old(self).session.with_turns(final(self).session),
                ..*old(self)
            }),
    {
        self.session.push_turn(record);
    }

    /// Forgets the telemetry that belongs to one model.
    pub fn clear_model_scoped_telemetry(&mut self)
        ensures
            final(self).session.turn_cache_history@.len() == 0,
            *final(self) == (App {
                session: SessionState {
                    total_tokens: old(self).session.total_tokens,
                    last_prompt_tokens: None,
                    last_completion_tokens: None,
                    last_prompt_cache_hit_tokens: None,
                    last_prompt_cache_miss_tokens: None,
                    last_reasoning_replay_tokens: None,
                    turn_cache_history: final(self).session.turn_cache_history,
                },
                ..*old(self)
            }),
    {
        self.session.last_prompt_tokens = None;
        self.session.last_completion_tokens = None;
        self.session.last_prompt_cache_hit_tokens = None;
        self.session.last_prompt_cache_miss_tokens = None;
        self.session.last_reasoning_replay_tokens = None;
        self.session.turn_cache_history.clear();
    }

    /// Takes the skills found in the workspace.
    pub fn refresh_skill_cache(&mut self, skills: Vec<(String, String)>)
        ensures
            *final(self) == (App {
                environment: crate::tui::app::Environment {
                    cached_skills: skills,
                    ..old(self).environment
                },
                ..*old(self)
            }),
    {
        self.environment.cached_skills = skills;
    }
}

// ---------------------------------------------------------------------------
// Models and budgets
// ---------------------------------------------------------------------------

/// The name of a model that stands for a choice yet to be made.
pub const AUTO_MODEL: &'static str = "auto";

impl ModelState {
    /// The model that was chosen automatically, where one was.
    pub open spec fn chosen_model(self) -> Option<Seq<char>> {
        match self.last_effective_model {
            Some(model) => if model@ != AUTO_MODEL@ {
                Some(model@)
            } else {
                None
            },
            None => None,
        }
    }

    /// The model whose limits count.
    pub open spec fn effective_model(self) -> Seq<char> {
        if self.auto_model {
            match self.chosen_model() {
                Some(model) => model,
                None => DEFAULT_TEXT_MODEL@,
            }
        } else {
            self.model@
        }
    }

    /// The model as it is shown.
    pub open spec fn model_label(self) -> Seq<char> {
        if self.auto_model {
            match self.chosen_model() {
                Some(model) => "auto: "@ + model,
                None => AUTO_MODEL@,
            }
        } else {
            self.model@
        }
    }

    /// The effort as it is shown.
    pub open spec fn effort_label(self) -> Seq<char> {
        if self.auto_model || self.reasoning_effort == ReasoningEffort::Auto {
            match self.last_effective_reasoning_effort {
                Some(effort) => "auto: "@ + effort.name(),
                None => AUTO_MODEL@,
            }
        } else {
            self.reasoning_effort.name()
        }
    }

    fn chosen(&self) -> (res: Option<&String>)
        ensures
            match res {
                Some(model) => self.chosen_model() == Some(model@),
                None => self.chosen_model() is None,
            },
    {
        match &self.last_effective_model {
            Some(model) => if same_text(model.as_str(), AUTO_MODEL) {
                None
            } else {
                Some(model)
            },
            None => None,
        }
    }
}

impl App {
    /// The model whose limits count.
    pub fn effective_model_for_budget(&self) -> (res: &str)
        ensures
            res@ == self.model_state.effective_model(),
    {
        if self.model_state.auto_model {
            match self.model_state.chosen() {
                Some(model) => model.as_str(),
                None => DEFAULT_TEXT_MODEL,
            }
        } else {
            self.model_state.model.as_str()
        }
    }

    /// Sets the token count beyond which conversations are compacted to that of
    /// the model.
    pub fn update_model_compaction_budget(&mut self)
        ensures
            final(self).model_state.compact_threshold == compaction_threshold(
                old(self).model_state.effective_model(),
            ),
            *final(self) == (App {
                model_state: ModelState {
                    compact_threshold: final(self).model_state.compact_threshold,
                    ..old(self).model_state
                },
                ..*old(self)
            }),
    {
        let threshold: usize = compaction_threshold_for_model_and_effort(
            self.effective_model_for_budget(),
            self.model_state.reasoning_effort.api_value(),
        );
        self.model_state.compact_threshold = threshold;
    }

    /// The model as it is shown.
    pub fn model_display_label(&self) -> (res: String)
        ensures
            res@ == self.model_state.model_label(),
    {
        if self.model_state.auto_model {
            match self.model_state.chosen() {
                Some(model) => {
                    let mut text = "auto: ".to_owned();
                    text.append(model.as_str());
                    text
                },
                None => AUTO_MODEL.to_owned(),
            }
        } else {
            self.model_state.model.clone()
        }
    }

    /// The effort as it is shown.
    pub fn reasoning_effort_display_label(&self) -> (res: String)
        ensures
            res@ == self.model_state.effort_label(),
    {
        if self.model_state.auto_model || self.model_state.reasoning_effort
            == ReasoningEffort::Auto {
            match self.model_state.last_effective_reasoning_effort {
                Some(effort) => {
                    let mut text = "auto: ".to_owned();
                    text.append(effort.short_label());
                    text
                },
                None => AUTO_MODEL.to_owned(),
            }
        } else {
            self.model_state.reasoning_effort.short_label().to_owned()
        }
    }

    /// How conversations of this session are compacted.
    pub fn compaction_config(&self) -> (res: CompactionConfig)
        ensures
            res == (CompactionConfig {
                enabled: self.model_state.auto_compact,
                token_threshold: self.model_state.compact_threshold,
                model: self.model_state.model,
                cache_summary: true,
                auto_floor_tokens: MINIMUM_AUTO_COMPACTION_TOKENS,
            }),
    {
        let defaults = CompactionConfig::default();
        CompactionConfig {
            enabled: self.model_state.auto_compact,
            token_threshold: self.model_state.compact_threshold,
            model: self.model_state.model.clone(),
            cache_summary: defaults.cache_summary,
            auto_floor_tokens: defaults.auto_floor_tokens,
        }
    }

    /// When the session is condensed into a briefing.
    pub fn cycle_config(&self) -> (res: CycleConfig)
        ensures
            res == self.model_state.cycle,
    {
        self.model_state.cycle
    }
}

// ---------------------------------------------------------------------------
// Onboarding
// ---------------------------------------------------------------------------

/// Why an API key was not taken.
#[derive(Debug)]
pub enum ApiKeyError {
    /// There is no key.
    Empty,
    /// The key could not be stored.
    SaveFailed { source: String },
}

impl App {
    /// The API key to store: what was typed, without surrounding blanks.
    pub fn api_key_to_save(&self) -> (res: Result<String, ApiKeyError>)
        ensures
            match res {
                Ok(key) => key@ == trimmed(self.onboarding.api_key_input@) && key@.len() > 0,
                Err(ApiKeyError::Empty) => trimmed(self.onboarding.api_key_input@).len() == 0,
                Err(ApiKeyError::SaveFailed { .. }) => false,
            },
    {
        let key = trim(self.onboarding.api_key_input.as_str());
        if key.as_str().unicode_len() == 0 {
            Err(ApiKeyError::Empty)
        } else {
            Ok(key)
        }
    }

    /// Takes what came of storing the API key. Where it is stored, the field is
    /// empty again and no key is asked for any more.
    pub fn submit_api_key<C>(&mut self, saved: Result<C, String>) -> (res: Result<C, ApiKeyError>)
        ensures
            trimmed(old(self).onboarding.api_key_input@).len() == 0 ==> (res matches Err(
                ApiKeyError::Empty,
            )) && *final(self) == *old(self),
            trimmed(old(self).onboarding.api_key_input@).len() > 0 ==> match saved {
                Ok(credential) => {
                    &&& res matches Ok(c) && c == credential
                    &&& final(self).onboarding.api_key_input@.len() == 0
                    &&& *final(self) == old(self).with_onboarding(
                        OnboardingFlow {
                            state: old(self).onboarding.state,
                            needs_api_key: false,
                            workspace_trust_gate: old(self).onboarding.workspace_trust_gate,
                            api_key_env_only: false,
                            api_key_input: final(self).onboarding.api_key_input,
                            api_key_cursor: 0,
                        },
                    )
                },
                Err(error) => {
                    &&& res matches Err(ApiKeyError::SaveFailed { source }) && source == error
                    &&& *final(self) == *old(self)
                },
            },
    {
        match self.api_key_to_save() {
            Err(error) => {
                return Err(error);
            },
            Ok(_) => {},
        }
        match saved {
            Ok(credential) => {
                self.onboarding.api_key_input = String::new();
                self.onboarding.api_key_cursor = 0;
                self.onboarding.needs_api_key = false;
                self.onboarding.api_key_env_only = false;
                Ok(credential)
            },
            Err(source) => Err(ApiKeyError::SaveFailed { source }),
        }
    }

    /// Ends the first-run dialogue. `marked` is what came of noting that.
    pub fn finish_onboarding(&mut self, marked: Result<(), String>)
        ensures
            final(self).status@ == (match marked {
                Ok(_) => old(self).status@,
                Err(error) => old(self).status@.saying("Failed to mark onboarding: "@ + error@),
            }),
            *final(self) == (App {
                onboarding: OnboardingFlow {
                    state: OnboardingState::Finished,
                    ..old(self).onboarding
                },
                status: final(self).status,
                needs_redraw: true,
                ..*old(self)
            }),
    {
        self.onboarding.state = OnboardingState::Finished;
        if let Err(error) = marked {
            let mut text = "Failed to mark onboarding: ".to_owned();
            text.append(error.as_str());
            self.status.say(text);
        }
        self.needs_redraw = true;
    }

    /// Takes what came of storing the language that was picked: the locale that
    /// it resolves to.
    pub fn set_locale_from_onboarding(&mut self, stored: Result<String, String>) -> (res: Result<
        (),
        String,
    >)
        ensures
            match stored {
                Ok(locale) => res is Ok && *final(self) == (App {
                    preferences: Preferences { ui_locale: locale, ..old(self).preferences },
                    needs_redraw: true,
                    ..*old(self)
                }),
                Err(error) => res == Err::<(), String>(error) && *final(self) == *old(self),
            },
    {
        match stored {
            Ok(locale) => {
                self.preferences.ui_locale = locale;
                self.needs_redraw = true;
                Ok(())
            },
            Err(error) => Err(error),
        }
    }

    /// The language that the stored settings name; automatic where there are
    /// none.
    pub fn current_locale_tag(&self, stored: Option<&str>) -> (res: String)
        ensures
            res@ == (match stored {
                Some(tag) => tag@,
                None => "auto"@,
            }),
    {
        match stored {
            Some(tag) => tag.to_owned(),
            None => "auto".to_owned(),
        }
    }
}

// ---------------------------------------------------------------------------
// Quitting and the rest of the interface
// ---------------------------------------------------------------------------

/// What the transcript shows of its cells.
#[derive(Debug, Clone, Copy, PartialEq, Eq, Structural)]
pub struct TranscriptRenderOptions {
    pub show_thinking: bool,
    pub verbose: bool,
    pub show_tool_details: bool,
    pub calm_mode: bool,
    pub low_motion: bool,
    pub spacing: TranscriptSpacing,
}

impl App {
    /// A second request to quit is waited for.
    pub open spec fn waits_for_quit(self, now: u64) -> bool {
        self.quit_armed_until matches Some(deadline) && now < deadline
    }

    /// Waits for a second request to quit.
    pub fn arm_quit(&mut self, now: u64)
        requires
            now + QUIT_CONFIRMATION_WINDOW_MS <= u64::MAX,
        ensures
            *final(self) == (App {
                quit_armed_until: Some((now + QUIT_CONFIRMATION_WINDOW_MS) as u64),
                needs_redraw: true,
                ..*old(self)
            }),
    {
        self.quit_armed_until = Some(now + QUIT_CONFIRMATION_WINDOW_MS);
        self.needs_redraw = true;
    }

    /// Whether a second request to quit is waited for.
    pub fn quit_is_armed(&self, now: u64) -> (res: bool)
        ensures
            res == self.waits_for_quit(now),
    {
        match self.quit_armed_until {
            Some(deadline) => now < deadline,
            None => false,
        }
    }

    /// No longer waits for a second request to quit.
    pub fn disarm_quit(&mut self)
        ensures
            *final(self) == (App {
                quit_armed_until: None,
                needs_redraw: old(self).needs_redraw || old(self).quit_armed_until is Some,
                ..*old(self)
            }),
    {
        if self.quit_armed_until.is_some() {
            self.quit_armed_until = None;
            self.needs_redraw = true;
        }
    }

    /// No longer waits for a second request to quit once the time for it is
    /// over.
    pub fn tick_quit_armed(&mut self, now: u64)
        ensures
            old(self).waits_for_quit(now) || old(self).quit_armed_until is None ==> *final(self)
                == *old(self),
            !old(self).waits_for_quit(now) && old(self).quit_armed_until is Some ==> *final(self)
                == (App { quit_armed_until: None, needs_redraw: true, ..*old(self) }),
    {
        if let Some(deadline) = self.quit_armed_until {
            if now >= deadline {
                self.quit_armed_until = None;
                self.needs_redraw = true;
            }
        }
    }

    /// Chooses what the sidebar shows.
    pub fn set_sidebar_focus(&mut self, focus: SidebarFocus)
        ensures
            *final(self) == (App {
                preferences: Preferences { sidebar_focus: focus, ..old(self).preferences },
                needs_redraw: true,
                ..*old(self)
            }),
    {
        self.preferences.sidebar_focus = focus;
        self.needs_redraw = true;
    }

    /// Empties the todo list and the plan, as far as they are free. Returns
    /// whether the todo list is empty.
    pub fn clear_todos(&mut self, todos_free: bool, plan_free: bool) -> (res: bool)
        ensures
            res == todos_free,
            todos_free ==> final(self).todos.items@.len() == 0,
            !todos_free ==> final(self).todos == old(self).todos,
            plan_free ==> final(self).plan_state.is_blank(),
            !plan_free ==> final(self).plan_state == old(self).plan_state,
            *final(self) == (App {
                todos: final(self).todos,
                plan_state: final(self).plan_state,
                ..*old(self)
            }),
    {
        if todos_free {
            self.todos.clear();
        }
        if plan_free {
            self.plan_state = PlanState::default();
        }
        todos_free
    }

    /// What the transcript shows of its cells.
    pub fn transcript_render_options(&self) -> (res: TranscriptRenderOptions)
        ensures
            res == (TranscriptRenderOptions {
                show_thinking: self.preferences.show_thinking,
                verbose: self.preferences.verbose_transcript,
                show_tool_details: self.preferences.show_tool_details,
                calm_mode: self.preferences.calm_mode,
                low_motion: self.preferences.low_motion,
                spacing: self.preferences.transcript_spacing,
            }),
    {
        TranscriptRenderOptions {
            show_thinking: self.preferences.show_thinking,
            verbose: self.preferences.verbose_transcript,
            show_tool_details: self.preferences.show_tool_details,
            calm_mode: self.preferences.calm_mode,
            low_motion: self.preferences.low_motion,
            spacing: self.preferences.transcript_spacing,
        }
    }
}

/// A first request to quit is followed up for as long as the window lasts, and
/// no longer.
pub proof fn quit_window_ends(after: App, before: App, now: u64, later: u64)
    requires
        now + QUIT_CONFIRMATION_WINDOW_MS <= u64::MAX,
        after == (App {
            quit_armed_until: Some((now + QUIT_CONFIRMATION_WINDOW_MS) as u64),
            needs_redraw: true,
            ..before
        }),
    ensures
        after.waits_for_quit(later) <==> later < now + QUIT_CONFIRMATION_WINDOW_MS,
{
}

} // verus!
