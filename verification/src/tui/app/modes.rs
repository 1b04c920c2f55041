//! Switching modes and efforts, and what hooks are told of it.

use vstd::prelude::*;

use crate::tui::app::{App, PolicyState, YoloRestoreState};
use crate::tui::hooks::{effect_models, Effect, EffectModel, HookContext, HookContextModel, HookEvent};
use crate::tui::settings::{AppMode, ApprovalMode};
use crate::tui::status::{StatusToastLevel, ToastModel};

verus! {

/// How long the note on a changed effort stays, in milliseconds.
pub const EFFORT_TOAST_TTL_MS: u64 = 1_500;

impl PolicyState {
    /// The policies once the mode is another one. The mode without approvals
    /// allows everything while it lasts, and gives back what was allowed
    /// before.
    pub open spec fn switched(self, mode: AppMode) -> PolicyState {
        let allowed = if mode == AppMode::Yolo {
            PolicyState {
                yolo_restore: Some(
                    YoloRestoreState {
                        allow_shell: self.allow_shell,
                        trust_mode: self.trust_mode,
                        approval_mode: self.approval_mode,
                    },
                ),
                allow_shell: true,
                trust_mode: true,
                approval_mode: ApprovalMode::Auto,
                ..self
            }
        } else if self.mode == AppMode::Yolo {
            match self.yolo_restore {
                Some(restore) => PolicyState {
                    yolo_restore: None,
                    allow_shell: restore.allow_shell,
                    trust_mode: restore.trust_mode,
                    approval_mode: restore.approval_mode,
                    ..self
                },
                None => self,
            }
        } else {
            self
        };
        PolicyState {
            mode,
            yolo: mode == AppMode::Yolo,
            plan_prompt_pending: mode == AppMode::Plan && self.plan_prompt_pending,
            plan_tool_used_in_turn: mode == AppMode::Plan && self.plan_tool_used_in_turn,
            ..allowed
        }
    }

    fn switch(&mut self, mode: AppMode)
        requires
            mode != old(self).mode,
        ensures
            *final(self) == old(self).switched(mode),
    {
        let previous = self.mode;
        self.mode = mode;
        if mode == AppMode::Yolo {
            self.yolo_restore = Some(
                YoloRestoreState {
                    allow_shell: self.allow_shell,
                    trust_mode: self.trust_mode,
                    approval_mode: self.approval_mode,
                },
            );
            self.allow_shell = true;
            self.trust_mode = true;
            self.approval_mode = ApprovalMode::Auto;
        } else if previous == AppMode::Yolo {
            if let Some(restore) = self.yolo_restore {
                self.yolo_restore = None;
                self.allow_shell = restore.allow_shell;
                self.trust_mode = restore.trust_mode;
                self.approval_mode = restore.approval_mode;
            }
        }
        self.yolo = mode == AppMode::Yolo;
        if mode != AppMode::Plan {
            self.plan_prompt_pending = false;
            self.plan_tool_used_in_turn = false;
        }
    }
}

/// Leaving the mode without approvals gives back what was allowed when it was
/// entered, whichever mode follows.
pub proof fn leaving_yolo_restores_policies(policy: PolicyState, mode: AppMode)
    requires
        policy.mode != AppMode::Yolo,
        mode != AppMode::Yolo,
    ensures
        ({
            let inside = policy.switched(AppMode::Yolo);
            let after = inside.switched(mode);
            &&& inside.allow_shell && inside.trust_mode && inside.approval_mode
                == ApprovalMode::Auto
            &&& after.allow_shell == policy.allow_shell
            &&& after.trust_mode == policy.trust_mode
            &&& after.approval_mode == policy.approval_mode
            &&& after.yolo_restore is None
            &&& !after.yolo
        }),
{
}

/// Switching between modes with approvals keeps what is allowed.
pub proof fn other_modes_keep_policies(policy: PolicyState, mode: AppMode)
    requires
        policy.mode != AppMode::Yolo,
        mode != AppMode::Yolo,
    ensures
        ({
            let after = policy.switched(mode);
            &&& after.allow_shell == policy.allow_shell
            &&& after.trust_mode == policy.trust_mode
            &&& after.approval_mode == policy.approval_mode
        }),
{
}

impl App {
    /// What hooks are told of a change of the mode.
    pub open spec fn mode_change_context(self, mode: AppMode) -> HookContextModel {
        HookContextModel {
            mode: Some(mode.name()),
            previous_mode: Some(self.policy.mode.name()),
            workspace: Some(self.environment.workspace@),
            model: Some(self.model_state.model@),
            session_id: None,
            total_tokens: None,
        }
    }

    /// The application before, switched to another mode: the status line says
    /// so, and hooks are asked to run.
    pub open spec fn is_switched(self, before: App, mode: AppMode) -> bool {
        &&& self.policy == before.policy.switched(mode)
        &&& self.status@ == before.status@.saying("Switched to "@ + mode.name() + " mode"@)
        &&& effect_models(self.effects@) == effect_models(before.effects@).push(
            EffectModel::RunHooks {
                event: HookEvent::ModeChange,
                context: before.mode_change_context(mode),
            },
        )
        &&& self == (App {
            policy: self.policy,
            status: self.status,
            effects: self.effects,
            needs_redraw: true,
            ..before
        })
    }

    fn change_context(&self, mode: AppMode) -> (res: HookContext)
        ensures
            res@ == self.mode_change_context(mode),
    {
        HookContext {
            mode: Some(mode.label().to_owned()),
            previous_mode: Some(self.policy.mode.label().to_owned()),
            workspace: Some(self.environment.workspace.clone()),
            model: Some(self.model_state.model.clone()),
            session_id: None,
            total_tokens: None,
        }
    }

    pub(crate) fn ask_for(&mut self, effect: Effect)
        ensures
            effect_models(final(self).effects@) == effect_models(old(self).effects@).push(effect@),
            *final(self) == (App { effects: final(self).effects, ..*old(self) }),
    {
        let ghost before = self.effects@;
        self.effects.push(effect);
        proof { assert(effect_models(self.effects@) =~= effect_models(before).push(effect@)); }
    }

    /// Switches to a mode. Returns whether it is another one.
    pub fn set_mode(&mut self, mode: AppMode) -> (res: bool)
        ensures
            res == (mode != old(self).policy.mode),
            res ==> final(self).is_switched(*old(self), mode),
            !res ==> *final(self) == *old(self),
    {
        if self.policy.mode == mode {
            return false;
        }
        let context = self.change_context(mode);
        self.policy.switch(mode);
        let mut text = "Switched to ".to_owned();
        text.append(mode.label());
        text.append(" mode");
        self.status.say(text);
        self.ask_for(Effect::RunHooks { event: HookEvent::ModeChange, context });
        self.needs_redraw = true;
        true
    }

    /// Switches to the next mode: Plan, Agent, YOLO, and round again.
    pub fn cycle_mode(&mut self)
        ensures
            final(self).is_switched(*old(self), old(self).policy.mode.next()),
    {
        let next = match self.policy.mode {
            AppMode::Plan => AppMode::Agent,
            AppMode::Agent => AppMode::Yolo,
            AppMode::Yolo => AppMode::Plan,
        };
        let _ = self.set_mode(next);
    }

    /// Switches to the mode before.
    pub fn cycle_mode_reverse(&mut self)
        ensures
            final(self).is_switched(*old(self), old(self).policy.mode.previous()),
    {
        let next = match self.policy.mode {
            AppMode::Agent => AppMode::Plan,
            AppMode::Yolo => AppMode::Agent,
            AppMode::Plan => AppMode::Yolo,
        };
        let _ = self.set_mode(next);
    }

    /// Goes on to the next effort, and says so.
    pub fn cycle_effort(&mut self, now: u64)
        ensures
            ({
                let effort = old(self).model_state.reasoning_effort.next();
                &&& final(self).model_state == (crate::tui::app::ModelState {
                    reasoning_effort: effort,
                    last_effective_reasoning_effort: None,
                    ..old(self).model_state
                })
                &&& final(self).status@ == old(self).status@.toasted(
                    ToastModel {
                        text: "Thinking: "@ + effort.name(),
                        level: StatusToastLevel::Info,
                        created_at: now,
                        ttl_ms: Some(EFFORT_TOAST_TTL_MS),
                    },
                )
                &&& *final(self) == (App {
                    model_state: final(self).model_state,
                    status: final(self).status,
                    needs_redraw: true,
                    ..*old(self)
                })
            }),
    {
        self.model_state.reasoning_effort = self.model_state.reasoning_effort.cycle_next();
        self.model_state.last_effective_reasoning_effort = None;
        let mut text = "Thinking: ".to_owned();
        text.append(self.model_state.reasoning_effort.short_label());
        self.push_status_toast(text, StatusToastLevel::Info, Some(EFFORT_TOAST_TTL_MS), now);
    }

    /// What hooks are told of the session.
    pub fn base_hook_context(&self) -> (res: HookContext)
        ensures
            res@ == (HookContextModel {
                mode: Some(self.policy.mode.name()),
                previous_mode: None,
                workspace: Some(self.environment.workspace@),
                model: Some(self.model_state.model@),
                session_id: Some(self.environment.hook_session_id@),
                total_tokens: Some(self.session.total_tokens),
            }),
    {
        HookContext {
            mode: Some(self.policy.mode.label().to_owned()),
            previous_mode: None,
            workspace: Some(self.environment.workspace.clone()),
            model: Some(self.model_state.model.clone()),
            session_id: Some(self.environment.hook_session_id.clone()),
            total_tokens: Some(self.session.total_tokens),
        }
    }
}

/// Cycling on and back leads to the mode that was left.
pub proof fn cycling_back_undoes_cycling(after: App, mid: App, before: App)
    requires
        mid.is_switched(before, before.policy.mode.next()),
        after.is_switched(mid, mid.policy.mode.previous()),
    ensures
        after.policy.mode == before.policy.mode,
        before.policy.mode != AppMode::Yolo ==> after.policy.allow_shell
            == before.policy.allow_shell && after.policy.trust_mode == before.policy.trust_mode
            && after.policy.approval_mode == before.policy.approval_mode,
{
}

} // verus!
