//! Compactions step by step: what is asked of the model, and what follows each
//! of its replies.

use vstd::prelude::*;

use crate::compaction::estimation::saturated;
use crate::compaction::pairing::{
    lemma_indices_len, repair_limit, repair_settles, step_limit,
};
use crate::compaction::planning::{
    own_pins, path_list, pin_list, plan_compaction, plan_pins, plan_settles, unpinned,
};
use crate::compaction::pruning::{prune_tool_results, pruned, pruned_bytes};
use crate::compaction::rules::{CompactionConfig, KEEP_RECENT_MESSAGES};
use crate::compaction::summary::{
    anchors_of, begin_compaction, build_summary_request, compact_messages, fits_cache_aligned,
    is_transient, messages_in, prepare_compaction, pruning_suffices, retry_decision,
    retry_delay_ms, summary_prompt_model, summary_request_model, CompactionInput, CompactionResult,
    CompactionStep, RetryDecision, MAX_RETRIES,
};
use crate::errors::error_category;
use crate::models::{
    clone_messages, conversation, prompt_model, Message, MessageModel, MessageRequest,
};
use crate::paths::{workspace_root, Workspace};

verus! {

/// A compaction that waits for a summary: the messages it keeps, those the
/// summary stands for, and how often the summary was asked for in vain.
pub struct CompactionRun {
    pub kept: Vec<Message>,
    pub removed: Vec<Message>,
    pub failures: u32,
}

/// What came of asking for a summary.
pub enum SummaryOutcome {
    /// The summary.
    Summary(String),
    /// The message of an error.
    Failure(String),
}

/// What a compaction does next.
#[allow(inconsistent_fields)]
pub enum CompactionAction {
    /// It is done.
    Finish(CompactionResult),
    /// It asks for a summary, after a delay. The flag says whether the request
    /// replays the messages.
    Ask { run: CompactionRun, request: MessageRequest, cache_aligned: bool, delay_ms: u64 },
    /// It gives up, for the reason last reported.
    GiveUp,
}

impl CompactionResult {
    /// Nothing was summarized, and these messages stay.
    pub open spec fn keeps_all(self, messages: Seq<MessageModel>) -> bool {
        &&& conversation(self.messages@) == messages
        &&& self.summary_prompt is None
        &&& self.removed_messages@.len() == 0
        &&& self.retries_used == 0
    }
}

impl CompactionAction {
    /// The summary of these messages is asked for.
    pub open spec fn asks_for(
        self,
        kept: Seq<MessageModel>,
        removed: Seq<MessageModel>,
        model: Seq<char>,
        failures: nat,
        delay: nat,
    ) -> bool {
        self matches CompactionAction::Ask { run, request, cache_aligned, delay_ms }
            && conversation(run.kept@) == kept && conversation(run.removed@) == removed
            && run.failures == failures && request@ == summary_request_model(model, removed)
            && cache_aligned == fits_cache_aligned(model, removed) && delay_ms == delay
    }
}

/// Begins a compaction. Where pruning is enough or nothing is left to
/// summarize, that is all.
pub fn start_compaction(
    messages: &[Message],
    config: &CompactionConfig,
    workspace: Option<&Workspace>,
    external_pins: Option<&[usize]>,
    external_working_set_paths: Option<&[String]>,
) -> (res: CompactionAction)
    ensures
        ({
            let all = conversation(messages@);
            let pins = pin_list(external_pins);
            let paths = path_list(external_working_set_paths);
            let input = pruned(all, KEEP_RECENT_MESSAGES as nat);
            let n = input.len() as int;
            let kept = plan_pins(input, workspace, KEEP_RECENT_MESSAGES as int, pins, paths);
            if pruning_suffices(all, *config, workspace, pins, paths) || unpinned(kept, n).len()
                == 0 {
                res matches CompactionAction::Finish(result) && result.keeps_all(input)
            } else {
                res.asks_for(
                    messages_in(input, kept, n),
                    messages_in(input, kept.complement(), n),
                    config.model@,
                    0,
                    0,
                )
            }
        }),
{
    let input = match prepare_compaction(
        messages,
        config,
        workspace,
        external_pins,
        external_working_set_paths,
    ) {
        CompactionInput::Pruned(result) => {
            return CompactionAction::Finish(result);
        },
        CompactionInput::Compact(input) => input,
    };
    match begin_compaction(
        input.as_slice(),
        config,
        workspace,
        external_pins,
        external_working_set_paths,
    ) {
        CompactionStep::Unchanged(messages) => CompactionAction::Finish(
            CompactionResult {
                messages,
                summary_prompt: None,
                removed_messages: Vec::new(),
                retries_used: 0,
            },
        ),
        CompactionStep::Summarize { kept, removed, request, cache_aligned } => CompactionAction::Ask {
            run: CompactionRun { kept, removed, failures: 0 },
            request,
            cache_aligned,
            delay_ms: 0,
        },
    }
}

/// What a log says of a compaction before it begins.
pub struct CompactionNotes {
    /// How many bytes pruning saves.
    pub saved_bytes: usize,
    /// Keeping tool calls and results together does not come to rest.
    pub unsettled: Option<UnsettledPairs>,
}

/// A repair that does not come to rest: its steps, the messages of the
/// conversation, and how many of them it leaves pinned.
pub struct UnsettledPairs {
    pub steps: usize,
    pub messages: usize,
    pub pinned: usize,
}

/// What a log says of a compaction before it begins.
pub fn compaction_notes(
    messages: &[Message],
    workspace: Option<&Workspace>,
    external_pins: Option<&[usize]>,
    external_working_set_paths: Option<&[String]>,
) -> (res: CompactionNotes)
    ensures
        ({
            let all = conversation(messages@);
            let input = pruned(all, KEEP_RECENT_MESSAGES as nat);
            let pins = pin_list(external_pins);
            let paths = path_list(external_working_set_paths);
            let keep = KEEP_RECENT_MESSAGES as int;
            let settles = repair_settles(input, own_pins(input, workspace, keep, pins, paths));
            &&& res.saved_bytes == saturated(pruned_bytes(all, KEEP_RECENT_MESSAGES as nat))
            &&& match res.unsettled {
                None => settles,
                Some(pairs) => !settles && pairs.steps == repair_limit(input.len())
                    && pairs.messages == input.len() && pairs.pinned == plan_pins(
                    input,
                    workspace,
                    keep,
                    pins,
                    paths,
                ).len(),
            }
        }),
{
    let mut input = clone_messages(messages);
    let saved_bytes = prune_tool_results(&mut input, KEEP_RECENT_MESSAGES);
    let settles = plan_settles(
        input.as_slice(),
        workspace,
        KEEP_RECENT_MESSAGES,
        external_pins,
        external_working_set_paths,
    );
    if settles {
        return CompactionNotes { saved_bytes, unsettled: None };
    }
    let plan = plan_compaction(
        input.as_slice(),
        workspace,
        KEEP_RECENT_MESSAGES,
        external_pins,
        external_working_set_paths,
    );
    proof { lemma_indices_len(plan.pinned_indices@, input@.len() as int); }
    let total: usize = input.len();
    let pairs = UnsettledPairs {
        steps: step_limit(total),
        messages: total,
        pinned: plan.pinned_indices.len(),
    };
    CompactionNotes { saved_bytes, unsettled: Some(pairs) }
}

/// Goes on with a compaction. A summary ends it; a failure that may pass has the
/// summary asked for again, until the retries are used up.
pub fn continue_compaction(
    run: CompactionRun,
    outcome: SummaryOutcome,
    anchors_file: Option<&str>,
    config: &CompactionConfig,
    workspace: Option<&Workspace>,
) -> (res: CompactionAction)
    ensures
        match outcome {
            SummaryOutcome::Summary(summary) => {
                res matches CompactionAction::Finish(result) && result.messages == run.kept
                    && result.removed_messages == run.removed && result.retries_used == run.failures
                    && prompt_model(result.summary_prompt) == Some(
                    summary_prompt_model(
                        conversation(run.removed@),
                        summary@,
                        anchors_of(anchors_file),
                        config.cache_summary,
                        workspace_root(workspace),
                    ),
                )
            },
            SummaryOutcome::Failure(message) => {
                if run.failures < MAX_RETRIES && is_transient(error_category(message@)) {
                    res.asks_for(
                        conversation(run.kept@),
                        conversation(run.removed@),
                        config.model@,
                        (run.failures + 1) as nat,
                        retry_delay_ms(run.failures as nat),
                    )
                } else {
                    res is GiveUp
                }
            },
        },
{
    match outcome {
        SummaryOutcome::Summary(summary) => {
            let (messages, summary_prompt, removed_messages) = compact_messages(
                run.kept,
                run.removed,
                summary.as_str(),
                anchors_file,
                config,
                workspace,
            );
            CompactionAction::Finish(
                CompactionResult {
                    messages,
                    summary_prompt,
                    removed_messages,
                    retries_used: run.failures,
                },
            )
        },
        SummaryOutcome::Failure(message) => match retry_decision(run.failures, message.as_str()) {
            RetryDecision::RetryAfter { delay_ms } => {
                proof { reveal_with_fuel(retry_delay_ms, 4); }
                let (request, cache_aligned) = build_summary_request(
                    config.model.as_str(),
                    run.removed.as_slice(),
                );
                CompactionAction::Ask {
                    run: CompactionRun {
                        kept: run.kept,
                        removed: run.removed,
                        failures: run.failures + 1,
                    },
                    request,
                    cache_aligned,
                    delay_ms,
                }
            },
            RetryDecision::GiveUp => CompactionAction::GiveUp,
        },
    }
}

/// A summary is asked for again with longer and longer delays: one, two and four
/// seconds.
pub proof fn delays_double(failures: nat)
    ensures
        retry_delay_ms(0) == 1_000,
        retry_delay_ms(failures + 1) == 2 * retry_delay_ms(failures),
        retry_delay_ms(2) == 4_000,
{
    reveal_with_fuel(retry_delay_ms, 4);
}

} // verus!
