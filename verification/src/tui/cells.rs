//! Transcript cells, the cell in flight, and what is recorded about cells.

use vstd::prelude::*;

use crate::json::JsonValue;

verus! {

/// How a tool call stands.
#[derive(Debug, Clone, Copy, PartialEq, Eq, Structural)]
pub enum ToolStatus {
    Running,
    Success,
    Failed,
}

/// A tool call in the transcript.
#[derive(Debug)]
pub struct ToolCell {
    pub name: String,
    pub status: ToolStatus,
    pub output: Option<String>,
}

/// A sub-agent in the transcript.
#[derive(Debug)]
pub struct SubAgentCell {
    pub agent_id: String,
    pub label: String,
}

/// One cell of the transcript.
#[allow(inconsistent_fields)]
#[derive(Debug)]
pub enum HistoryCell {
    User { content: String },
    Assistant { content: String, streaming: bool },
    System { content: String },
    Thinking { content: String, streaming: bool },
    Tool(ToolCell),
    SubAgent(SubAgentCell),
    /// Stands for a range of cells that are no longer held.
    ArchivedContext {
        level: u8,
        range: String,
        tokens: String,
        density: String,
        model: String,
        timestamp: String,
        summary: String,
    },
}

/// A cell opens a detail view.
pub open spec fn has_details(cell: HistoryCell) -> bool {
    cell is Tool || cell is SubAgent
}

/// A cell once nothing in it is under way any more.
pub open spec fn interrupted(cell: HistoryCell) -> HistoryCell {
    match cell {
        HistoryCell::Tool(tool) => if tool.status == ToolStatus::Running {
            HistoryCell::Tool(
                ToolCell { name: tool.name, status: ToolStatus::Failed, output: tool.output },
            )
        } else {
            cell
        },
        _ => settled(cell),
    }
}

/// A thinking cell that no longer streams; other cells as they are.
pub open spec fn settled(cell: HistoryCell) -> HistoryCell {
    match cell {
        HistoryCell::Thinking { content, .. } => HistoryCell::Thinking {
            content,
            streaming: false,
        },
        _ => cell,
    }
}

/// Ends what is under way in a cell.
pub fn interrupt_cell(cell: HistoryCell) -> (res: HistoryCell)
    ensures
        res == interrupted(cell),
{
    match cell {
        HistoryCell::Tool(tool) => if let ToolStatus::Running = tool.status {
            HistoryCell::Tool(
                ToolCell { name: tool.name, status: ToolStatus::Failed, output: tool.output },
            )
        } else {
            HistoryCell::Tool(tool)
        },
        HistoryCell::Thinking { content, .. } => HistoryCell::Thinking {
            content,
            streaming: false,
        },
        other => other,
    }
}

/// Ends the streaming of a thinking cell.
pub fn settle_cell(cell: HistoryCell) -> (res: HistoryCell)
    ensures
        res == settled(cell),
{
    match cell {
        HistoryCell::Thinking { content, .. } => HistoryCell::Thinking {
            content,
            streaming: false,
        },
        other => other,
    }
}

// ---------------------------------------------------------------------------
// The cell in flight
// ---------------------------------------------------------------------------

/// Cells of the turn in flight, shown behind the transcript.
#[derive(Debug)]
pub struct ActiveCell {
    pub entries: Vec<HistoryCell>,
    pub revision: u64,
}

/// A counter after one step. It starts again at zero behind its largest value.
pub open spec fn stepped(n: u64) -> u64 {
    if n == u64::MAX {
        0
    } else {
        (n + 1) as u64
    }
}

/// Moves a counter one step on.
pub fn step(n: u64) -> (res: u64)
    ensures
        res == stepped(n),
{
    n.wrapping_add(1)
}

impl ActiveCell {
    /// No cells are in flight.
    pub fn new() -> (res: Self)
        ensures
            res.entries@.len() == 0,
            res.revision == 0,
    {
        ActiveCell { entries: Vec::new(), revision: 0 }
    }

    /// Adds a cell.
    pub fn push(&mut self, cell: HistoryCell)
        ensures
            final(self).entries@ == old(self).entries@.push(cell),
            final(self).revision == stepped(old(self).revision),
    {
        self.entries.push(cell);
        self.revision = step(self.revision);
    }

    /// Marks the cells as changed.
    pub fn bump_revision(&mut self)
        ensures
            *final(self) == (ActiveCell {
                entries: old(self).entries,
                revision: stepped(old(self).revision),
            }),
    {
        self.revision = step(self.revision);
    }

    /// Ends the streaming of the thinking cell at a position, where there is
    /// one.
    pub fn settle_entry(&mut self, index: usize)
        ensures
            final(self).revision == old(self).revision,
            final(self).entries@ == (if index < old(self).entries@.len() {
                old(self).entries@.update(index as int, settled(old(self).entries@[index as int]))
            } else {
                old(self).entries@
            }),
    {
        if index < self.entries.len() {
            let cell = self.entries.remove(index);
            let settled_cell = settle_cell(cell);
            let ghost rest = self.entries@;
            self.entries.insert(index, settled_cell);
            proof {
                assert(self.entries@ =~= old(self).entries@.update(
                    index as int,
                    settled(old(self).entries@[index as int]),
                ));
            }
        }
    }

    /// Ends what is under way in every cell.
    pub fn mark_in_progress_as_interrupted(&mut self)
        ensures
            final(self).revision == old(self).revision,
            final(self).entries@ == old(self).entries@.map_values(
                |cell: HistoryCell| interrupted(cell),
            ),
    {
        let ghost all = self.entries@;
        let mut out: Vec<HistoryCell> = Vec::new();
        while self.entries.len() > 0
            invariant
                self.revision == old(self).revision,
                out@.len() + self.entries@.len() == all.len(),
                self.entries@ == all.skip(out@.len() as int),
                forall|i: int| 0 <= i < out@.len() ==> #[trigger] out@[i] == interrupted(all[i]),
            decreases self.entries@.len(),
        {
            let ghost k = out@.len() as int;
            let cell = self.entries.remove(0);
            proof {
                assert(cell == all[k]);
                assert(self.entries@ =~= all.skip(k + 1));
            }
            out.push(interrupt_cell(cell));
        }
        proof {
            assert(out@ =~= all.map_values(|cell: HistoryCell| interrupted(cell)));
        }
        self.entries = out;
    }
}

// ---------------------------------------------------------------------------
// Records
// ---------------------------------------------------------------------------

/// What is known of a tool call beyond its cell.
#[derive(Debug)]
pub struct ToolDetailRecord {
    pub tool_id: String,
    pub tool_name: String,
    pub input: JsonValue,
    pub output: Option<String>,
}

/// A file or other context that a message refers to.
#[derive(Debug)]
pub struct ContextReference {
    pub label: String,
    pub target: String,
}

impl Clone for ContextReference {
    fn clone(&self) -> (res: Self)
        ensures
            res == *self,
    {
        ContextReference { label: self.label.clone(), target: self.target.clone() }
    }
}

/// A context reference with the message it belongs to.
#[derive(Debug)]
pub struct SessionContextReference {
    pub message_index: usize,
    pub reference: ContextReference,
}

impl Clone for SessionContextReference {
    fn clone(&self) -> (res: Self)
        ensures
            res == *self,
    {
        SessionContextReference {
            message_index: self.message_index,
            reference: self.reference.clone(),
        }
    }
}

/// A message waiting to be sent.
#[derive(Debug)]
pub struct QueuedMessage {
    pub display: String,
    pub skill_instruction: Option<String>,
}

impl QueuedMessage {
    /// A message waiting to be sent.
    pub fn new(display: String, skill_instruction: Option<String>) -> (res: Self)
        ensures
            res == (QueuedMessage { display, skill_instruction }),
    {
        QueuedMessage { display, skill_instruction }
    }
}

impl Clone for QueuedMessage {
    fn clone(&self) -> (res: Self)
        ensures
            res == *self,
    {
        QueuedMessage {
            display: self.display.clone(),
            skill_instruction: match &self.skill_instruction {
                Some(s) => Some(s.clone()),
                None => None,
            },
        }
    }
}

/// The cache telemetry of one turn.
#[derive(Debug, Clone, Copy, PartialEq, Eq, Structural)]
pub struct TurnCacheRecord {
    pub input_tokens: u32,
    pub output_tokens: u32,
    pub cache_hit_tokens: Option<u32>,
    pub cache_miss_tokens: Option<u32>,
    pub reasoning_replay_tokens: Option<u32>,
    pub recorded_at_ms: u64,
}

// ---------------------------------------------------------------------------
// Todos and plans
// ---------------------------------------------------------------------------

/// How a todo item stands.
#[derive(Debug, Clone, Copy, PartialEq, Eq, Structural)]
pub enum TodoStatus {
    Pending,
    InProgress,
    Completed,
}

/// An item of the todo list.
#[derive(Debug)]
pub struct TodoItem {
    pub content: String,
    pub status: TodoStatus,
}

/// The todo list.
#[derive(Debug)]
pub struct TodoList {
    pub items: Vec<TodoItem>,
}

impl TodoList {
    /// An empty list.
    pub fn new() -> (res: Self)
        ensures
            res.items@.len() == 0,
    {
        TodoList { items: Vec::new() }
    }

    /// Adds an item.
    pub fn add(&mut self, content: String, status: TodoStatus)
        ensures
            final(self).items@ == old(self).items@.push(TodoItem { content, status }),
    {
        self.items.push(TodoItem { content, status });
    }

    /// Removes every item.
    pub fn clear(&mut self)
        ensures
            final(self).items@.len() == 0,
    {
        self.items.clear();
    }
}

/// How a step of a plan stands.
#[derive(Debug, Clone, Copy, PartialEq, Eq, Structural)]
pub enum StepStatus {
    Pending,
    InProgress,
    Completed,
}

/// A step of a plan.
#[derive(Debug)]
pub struct PlanItem {
    pub step: String,
    pub status: StepStatus,
}

/// The plan under way.
#[derive(Debug)]
pub struct PlanState {
    pub explanation: Option<String>,
    pub items: Vec<PlanItem>,
}

impl PlanState {
    /// There is no plan.
    pub open spec fn is_blank(self) -> bool {
        self.explanation is None && self.items@.len() == 0
    }

    /// Whether there is no plan.
    pub fn is_empty(&self) -> (res: bool)
        ensures
            res == self.is_blank(),
    {
        self.explanation.is_none() && self.items.len() == 0
    }

    /// Replaces the plan.
    pub fn update(&mut self, explanation: Option<String>, items: Vec<PlanItem>)
        ensures
            *final(self) == (PlanState { explanation, items }),
    {
        self.explanation = explanation;
        self.items = items;
    }
}

impl Default for PlanState {
    fn default() -> (res: Self)
        ensures
            res.is_blank(),
    {
        PlanState { explanation: None, items: Vec::new() }
    }
}

/// When a session is condensed into a briefing.
#[derive(Debug, Clone, Copy, PartialEq, Eq, Structural)]
pub struct CycleConfig {
    pub enabled: bool,
    pub threshold_tokens: usize,
    pub briefing_max_tokens: usize,
}

impl Default for CycleConfig {
    fn default() -> (res: Self)
        ensures
            res == (CycleConfig {
                enabled: true,
                threshold_tokens: 768_000,
                briefing_max_tokens: 3_000,
            }),
    {
        CycleConfig { enabled: true, threshold_tokens: 768_000, briefing_max_tokens: 3_000 }
    }
}

} // verus!
