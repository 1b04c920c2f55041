//! Conversation messages, system prompts and what is known of the models.

use vstd::prelude::*;

use crate::json::{json_models, lemma_json_models, JsonModel, JsonValue};
use crate::text::{contains, contains_text, opt_text, to_lowercase, unicode_lowercase};

verus! {

/// Model used when none is chosen.
pub const DEFAULT_TEXT_MODEL: &'static str = "deepseek-v4-pro";

/// Context window of the large-context model generation, in tokens.
pub const LARGE_CONTEXT_MODEL_WINDOW: u32 = 1_000_000;

/// Context window of the earlier model generation, in tokens.
pub const LEGACY_MODEL_WINDOW: u32 = 128_000;

/// Compaction threshold of a model whose window is not known.
pub const DEFAULT_COMPACTION_TOKEN_THRESHOLD: usize = 50_000;

/// Share of the context window at which compaction is due, in percent.
pub const COMPACTION_THRESHOLD_PERCENT: usize = 80;

// ---------------------------------------------------------------------------
// Messages
// ---------------------------------------------------------------------------

/// A prompt-cache hint.
#[derive(Debug, PartialEq)]
pub struct CacheControl {
    pub cache_type: String,
}

impl View for CacheControl {
    type V = Seq<char>;

    open spec fn view(&self) -> Seq<char> {
        self.cache_type@
    }
}

impl Clone for CacheControl {
    fn clone(&self) -> (res: Self)
        ensures
            res@ == self@,
    {
        CacheControl { cache_type: self.cache_type.clone() }
    }
}

/// Who issued a tool call.
#[derive(Debug, PartialEq)]
pub struct ToolCaller {
    pub caller_type: String,
    pub tool_id: Option<String>,
}

/// The mathematical form of a [`ToolCaller`].
pub struct ToolCallerModel {
    pub caller_type: Seq<char>,
    pub tool_id: Option<Seq<char>>,
}

impl View for ToolCaller {
    type V = ToolCallerModel;

    open spec fn view(&self) -> ToolCallerModel {
        ToolCallerModel { caller_type: self.caller_type@, tool_id: opt_text(self.tool_id) }
    }
}

impl Clone for ToolCaller {
    fn clone(&self) -> (res: Self)
        ensures
            res@ == self@,
    {
        ToolCaller { caller_type: self.caller_type.clone(), tool_id: self.tool_id.clone() }
    }
}

/// One block of a message.
#[allow(inconsistent_fields)]
#[derive(Debug, PartialEq)]
pub enum ContentBlock {
    Text { text: String, cache_control: Option<CacheControl> },
    Thinking { thinking: String },
    ToolUse { id: String, name: String, input: JsonValue, caller: Option<ToolCaller> },
    ToolResult {
        tool_use_id: String,
        content: String,
        is_error: Option<bool>,
        content_blocks: Option<Vec<JsonValue>>,
    },
    ServerToolUse { id: String, name: String, input: JsonValue },
    ToolSearchToolResult { tool_use_id: String, content: JsonValue },
    CodeExecutionToolResult { tool_use_id: String, content: JsonValue },
}

/// The mathematical form of a [`ContentBlock`].
#[allow(inconsistent_fields)]
#[verifier::ext_equal]
pub enum BlockModel {
    Text { text: Seq<char>, cache_control: Option<Seq<char>> },
    Thinking { thinking: Seq<char> },
    ToolUse { id: Seq<char>, name: Seq<char>, input: JsonModel, caller: Option<ToolCallerModel> },
    ToolResult {
        tool_use_id: Seq<char>,
        content: Seq<char>,
        is_error: Option<bool>,
        content_blocks: Option<Seq<JsonModel>>,
    },
    ServerToolUse { id: Seq<char>, name: Seq<char>, input: JsonModel },
    ToolSearchToolResult { tool_use_id: Seq<char>, content: JsonModel },
    CodeExecutionToolResult { tool_use_id: Seq<char>, content: JsonModel },
}

/// The cache hint's type, when there is a hint.
pub open spec fn cache_model(c: Option<CacheControl>) -> Option<Seq<char>> {
    match c {
        Some(c) => Some(c@),
        None => None,
    }
}

/// The caller's model, when there is a caller.
pub open spec fn caller_model(c: Option<ToolCaller>) -> Option<ToolCallerModel> {
    match c {
        Some(c) => Some(c@),
        None => None,
    }
}

/// The models of an optional list of values.
pub open spec fn json_list_model(c: Option<Vec<JsonValue>>) -> Option<Seq<JsonModel>> {
    match c {
        Some(c) => Some(json_models(c@)),
        None => None,
    }
}

impl View for ContentBlock {
    type V = BlockModel;

    open spec fn view(&self) -> BlockModel {
        match *self {
            ContentBlock::Text { text, cache_control } => BlockModel::Text {
                text: text@,
                cache_control: cache_model(cache_control),
            },
            ContentBlock::Thinking { thinking } => BlockModel::Thinking { thinking: thinking@ },
            ContentBlock::ToolUse { id, name, input, caller } => BlockModel::ToolUse {
                id: id@,
                name: name@,
                input: input@,
                caller: caller_model(caller),
            },
            ContentBlock::ToolResult { tool_use_id, content, is_error, content_blocks } =>
                BlockModel::ToolResult {
                tool_use_id: tool_use_id@,
                content: content@,
                is_error,
                content_blocks: json_list_model(content_blocks),
            },
            ContentBlock::ServerToolUse { id, name, input } => BlockModel::ServerToolUse {
                id: id@,
                name: name@,
                input: input@,
            },
            ContentBlock::ToolSearchToolResult { tool_use_id, content } =>
                BlockModel::ToolSearchToolResult { tool_use_id: tool_use_id@, content: content@ },
            ContentBlock::CodeExecutionToolResult { tool_use_id, content } =>
                BlockModel::CodeExecutionToolResult { tool_use_id: tool_use_id@, content: content@ },
        }
    }
}

fn clone_json_list(items: &Vec<JsonValue>) -> (res: Vec<JsonValue>)
    ensures
        json_models(res@) == json_models(items@),
{
    let mut out: Vec<JsonValue> = Vec::new();
    let mut i: usize = 0;
    while i < items.len()
        invariant
            i <= items@.len(),
            out@.len() == i,
            forall|j: int| 0 <= j < i ==> (#[trigger] out@[j])@ == items@[j]@,
        decreases items@.len() - i,
    {
        out.push(items[i].clone());
        i += 1;
    }
    proof {
        lemma_json_models(out@);
        lemma_json_models(items@);
        assert(json_models(out@) =~= json_models(items@));
    }
    out
}

fn clone_cache(c: &Option<CacheControl>) -> (res: Option<CacheControl>)
    ensures
        cache_model(res) == cache_model(*c),
{
    match c {
        Some(c) => Some(c.clone()),
        None => None,
    }
}

impl Clone for ContentBlock {
    fn clone(&self) -> (res: Self)
        ensures
            res@ == self@,
    {
        match self {
            ContentBlock::Text { text, cache_control } => ContentBlock::Text {
                text: text.clone(),
                cache_control: clone_cache(cache_control),
            },
            ContentBlock::Thinking { thinking } => ContentBlock::Thinking {
                thinking: thinking.clone(),
            },
            ContentBlock::ToolUse { id, name, input, caller } => ContentBlock::ToolUse {
                id: id.clone(),
                name: name.clone(),
                input: input.clone(),
                caller: match caller {
                    Some(c) => Some(c.clone()),
                    None => None,
                },
            },
            ContentBlock::ToolResult { tool_use_id, content, is_error, content_blocks } =>
                ContentBlock::ToolResult {
                tool_use_id: tool_use_id.clone(),
                content: content.clone(),
                is_error: *is_error,
                content_blocks: match content_blocks {
                    Some(c) => Some(clone_json_list(c)),
                    None => None,
                },
            },
            ContentBlock::ServerToolUse { id, name, input } => ContentBlock::ServerToolUse {
                id: id.clone(),
                name: name.clone(),
                input: input.clone(),
            },
            ContentBlock::ToolSearchToolResult { tool_use_id, content } =>
                ContentBlock::ToolSearchToolResult {
                tool_use_id: tool_use_id.clone(),
                content: content.clone(),
            },
            ContentBlock::CodeExecutionToolResult { tool_use_id, content } =>
                ContentBlock::CodeExecutionToolResult {
                tool_use_id: tool_use_id.clone(),
                content: content.clone(),
            },
        }
    }
}

/// One message of a conversation.
#[derive(Debug, PartialEq)]
pub struct Message {
    pub role: String,
    pub content: Vec<ContentBlock>,
}

/// The mathematical form of a [`Message`].
#[verifier::ext_equal]
pub struct MessageModel {
    pub role: Seq<char>,
    pub content: Seq<BlockModel>,
}

/// The models of a list of blocks.
pub open spec fn block_models(content: Seq<ContentBlock>) -> Seq<BlockModel> {
    content.map_values(|b: ContentBlock| b@)
}

impl View for Message {
    type V = MessageModel;

    open spec fn view(&self) -> MessageModel {
        MessageModel { role: self.role@, content: block_models(self.content@) }
    }
}

/// The models of a list of messages.
pub open spec fn conversation(messages: Seq<Message>) -> Seq<MessageModel> {
    messages.map_values(|m: Message| m@)
}

impl Clone for Message {
    fn clone(&self) -> (res: Self)
        ensures
            res@ == self@,
    {
        let mut content: Vec<ContentBlock> = Vec::new();
        let mut i: usize = 0;
        while i < self.content.len()
            invariant
                i <= self.content@.len(),
                content@.len() == i,
                forall|j: int| 0 <= j < i ==> (#[trigger] content@[j])@ == self.content@[j]@,
            decreases self.content@.len() - i,
        {
            content.push(self.content[i].clone());
            i += 1;
        }
        proof { assert(block_models(content@) =~= block_models(self.content@)); }
        Message { role: self.role.clone(), content }
    }
}

/// Copies a list of messages.
pub fn clone_messages(messages: &[Message]) -> (res: Vec<Message>)
    ensures
        conversation(res@) == conversation(messages@),
{
    let mut out: Vec<Message> = Vec::new();
    let mut i: usize = 0;
    while i < messages.len()
        invariant
            i <= messages@.len(),
            out@.len() == i,
            forall|j: int| 0 <= j < i ==> (#[trigger] out@[j])@ == messages@[j]@,
        decreases messages@.len() - i,
    {
        out.push(messages[i].clone());
        i += 1;
    }
    proof { assert(conversation(out@) =~= conversation(messages@)); }
    out
}

// ---------------------------------------------------------------------------
// System prompts
// ---------------------------------------------------------------------------

/// One block of a system prompt.
#[derive(Debug, PartialEq)]
pub struct SystemBlock {
    pub block_type: String,
    pub text: String,
    pub cache_control: Option<CacheControl>,
}

/// The mathematical form of a [`SystemBlock`].
pub struct SystemBlockModel {
    pub block_type: Seq<char>,
    pub text: Seq<char>,
    pub cache_control: Option<Seq<char>>,
}

impl View for SystemBlock {
    type V = SystemBlockModel;

    open spec fn view(&self) -> SystemBlockModel {
        SystemBlockModel {
            block_type: self.block_type@,
            text: self.text@,
            cache_control: cache_model(self.cache_control),
        }
    }
}

impl Clone for SystemBlock {
    fn clone(&self) -> (res: Self)
        ensures
            res@ == self@,
    {
        SystemBlock {
            block_type: self.block_type.clone(),
            text: self.text.clone(),
            cache_control: clone_cache(&self.cache_control),
        }
    }
}

/// A system prompt.
#[derive(Debug, PartialEq)]
pub enum SystemPrompt {
    Text(String),
    Blocks(Vec<SystemBlock>),
}

/// The mathematical form of a [`SystemPrompt`].
#[verifier::ext_equal]
pub enum SystemPromptModel {
    Text(Seq<char>),
    Blocks(Seq<SystemBlockModel>),
}

/// The models of a list of system blocks.
pub open spec fn system_block_models(blocks: Seq<SystemBlock>) -> Seq<SystemBlockModel> {
    blocks.map_values(|b: SystemBlock| b@)
}

impl View for SystemPrompt {
    type V = SystemPromptModel;

    open spec fn view(&self) -> SystemPromptModel {
        match *self {
            SystemPrompt::Text(t) => SystemPromptModel::Text(t@),
            SystemPrompt::Blocks(b) => SystemPromptModel::Blocks(system_block_models(b@)),
        }
    }
}

/// The model of an optional prompt.
pub open spec fn prompt_model(p: Option<SystemPrompt>) -> Option<SystemPromptModel> {
    match p {
        Some(p) => Some(p@),
        None => None,
    }
}

/// Copies a list of system blocks.
pub fn clone_system_blocks(blocks: &Vec<SystemBlock>) -> (res: Vec<SystemBlock>)
    ensures
        system_block_models(res@) == system_block_models(blocks@),
{
    let mut out: Vec<SystemBlock> = Vec::new();
    let mut i: usize = 0;
    while i < blocks.len()
        invariant
            i <= blocks@.len(),
            out@.len() == i,
            forall|j: int| 0 <= j < i ==> (#[trigger] out@[j])@ == blocks@[j]@,
        decreases blocks@.len() - i,
    {
        out.push(blocks[i].clone());
        i += 1;
    }
    proof { assert(system_block_models(out@) =~= system_block_models(blocks@)); }
    out
}

impl Clone for SystemPrompt {
    fn clone(&self) -> (res: Self)
        ensures
            res@ == self@,
    {
        match self {
            SystemPrompt::Text(t) => SystemPrompt::Text(t.clone()),
            SystemPrompt::Blocks(b) => SystemPrompt::Blocks(clone_system_blocks(b)),
        }
    }
}

// ---------------------------------------------------------------------------
// Requests
// ---------------------------------------------------------------------------

/// A request to a chat model. The sampling parameters are held in thousandths.
#[derive(Debug, PartialEq)]
pub struct MessageRequest {
    pub model: String,
    pub messages: Vec<Message>,
    pub max_tokens: u32,
    pub system: Option<SystemPrompt>,
    pub tools: Option<Vec<JsonValue>>,
    pub tool_choice: Option<JsonValue>,
    pub metadata: Option<JsonValue>,
    pub thinking: Option<JsonValue>,
    pub reasoning_effort: Option<String>,
    pub stream: Option<bool>,
    pub temperature_thousandths: Option<u32>,
    pub top_p_thousandths: Option<u32>,
}

/// The mathematical form of a [`MessageRequest`].
#[verifier::ext_equal]
pub struct MessageRequestModel {
    pub model: Seq<char>,
    pub messages: Seq<MessageModel>,
    pub max_tokens: u32,
    pub system: Option<SystemPromptModel>,
    pub tools: Option<Seq<JsonModel>>,
    pub tool_choice: Option<JsonModel>,
    pub metadata: Option<JsonModel>,
    pub thinking: Option<JsonModel>,
    pub reasoning_effort: Option<Seq<char>>,
    pub stream: Option<bool>,
    pub temperature_thousandths: Option<u32>,
    pub top_p_thousandths: Option<u32>,
}

/// The model of an optional value.
pub open spec fn opt_json_model(v: Option<JsonValue>) -> Option<JsonModel> {
    match v {
        Some(v) => Some(v@),
        None => None,
    }
}

impl View for MessageRequest {
    type V = MessageRequestModel;

    open spec fn view(&self) -> MessageRequestModel {
        MessageRequestModel {
            model: self.model@,
            messages: conversation(self.messages@),
            max_tokens: self.max_tokens,
            system: prompt_model(self.system),
            tools: json_list_model(self.tools),
            tool_choice: opt_json_model(self.tool_choice),
            metadata: opt_json_model(self.metadata),
            thinking: opt_json_model(self.thinking),
            reasoning_effort: opt_text(self.reasoning_effort),
            stream: self.stream,
            temperature_thousandths: self.temperature_thousandths,
            top_p_thousandths: self.top_p_thousandths,
        }
    }
}

// ---------------------------------------------------------------------------
// Context windows
// ---------------------------------------------------------------------------

/// The context window of a model, by its name in lower case.
pub open spec fn lowercase_context_window(lower: Seq<char>) -> Option<u32> {
    if !contains_text(lower, "deepseek"@) {
        None
    } else if contains_text(lower, "128k"@) {
        Some(LEGACY_MODEL_WINDOW)
    } else if contains_text(lower, "v4"@) {
        Some(LARGE_CONTEXT_MODEL_WINDOW)
    } else {
        Some(LEGACY_MODEL_WINDOW)
    }
}

/// The context window of a model, by its name.
pub open spec fn context_window(model: Seq<char>) -> Option<u32> {
    lowercase_context_window(unicode_lowercase(model))
}

/// The context window of a model in tokens, when the model is known.
pub fn context_window_for_model(model: &str) -> (res: Option<u32>)
    ensures
        res == context_window(model@),
{
    context_window_for_lowercase_model(to_lowercase(model).as_str())
}

/// The context window of a model in tokens, by its name in lower case.
pub fn context_window_for_lowercase_model(lower: &str) -> (res: Option<u32>)
    ensures
        res == lowercase_context_window(lower@),
{
    if !contains(lower, "deepseek") {
        None
    } else if contains(lower, "128k") {
        Some(LEGACY_MODEL_WINDOW)
    } else if contains(lower, "v4") {
        Some(LARGE_CONTEXT_MODEL_WINDOW)
    } else {
        Some(LEGACY_MODEL_WINDOW)
    }
}

/// The token count at which a model's conversation is due for compaction.
pub open spec fn compaction_threshold(model: Seq<char>) -> int {
    match context_window(model) {
        Some(window) => window as int * COMPACTION_THRESHOLD_PERCENT as int / 100,
        None => DEFAULT_COMPACTION_TOKEN_THRESHOLD as int,
    }
}

/// The compaction threshold of a model. Every reasoning effort shares the
/// model's threshold.
pub fn compaction_threshold_for_model_and_effort(model: &str, effort: Option<&str>) -> (res: usize)
    ensures
        res == compaction_threshold(model@),
{
    match context_window_for_model(model) {
        Some(window) => (window as usize) * COMPACTION_THRESHOLD_PERCENT / 100,
        None => DEFAULT_COMPACTION_TOKEN_THRESHOLD,
    }
}

} // verus!
