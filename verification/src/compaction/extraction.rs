//! What a conversation mentions: repository paths, tools and tasks.

use vstd::prelude::*;

use crate::compaction::pruning::truncate_chars;
use crate::json::{
    json_get, json_models, json_str, json_str_field, lemma_json_field_models, lemma_json_models,
    JsonModel, JsonValue,
};
use crate::models::{
    block_models, conversation, BlockModel, ContentBlock, Message, MessageModel,
};
use crate::paths::{
    has_char, normalize_path_candidate, strip_prefix, stripped_prefix, workspace_path,
    workspace_root, Workspace,
};
use crate::text::{
    contains, contains_text, first_chars, join, joined, list_has, opt_text, texts,
};

verus! {

/// The paths that a text can mention: well-known files by name, and relative
/// paths of a few file types. The two groups tell them apart.
pub const PATH_PATTERN: &'static str = r"(?x)
            (?:
                (?P<root>
                    Cargo\.toml|
                    Cargo\.lock|
                    README\.md|
                    CHANGELOG\.md|
                    AGENTS\.md|
                    config\.example\.toml
                )
            )
            |
            (?P<path>
                (?:[A-Za-z0-9._-]+/)+
                [A-Za-z0-9._-]+
                \.(?:rs|toml|md|json|ya?ml|txt|lock)
            )
        ";

// ---------------------------------------------------------------------------
// Paths in text
// ---------------------------------------------------------------------------

/// What two named groups captured in one match.
pub type CapturePair = (Option<String>, Option<String>);

/// The texts that two named groups captured in one match.
pub type CaptureTexts = (Option<Seq<char>>, Option<Seq<char>>);

/// The texts that the groups `first` and `second` capture in the successive
/// matches of a regular expression, or none where the expression is not valid.
pub uninterp spec fn named_captures(
    pattern: Seq<char>,
    first: Seq<char>,
    second: Seq<char>,
    text: Seq<char>,
) -> Option<Seq<(Option<Seq<char>>, Option<Seq<char>>)>>;

/// The texts of a list of captures.
pub open spec fn capture_texts(captures: Seq<CapturePair>) -> Seq<CaptureTexts> {
    captures.map_values(|c: CapturePair| (opt_text(c.0), opt_text(c.1)))
}

/// `regex::Regex::captures_iter`: the successive matches of `pattern` in
/// `text`, each with what the two named groups captured. The result is a
/// function of the pattern and the text.
#[verifier::external_body]
pub(crate) fn regex_captures(pattern: &str, first: &str, second: &str, text: &str) -> (res: Option<
    Vec<CapturePair>,
>)
    ensures
        match res {
            Some(captures) => named_captures(pattern@, first@, second@, text@) == Some(
                capture_texts(captures@),
            ),
            None => named_captures(pattern@, first@, second@, text@) is None,
        },
{
    let re = regex::Regex::new(pattern).ok()?;
    let found = re.captures_iter(text).map(|c| {
        (
            c.name(first).map(|m| m.as_str().to_string()),
            c.name(second).map(|m| m.as_str().to_string()),
        )
    });
    Some(found.collect())
}

/// The candidate of one match: what the first group captured, else what the
/// second captured.
pub open spec fn capture_candidate(capture: CaptureTexts) -> Option<Seq<char>> {
    if capture.0 is Some {
        capture.0
    } else {
        capture.1
    }
}

/// The normal forms of the candidates of a list of matches, in order.
pub open spec fn captured_paths(captures: Seq<CaptureTexts>, workspace: Option<&Workspace>) -> Seq<Seq<char>>
    decreases captures.len(),
{
    if captures.len() == 0 {
        Seq::empty()
    } else {
        let before = captured_paths(captures.drop_last(), workspace);
        match capture_candidate(captures.last()) {
            Some(candidate) => match workspace_path(candidate, workspace) {
                Some(path) => before.push(path),
                None => before,
            },
            None => before,
        }
    }
}

/// The paths that a text mentions, in the order of their mention.
pub open spec fn text_paths(text: Seq<char>, workspace: Option<&Workspace>) -> Seq<Seq<char>> {
    match named_captures(PATH_PATTERN@, "path"@, "root"@, text) {
        Some(captures) => captured_paths(captures, workspace),
        None => Seq::empty(),
    }
}

/// Appends a text to a list.
proof fn lemma_texts_push(list: Seq<String>, item: String)
    ensures
        texts(list.push(item)) =~= texts(list).push(item@),
{
}

/// The normal forms of the candidates of a list of matches.
pub fn paths_from_captures(captures: &Vec<CapturePair>, workspace: Option<&Workspace>) -> (res: Vec<
    String,
>)
    ensures
        texts(res@) == captured_paths(capture_texts(captures@), workspace),
{
    let ghost caps = capture_texts(captures@);
    let mut out: Vec<String> = Vec::new();
    let mut i: usize = 0;
    while i < captures.len()
        invariant
            i <= captures@.len() == caps.len(),
            caps == capture_texts(captures@),
            texts(out@) == captured_paths(caps.take(i as int), workspace),
        decreases captures@.len() - i,
    {
        proof {
            assert(caps.take(i + 1).drop_last() =~= caps.take(i as int));
            assert(caps[i as int] == (opt_text(captures@[i as int].0), opt_text(captures@[i as int].1)));
        }
        let candidate: Option<&String> = match &captures[i].0 {
            Some(path) => Some(path),
            None => match &captures[i].1 {
                Some(root) => Some(root),
                None => None,
            },
        };
        if let Some(candidate) = candidate {
            if let Some(path) = normalize_path_candidate(candidate.as_str(), workspace) {
                proof { lemma_texts_push(out@, path); }
                out.push(path);
            }
        }
        i += 1;
    }
    proof { assert(caps.take(i as int) =~= caps); }
    out
}

/// The paths that a text mentions.
pub fn extract_paths_from_text(text: &str, workspace: Option<&Workspace>) -> (res: Vec<String>)
    ensures
        texts(res@) == text_paths(text@, workspace),
{
    match regex_captures(PATH_PATTERN, "path", "root", text) {
        Some(captures) => paths_from_captures(&captures, workspace),
        None => {
            let out: Vec<String> = Vec::new();
            proof { assert(texts(out@) =~= Seq::empty()); }
            out
        },
    }
}

// ---------------------------------------------------------------------------
// Paths in tool inputs
// ---------------------------------------------------------------------------

/// `out` and the normal form of the text `value`, where it has one.
pub open spec fn with_candidate(
    out: Seq<Seq<char>>,
    value: Option<Seq<char>>,
    workspace: Option<&Workspace>,
) -> Seq<Seq<char>> {
    match value {
        Some(v) => match workspace_path(v, workspace) {
            Some(path) => out.push(path),
            None => out,
        },
        None => out,
    }
}

/// `out` and the path in the string field `key`.
pub open spec fn with_path_field(
    out: Seq<Seq<char>>,
    input: JsonModel,
    key: Seq<char>,
    workspace: Option<&Workspace>,
) -> Seq<Seq<char>> {
    with_candidate(out, json_str_field(input, key), workspace)
}

/// `out` and the paths among the first `n` of `items`.
pub open spec fn with_path_items(
    out: Seq<Seq<char>>,
    items: Seq<JsonModel>,
    workspace: Option<&Workspace>,
) -> Seq<Seq<char>>
    decreases items.len(),
{
    if items.len() == 0 {
        out
    } else {
        with_candidate(
            with_path_items(out, items.drop_last(), workspace),
            json_str(items.last()),
            workspace,
        )
    }
}

/// `out` and the paths in the array field `key`.
pub open spec fn with_path_list(
    out: Seq<Seq<char>>,
    input: JsonModel,
    key: Seq<char>,
    workspace: Option<&Workspace>,
) -> Seq<Seq<char>> {
    match json_get(input, key) {
        Some(JsonModel::Array(items)) => with_path_items(out, items, workspace),
        _ => out,
    }
}

/// The paths in the fields of a tool input that are known to hold paths.
pub open spec fn tool_input_paths(input: JsonModel, workspace: Option<&Workspace>) -> Seq<Seq<char>> {
    let a = with_path_field(Seq::empty(), input, "path"@, workspace);
    let b = with_path_field(a, input, "file"@, workspace);
    let c = with_path_field(b, input, "target"@, workspace);
    let d = with_path_field(c, input, "cwd"@, workspace);
    let e = with_path_list(d, input, "paths"@, workspace);
    let f = with_path_list(e, input, "files"@, workspace);
    with_path_list(f, input, "targets"@, workspace)
}

fn push_candidate(out: &mut Vec<String>, value: Option<&str>, workspace: Option<&Workspace>)
    ensures
        texts(final(out)@) == with_candidate(
            texts(old(out)@),
            match value {
                Some(v) => Some(v@),
                None => None,
            },
            workspace,
        ),
{
    if let Some(value) = value {
        if let Some(path) = normalize_path_candidate(value, workspace) {
            proof { lemma_texts_push(out@, path); }
            out.push(path);
        }
    }
}

fn push_path_list(out: &mut Vec<String>, input: &JsonValue, key: &str, workspace: Option<&Workspace>)
    ensures
        texts(final(out)@) == with_path_list(texts(old(out)@), input@, key@, workspace),
{
    match input.get(key) {
        Some(JsonValue::Array(items)) => {
            let ghost models = json_models(items@);
            let ghost before = texts(out@);
            proof { lemma_json_models(items@); }
            let mut i: usize = 0;
            while i < items.len()
                invariant
                    i <= items@.len() == models.len(),
                    forall|j: int| 0 <= j < items@.len() ==> #[trigger] models[j] == items@[j]@,
                    texts(out@) == with_path_items(before, models.take(i as int), workspace),
                decreases items@.len() - i,
            {
                proof { assert(models.take(i + 1).drop_last() =~= models.take(i as int)); }
                push_candidate(out, items[i].as_str(), workspace);
                i += 1;
            }
            proof { assert(models.take(i as int) =~= models); }
        },
        _ => {},
    }
}

/// The paths in the fields of a tool input that are known to hold paths.
pub fn extract_paths_from_tool_input(input: &JsonValue, workspace: Option<&Workspace>) -> (res: Vec<
    String,
>)
    ensures
        texts(res@) == tool_input_paths(input@, workspace),
{
    let mut out: Vec<String> = Vec::new();
    proof { assert(texts(out@) =~= Seq::empty()); }
    push_candidate(&mut out, input.str_field("path"), workspace);
    push_candidate(&mut out, input.str_field("file"), workspace);
    push_candidate(&mut out, input.str_field("target"), workspace);
    push_candidate(&mut out, input.str_field("cwd"), workspace);
    push_path_list(&mut out, input, "paths", workspace);
    push_path_list(&mut out, input, "files", workspace);
    push_path_list(&mut out, input, "targets", workspace);
    out
}

// ---------------------------------------------------------------------------
// Paths in messages
// ---------------------------------------------------------------------------

/// The paths that one block mentions.
pub open spec fn block_paths(block: BlockModel, workspace: Option<&Workspace>) -> Seq<Seq<char>> {
    match block {
        BlockModel::Text { text, .. } => text_paths(text, workspace),
        BlockModel::ToolResult { content, .. } => text_paths(content, workspace),
        BlockModel::ToolUse { input, .. } => tool_input_paths(input, workspace),
        _ => Seq::empty(),
    }
}

/// The paths that a list of blocks mentions.
pub open spec fn blocks_paths(blocks: Seq<BlockModel>, workspace: Option<&Workspace>) -> Seq<Seq<char>>
    decreases blocks.len(),
{
    if blocks.len() == 0 {
        Seq::empty()
    } else {
        blocks_paths(blocks.drop_last(), workspace) + block_paths(blocks.last(), workspace)
    }
}

/// The paths that a message mentions, in the order of their mention.
pub open spec fn message_paths(message: MessageModel, workspace: Option<&Workspace>) -> Seq<Seq<char>> {
    blocks_paths(message.content, workspace)
}

/// Appends one list of strings to another.
pub(crate) fn append_strings(out: &mut Vec<String>, more: Vec<String>)
    ensures
        texts(final(out)@) == texts(old(out)@) + texts(more@),
{
    let ghost before = out@;
    let ghost added = more@;
    let mut more = more;
    out.append(&mut more);
    proof { assert(texts(out@) =~= texts(before) + texts(added)); }
}

/// The paths that a message mentions.
pub fn extract_paths_from_message(message: &Message, workspace: Option<&Workspace>) -> (res: Vec<
    String,
>)
    ensures
        texts(res@) == message_paths(message@, workspace),
{
    let ghost models = block_models(message.content@);
    let mut paths: Vec<String> = Vec::new();
    proof { assert(texts(paths@) =~= blocks_paths(models.take(0), workspace)); }
    let mut i: usize = 0;
    while i < message.content.len()
        invariant
            i <= message.content@.len() == models.len(),
            models == block_models(message.content@),
            texts(paths@) == blocks_paths(models.take(i as int), workspace),
        decreases message.content@.len() - i,
    {
        let empty: Vec<String> = Vec::new();
        proof {
            assert(texts(empty@) =~= Seq::empty());
            assert(models.take(i + 1).drop_last() =~= models.take(i as int));
        }
        let candidates = match &message.content[i] {
            ContentBlock::Text { text, .. } => extract_paths_from_text(text.as_str(), workspace),
            ContentBlock::ToolResult { content, .. } => extract_paths_from_text(
                content.as_str(),
                workspace,
            ),
            ContentBlock::ToolUse { input, .. } => extract_paths_from_tool_input(input, workspace),
            _ => empty,
        };
        proof { assert(texts(candidates@) == block_paths(models[i as int], workspace)); }
        append_strings(&mut paths, candidates);
        i += 1;
    }
    proof { assert(models.take(i as int) =~= models); }
    paths
}

// ---------------------------------------------------------------------------
// Workflow context
// ---------------------------------------------------------------------------

/// A text that could be a path: it holds a slash, a backslash or a dot.
pub open spec fn reads_as_path(s: Seq<char>) -> bool {
    s.contains('/') || s.contains('\\') || s.contains('.')
}

/// The first string among the values of `fields` that reads as a path.
pub open spec fn first_path_value(fields: Seq<(Seq<char>, JsonModel)>) -> Option<Seq<char>>
    decreases fields.len(),
{
    if fields.len() == 0 {
        None
    } else {
        match json_str(fields[0].1) {
            Some(s) => if reads_as_path(s) {
                Some(s)
            } else {
                first_path_value(fields.skip(1))
            },
            None => first_path_value(fields.skip(1)),
        }
    }
}

/// The file that a tool input is about: the first of the usual path fields that
/// holds a string, else the first field whose string reads as a path.
pub open spec fn input_path(input: JsonModel) -> Option<Seq<char>> {
    if json_str_field(input, "path"@) is Some {
        json_str_field(input, "path"@)
    } else if json_str_field(input, "file"@) is Some {
        json_str_field(input, "file"@)
    } else if json_str_field(input, "file_path"@) is Some {
        json_str_field(input, "file_path"@)
    } else if json_str_field(input, "filename"@) is Some {
        json_str_field(input, "filename"@)
    } else {
        match input {
            JsonModel::Object(fields) => first_path_value(fields),
            _ => None,
        }
    }
}

/// Extract file path from tool input JSON
pub fn extract_path_from_input(input: &JsonValue) -> (res: Option<String>)
    ensures
        opt_text(res) == input_path(input@),
{
    if let Some(path) = input.str_field("path") {
        return Some(path.to_owned());
    }
    if let Some(path) = input.str_field("file") {
        return Some(path.to_owned());
    }
    if let Some(path) = input.str_field("file_path") {
        return Some(path.to_owned());
    }
    if let Some(path) = input.str_field("filename") {
        return Some(path.to_owned());
    }
    match input {
        JsonValue::Object(fields) => {
            let ghost models = crate::json::json_field_models(fields@);
            proof {
                lemma_json_field_models(fields@);
                assert(models.skip(0) =~= models);
            }
            let mut i: usize = 0;
            while i < fields.len()
                invariant
                    i <= fields@.len() == models.len(),
                    forall|j: int|
                        0 <= j < fields@.len() ==> #[trigger] models[j] == (
                            fields@[j].0@,
                            fields@[j].1@,
                        ),
                    first_path_value(models) == first_path_value(models.skip(i as int)),
                    input_path(input@) == first_path_value(models),
                decreases fields@.len() - i,
            {
                proof {
                    assert(models.skip(i as int).skip(1) =~= models.skip(i + 1));
                    assert(models.skip(i as int)[0] == models[i as int]);
                }
                if let Some(s) = fields[i].1.as_str() {
                    if has_char(s, '/') || has_char(s, '\\') || has_char(s, '.') {
                        return Some(s.to_owned());
                    }
                }
                i += 1;
            }
            None
        },
        _ => None,
    }
}

/// What a conversation touched: files, tools and tasks, in the order of their
/// first mention. A file and a task are listed once; a tool as often as it was
/// used.
#[verifier::ext_equal]
pub struct WorkflowFacts {
    pub files: Seq<Seq<char>>,
    pub tools: Seq<Seq<char>>,
    pub tasks: Seq<Seq<char>>,
}

/// `list` and `item`, unless `list` holds it already.
pub open spec fn with_new(list: Seq<Seq<char>>, item: Seq<char>) -> Seq<Seq<char>> {
    if list.contains(item) {
        list
    } else {
        list.push(item)
    }
}

/// A text that speaks of work to be done.
pub open spec fn mentions_task(text: Seq<char>) -> bool {
    contains_text(text, "TODO"@) || contains_text(text, "task"@) || contains_text(text, "need to"@)
}

/// `facts` and what one block adds to them.
pub open spec fn with_block_facts(facts: WorkflowFacts, block: BlockModel) -> WorkflowFacts {
    match block {
        BlockModel::ToolUse { name, input, .. } => WorkflowFacts {
            tools: facts.tools.push(name),
            files: match input_path(input) {
                Some(path) => with_new(facts.files, path),
                None => facts.files,
            },
            tasks: facts.tasks,
        },
        BlockModel::Text { text, .. } => if mentions_task(text) {
            WorkflowFacts { tasks: with_new(facts.tasks, first_chars(text, 200)), ..facts }
        } else {
            facts
        },
        _ => facts,
    }
}

/// `facts` and what a list of blocks adds to them.
pub open spec fn with_blocks_facts(facts: WorkflowFacts, blocks: Seq<BlockModel>) -> WorkflowFacts
    decreases blocks.len(),
{
    if blocks.len() == 0 {
        facts
    } else {
        with_block_facts(with_blocks_facts(facts, blocks.drop_last()), blocks.last())
    }
}

/// What a conversation touched.
pub open spec fn workflow_facts(messages: Seq<MessageModel>) -> WorkflowFacts
    decreases messages.len(),
{
    if messages.len() == 0 {
        WorkflowFacts { files: Seq::empty(), tools: Seq::empty(), tasks: Seq::empty() }
    } else {
        with_blocks_facts(workflow_facts(messages.drop_last()), messages.last().content)
    }
}

/// A file as it is shown: relative to the workspace where it lies below it.
pub open spec fn shown_file(file: Seq<char>, root: Option<Seq<char>>) -> Seq<char> {
    match root {
        Some(root) => match stripped_prefix(file, root) {
            Some(rel) => rel,
            None => file,
        },
        None => file,
    }
}

/// The list of files, one a line.
pub open spec fn file_lines(files: Seq<Seq<char>>, root: Option<Seq<char>>) -> Seq<char>
    decreases files.len(),
{
    if files.len() == 0 {
        Seq::empty()
    } else {
        file_lines(files.drop_last(), root) + ("- `"@ + shown_file(files.last(), root) + "`\n"@)
    }
}

/// The list of tasks, one a line.
pub open spec fn bullet_lines(items: Seq<Seq<char>>) -> Seq<char>
    decreases items.len(),
{
    if items.len() == 0 {
        Seq::empty()
    } else {
        bullet_lines(items.drop_last()) + ("- "@ + items.last() + "\n"@)
    }
}

/// The workflow context as text.
pub open spec fn workflow_text(facts: WorkflowFacts, root: Option<Seq<char>>) -> Seq<char> {
    let files = if facts.files.len() == 0 {
        Seq::empty()
    } else {
        "**Files Modified/Read:**\n"@ + file_lines(facts.files, root) + "\n"@
    };
    let tools = if facts.tools.len() == 0 {
        Seq::empty()
    } else {
        "**Tools Used:** "@ + joined(facts.tools, ", "@) + "\n\n"@
    };
    let tasks = if facts.tasks.len() == 0 {
        Seq::empty()
    } else {
        "**Tasks/TODOs Identified:**\n"@ + bullet_lines(facts.tasks) + "\n"@
    };
    if facts.files.len() == 0 && facts.tools.len() == 0 && facts.tasks.len() == 0 {
        "No specific workflow context detected. Continue assisting the user with their current task.\n"@
    } else {
        files + tools + tasks
    }
}

fn push_new(list: &mut Vec<String>, item: String)
    ensures
        texts(final(list)@) == with_new(texts(old(list)@), item@),
{
    if !list_has(list, item.as_str()) {
        proof { lemma_texts_push(list@, item); }
        list.push(item);
    }
}

/// Extract workflow context from messages (files touched, tasks, etc.)
pub fn extract_workflow_context(messages: &[Message], workspace: Option<&Workspace>) -> (res: String)
    ensures
        res@ == workflow_text(workflow_facts(conversation(messages@)), workspace_root(workspace)),
{
    let ghost models = conversation(messages@);
    let mut files_touched: Vec<String> = Vec::new();
    let mut tools_used: Vec<String> = Vec::new();
    let mut tasks_identified: Vec<String> = Vec::new();
    proof {
        assert(texts(files_touched@) =~= Seq::empty());
        assert(texts(tools_used@) =~= Seq::empty());
        assert(texts(tasks_identified@) =~= Seq::empty());
    }
    let mut m: usize = 0;
    while m < messages.len()
        invariant
            m <= messages@.len() == models.len(),
            models == conversation(messages@),
            workflow_facts(models.take(m as int)) == (WorkflowFacts {
                files: texts(files_touched@),
                tools: texts(tools_used@),
                tasks: texts(tasks_identified@),
            }),
        decreases messages@.len() - m,
    {
        let message = &messages[m];
        let ghost blocks = block_models(message.content@);
        let ghost before = workflow_facts(models.take(m as int));
        proof {
            assert(models.take(m + 1).drop_last() =~= models.take(m as int));
            assert(models[m as int] == message@);
            assert(blocks.take(0) =~= Seq::empty());
        }
        let mut b: usize = 0;
        while b < message.content.len()
            invariant
                b <= message.content@.len() == blocks.len(),
                blocks == block_models(message.content@),
                with_blocks_facts(before, blocks.take(b as int)) == (WorkflowFacts {
                    files: texts(files_touched@),
                    tools: texts(tools_used@),
                    tasks: texts(tasks_identified@),
                }),
            decreases message.content@.len() - b,
        {
            proof { assert(blocks.take(b + 1).drop_last() =~= blocks.take(b as int)); }
            match &message.content[b] {
                ContentBlock::ToolUse { name, input, .. } => {
                    let used = name.clone();
                    proof { lemma_texts_push(tools_used@, used); }
                    tools_used.push(used);
                    if let Some(path) = extract_path_from_input(input) {
                        push_new(&mut files_touched, path);
                    }
                },
                ContentBlock::Text { text, .. } => {
                    let t = text.as_str();
                    if contains(t, "TODO") || contains(t, "task") || contains(t, "need to") {
                        push_new(&mut tasks_identified, truncate_chars(t, 200).to_owned());
                    }
                },
                _ => {},
            }
            b += 1;
        }
        proof { assert(blocks.take(b as int) =~= blocks); }
        m += 1;
    }
    proof { assert(models.take(m as int) =~= models); }
    render_workflow(&files_touched, &tools_used, &tasks_identified, workspace)
}

fn render_workflow(
    files: &Vec<String>,
    tools: &Vec<String>,
    tasks: &Vec<String>,
    workspace: Option<&Workspace>,
) -> (res: String)
    ensures
        res@ == workflow_text(
            (WorkflowFacts { files: texts(files@), tools: texts(tools@), tasks: texts(tasks@) }),
            workspace_root(workspace),
        ),
{
    let ghost root = workspace_root(workspace);
    if files.is_empty() && tools.is_empty() && tasks.is_empty() {
        return "No specific workflow context detected. Continue assisting the user with their current task.\n".to_owned();
    }
    let mut context = String::new();
    if !files.is_empty() {
        context.append("**Files Modified/Read:**\n");
        let ghost start = context@;
        let mut i: usize = 0;
        proof { assert(texts(files@).take(0) =~= Seq::empty()); }
        while i < files.len()
            invariant
                i <= files@.len(),
                root == workspace_root(workspace),
                context@ == start + file_lines(texts(files@).take(i as int), root),
            decreases files@.len() - i,
        {
            proof {
                assert(texts(files@).take(i + 1).drop_last() =~= texts(files@).take(i as int));
            }
            let shown = match workspace {
                Some(w) => match strip_prefix(files[i].as_str(), w.root.as_str()) {
                    Some(rel) => rel,
                    None => files[i].clone(),
                },
                None => files[i].clone(),
            };
            context.append("- `");
            context.append(shown.as_str());
            context.append("`\n");
            proof {
                assert(context@ =~= start + (file_lines(texts(files@).take(i as int), root) + (
                "- `"@ + shown@ + "`\n"@)));
            }
            i += 1;
        }
        proof { assert(texts(files@).take(i as int) =~= texts(files@)); }
        context.append("\n");
    }
    let ghost after_files = context@;
    if !tools.is_empty() {
        context.append("**Tools Used:** ");
        let names = join(tools, ", ");
        context.append(names.as_str());
        context.append("\n\n");
        proof {
            assert(context@ =~= after_files + ("**Tools Used:** "@ + joined(texts(tools@), ", "@)
                + "\n\n"@));
        }
    }
    let ghost after_tools = context@;
    if !tasks.is_empty() {
        context.append("**Tasks/TODOs Identified:**\n");
        let ghost start = context@;
        append_bullets(&mut context, tasks);
        context.append("\n");
        proof {
            assert(context@ =~= after_tools + ("**Tasks/TODOs Identified:**\n"@ + bullet_lines(
                texts(tasks@),
            ) + "\n"@));
        }
    }
    proof {
        assert(context@ =~= workflow_text(
            (WorkflowFacts { files: texts(files@), tools: texts(tools@), tasks: texts(tasks@) }),
            root,
        ));
    }
    context
}

/// Appends a list of items, one a line.
pub(crate) fn append_bullets(out: &mut String, items: &Vec<String>)
    ensures
        final(out)@ == old(out)@ + bullet_lines(texts(items@)),
{
    let ghost start = out@;
    let mut i: usize = 0;
    proof {
        assert(texts(items@).take(0) =~= Seq::empty());
        assert(out@ =~= start + bullet_lines(texts(items@).take(0)));
    }
    while i < items.len()
        invariant
            i <= items@.len(),
            out@ == start + bullet_lines(texts(items@).take(i as int)),
        decreases items@.len() - i,
    {
        proof {
            assert(texts(items@).take(i + 1).drop_last() =~= texts(items@).take(i as int));
        }
        out.append("- ");
        out.append(items[i].as_str());
        out.append("\n");
        proof {
            assert(out@ =~= start + (bullet_lines(texts(items@).take(i as int)) + ("- "@
                + items@[i as int]@ + "\n"@)));
        }
        i += 1;
    }
    proof { assert(texts(items@).take(i as int) =~= texts(items@)); }
}

} // verus!
