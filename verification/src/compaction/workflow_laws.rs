//! What the workflow context of a summary holds, told from the messages.

use vstd::prelude::*;

use crate::compaction::extraction::{
    bullet_lines, file_lines, first_path_value, input_path, shown_file, with_block_facts,
    with_blocks_facts, with_new, workflow_facts, workflow_text, WorkflowFacts,
};
use crate::compaction::request_laws::{lemma_contains_in_part, lemma_contains_middle};
use crate::json::{json_str, json_str_field, JsonModel};
use crate::models::{BlockModel, MessageModel};
use crate::text::{contains_text, first_chars, joined};

verus! {

// ---------------------------------------------------------------------------
// Files of calls
// ---------------------------------------------------------------------------

/// The fields of a tool input that usually name a file, in the order in which
/// they are asked.
pub open spec fn file_fields() -> Seq<Seq<char>> {
    seq!["path"@, "file"@, "file_path"@, "filename"@]
}

/// The first of the usual fields that holds a string names the file.
pub proof fn usual_fields_name_the_file(input: JsonModel, k: int)
    requires
        0 <= k < 4,
        json_str_field(input, file_fields()[k]) is Some,
        forall|j: int| 0 <= j < k ==> json_str_field(input, #[trigger] file_fields()[j]) is None,
    ensures
        input_path(input) == json_str_field(input, file_fields()[k]),
{
    let names = file_fields();
    assert(names[0] == "path"@ && names[1] == "file"@ && names[2] == "file_path"@ && names[3]
        == "filename"@);
}

/// Where none of the usual fields holds a string, the first field does whose
/// string holds a slash, a backslash or a dot.
pub proof fn other_fields_name_the_file(input: JsonModel, fields: Seq<(Seq<char>, JsonModel)>, k: int)
    requires
        forall|j: int| 0 <= j < 4 ==> json_str_field(input, #[trigger] file_fields()[j]) is None,
        input == JsonModel::Object(fields),
        0 <= k < fields.len(),
        forall|j: int|
            0 <= j < k ==> (json_str((#[trigger] fields[j]).1) matches Some(s) ==> !s.contains('/')
                && !s.contains('\\') && !s.contains('.')),
        json_str(fields[k].1) matches Some(s) && (s.contains('/') || s.contains('\\')
            || s.contains('.')),
    ensures
        input_path(input) == json_str(fields[k].1),
{
    let names = file_fields();
    assert(names[0] == "path"@ && names[1] == "file"@ && names[2] == "file_path"@ && names[3]
        == "filename"@);
    lemma_first_path_value(fields, k);
}

proof fn lemma_first_path_value(fields: Seq<(Seq<char>, JsonModel)>, k: int)
    requires
        0 <= k < fields.len(),
        forall|j: int|
            0 <= j < k ==> (json_str((#[trigger] fields[j]).1) matches Some(s) ==> !s.contains('/')
                && !s.contains('\\') && !s.contains('.')),
        json_str(fields[k].1) matches Some(s) && (s.contains('/') || s.contains('\\')
            || s.contains('.')),
    ensures
        first_path_value(fields) == json_str(fields[k].1),
    decreases k,
{
    if k > 0 {
        let rest = fields.skip(1);
        assert forall|j: int| 0 <= j < k - 1 implies (json_str((#[trigger] rest[j]).1) matches Some(
            s,
        ) ==> !s.contains('/') && !s.contains('\\') && !s.contains('.')) by {
            assert(rest[j] == fields[j + 1]);
        }
        assert(rest[k - 1] == fields[k]);
        assert(fields[0] == fields[0]);
        lemma_first_path_value(rest, k - 1);
    }
}

// ---------------------------------------------------------------------------
// Facts
// ---------------------------------------------------------------------------

/// Block `k` of message `i` calls a tool on this path.
pub open spec fn works_on(messages: Seq<MessageModel>, i: int, k: int, file: Seq<char>) -> bool {
    &&& 0 <= i < messages.len()
    &&& 0 <= k < messages[i].content.len()
    &&& messages[i].content[k] matches BlockModel::ToolUse { input, .. } && input_path(input)
        == Some(file)
}

/// Block `k` of message `i` is a text that speaks of work to do: it holds one of
/// the words, and `task` is its beginning.
pub open spec fn speaks_of(messages: Seq<MessageModel>, i: int, k: int, task: Seq<char>) -> bool {
    &&& 0 <= i < messages.len()
    &&& 0 <= k < messages[i].content.len()
    &&& messages[i].content[k] matches BlockModel::Text { text, .. } && (contains_text(
        text,
        "TODO"@,
    ) || contains_text(text, "task"@) || contains_text(text, "need to"@)) && task == first_chars(
        text,
        200,
    )
}

/// Block `k` of message `i` calls this tool.
pub open spec fn uses_tool(messages: Seq<MessageModel>, i: int, k: int, tool: Seq<char>) -> bool {
    &&& 0 <= i < messages.len()
    &&& 0 <= k < messages[i].content.len()
    &&& messages[i].content[k] matches BlockModel::ToolUse { name, .. } && name == tool
}

proof fn lemma_new_item(list: Seq<Seq<char>>, item: Seq<char>)
    ensures
        with_new(list, item).contains(item),
        forall|x: Seq<char>| list.contains(x) ==> #[trigger] with_new(list, item).contains(x),
        forall|x: Seq<char>|
            #[trigger] with_new(list, item).contains(x) ==> list.contains(x) || x == item,
        list.no_duplicates() ==> with_new(list, item).no_duplicates(),
        with_new(list, item).len() >= list.len(),
        with_new(list, item).take(list.len() as int) == list,
{
    let all = with_new(list, item);
    if !list.contains(item) {
        assert(all[list.len() as int] == item);
        assert forall|x: Seq<char>| list.contains(x) implies #[trigger] all.contains(x) by {
            let k = choose|k: int| 0 <= k < list.len() && list[k] == x;
            assert(all[k] == x);
        }
    }
    assert(all.take(list.len() as int) =~= list);
}

/// What stays in the facts when blocks are added: the lists only grow.
spec fn grows(a: WorkflowFacts, b: WorkflowFacts) -> bool {
    &&& a.files.len() <= b.files.len() && b.files.take(a.files.len() as int) == a.files
    &&& a.tools.len() <= b.tools.len() && b.tools.take(a.tools.len() as int) == a.tools
    &&& a.tasks.len() <= b.tasks.len() && b.tasks.take(a.tasks.len() as int) == a.tasks
}

proof fn lemma_grown_contains(a: Seq<Seq<char>>, b: Seq<Seq<char>>, x: Seq<char>)
    requires
        a.len() <= b.len(),
        b.take(a.len() as int) == a,
        a.contains(x),
    ensures
        b.contains(x),
{
    let k = choose|k: int| 0 <= k < a.len() && a[k] == x;
    assert(b[k] == b.take(a.len() as int)[k]);
}

proof fn lemma_grows_on(a: WorkflowFacts, b: WorkflowFacts, c: WorkflowFacts)
    requires
        grows(a, b),
        grows(b, c),
    ensures
        grows(a, c),
{
    assert(c.files.take(a.files.len() as int) =~= b.files.take(a.files.len() as int));
    assert(c.tools.take(a.tools.len() as int) =~= b.tools.take(a.tools.len() as int));
    assert(c.tasks.take(a.tasks.len() as int) =~= b.tasks.take(a.tasks.len() as int));
}

proof fn lemma_block_grows(facts: WorkflowFacts, block: BlockModel)
    ensures
        grows(facts, with_block_facts(facts, block)),
        facts.files.no_duplicates() ==> with_block_facts(facts, block).files.no_duplicates(),
        facts.tasks.no_duplicates() ==> with_block_facts(facts, block).tasks.no_duplicates(),
{
    let all = with_block_facts(facts, block);
    match block {
        BlockModel::ToolUse { name, input, .. } => {
            if let Some(path) = input_path(input) {
                lemma_new_item(facts.files, path);
            }
        },
        BlockModel::Text { text, .. } => {
            lemma_new_item(facts.tasks, first_chars(text, 200));
        },
        _ => {},
    }
    assert(all.files.take(facts.files.len() as int) =~= facts.files);
    assert(all.tools.take(facts.tools.len() as int) =~= facts.tools);
    assert(all.tasks.take(facts.tasks.len() as int) =~= facts.tasks);
}

proof fn lemma_blocks_grow(facts: WorkflowFacts, blocks: Seq<BlockModel>)
    ensures
        grows(facts, with_blocks_facts(facts, blocks)),
        facts.files.no_duplicates() ==> with_blocks_facts(facts, blocks).files.no_duplicates(),
        facts.tasks.no_duplicates() ==> with_blocks_facts(facts, blocks).tasks.no_duplicates(),
    decreases blocks.len(),
{
    if blocks.len() == 0 {
        assert(facts.files.take(facts.files.len() as int) =~= facts.files);
        assert(facts.tools.take(facts.tools.len() as int) =~= facts.tools);
        assert(facts.tasks.take(facts.tasks.len() as int) =~= facts.tasks);
    } else {
        let before = with_blocks_facts(facts, blocks.drop_last());
        lemma_blocks_grow(facts, blocks.drop_last());
        lemma_block_grows(before, blocks.last());
        lemma_grows_on(facts, before, with_blocks_facts(facts, blocks));
    }
}

proof fn lemma_block_found(facts: WorkflowFacts, blocks: Seq<BlockModel>, k: int)
    requires
        0 <= k < blocks.len(),
    ensures
        grows(
            with_block_facts(with_blocks_facts(facts, blocks.take(k)), blocks[k]),
            with_blocks_facts(facts, blocks),
        ),
    decreases blocks.len(),
{
    let mid = with_block_facts(with_blocks_facts(facts, blocks.take(k)), blocks[k]);
    if k == blocks.len() - 1 {
        assert(blocks.take(k) =~= blocks.drop_last());
        lemma_blocks_grow(mid, Seq::empty());
    } else {
        let front = blocks.drop_last();
        lemma_block_found(facts, front, k);
        assert(front.take(k) =~= blocks.take(k));
        let before = with_blocks_facts(facts, front);
        lemma_block_grows(before, blocks.last());
        lemma_grows_on(mid, before, with_blocks_facts(facts, blocks));
    }
}

proof fn lemma_messages_grow(messages: Seq<MessageModel>, n: int)
    requires
        0 <= n <= messages.len(),
    ensures
        grows(workflow_facts(messages.take(n)), workflow_facts(messages)),
        workflow_facts(messages).files.no_duplicates(),
        workflow_facts(messages).tasks.no_duplicates(),
    decreases messages.len(),
{
    if messages.len() == 0 {
        assert(messages.take(n) =~= messages);
        lemma_blocks_grow(workflow_facts(messages), Seq::empty());
    } else {
        let front = messages.drop_last();
        let before = workflow_facts(front);
        lemma_blocks_grow(before, messages.last().content);
        if n < messages.len() {
            lemma_messages_grow(front, n);
            assert(front.take(n) =~= messages.take(n));
            lemma_grows_on(workflow_facts(messages.take(n)), before, workflow_facts(messages));
        } else {
            lemma_messages_grow(front, front.len() as int);
            assert(messages.take(n) =~= messages);
            lemma_blocks_grow(workflow_facts(messages), Seq::empty());
        }
    }
}

/// Every file that a call is about, every tool that is called and every task
/// that a text speaks of is in the lists. A file and a task are there once.
pub proof fn everything_touched_is_listed(
    messages: Seq<MessageModel>,
    i: int,
    k: int,
    x: Seq<char>,
)
    ensures
        works_on(messages, i, k, x) ==> workflow_facts(messages).files.contains(x),
        uses_tool(messages, i, k, x) ==> workflow_facts(messages).tools.contains(x),
        speaks_of(messages, i, k, x) ==> workflow_facts(messages).tasks.contains(x),
        workflow_facts(messages).files.no_duplicates(),
        workflow_facts(messages).tasks.no_duplicates(),
{
    lemma_messages_grow(messages, messages.len() as int);
    if 0 <= i < messages.len() && 0 <= k < messages[i].content.len() {
        let all = workflow_facts(messages);
        let blocks = messages[i].content;
        let before = workflow_facts(messages.take(i));
        let mid = with_block_facts(with_blocks_facts(before, blocks.take(k)), blocks[k]);
        lemma_block_found(before, blocks, k);
        let upto = messages.take(i + 1);
        assert(upto.drop_last() =~= messages.take(i));
        assert(upto.last() == messages[i]);
        lemma_messages_grow(messages, i + 1);
        lemma_grows_on(mid, workflow_facts(upto), all);
        let held = with_blocks_facts(before, blocks.take(k));
        match blocks[k] {
            BlockModel::ToolUse { name, input, .. } => {
                assert(mid.tools[held.tools.len() as int] == name);
                lemma_grown_contains(mid.tools, all.tools, name);
                if let Some(path) = input_path(input) {
                    lemma_new_item(held.files, path);
                    lemma_grown_contains(mid.files, all.files, path);
                }
            },
            BlockModel::Text { text, .. } => {
                if contains_text(text, "TODO"@) || contains_text(text, "task"@) || contains_text(
                    text,
                    "need to"@,
                ) {
                    lemma_new_item(held.tasks, first_chars(text, 200));
                    lemma_grown_contains(mid.tasks, all.tasks, first_chars(text, 200));
                }
            },
            _ => {},
        }
    }
}

spec fn comes_from(messages: Seq<MessageModel>, facts: WorkflowFacts) -> bool {
    &&& forall|x: Seq<char>| #[trigger]
        facts.files.contains(x) ==> exists|i: int, k: int| #[trigger] works_on(messages, i, k, x)
    &&& forall|x: Seq<char>| #[trigger]
        facts.tools.contains(x) ==> exists|i: int, k: int| #[trigger] uses_tool(messages, i, k, x)
    &&& forall|x: Seq<char>| #[trigger]
        facts.tasks.contains(x) ==> exists|i: int, k: int| #[trigger] speaks_of(messages, i, k, x)
}

proof fn lemma_blocks_come_from(
    messages: Seq<MessageModel>,
    facts: WorkflowFacts,
    i: int,
    n: int,
)
    requires
        comes_from(messages, facts),
        0 <= i < messages.len(),
        0 <= n <= messages[i].content.len(),
    ensures
        comes_from(messages, with_blocks_facts(facts, messages[i].content.take(n))),
    decreases n,
{
    if n > 0 {
        let blocks = messages[i].content.take(n);
        lemma_blocks_come_from(messages, facts, i, n - 1);
        assert(blocks.drop_last() =~= messages[i].content.take(n - 1));
        let held = with_blocks_facts(facts, blocks.drop_last());
        let all = with_blocks_facts(facts, blocks);
        let k = n - 1;
        assert(blocks.last() == messages[i].content[k]);
        match messages[i].content[k] {
            BlockModel::ToolUse { name, input, .. } => {
                assert(uses_tool(messages, i, k, name));
                assert forall|x: Seq<char>| #[trigger] all.tools.contains(x) implies exists|
                    i: int,
                    k: int,
                | #[trigger] uses_tool(messages, i, k, x) by {
                    let j = choose|j: int| 0 <= j < all.tools.len() && all.tools[j] == x;
                    if j < held.tools.len() {
                        assert(held.tools[j] == x);
                        assert(held.tools.contains(x));
                    }
                }
                if let Some(path) = input_path(input) {
                    assert(works_on(messages, i, k, path));
                    lemma_new_item(held.files, path);
                }
            },
            BlockModel::Text { text, .. } => {
                if contains_text(text, "TODO"@) || contains_text(text, "task"@) || contains_text(
                    text,
                    "need to"@,
                ) {
                    assert(speaks_of(messages, i, k, first_chars(text, 200)));
                    lemma_new_item(held.tasks, first_chars(text, 200));
                }
            },
            _ => {},
        }
    }
}

proof fn lemma_facts_come_from(messages: Seq<MessageModel>, n: int)
    requires
        0 <= n <= messages.len(),
    ensures
        comes_from(messages, workflow_facts(messages.take(n))),
    decreases n,
{
    if n > 0 {
        lemma_facts_come_from(messages, n - 1);
        assert(messages.take(n).drop_last() =~= messages.take(n - 1));
        let blocks = messages[n - 1].content;
        lemma_blocks_come_from(
            messages,
            workflow_facts(messages.take(n - 1)),
            n - 1,
            blocks.len() as int,
        );
        assert(blocks.take(blocks.len() as int) =~= blocks);
    }
}

/// Nothing else is in the lists.
pub proof fn nothing_else_is_listed(messages: Seq<MessageModel>, x: Seq<char>)
    ensures
        workflow_facts(messages).files.contains(x) ==> exists|i: int, k: int| #[trigger]
            works_on(messages, i, k, x),
        workflow_facts(messages).tools.contains(x) ==> exists|i: int, k: int| #[trigger]
            uses_tool(messages, i, k, x),
        workflow_facts(messages).tasks.contains(x) ==> exists|i: int, k: int| #[trigger]
            speaks_of(messages, i, k, x),
{
    assert(messages.take(messages.len() as int) =~= messages);
    lemma_facts_come_from(messages, messages.len() as int);
}

/// What is touched first is listed first: what later messages touch comes
/// behind what is listed already.
pub proof fn later_messages_add_behind(messages: Seq<MessageModel>, n: int)
    requires
        0 <= n <= messages.len(),
    ensures
        ({
            let early = workflow_facts(messages.take(n));
            let all = workflow_facts(messages);
            &&& early.files == all.files.take(early.files.len() as int)
            &&& early.tools == all.tools.take(early.tools.len() as int)
            &&& early.tasks == all.tasks.take(early.tasks.len() as int)
        }),
{
    lemma_messages_grow(messages, n);
}

proof fn lemma_tool_calls(facts: WorkflowFacts, blocks: Seq<BlockModel>)
    ensures
        with_blocks_facts(facts, blocks).tools.len() == facts.tools.len() + blocks.filter(
            |b: BlockModel| b is ToolUse,
        ).len(),
    decreases blocks.len(),
{
    reveal(Seq::filter);
    if blocks.len() > 0 {
        lemma_tool_calls(facts, blocks.drop_last());
    }
}

/// A tool is listed as often as it is called: each call adds one entry.
pub proof fn each_call_adds_a_tool(messages: Seq<MessageModel>, message: MessageModel)
    ensures
        workflow_facts(messages.push(message)).tools.len() == workflow_facts(messages).tools.len()
            + message.content.filter(|b: BlockModel| b is ToolUse).len(),
{
    assert(messages.push(message).drop_last() =~= messages);
    lemma_tool_calls(workflow_facts(messages), message.content);
}

// ---------------------------------------------------------------------------
// Text
// ---------------------------------------------------------------------------

proof fn lemma_bullet(items: Seq<Seq<char>>, k: int)
    requires
        0 <= k < items.len(),
    ensures
        contains_text(bullet_lines(items), "- "@ + items[k] + "\n"@),
    decreases items.len(),
{
    let line = "- "@ + items[k] + "\n"@;
    let front = bullet_lines(items.drop_last());
    let last = "- "@ + items.last() + "\n"@;
    let none = Seq::<char>::empty();
    if k == items.len() - 1 {
        lemma_contains_middle(front, line, none);
        assert(front + line + none =~= bullet_lines(items));
    } else {
        lemma_bullet(items.drop_last(), k);
        lemma_contains_in_part(none, front, last, line);
        assert(none + front + last =~= bullet_lines(items));
    }
}

proof fn lemma_file_line(files: Seq<Seq<char>>, root: Option<Seq<char>>, k: int)
    requires
        0 <= k < files.len(),
    ensures
        contains_text(file_lines(files, root), "- `"@ + shown_file(files[k], root) + "`\n"@),
    decreases files.len(),
{
    let line = "- `"@ + shown_file(files[k], root) + "`\n"@;
    let front = file_lines(files.drop_last(), root);
    let last = "- `"@ + shown_file(files.last(), root) + "`\n"@;
    let none = Seq::<char>::empty();
    if k == files.len() - 1 {
        lemma_contains_middle(front, line, none);
        assert(front + line + none =~= file_lines(files, root));
    } else {
        lemma_file_line(files.drop_last(), root, k);
        lemma_contains_in_part(none, front, last, line);
        assert(none + front + last =~= file_lines(files, root));
    }
}

proof fn lemma_joined_part(parts: Seq<Seq<char>>, sep: Seq<char>, k: int)
    requires
        0 <= k < parts.len(),
    ensures
        contains_text(joined(parts, sep), parts[k]),
    decreases parts.len(),
{
    let none = Seq::<char>::empty();
    if parts.len() == 1 {
        lemma_contains_middle(none, parts[0], none);
        assert(none + parts[0] + none =~= parts[0]);
    } else {
        let front = joined(parts.drop_last(), sep);
        if k == parts.len() - 1 {
            lemma_contains_middle(front + sep, parts[k], none);
            assert(front + sep + parts[k] + none =~= joined(parts, sep));
        } else {
            lemma_joined_part(parts.drop_last(), sep, k);
            lemma_contains_in_part(none, front, sep + parts.last(), parts[k]);
            assert(none + front + (sep + parts.last()) =~= joined(parts, sep));
        }
    }
}

/// The context shows what was touched: each file on a line of its own, each
/// tool and each task.
pub proof fn everything_touched_is_shown(
    messages: Seq<MessageModel>,
    root: Option<Seq<char>>,
    i: int,
    k: int,
    x: Seq<char>,
)
    ensures
        works_on(messages, i, k, x) ==> contains_text(
            workflow_text(workflow_facts(messages), root),
            "- `"@ + shown_file(x, root) + "`\n"@,
        ),
        uses_tool(messages, i, k, x) ==> contains_text(
            workflow_text(workflow_facts(messages), root),
            x,
        ),
        speaks_of(messages, i, k, x) ==> contains_text(
            workflow_text(workflow_facts(messages), root),
            "- "@ + x + "\n"@,
        ),
{
    let facts = workflow_facts(messages);
    let text = workflow_text(facts, root);
    everything_touched_is_listed(messages, i, k, x);
    let files = if facts.files.len() == 0 {
        Seq::empty()
    } else {
        "**Files Modified/Read:**\n"@ + file_lines(facts.files, root) + "\n"@
    };
    let tools = if facts.tools.len() == 0 {
        Seq::empty()
    } else {
        "**Tools Used:** "@ + joined(facts.tools, ", "@) + "\n\n"@
    };
    let tasks = if facts.tasks.len() == 0 {
        Seq::empty()
    } else {
        "**Tasks/TODOs Identified:**\n"@ + bullet_lines(facts.tasks) + "\n"@
    };
    let none = Seq::<char>::empty();
    if works_on(messages, i, k, x) {
        let q = choose|q: int| 0 <= q < facts.files.len() && facts.files[q] == x;
        let line = "- `"@ + shown_file(x, root) + "`\n"@;
        lemma_file_line(facts.files, root, q);
        lemma_contains_in_part(
            "**Files Modified/Read:**\n"@,
            file_lines(facts.files, root),
            "\n"@,
            line,
        );
        lemma_contains_in_part(none, files, tools + tasks, line);
        assert(none + files + (tools + tasks) =~= text);
    }
    if uses_tool(messages, i, k, x) {
        let q = choose|q: int| 0 <= q < facts.tools.len() && facts.tools[q] == x;
        lemma_joined_part(facts.tools, ", "@, q);
        lemma_contains_in_part("**Tools Used:** "@, joined(facts.tools, ", "@), "\n\n"@, x);
        lemma_contains_in_part(files, tools, tasks, x);
        assert(files + tools + tasks =~= text);
    }
    if speaks_of(messages, i, k, x) {
        let q = choose|q: int| 0 <= q < facts.tasks.len() && facts.tasks[q] == x;
        let line = "- "@ + x + "\n"@;
        lemma_bullet(facts.tasks, q);
        lemma_contains_in_part(
            "**Tasks/TODOs Identified:**\n"@,
            bullet_lines(facts.tasks),
            "\n"@,
            line,
        );
        lemma_contains_in_part(files + tools, tasks, none, line);
        assert(files + tools + tasks + none =~= text);
    }
}

/// A conversation without calls and without texts that speak of tasks has no
/// context to show, and says so.
pub proof fn nothing_touched_is_said_so(messages: Seq<MessageModel>, root: Option<Seq<char>>)
    requires
        forall|i: int, k: int, x: Seq<char>| !#[trigger] uses_tool(messages, i, k, x),
        forall|i: int, k: int, x: Seq<char>| !#[trigger] speaks_of(messages, i, k, x),
    ensures
        workflow_text(workflow_facts(messages), root)
            == "No specific workflow context detected. Continue assisting the user with their current task.\n"@,
{
    let facts = workflow_facts(messages);
    if facts.files.len() > 0 {
        let x = facts.files[0];
        assert(facts.files.contains(x));
        nothing_else_is_listed(messages, x);
        let (i, k) = choose|i: int, k: int| #[trigger] works_on(messages, i, k, x);
        if let BlockModel::ToolUse { name, .. } = messages[i].content[k] {
            assert(uses_tool(messages, i, k, name));
        }
    }
    if facts.tools.len() > 0 {
        assert(facts.tools.contains(facts.tools[0]));
        nothing_else_is_listed(messages, facts.tools[0]);
    }
    if facts.tasks.len() > 0 {
        assert(facts.tasks.contains(facts.tasks[0]));
        nothing_else_is_listed(messages, facts.tasks[0]);
    }
}

} // verus!
