//! The parts of a message: from the JSON records of its parts to its
//! content blocks, its token usage and its cost.

use vstd::prelude::*;
use vstd::string::*;
use serde_json::Value;
use crate::fields::{count_of, either_member, get_either, opt_count, str_or, text_or};
use crate::json::{self, json_model, member, models, no_members, JsonModel};
use crate::model::{
    collapsed, content_model, opt_json, opt_view, views, BlockModel, ContentBlock, TokenUsage,
    UsageModel,
};
use crate::text::{chars_eq, chars_of, joined};

verus! {

/// The kind of a message part: its member `type`, or the empty text.
pub open spec fn part_kind(part: JsonModel) -> Seq<char> {
    str_or(member(part, "type"@), ""@)
}

/// The call that a `tool` part records.
pub open spec fn tool_call(part: JsonModel) -> BlockModel {
    BlockModel::ToolUse {
        id: str_or(either_member(part, "toolCallId"@, "id"@), ""@),
        name: str_or(either_member(part, "toolName"@, "name"@), "unknown"@),
        input: match either_member(part, "input"@, "args"@) {
            Some(input) => input,
            None => no_members(),
        },
    }
}

/// Whether a `tool` part records an outcome: it is completed, or it has a
/// member `result`.
pub open spec fn tool_has_outcome(part: JsonModel) -> bool {
    str_or(member(part, "state"@), ""@) == "completed"@ || member(part, "result"@) is Some
}

/// The outcome that a `tool` part records.
pub open spec fn tool_outcome(part: JsonModel) -> BlockModel {
    BlockModel::ToolResult {
        tool_use_id: str_or(either_member(part, "toolCallId"@, "id"@), ""@),
        content: JsonModel::String(str_or(member(part, "result"@), ""@)),
        is_error: false,
    }
}

/// The content blocks that one message part contributes.
///
/// - `text`: its text (member `text`, else `content`), unless empty.
/// - `tool`: the call, followed by the outcome where there is one.
/// - `reasoning`: its text (member `text`, else `reasoning`) as thinking,
///   unless empty.
/// - `compaction`: a text block that starts with `[Summary] `.
/// - anything else: nothing.
pub open spec fn part_blocks(part: JsonModel) -> Seq<BlockModel> {
    let kind = part_kind(part);
    if kind == "text"@ {
        let text = str_or(either_member(part, "text"@, "content"@), ""@);
        if text.len() > 0 {
            seq![BlockModel::Text { text }]
        } else {
            Seq::empty()
        }
    } else if kind == "tool"@ {
        if tool_has_outcome(part) {
            seq![tool_call(part), tool_outcome(part)]
        } else {
            seq![tool_call(part)]
        }
    } else if kind == "reasoning"@ {
        let thinking = str_or(either_member(part, "text"@, "reasoning"@), ""@);
        if thinking.len() > 0 {
            seq![BlockModel::Thinking { thinking }]
        } else {
            Seq::empty()
        }
    } else if kind == "compaction"@ {
        seq![
            BlockModel::Text {
                text: "[Summary] "@ + str_or(member(part, "text"@), "[Context compacted]"@),
            },
        ]
    } else {
        Seq::empty()
    }
}

/// The content blocks of a message: those of its parts, in the order of the
/// parts.
pub open spec fn parts_blocks(parts: Seq<JsonModel>) -> Seq<BlockModel>
    decreases parts.len(),
{
    if parts.len() == 0 {
        Seq::empty()
    } else {
        parts_blocks(parts.drop_last()) + part_blocks(parts.last())
    }
}

/// The token usage that a record of usage holds.
pub open spec fn usage_of(record: JsonModel) -> UsageModel {
    UsageModel {
        input_tokens: opt_count(either_member(record, "promptTokens"@, "input_tokens"@)),
        output_tokens: opt_count(either_member(record, "completionTokens"@, "output_tokens"@)),
        cache_creation_input_tokens: None,
        cache_read_input_tokens: None,
        service_tier: None,
    }
}

/// Whether a part closes a step.
pub open spec fn is_step_finish(part: JsonModel) -> bool {
    part_kind(part) == "step-finish"@
}

/// The token usage of a message: that of the last part that closes a step and
/// holds a member `usage`.
pub open spec fn parts_usage(parts: Seq<JsonModel>) -> Option<UsageModel>
    decreases parts.len(),
{
    if parts.len() == 0 {
        None
    } else if is_step_finish(parts.last()) && member(parts.last(), "usage"@) is Some {
        Some(usage_of(member(parts.last(), "usage"@)->0))
    } else {
        parts_usage(parts.drop_last())
    }
}

/// The cost that a part which closes a step records: its member `cost`, else
/// `costUSD`, where that is a number.
pub open spec fn step_cost(part: JsonModel) -> Option<JsonModel> {
    match either_member(part, "cost"@, "costUSD"@) {
        Some(c) => if c is Number {
            Some(c)
        } else {
            None
        },
        None => None,
    }
}

/// The cost of a message: that of the last part that closes a step.
pub open spec fn parts_cost(parts: Seq<JsonModel>) -> Option<JsonModel>
    decreases parts.len(),
{
    if parts.len() == 0 {
        None
    } else if is_step_finish(parts.last()) {
        step_cost(parts.last())
    } else {
        parts_cost(parts.drop_last())
    }
}

fn tool_call_block(part: &Value) -> (r: ContentBlock)
    ensures
        r@ == tool_call(json_model(*part)),
{
    let name = text_or(get_either(part, "toolName", "name"), "unknown");
    let id = text_or(get_either(part, "toolCallId", "id"), "");
    let input = match get_either(part, "input", "args") {
        Some(v) => v.clone(),
        None => json::empty_object(),
    };
    ContentBlock::ToolUse { id: String::from_str(id), name: String::from_str(name), input }
}

fn tool_outcome_block(part: &Value) -> (r: Option<ContentBlock>)
    ensures
        match r {
            Some(b) => tool_has_outcome(json_model(*part)) && b@ == tool_outcome(json_model(*part)),
            None => !tool_has_outcome(json_model(*part)),
        },
{
    let state = text_or(json::get(part, "state"), "");
    let state_chars = chars_of(state);
    let result = json::get(part, "result");
    if chars_eq(&state_chars, "completed") || result.is_some() {
        let id = text_or(get_either(part, "toolCallId", "id"), "");
        Some(
            ContentBlock::ToolResult {
                tool_use_id: String::from_str(id),
                content: json::string(text_or(result, "")),
                is_error: false,
            },
        )
    } else {
        None
    }
}

/// Appends to `blocks` the content blocks that `part` contributes.
fn push_part_blocks(part: &Value, blocks: &mut Vec<ContentBlock>)
    ensures
        views(final(blocks)@) == views(old(blocks)@) + part_blocks(json_model(*part)),
{
    let ghost before = blocks@;
    let kind = chars_of(text_or(json::get(part, "type"), ""));
    if chars_eq(&kind, "text") {
        let text = text_or(get_either(part, "text", "content"), "");
        if !text.is_empty() {
            blocks.push(ContentBlock::Text { text: String::from_str(text) });
        }
    } else if chars_eq(&kind, "tool") {
        blocks.push(tool_call_block(part));
        match tool_outcome_block(part) {
            Some(outcome) => {
                blocks.push(outcome);
            },
            None => {},
        }
    } else if chars_eq(&kind, "reasoning") {
        let thinking = text_or(get_either(part, "text", "reasoning"), "");
        if !thinking.is_empty() {
            blocks.push(ContentBlock::Thinking { thinking: String::from_str(thinking) });
        }
    } else if chars_eq(&kind, "compaction") {
        let text = text_or(json::get(part, "text"), "[Context compacted]");
        blocks.push(ContentBlock::Text { text: joined("[Summary] ", text) });
    }
    assert(views(blocks@) =~= views(before) + part_blocks(json_model(*part)));
}

fn usage_record(record: &Value) -> (r: TokenUsage)
    ensures
        r@ == usage_of(json_model(*record)),
{
    TokenUsage {
        input_tokens: count_of(get_either(record, "promptTokens", "input_tokens")),
        output_tokens: count_of(get_either(record, "completionTokens", "output_tokens")),
        cache_creation_input_tokens: None,
        cache_read_input_tokens: None,
        service_tier: None,
    }
}

fn cost_record(part: &Value) -> (r: Option<Value>)
    ensures
        opt_json(r) == step_cost(json_model(*part)),
{
    match get_either(part, "cost", "costUSD") {
        Some(c) => if json::is_number(c) {
            Some(c.clone())
        } else {
            None
        },
        None => None,
    }
}

/// Turns the parts of one message into its content, its token usage and its
/// cost.
///
/// The content holds the blocks of all parts in order, and is absent where
/// no part contributes a block. Usage and cost come from the parts that close
/// a step, the last one winning.
pub fn process_parts(parts: &[Value]) -> (r: (Option<Vec<ContentBlock>>, Option<TokenUsage>, Option<Value>))
    ensures
        content_model(r.0) == collapsed(parts_blocks(models(parts@))),
        opt_view(r.1) == parts_usage(models(parts@)),
        opt_json(r.2) == parts_cost(models(parts@)),
{
    let mut blocks: Vec<ContentBlock> = Vec::new();
    let mut usage: Option<TokenUsage> = None;
    let mut cost: Option<Value> = None;
    let ghost all = models(parts@);
    let mut i: usize = 0;
    assert(views(blocks@) =~= parts_blocks(all.take(0)));
    while i < parts.len()
        invariant
            i <= parts.len(),
            all == models(parts@),
            views(blocks@) == parts_blocks(all.take(i as int)),
            opt_view(usage) == parts_usage(all.take(i as int)),
            opt_json(cost) == parts_cost(all.take(i as int)),
        decreases parts.len() - i,
    {
        let part = &parts[i];
        proof {
            assert(all.take(i + 1).drop_last() =~= all.take(i as int));
            assert(all.take(i + 1).last() == json_model(*part));
        }
        push_part_blocks(part, &mut blocks);
        let kind = chars_of(text_or(json::get(part, "type"), ""));
        if chars_eq(&kind, "step-finish") {
            match json::get(part, "usage") {
                Some(record) => {
                    usage = Some(usage_record(record));
                },
                None => {},
            }
            cost = cost_record(part);
        }
        i = i + 1;
    }
    assert(all.take(parts.len() as int) =~= all);
    if blocks.len() == 0 {
        (None, usage, cost)
    } else {
        (Some(blocks), usage, cost)
    }
}

/// The cost of a message is a JSON number.
pub proof fn lemma_cost_is_number(parts: Seq<JsonModel>)
    ensures
        parts_cost(parts) matches Some(c) ==> c is Number,
    decreases parts.len(),
{
    if parts.len() > 0 && !is_step_finish(parts.last()) {
        lemma_cost_is_number(parts.drop_last());
    }
}

} // verus!
