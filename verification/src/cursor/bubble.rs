//! Decoding one turn of a conversation, a "bubble", into a message.

use vstd::prelude::*;
use vstd::string::*;
use serde_json::Value;
use crate::fields::{
    count_of, opt_count, opt_str, opt_u64, str_or, string_at, text_of, text_or, u64_at,
};
use crate::json::{
    self, i64_of, json_model, member, no_members, parsed_json, str_of, u64_of, JsonModel,
};
use crate::model::{
    collapsed, content_model, opt_text, opt_view, views, BlockModel, ContentBlock, Message,
    MessageModel, Provider, Role, TokenUsage, UsageModel,
};
use crate::text::{chars_eq, chars_of, decimal, decimal_string};
use crate::timestamp::{epoch_ms_text, epoch_ms_to_rfc3339, millis_text, millis_to_rfc3339};

verus! {

/// The canonical name of a tool, for the names under which Cursor records it;
/// any other name stands for itself.
pub open spec fn normalized_tool_name(name: Seq<char>) -> Seq<char> {
    if name == "read_file"@ || name == "read_file_v2"@ {
        "Read"@
    } else if name == "edit_file"@ || name == "edit_file_v2"@ || name
        == "edit_file_v2_search_replace"@ || name == "search_replace"@ {
        "Edit"@
    } else if name == "edit_files"@ || name == "MultiEdit"@ || name == "apply_patch"@ {
        "MultiEdit"@
    } else if name == "write"@ {
        "Write"@
    } else if name == "run_terminal_cmd"@ || name == "run_terminal_command_v2"@ || name
        == "list_dir"@ || name == "list_dir_v2"@ || name == "delete_file"@ {
        "Bash"@
    } else if name == "codebase_search"@ || name == "grep_search"@ || name == "grep"@ || name
        == "rg"@ || name == "ripgrep"@ || name == "ripgrep_raw_search"@ {
        "Grep"@
    } else if name == "file_search"@ || name == "glob_file_search"@ {
        "Glob"@
    } else if name == "web_search"@ {
        "WebSearch"@
    } else if name == "web_fetch"@ {
        "WebFetch"@
    } else if name == "todo_write"@ {
        "TodoWrite"@
    } else if name == "ask_question"@ {
        "AskUserQuestion"@
    } else {
        name
    }
}

/// Maps the name under which Cursor records a tool to the canonical name.
pub fn normalize_cursor_tool_name<'a>(name: &'a str) -> (r: &'a str)
    ensures
        r@ == normalized_tool_name(name@),
{
    let n = chars_of(name);
    if chars_eq(&n, "read_file") || chars_eq(&n, "read_file_v2") {
        "Read"
    } else if chars_eq(&n, "edit_file") || chars_eq(&n, "edit_file_v2") || chars_eq(
        &n,
        "edit_file_v2_search_replace",
    ) || chars_eq(&n, "search_replace") {
        "Edit"
    } else if chars_eq(&n, "edit_files") || chars_eq(&n, "MultiEdit") || chars_eq(
        &n,
        "apply_patch",
    ) {
        "MultiEdit"
    } else if chars_eq(&n, "write") {
        "Write"
    } else if chars_eq(&n, "run_terminal_cmd") || chars_eq(&n, "run_terminal_command_v2")
        || chars_eq(&n, "list_dir") || chars_eq(&n, "list_dir_v2") || chars_eq(&n, "delete_file") {
        "Bash"
    } else if chars_eq(&n, "codebase_search") || chars_eq(&n, "grep_search") || chars_eq(
        &n,
        "grep",
    ) || chars_eq(&n, "rg") || chars_eq(&n, "ripgrep") || chars_eq(&n, "ripgrep_raw_search") {
        "Grep"
    } else if chars_eq(&n, "file_search") || chars_eq(&n, "glob_file_search") {
        "Glob"
    } else if chars_eq(&n, "web_search") {
        "WebSearch"
    } else if chars_eq(&n, "web_fetch") {
        "WebFetch"
    } else if chars_eq(&n, "todo_write") {
        "TodoWrite"
    } else if chars_eq(&n, "ask_question") {
        "AskUserQuestion"
    } else {
        name
    }
}

/// The type tag of a turn of the user.
pub const USER_TURN: u64 = 1;

/// The type tag of a turn of the assistant.
pub const ASSISTANT_TURN: u64 = 2;

/// The member `inner` of the member `outer`.
pub open spec fn nested(m: JsonModel, outer: Seq<char>, inner: Seq<char>) -> Option<JsonModel> {
    match member(m, outer) {
        Some(x) => member(x, inner),
        None => None,
    }
}

/// The reasoning of an assistant turn, unless empty.
pub open spec fn thinking_blocks(bubble: JsonModel, kind: u64) -> Seq<BlockModel> {
    let thinking = str_or(nested(bubble, "thinking"@, "text"@), ""@);
    if kind == ASSISTANT_TURN && thinking.len() > 0 {
        seq![BlockModel::Thinking { thinking }]
    } else {
        Seq::empty()
    }
}

/// The plain text of a turn, unless empty.
pub open spec fn text_blocks(bubble: JsonModel) -> Seq<BlockModel> {
    let text = str_or(member(bubble, "text"@), ""@);
    if text.len() > 0 {
        seq![BlockModel::Text { text }]
    } else {
        Seq::empty()
    }
}

/// The block for a tool call, given what its recorded arguments parse to.
pub open spec fn tool_use_model(id: Seq<char>, name: Seq<char>, input: Option<JsonModel>) -> BlockModel {
    BlockModel::ToolUse {
        id,
        name: normalized_tool_name(name),
        input: match input {
            Some(m) => m,
            None => no_members(),
        },
    }
}

/// The block for the outcome of a tool call, given what its recorded
/// parameters parse to.
pub open spec fn tool_result_model(id: Seq<char>, content: Option<JsonModel>, is_error: bool) -> BlockModel {
    BlockModel::ToolResult {
        tool_use_id: id,
        content: match content {
            Some(m) => m,
            None => JsonModel::Null,
        },
        is_error,
    }
}

/// Whether a status is terminal: the call completed or failed.
pub open spec fn is_terminal(status: Seq<char>) -> bool {
    status == "completed"@ || status == "error"@
}

/// The blocks that a record of a tool call contributes: nothing without a
/// call identifier; else the call, followed by its outcome where the status
/// is terminal and parameters were recorded.
pub open spec fn call_blocks(call: JsonModel) -> Seq<BlockModel> {
    let id = str_or(member(call, "toolCallId"@), ""@);
    let name = str_or(member(call, "name"@), "unknown"@);
    let input = parsed_json(str_or(member(call, "rawArgs"@), "{}"@));
    let status = str_or(member(call, "status"@), ""@);
    if id.len() == 0 {
        Seq::empty()
    } else if is_terminal(status) && opt_str(member(call, "params"@)) is Some {
        seq![
            tool_use_model(id, name, input),
            tool_result_model(
                id,
                parsed_json(opt_str(member(call, "params"@))->0),
                status == "error"@,
            ),
        ]
    } else {
        seq![tool_use_model(id, name, input)]
    }
}

/// The tool blocks of an assistant turn: those of its member
/// `toolFormerData`, where that is an object.
pub open spec fn tool_blocks(bubble: JsonModel, kind: u64) -> Seq<BlockModel> {
    match member(bubble, "toolFormerData"@) {
        Some(call) => if kind == ASSISTANT_TURN && call is Object {
            call_blocks(call)
        } else {
            Seq::empty()
        },
        None => Seq::empty(),
    }
}

/// The content blocks of a turn, in their fixed order: reasoning, text, tool
/// call, tool outcome.
pub open spec fn bubble_blocks(bubble: JsonModel, kind: u64) -> Seq<BlockModel> {
    thinking_blocks(bubble, kind) + text_blocks(bubble) + tool_blocks(bubble, kind)
}

/// The tree of a parse result.
pub open spec fn parse_model(parsed: Result<Value, String>) -> Option<JsonModel> {
    match parsed {
        Ok(v) => Some(json_model(v)),
        Err(_) => None,
    }
}

/// Builds the block for a tool call from its identifier, its recorded name
/// and the outcome of parsing its recorded arguments. The name is
/// normalized; arguments that did not parse become an empty object.
pub fn tool_use_block(id: &str, name: &str, input: Result<Value, String>) -> (r: ContentBlock)
    ensures
        r@ == tool_use_model(id@, name@, parse_model(input)),
{
    let input = match input {
        Ok(v) => v,
        Err(_) => json::empty_object(),
    };
    ContentBlock::ToolUse {
        id: String::from_str(id),
        name: String::from_str(normalize_cursor_tool_name(name)),
        input,
    }
}

/// Builds the block for the outcome of a tool call from the identifier of
/// the call, the outcome of parsing its recorded parameters and whether the
/// call failed. Parameters that did not parse become `null`.
pub fn tool_result_block(id: &str, content: Result<Value, String>, is_error: bool) -> (r:
    ContentBlock)
    ensures
        r@ == tool_result_model(id@, parse_model(content), is_error),
{
    let content = match content {
        Ok(v) => v,
        Err(_) => json::null(),
    };
    ContentBlock::ToolResult { tool_use_id: String::from_str(id), content, is_error }
}

fn push_call_blocks(call: &Value, blocks: &mut Vec<ContentBlock>)
    ensures
        views(final(blocks)@) == views(old(blocks)@) + call_blocks(json_model(*call)),
{
    let ghost before = blocks@;
    let name = text_or(json::get(call, "name"), "unknown");
    let id = text_or(json::get(call, "toolCallId"), "");
    let raw_args = text_or(json::get(call, "rawArgs"), "{}");
    if !id.is_empty() {
        blocks.push(tool_use_block(id, name, json::parse(raw_args)));
        let status = chars_of(text_or(json::get(call, "status"), ""));
        let failed = chars_eq(&status, "error");
        if chars_eq(&status, "completed") || failed {
            match text_of(json::get(call, "params")) {
                Some(params) => {
                    blocks.push(tool_result_block(id, json::parse(params), failed));
                },
                None => {},
            }
        }
    }
    assert(views(blocks@) =~= views(before) + call_blocks(json_model(*call)));
}

/// Builds the content of a turn of kind `bubble_type`: its blocks in their
/// fixed order, or `None` where the turn has none.
pub fn build_content_array(val: &Value, bubble_type: u64) -> (r: Option<Vec<ContentBlock>>)
    ensures
        content_model(r) == collapsed(bubble_blocks(json_model(*val), bubble_type)),
{
    let mut blocks: Vec<ContentBlock> = Vec::new();
    assert(views(blocks@) =~= Seq::empty());
    if bubble_type == ASSISTANT_TURN {
        let thinking = match json::get(val, "thinking") {
            Some(t) => text_or(json::get(t, "text"), ""),
            None => "",
        };
        if !thinking.is_empty() {
            blocks.push(ContentBlock::Thinking { thinking: String::from_str(thinking) });
        }
    }
    assert(views(blocks@) =~= thinking_blocks(json_model(*val), bubble_type));
    let text = text_or(json::get(val, "text"), "");
    if !text.is_empty() {
        blocks.push(ContentBlock::Text { text: String::from_str(text) });
    }
    assert(views(blocks@) =~= thinking_blocks(json_model(*val), bubble_type) + text_blocks(
        json_model(*val),
    ));
    if bubble_type == ASSISTANT_TURN {
        match json::get(val, "toolFormerData") {
            Some(call) => {
                if json::is_object(call) {
                    push_call_blocks(call, &mut blocks);
                }
            },
            None => {},
        }
    }
    assert(views(blocks@) =~= bubble_blocks(json_model(*val), bubble_type));
    if blocks.len() == 0 {
        None
    } else {
        Some(blocks)
    }
}

/// The timestamp of a turn, from its member `createdAt`: a string stands for
/// itself, a count of milliseconds since the epoch is formatted as RFC 3339.
pub open spec fn timestamp_of(bubble: JsonModel) -> Option<Seq<char>> {
    match member(bubble, "createdAt"@) {
        Some(at) => match str_of(at) {
            Some(s) => Some(s),
            None => match u64_of(at) {
                Some(ms) => epoch_ms_text(ms),
                None => match i64_of(at) {
                    Some(ms) => Some(millis_text(ms)),
                    None => None,
                },
            },
        },
        None => None,
    }
}

/// Reads the timestamp of a turn.
pub fn extract_timestamp(val: &Value) -> (r: Option<String>)
    ensures
        opt_text(r) == timestamp_of(json_model(*val)),
{
    match json::get(val, "createdAt") {
        Some(at) => match json::as_str(at) {
            Some(s) => Some(String::from_str(s)),
            None => match json::as_u64(at) {
                Some(ms) => epoch_ms_to_rfc3339(ms),
                None => match json::as_i64(at) {
                    Some(ms) => Some(millis_to_rfc3339(ms)),
                    None => None,
                },
            },
        },
        None => None,
    }
}

/// The token usage of a turn, from its member `tokenCount`: present where at
/// least one of the two counts can be read.
pub open spec fn bubble_usage(bubble: JsonModel) -> Option<UsageModel> {
    let input = opt_count(nested(bubble, "tokenCount"@, "inputTokens"@));
    let output = opt_count(nested(bubble, "tokenCount"@, "outputTokens"@));
    if input is Some || output is Some {
        Some(
            UsageModel {
                input_tokens: input,
                output_tokens: output,
                cache_creation_input_tokens: None,
                cache_read_input_tokens: None,
                service_tier: None,
            },
        )
    } else {
        None
    }
}

fn read_usage(bubble: &Value) -> (r: Option<TokenUsage>)
    ensures
        opt_view(r) == bubble_usage(json_model(*bubble)),
{
    match json::get(bubble, "tokenCount") {
        Some(counts) => {
            let input = count_of(json::get(counts, "inputTokens"));
            let output = count_of(json::get(counts, "outputTokens"));
            if input.is_some() || output.is_some() {
                Some(
                    TokenUsage {
                        input_tokens: input,
                        output_tokens: output,
                        cache_creation_input_tokens: None,
                        cache_read_input_tokens: None,
                        service_tier: None,
                    },
                )
            } else {
                None
            }
        },
        None => None,
    }
}

/// The identifier of the message for a turn: the turn's own `bubbleId`, or,
/// where that is missing or empty, one made of the session and the position
/// of the turn.
pub open spec fn message_uuid(bubble: JsonModel, session: Seq<char>, index: u64) -> Seq<char> {
    let own = str_or(member(bubble, "bubbleId"@), ""@);
    if own.len() == 0 {
        "cursor-"@ + session + "-"@ + decimal(index as nat)
    } else {
        own
    }
}

/// The role for a type tag; `None` for a tag that is not known.
pub open spec fn role_of(kind: Option<u64>) -> Option<Role> {
    match kind {
        Some(k) => if k == USER_TURN {
            Some(Role::User)
        } else if k == ASSISTANT_TURN {
            Some(Role::Assistant)
        } else {
            None
        },
        None => None,
    }
}

/// The message that a turn decodes to. There is none where the type tag is
/// not that of a user or assistant turn, and none where the turn has no
/// content block.
pub open spec fn message_of_bubble(bubble: JsonModel, session: Seq<char>, index: u64) -> Option<
    MessageModel,
> {
    let kind = opt_u64(member(bubble, "type"@));
    match role_of(kind) {
        Some(role) => match collapsed(bubble_blocks(bubble, kind->0)) {
            Some(blocks) => Some(
                MessageModel {
                    uuid: message_uuid(bubble, session, index),
                    parent_uuid: None,
                    session_id: session,
                    timestamp: match timestamp_of(bubble) {
                        Some(t) => t,
                        None => Seq::empty(),
                    },
                    role,
                    content: Some(blocks),
                    model: opt_str(nested(bubble, "modelInfo"@, "modelName"@)),
                    usage: bubble_usage(bubble),
                    cost_usd: None,
                    duration_ms: opt_u64(member(bubble, "thinkingDurationMs"@)),
                    provider: Provider::Cursor,
                },
            ),
            None => None,
        },
        None => None,
    }
}

/// A turn whose type tag is neither that of a user turn nor that of an
/// assistant turn gives no message.
pub proof fn lemma_unknown_kind_gives_no_message(bubble: JsonModel, session: Seq<char>, index: u64)
    requires
        opt_u64(member(bubble, "type"@)) != Some(USER_TURN),
        opt_u64(member(bubble, "type"@)) != Some(ASSISTANT_TURN),
    ensures
        message_of_bubble(bubble, session, index) is None,
{
}

/// A turn without reasoning, without text and without a record of a tool
/// call gives no message, whether or not it carries a capability marker.
pub proof fn lemma_empty_turn_gives_no_message(bubble: JsonModel, session: Seq<char>, index: u64)
    requires
        str_or(nested(bubble, "thinking"@, "text"@), ""@).len() == 0,
        str_or(member(bubble, "text"@), ""@).len() == 0,
        member(bubble, "toolFormerData"@) is None,
    ensures
        message_of_bubble(bubble, session, index) is None,
{
    let kind = opt_u64(member(bubble, "type"@));
    if role_of(kind) is Some {
        assert(bubble_blocks(bubble, kind->0) =~= Seq::<BlockModel>::empty());
    }
}

/// A turn with text that is not empty has exactly one text block in its
/// content, which holds that text; and where its type tag is known, it gives
/// a message.
pub proof fn lemma_text_gives_one_text_block(bubble: JsonModel, kind: u64, session: Seq<char>, index: u64)
    requires
        str_or(member(bubble, "text"@), ""@).len() > 0,
    ensures
        ({
            let blocks = bubble_blocks(bubble, kind);
            let at = thinking_blocks(bubble, kind).len() as int;
            &&& 0 <= at < blocks.len()
            &&& blocks[at] == (BlockModel::Text { text: str_or(member(bubble, "text"@), ""@) })
            &&& forall|j: int| 0 <= j < blocks.len() && j != at ==> !(#[trigger] blocks[j] is Text)
        }),
        role_of(opt_u64(member(bubble, "type"@))) is Some ==> message_of_bubble(
            bubble,
            session,
            index,
        ) is Some,
{
    let blocks = bubble_blocks(bubble, kind);
    let thinking = thinking_blocks(bubble, kind);
    let tools = tool_blocks(bubble, kind);
    assert(text_blocks(bubble).len() == 1);
    assert forall|j: int| 0 <= j < blocks.len() && j != thinking.len() implies !(
    #[trigger] blocks[j] is Text) by {
        if j < thinking.len() {
            assert(blocks[j] == thinking[j]);
        } else {
            assert(blocks[j] == tools[j - thinking.len() - 1]);
        }
    }
}

/// A timestamp that is recorded as a string is taken as it is.
pub proof fn lemma_text_timestamp_is_kept(bubble: JsonModel, recorded: Seq<char>)
    requires
        member(bubble, "createdAt"@) == Some(JsonModel::String(recorded)),
    ensures
        timestamp_of(bubble) == Some(recorded),
{
}

fn read_uuid(bubble: &Value, session_id: &str, msg_index: u64) -> (r: String)
    ensures
        r@ == message_uuid(json_model(*bubble), session_id@, msg_index),
{
    let own = text_or(json::get(bubble, "bubbleId"), "");
    if own.is_empty() {
        let mut uuid = String::from_str("cursor-");
        uuid.append(session_id);
        uuid.append("-");
        let position = decimal_string(msg_index);
        uuid.append(position.as_str());
        uuid
    } else {
        String::from_str(own)
    }
}

/// Decodes one turn into a message. `session_id` and `msg_index` are the
/// session that the turn belongs to and its position there.
pub fn bubble_to_message(bubble: &Value, session_id: &str, msg_index: u64) -> (r: Option<Message>)
    ensures
        opt_view(r) == message_of_bubble(json_model(*bubble), session_id@, msg_index),
        r matches Some(m) ==> m@.wf(),
{
    let kind = u64_at(json::get(bubble, "type"));
    let (role, bubble_type) = match kind {
        Some(k) => if k == USER_TURN {
            (Role::User, k)
        } else if k == ASSISTANT_TURN {
            (Role::Assistant, k)
        } else {
            return None;
        },
        None => {
            return None;
        },
    };
    let timestamp = match extract_timestamp(bubble) {
        Some(t) => t,
        None => String::new(),
    };
    let content = match build_content_array(bubble, bubble_type) {
        Some(blocks) => blocks,
        None => {
            return None;
        },
    };
    let model = match json::get(bubble, "modelInfo") {
        Some(info) => string_at(json::get(info, "modelName")),
        None => None,
    };
    Some(
        Message {
            uuid: read_uuid(bubble, session_id, msg_index),
            parent_uuid: None,
            session_id: String::from_str(session_id),
            timestamp,
            role,
            content: Some(content),
            model,
            usage: read_usage(bubble),
            cost_usd: None,
            duration_ms: u64_at(json::get(bubble, "thinkingDurationMs")),
            provider: Provider::Cursor,
        },
    )
}

} // verus!
