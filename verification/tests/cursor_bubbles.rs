use provider_history::cursor::bubble::{bubble_to_message, build_content_array, extract_timestamp, normalize_cursor_tool_name, tool_result_block, tool_use_block};
use provider_history::cursor::composer::extract_composer_meta;
use provider_history::model::{ContentBlock, Provider, Role};
use serde_json::Value;

fn json(text: &str) -> Value {
    serde_json::from_str(text).unwrap()
}

#[test]
fn test_normalize_cursor_tool_name() {
    assert_eq!(normalize_cursor_tool_name("read_file"), "Read");
    assert_eq!(normalize_cursor_tool_name("read_file_v2"), "Read");
    assert_eq!(normalize_cursor_tool_name("edit_file"), "Edit");
    assert_eq!(normalize_cursor_tool_name("run_terminal_cmd"), "Bash");
    assert_eq!(normalize_cursor_tool_name("grep_search"), "Grep");
    assert_eq!(normalize_cursor_tool_name("web_search"), "WebSearch");
    assert_eq!(normalize_cursor_tool_name("custom_tool"), "custom_tool");
}

#[test]
fn normalize_covers_the_whole_table() {
    let table = [
        ("edit_file_v2", "Edit"),
        ("edit_file_v2_search_replace", "Edit"),
        ("search_replace", "Edit"),
        ("edit_files", "MultiEdit"),
        ("MultiEdit", "MultiEdit"),
        ("apply_patch", "MultiEdit"),
        ("write", "Write"),
        ("run_terminal_command_v2", "Bash"),
        ("list_dir", "Bash"),
        ("list_dir_v2", "Bash"),
        ("delete_file", "Bash"),
        ("codebase_search", "Grep"),
        ("grep", "Grep"),
        ("rg", "Grep"),
        ("ripgrep", "Grep"),
        ("ripgrep_raw_search", "Grep"),
        ("file_search", "Glob"),
        ("glob_file_search", "Glob"),
        ("web_fetch", "WebFetch"),
        ("todo_write", "TodoWrite"),
        ("ask_question", "AskUserQuestion"),
        ("", ""),
        ("Read_File", "Read_File"),
    ];
    for (recorded, canonical) in table {
        assert_eq!(normalize_cursor_tool_name(recorded), canonical);
    }
}

#[test]
fn test_bubble_to_message_user() {
    let bubble = json(
        r#"{
            "type": 1,
            "bubbleId": "test-bubble-1",
            "text": "Hello, world!",
            "createdAt": "2026-01-15T10:00:00.000Z"
        }"#,
    );
    let msg = bubble_to_message(&bubble, "session-1", 0).unwrap();
    assert_eq!(msg.role.tag(), "user");
    assert_eq!(msg.role, Role::User);
    assert_eq!(msg.uuid, "test-bubble-1");
    assert_eq!(msg.provider.tag(), "cursor");

    let arr = msg.content.unwrap();
    assert_eq!(arr.len(), 1);
    assert_eq!(arr[0], ContentBlock::Text { text: "Hello, world!".to_string() });
}

#[test]
fn test_bubble_to_message_assistant_with_thinking_and_model() {
    let bubble = json(
        r#"{
            "type": 2,
            "bubbleId": "test-bubble-2",
            "text": "Here is my answer.",
            "thinking": { "text": "Let me think about this...", "signature": "" },
            "thinkingDurationMs": 500,
            "createdAt": "2026-01-15T10:00:01.000Z",
            "modelInfo": { "modelName": "sonnet-4.5" },
            "tokenCount": { "inputTokens": 100, "outputTokens": 50 }
        }"#,
    );
    let msg = bubble_to_message(&bubble, "session-1", 1).unwrap();
    assert_eq!(msg.role.tag(), "assistant");
    assert_eq!(msg.duration_ms, Some(500));
    assert_eq!(msg.model.as_deref(), Some("sonnet-4.5"));

    let usage = msg.usage.unwrap();
    assert_eq!(usage.input_tokens, Some(100));
    assert_eq!(usage.output_tokens, Some(50));

    let arr = msg.content.unwrap();
    assert_eq!(arr.len(), 2);
    assert!(matches!(arr[0], ContentBlock::Thinking { .. }));
    assert!(matches!(arr[1], ContentBlock::Text { .. }));
}

#[test]
fn test_bubble_to_message_tool_use_with_normalization() {
    let bubble = json(
        r#"{
            "type": 2,
            "bubbleId": "test-bubble-3",
            "text": "",
            "capabilityType": 15,
            "toolFormerData": {
                "toolCallId": "call_123",
                "name": "read_file_v2",
                "rawArgs": "{\"path\":\"/tmp/test.txt\"}",
                "status": "completed",
                "params": "{\"content\": \"file data\"}"
            },
            "createdAt": "2026-01-15T10:00:02.000Z"
        }"#,
    );
    let msg = bubble_to_message(&bubble, "session-1", 2).unwrap();
    let arr = msg.content.unwrap();
    // tool_use + tool_result
    assert_eq!(arr.len(), 2);
    match &arr[0] {
        ContentBlock::ToolUse { id, name, input } => {
            assert_eq!(id, "call_123");
            assert_eq!(name, "Read"); // Normalized!
            assert_eq!(input["path"], "/tmp/test.txt");
        }
        other => panic!("expected a tool call, got {:?}", other),
    }
    match &arr[1] {
        ContentBlock::ToolResult { tool_use_id, content, is_error } => {
            assert_eq!(tool_use_id, "call_123");
            assert_eq!(content["content"], "file data");
            assert_eq!(*is_error, false);
        }
        other => panic!("expected a tool outcome, got {:?}", other),
    }
}

#[test]
fn test_bubble_to_message_skips_empty_capability() {
    let bubble = json(
        r#"{
            "type": 2,
            "bubbleId": "test-bubble-4",
            "text": "",
            "capabilityType": 30,
            "createdAt": "2026-01-15T10:00:03.000Z"
        }"#,
    );
    assert!(bubble_to_message(&bubble, "session-1", 3).is_none());
}

#[test]
fn test_bubble_unknown_type_returns_none() {
    let bubble = json(
        r#"{
            "type": 99,
            "bubbleId": "test-bubble-5",
            "createdAt": "2026-01-15T10:00:04.000Z",
            "text": "Hello"
        }"#,
    );
    assert!(bubble_to_message(&bubble, "session-1", 4).is_none());
}

#[test]
fn test_extract_composer_meta() {
    let val = json(
        r#"{
            "_v": 1,
            "composerId": "test-composer",
            "name": "Test Chat",
            "createdAt": 1704067200000,
            "lastUpdatedAt": 1704070800000,
            "conversation": [
                { "type": 1, "text": "Hello" },
                { "type": 2, "text": "Hi there", "toolFormerData": { "name": "read_file" } }
            ],
            "status": "completed"
        }"#,
    );

    let meta = extract_composer_meta(&val);
    assert_eq!(meta.name.as_deref(), Some("Test Chat"));
    assert_eq!(meta.created_at, Some(1_704_067_200_000));
    assert_eq!(meta.message_count, 2);
    assert!(meta.has_tool_use);
    assert_eq!(meta.status.as_deref(), Some("completed"));
    assert_eq!(meta.last_updated_at, Some(1_704_070_800_000));
}

#[test]
fn composer_meta_counts_headers_when_nothing_is_inline() {
    let val = json(
        r#"{
            "_v": 6,
            "fullConversationHeadersOnly": [
                { "bubbleId": "a", "type": 1 },
                { "bubbleId": "b", "type": 2 },
                { "bubbleId": "c", "type": 2, "capabilityType": 15 }
            ]
        }"#,
    );
    let meta = extract_composer_meta(&val);
    assert_eq!(meta.message_count, 3);
    assert!(!meta.has_tool_use);
    assert_eq!(meta.name, None);
    assert_eq!(meta.created_at, None);
    assert_eq!(meta.status, None);
}

#[test]
fn composer_meta_of_an_empty_record() {
    let meta = extract_composer_meta(&json("{}"));
    assert_eq!(meta.message_count, 0);
    assert!(!meta.has_tool_use);
    // an inline list that is no list falls back to the headers
    let odd = json(r#"{"conversation": "none", "fullConversationHeadersOnly": [{}]}"#);
    assert_eq!(extract_composer_meta(&odd).message_count, 1);
    // a capability marker counts as tool use
    let marked = json(r#"{"conversation": [{"capabilityType": 30}]}"#);
    assert!(extract_composer_meta(&marked).has_tool_use);
    // numbers that are no integers are passed over
    let fractional = json(r#"{"createdAt": 1.5, "name": 7}"#);
    assert_eq!(extract_composer_meta(&fractional).created_at, None);
    assert_eq!(extract_composer_meta(&fractional).name, None);
}

#[test]
fn a_turn_without_a_type_tag_gives_no_message() {
    assert!(bubble_to_message(&json(r#"{"text": "Hello"}"#), "s", 0).is_none());
    assert!(bubble_to_message(&json(r#"{"type": "1", "text": "Hello"}"#), "s", 0).is_none());
    assert!(bubble_to_message(&json(r#"{"type": -1, "text": "Hello"}"#), "s", 0).is_none());
    assert!(bubble_to_message(&json(r#"{"type": 0, "text": "Hello"}"#), "s", 0).is_none());
    assert!(bubble_to_message(&json(r#"{"type": 3, "text": "Hello"}"#), "s", 0).is_none());
    assert!(bubble_to_message(&json(r#"[1, 2]"#), "s", 0).is_none());
}

#[test]
fn a_turn_with_text_has_exactly_one_text_block() {
    let bubble = json(
        r#"{
            "type": 2,
            "text": "answer",
            "thinking": {"text": "hm"},
            "toolFormerData": {"toolCallId": "c1", "name": "grep", "status": "error", "params": "{}"}
        }"#,
    );
    let blocks = bubble_to_message(&bubble, "s", 0).unwrap().content.unwrap();
    assert_eq!(blocks.len(), 4);
    let texts = blocks.iter().filter(|b| matches!(b, ContentBlock::Text { .. })).count();
    assert_eq!(texts, 1);
    assert_eq!(blocks[1], ContentBlock::Text { text: "answer".to_string() });
    assert!(matches!(blocks[0], ContentBlock::Thinking { .. }));
    match &blocks[2] {
        ContentBlock::ToolUse { name, .. } => assert_eq!(name, "Grep"),
        other => panic!("expected a tool call, got {:?}", other),
    }
    match &blocks[3] {
        ContentBlock::ToolResult { is_error, .. } => assert!(*is_error),
        other => panic!("expected a tool outcome, got {:?}", other),
    }
}

#[test]
fn a_user_turn_has_no_reasoning_and_no_tool_blocks() {
    let bubble = json(
        r#"{
            "type": 1,
            "text": "question",
            "thinking": {"text": "hm"},
            "toolFormerData": {"toolCallId": "c1", "name": "grep"}
        }"#,
    );
    let blocks = build_content_array(&bubble, 1).unwrap();
    assert_eq!(blocks, vec![ContentBlock::Text { text: "question".to_string() }]);
}

#[test]
fn a_missing_bubble_id_gives_a_positional_uuid() {
    let msg = bubble_to_message(&json(r#"{"type": 1, "text": "x"}"#), "session-9", 12).unwrap();
    assert_eq!(msg.uuid, "cursor-session-9-12");
    assert_eq!(msg.session_id, "session-9");
    assert_eq!(msg.timestamp, "");
    assert_eq!(msg.parent_uuid, None);
    assert_eq!(msg.usage, None);
    assert_eq!(msg.model, None);
    assert_eq!(msg.cost_usd, None);
    assert_eq!(msg.duration_ms, None);
    assert_eq!(msg.provider, Provider::Cursor);
    let empty = bubble_to_message(&json(r#"{"type": 1, "text": "x", "bubbleId": ""}"#), "", 0);
    assert_eq!(empty.unwrap().uuid, "cursor--0");
}

#[test]
fn tool_blocks_need_a_call_identifier_and_an_object() {
    let no_id = json(r#"{"type": 2, "toolFormerData": {"name": "grep", "status": "completed", "params": "{}"}}"#);
    assert_eq!(build_content_array(&no_id, 2), None);
    let no_object = json(r#"{"type": 2, "toolFormerData": "call_1"}"#);
    assert_eq!(build_content_array(&no_object, 2), None);
    let running = json(r#"{"toolFormerData": {"toolCallId": "c", "status": "running", "params": "{}"}}"#);
    let blocks = build_content_array(&running, 2).unwrap();
    assert_eq!(blocks.len(), 1);
    match &blocks[0] {
        ContentBlock::ToolUse { id, name, input } => {
            assert_eq!(id, "c");
            assert_eq!(name, "unknown");
            assert_eq!(*input, json("{}"));
        }
        other => panic!("expected a tool call, got {:?}", other),
    }
    let no_params = json(r#"{"toolFormerData": {"toolCallId": "c", "status": "completed"}}"#);
    assert_eq!(build_content_array(&no_params, 2).unwrap().len(), 1);
}

#[test]
fn arguments_that_do_not_parse_become_defaults() {
    let bubble = json(
        r#"{"toolFormerData": {"toolCallId": "c", "rawArgs": "not json", "status": "completed", "params": "{broken"}}"#,
    );
    let blocks = build_content_array(&bubble, 2).unwrap();
    match &blocks[0] {
        ContentBlock::ToolUse { input, .. } => assert_eq!(*input, json("{}")),
        other => panic!("expected a tool call, got {:?}", other),
    }
    match &blocks[1] {
        ContentBlock::ToolResult { content, is_error, .. } => {
            assert_eq!(*content, Value::Null);
            assert!(!*is_error);
        }
        other => panic!("expected a tool outcome, got {:?}", other),
    }
}

#[test]
fn blocks_from_parse_results() {
    let parsed: Result<Value, String> = Ok(json(r#"{"a": 1}"#));
    assert_eq!(
        tool_use_block("id1", "rg", parsed),
        ContentBlock::ToolUse {
            id: "id1".to_string(),
            name: "Grep".to_string(),
            input: json(r#"{"a": 1}"#)
        }
    );
    assert_eq!(
        tool_use_block("id1", "mine", Err("bad".to_string())),
        ContentBlock::ToolUse { id: "id1".to_string(), name: "mine".to_string(), input: json("{}") }
    );
    assert_eq!(
        tool_result_block("id1", Ok(json("[1]")), true),
        ContentBlock::ToolResult {
            tool_use_id: "id1".to_string(),
            content: json("[1]"),
            is_error: true
        }
    );
    assert_eq!(
        tool_result_block("id1", Err("bad".to_string()), false),
        ContentBlock::ToolResult {
            tool_use_id: "id1".to_string(),
            content: Value::Null,
            is_error: false
        }
    );
}

#[test]
fn timestamps_in_all_three_shapes() {
    let text = json(r#"{"createdAt": "2026-01-15T10:00:00.000Z"}"#);
    assert_eq!(extract_timestamp(&text), Some("2026-01-15T10:00:00.000Z".to_string()));
    let any_text = json(r#"{"createdAt": "yesterday"}"#);
    assert_eq!(extract_timestamp(&any_text), Some("yesterday".to_string()));
    let unsigned = json(r#"{"createdAt": 1704067200000}"#);
    assert_eq!(extract_timestamp(&unsigned), Some("2024-01-01T00:00:00+00:00".to_string()));
    let signed = json(r#"{"createdAt": -1000}"#);
    assert_eq!(extract_timestamp(&signed), Some("1969-12-31T23:59:59+00:00".to_string()));
    let fraction = json(r#"{"createdAt": -1}"#);
    assert_eq!(extract_timestamp(&fraction), Some("1969-12-31T23:59:59.999+00:00".to_string()));
    let out_of_range = json(r#"{"createdAt": -9223372036854775808}"#);
    assert_eq!(extract_timestamp(&out_of_range), Some(String::new()));
}

#[test]
fn timestamps_that_cannot_be_read() {
    assert_eq!(extract_timestamp(&json("{}")), None);
    assert_eq!(extract_timestamp(&json(r#"{"createdAt": 1.5}"#)), None);
    assert_eq!(extract_timestamp(&json(r#"{"createdAt": null}"#)), None);
    assert_eq!(extract_timestamp(&json(r#"{"createdAt": 18446744073709551615}"#)), None);
    assert_eq!(extract_timestamp(&json(r#""2026""#)), None);
}

#[test]
fn usage_needs_one_of_the_counts() {
    let both = json(r#"{"type": 2, "text": "x", "tokenCount": {"inputTokens": 7}}"#);
    let usage = bubble_to_message(&both, "s", 0).unwrap().usage.unwrap();
    assert_eq!(usage.input_tokens, Some(7));
    assert_eq!(usage.output_tokens, None);
    assert_eq!(usage.cache_creation_input_tokens, None);
    assert_eq!(usage.cache_read_input_tokens, None);
    assert_eq!(usage.service_tier, None);
    let none = json(r#"{"type": 2, "text": "x", "tokenCount": {"inputTokens": "7"}}"#);
    assert_eq!(bubble_to_message(&none, "s", 0).unwrap().usage, None);
    let largest = json(r#"{"type": 2, "text": "x", "tokenCount": {"outputTokens": 4294967295}}"#);
    let usage = bubble_to_message(&largest, "s", 0).unwrap().usage.unwrap();
    assert_eq!(usage.output_tokens, Some(u32::MAX));
    // a count that does not fit is not read
    let big = json(
        r#"{"type": 2, "text": "x", "tokenCount": {"inputTokens": 1, "outputTokens": 4294967296}}"#,
    );
    let usage = bubble_to_message(&big, "s", 0).unwrap().usage.unwrap();
    assert_eq!(usage.input_tokens, Some(1));
    assert_eq!(usage.output_tokens, None);
    let only_big = json(r#"{"type": 2, "text": "x", "tokenCount": {"outputTokens": 4294967301}}"#);
    assert_eq!(bubble_to_message(&only_big, "s", 0).unwrap().usage, None);
}
