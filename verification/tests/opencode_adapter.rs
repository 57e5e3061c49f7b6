use provider_history::error::ProviderError;
use provider_history::model::{ContentBlock, Provider, Role, TokenUsage};
use provider_history::opencode::{decode_project_path, decode_session_path, detect, get_base_path, load_messages, load_sessions, message_for, scan_projects, search, MessageRecord, ProjectScan, SessionScan};
use provider_history::opencode::parts::process_parts;
use provider_history::opencode::records::{project_display_name, get_latest_session_time, read_message, read_message_parts, read_project, read_session, MessageHeader, ProjectDescriptor, SessionDescriptor};
use provider_history::paths::{count_json_files, DirFile, PathProbe};
use serde_json::Value;

fn json(text: &str) -> Value {
    serde_json::from_str(text).unwrap()
}

fn parts(texts: &[&str]) -> Vec<Value> {
    texts.iter().map(|t| json(t)).collect()
}

fn file(name: &str, text: Option<&str>) -> DirFile {
    DirFile { name: name.to_string(), text: text.map(String::from) }
}

fn text_block(text: &str) -> ContentBlock {
    ContentBlock::Text { text: text.to_string() }
}

#[test]
fn parts_become_blocks_in_order() {
    let (content, usage, cost) = process_parts(&parts(&[
        r#"{"type": "reasoning", "text": "let me see"}"#,
        r#"{"type": "text", "text": "Hello"}"#,
        r#"{"type": "step-start"}"#,
        r#"{"type": "tool", "toolName": "bash", "toolCallId": "t1", "input": {"cmd": "ls"}, "state": "completed", "result": "a.txt"}"#,
        r#"{"type": "compaction", "text": "earlier talk"}"#,
    ]));
    assert_eq!(
        content,
        Some(vec![
            ContentBlock::Thinking { thinking: "let me see".to_string() },
            text_block("Hello"),
            ContentBlock::ToolUse {
                id: "t1".to_string(),
                name: "bash".to_string(),
                input: json(r#"{"cmd": "ls"}"#),
            },
            ContentBlock::ToolResult {
                tool_use_id: "t1".to_string(),
                content: Value::String("a.txt".to_string()),
                is_error: false,
            },
            text_block("[Summary] earlier talk"),
        ])
    );
    assert_eq!(usage, None);
    assert_eq!(cost, None);
}

#[test]
fn parts_without_content() {
    assert_eq!(process_parts(&[]), (None, None, None));
    let (content, _, _) = process_parts(&parts(&[
        r#"{"type": "text", "text": ""}"#,
        r#"{"type": "reasoning"}"#,
        r#"{"type": "file", "text": "ignored"}"#,
        r#"{"text": "no type"}"#,
        r#"{"type": 7}"#,
        r#""text""#,
    ]));
    assert_eq!(content, None);
}

#[test]
fn parts_fall_back_to_their_second_names() {
    let (content, _, _) = process_parts(&parts(&[
        r#"{"type": "text", "content": "from content"}"#,
        r#"{"type": "text", "text": 7, "content": "shadowed"}"#,
        r#"{"type": "reasoning", "reasoning": "from reasoning"}"#,
        r#"{"type": "tool", "name": "grep", "id": "t2", "args": [1]}"#,
        r#"{"type": "tool"}"#,
        r#"{"type": "tool", "result": 5}"#,
        r#"{"type": "compaction"}"#,
    ]));
    let blocks = content.unwrap();
    assert_eq!(blocks.len(), 7);
    assert_eq!(blocks[0], text_block("from content"));
    assert_eq!(blocks[1], ContentBlock::Thinking { thinking: "from reasoning".to_string() });
    assert_eq!(
        blocks[2],
        ContentBlock::ToolUse { id: "t2".to_string(), name: "grep".to_string(), input: json("[1]") }
    );
    assert_eq!(
        blocks[3],
        ContentBlock::ToolUse { id: String::new(), name: "unknown".to_string(), input: json("{}") }
    );
    assert_eq!(
        blocks[5],
        ContentBlock::ToolResult {
            tool_use_id: String::new(),
            content: Value::String(String::new()),
            is_error: false,
        }
    );
    assert_eq!(blocks[6], text_block("[Summary] [Context compacted]"));
}

#[test]
fn usage_and_cost_come_from_the_last_step() {
    let (content, usage, cost) = process_parts(&parts(&[
        r#"{"type": "step-finish", "usage": {"promptTokens": 10, "completionTokens": 20}, "cost": 0.25}"#,
        r#"{"type": "text", "text": "x"}"#,
        r#"{"type": "step-finish", "usage": {"input_tokens": 3, "output_tokens": 4294967297}, "costUSD": 2}"#,
        r#"{"type": "step-finish", "cost": "free"}"#,
    ]));
    assert_eq!(content, Some(vec![text_block("x")]));
    assert_eq!(
        usage,
        Some(TokenUsage {
            input_tokens: Some(3),
            output_tokens: None,
            cache_creation_input_tokens: None,
            cache_read_input_tokens: None,
            service_tier: None,
        })
    );
    // the last step records no number
    assert_eq!(cost, None);
    let (_, _, cost) = process_parts(&parts(&[
        r#"{"type": "step-finish", "cost": 0.25, "costUSD": 9}"#,
    ]));
    assert_eq!(cost.unwrap().as_f64(), Some(0.25));
    let (_, usage, cost) = process_parts(&parts(&[
        r#"{"type": "step-finish", "usage": {}, "costUSD": 2}"#,
    ]));
    assert_eq!(cost.unwrap().as_f64(), Some(2.0));
    assert_eq!(usage.unwrap().input_tokens, None);
}

#[test]
fn project_descriptors() {
    assert_eq!(
        read_project(r#"{"id": "alpha", "path": "/home/me/work", "name": "Work"}"#),
        Some(ProjectDescriptor {
            id: "alpha".to_string(),
            path: "/home/me/work".to_string(),
            name: "Work".to_string(),
        })
    );
    assert_eq!(read_project(r#"{"id": "alpha", "path": "/home/me/work"}"#).unwrap().name, "work");
    assert_eq!(read_project(r#"{"id": "alpha"}"#).unwrap().name, "unknown");
    assert_eq!(read_project(r#"{"id": "alpha"}"#).unwrap().path, "");
    assert_eq!(read_project(r#"{"path": "/x"}"#), None);
    assert_eq!(read_project(r#"{"id": "", "path": "/x"}"#), None);
    assert_eq!(read_project(r#"{"id": "../up", "path": "/x"}"#), None);
    assert_eq!(read_project("{broken"), None);
}

#[test]
fn project_names() {
    assert_eq!(project_display_name(Some("Work"), Some("work".to_string())), "Work");
    assert_eq!(project_display_name(Some(""), Some("work".to_string())), "");
    assert_eq!(project_display_name(None, Some("work".to_string())), "work");
    assert_eq!(project_display_name(None, None), "unknown");
    assert_eq!(project_display_name(Some("Work"), None), "Work");
}

#[test]
fn latest_session_time() {
    let files = vec![
        file("a.json", Some(r#"{"updated_at": "2024-01-02T00:00:00Z", "created_at": "2024-01-01T00:00:00Z"}"#)),
        file("b.json", Some(r#"{"created_at": "2024-03-01T00:00:00Z"}"#)),
        file("c.txt", Some(r#"{"updated_at": "2030-01-01T00:00:00Z"}"#)),
        file("d.json", None),
        file("e.json", Some("{broken")),
        file("f.json", Some(r#"{"updated_at": 7, "created_at": "2031-01-01T00:00:00Z"}"#)),
        file("g.json", Some(r#"{"updated_at": "2024-02-01T00:00:00Z"}"#)),
    ];
    assert_eq!(get_latest_session_time(&files), Some("2024-03-01T00:00:00Z".to_string()));
    assert_eq!(get_latest_session_time(&vec![]), None);
    assert_eq!(get_latest_session_time(&vec![file("d.json", None)]), None);
    assert_eq!(count_json_files(&files), 6);
}

#[test]
fn projects_are_listed() {
    let scans = vec![
        ProjectScan {
            descriptor: ProjectDescriptor {
                id: "alpha".to_string(),
                path: "/w/one".to_string(),
                name: "one".to_string(),
            },
            session_files: vec![
                file("s1.json", Some(r#"{"updated_at": "2024-01-02T00:00:00Z"}"#)),
                file("notes.txt", None),
            ],
        },
        ProjectScan {
            descriptor: ProjectDescriptor {
                id: "beta".to_string(),
                path: "/w/two".to_string(),
                name: "two".to_string(),
            },
            session_files: vec![],
        },
    ];
    let projects = scan_projects(&scans, "2025-06-01T00:00:00+00:00");
    assert_eq!(projects.len(), 2);
    assert_eq!(projects[0].name, "two");
    assert_eq!(projects[0].path, "opencode://beta");
    assert_eq!(projects[0].actual_path, "/w/two");
    assert_eq!(projects[0].session_count, 0);
    assert_eq!(projects[0].last_modified, "2025-06-01T00:00:00+00:00");
    assert_eq!(projects[0].provider, Provider::OpenCode);
    assert_eq!(projects[1].name, "one");
    assert_eq!(projects[1].session_count, 1);
    assert_eq!(projects[1].message_count, 0);
    assert_eq!(projects[1].last_modified, "2024-01-02T00:00:00Z");
}

#[test]
fn session_descriptors() {
    assert_eq!(
        read_session(r#"{"id": "ses_1", "title": "Fix", "created_at": "t1", "updated_at": "t2"}"#),
        Some(SessionDescriptor {
            id: "ses_1".to_string(),
            title: Some("Fix".to_string()),
            created_at: "t1".to_string(),
            updated_at: "t2".to_string(),
        })
    );
    let bare = read_session(r#"{"id": "ses_1", "created_at": "t1"}"#).unwrap();
    assert_eq!(bare.title, None);
    assert_eq!(bare.updated_at, "t1");
    assert_eq!(read_session(r#"{"id": "ses_1"}"#).unwrap().updated_at, "");
    assert_eq!(read_session(r#"{"id": "a/b"}"#), None);
    assert_eq!(read_session(r#"{"title": "x"}"#), None);
    assert_eq!(read_session("[]"), None);
    assert_eq!(read_session(""), None);
}

fn session_scan(file_name: &str, id: &str, updated: &str, messages: &[&str]) -> SessionScan {
    SessionScan {
        file_name: file_name.to_string(),
        descriptor: SessionDescriptor {
            id: id.to_string(),
            title: Some(format!("title of {id}")),
            created_at: "2024-01-01T00:00:00Z".to_string(),
            updated_at: updated.to_string(),
        },
        message_files: messages.iter().map(|name| file(name, None)).collect(),
    }
}

#[test]
fn sessions_are_listed() {
    let scans = vec![
        session_scan("ses_1.json", "ses_1", "2024-01-02T00:00:00Z", &["m1.json", "m2.json", "x.tmp"]),
        session_scan("readme.md", "ses_x", "2024-09-09T00:00:00Z", &[]),
        session_scan("file_b.json", "ses_2", "2024-01-03T00:00:00Z", &[]),
        session_scan("file_c.json", "ses_3", "2024-01-02T00:00:00Z", &["m.json"]),
    ];
    let sessions = load_sessions("alpha", &scans);
    assert_eq!(sessions.len(), 3);
    assert_eq!(sessions[0].actual_session_id, "ses_2");
    assert_eq!(sessions[0].session_id, "opencode://ses_2");
    assert_eq!(sessions[0].file_path, "opencode://alpha/file_b");
    assert_eq!(sessions[0].message_count, 0);
    assert_eq!(sessions[0].summary.as_deref(), Some("title of ses_2"));
    // equal times keep the order in which the sessions were found
    assert_eq!(sessions[1].actual_session_id, "ses_1");
    assert_eq!(sessions[1].message_count, 2);
    assert_eq!(sessions[1].first_message_time, "2024-01-01T00:00:00Z");
    assert_eq!(sessions[1].last_message_time, "2024-01-02T00:00:00Z");
    assert_eq!(sessions[1].last_modified, "2024-01-02T00:00:00Z");
    assert_eq!(sessions[1].project_name, "");
    assert!(!sessions[1].has_tool_use);
    assert!(!sessions[1].has_errors);
    assert_eq!(sessions[1].provider, Provider::OpenCode);
    assert_eq!(sessions[2].actual_session_id, "ses_3");
}

#[test]
fn paths_are_validated() {
    assert_eq!(decode_project_path("opencode://alpha"), Ok("alpha".to_string()));
    assert_eq!(decode_project_path("alpha"), Ok("alpha".to_string()));
    assert_eq!(
        decode_project_path("opencode://../alpha"),
        Err(ProviderError::InvalidIdentifier("Invalid OpenCode project path: ../alpha".to_string()))
    );
    assert_eq!(
        decode_session_path("opencode://alpha/ses_1"),
        Ok(("alpha".to_string(), "ses_1".to_string()))
    );
    assert_eq!(
        decode_session_path("opencode://alpha"),
        Err(ProviderError::InvalidIdentifier(
            "Invalid OpenCode session path: opencode://alpha".to_string()
        ))
    );
}

#[test]
fn message_descriptors() {
    assert_eq!(
        read_message(r#"{"id": "msg_1", "role": "assistant", "created_at": "t", "model": "m"}"#),
        Some(MessageHeader {
            id: "msg_1".to_string(),
            role: "assistant".to_string(),
            created_at: "t".to_string(),
            model: Some("m".to_string()),
        })
    );
    let bare = read_message(r#"{"id": "msg_1"}"#).unwrap();
    assert_eq!(bare.role, "user");
    assert_eq!(bare.created_at, "");
    assert_eq!(bare.model, None);
    assert_eq!(read_message(r#"{"id": "msg/1"}"#), None);
    assert_eq!(read_message(r#"{"role": "user"}"#), None);
    assert_eq!(read_message("{broken"), None);
}

#[test]
fn message_parts_are_ordered_by_stem() {
    let files = vec![
        file("b.json", Some(r#"{"type": "text", "text": "second"}"#)),
        file("a.json", Some(r#"{"type": "text", "text": "third"}"#)),
        file("c.txt", Some(r#"{"type": "text", "text": "no json name"}"#)),
        file("a-b.json", Some("{broken")),
        file("d.json", None),
        file("a-a.json", Some(r#"{"type": "text", "text": "fourth"}"#)),
        file("A.json", Some(r#"{"type": "text", "text": "first"}"#)),
    ];
    let values = read_message_parts(&files);
    let texts: Vec<&str> = values.iter().map(|v| v["text"].as_str().unwrap()).collect();
    // by stem: A, a, a-a, (a-b), b
    assert_eq!(texts, vec!["first", "third", "fourth", "second"]);
    assert_eq!(read_message_parts(&vec![]), Vec::<Value>::new());
}

fn record(file_name: &str, id: &str, role: &str, texts: &[&str]) -> MessageRecord {
    MessageRecord {
        file_name: file_name.to_string(),
        header: MessageHeader {
            id: id.to_string(),
            role: role.to_string(),
            created_at: format!("at-{id}"),
            model: None,
        },
        parts: texts
            .iter()
            .enumerate()
            .map(|(i, t)| file(&format!("part{i}.json"), Some(&format!(r#"{{"type": "text", "text": "{t}"}}"#))))
            .collect(),
    }
}

#[test]
fn messages_are_built_from_records() {
    let message = message_for(&record("m1.json", "msg_1", "assistant", &["hi", "there"]), "ses_1")
        .unwrap();
    assert_eq!(message.uuid, "msg_1");
    assert_eq!(message.session_id, "ses_1");
    assert_eq!(message.timestamp, "at-msg_1");
    assert_eq!(message.role, Role::Assistant);
    assert_eq!(message.content, Some(vec![text_block("hi"), text_block("there")]));
    assert_eq!(message.provider, Provider::OpenCode);
    assert_eq!(message.parent_uuid, None);
    assert_eq!(message.duration_ms, None);
    assert_eq!(message_for(&record("m.json", "m", "system", &["x"]), "s").unwrap().role, Role::System);
    assert_eq!(message_for(&record("m.json", "m", "user", &["x"]), "s").unwrap().role, Role::User);
    assert_eq!(message_for(&record("m.json", "m", "tool", &["x"]), "s").unwrap().role, Role::User);
    // a message without content is left out
    assert_eq!(message_for(&record("m.json", "m", "user", &[]), "s"), None);
    assert_eq!(message_for(&record("m.json", "m", "user", &[""]), "s"), None);
}

#[test]
fn messages_are_loaded_in_the_order_of_their_files() {
    let records = vec![
        record("msg_b.json", "b", "assistant", &["two"]),
        record("msg_c.json", "c", "user", &[]),
        record("msg_a.json", "a", "user", &["one"]),
        record("msg_d.json", "d", "user", &["three"]),
    ];
    let messages = load_messages("ses_1", records);
    let ids: Vec<&str> = messages.iter().map(|m| m.uuid.as_str()).collect();
    assert_eq!(ids, vec!["a", "b", "d"]);
    assert_eq!(load_messages("ses_1", vec![]), vec![]);
}

#[test]
fn search_keeps_the_first_matches() {
    let messages = load_messages(
        "s",
        vec![
            record("1.json", "m1", "user", &["Alpha beta"]),
            record("2.json", "m2", "user", &["gamma"]),
            record("3.json", "m3", "user", &["BETA again"]),
            record("4.json", "m4", "user", &["beta once more"]),
        ],
    );
    let found = search(messages.clone(), "Beta", 2);
    assert_eq!(found.iter().map(|m| m.uuid.as_str()).collect::<Vec<_>>(), vec!["m1", "m3"]);
    assert_eq!(search(messages.clone(), "beta", 10).len(), 3);
    assert_eq!(search(messages.clone(), "beta", 0), vec![]);
    assert_eq!(search(messages, "delta", 10), vec![]);
}

#[test]
fn opencode_detection() {
    let info = detect(Some("/home/me/.local/share/opencode".to_string()), true).unwrap();
    assert_eq!(info.id, "opencode");
    assert_eq!(info.display_name, "OpenCode");
    assert_eq!(info.base_path, "/home/me/.local/share/opencode");
    assert!(info.is_available);
    assert!(!detect(Some("/x".to_string()), false).unwrap().is_available);
    assert_eq!(detect(None, false), None);
}

fn probe(path: &str, exists: bool) -> Option<PathProbe> {
    Some(PathProbe { path: path.to_string(), exists })
}

#[test]
fn base_path_resolution_order() {
    let home = || probe("/override", true);
    assert_eq!(get_base_path(home(), probe("/xdg", true), probe("/default", true)), Some("/override".to_string()));
    assert_eq!(
        get_base_path(probe("/override", false), probe("/xdg", true), probe("/default", true)),
        Some("/xdg".to_string())
    );
    assert_eq!(get_base_path(None, probe("/xdg", false), probe("/default", true)), Some("/default".to_string()));
    assert_eq!(get_base_path(None, None, probe("/default", false)), None);
    assert_eq!(get_base_path(None, None, None), None);
}
