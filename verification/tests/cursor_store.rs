use provider_history::cursor::{decode_project_path, decode_session_path, detect, get_base_path, load_messages, load_sessions, scan_projects, search};
use provider_history::cursor::composer::{project_for, read_composer_meta, session_for, ComposerMeta};
use provider_history::cursor::container::{bubble_key, bubble_keys, composer_key, load_messages_v1, load_messages_v6, read_container, schema_version};
use provider_history::cursor::query::{like_pattern, sql_limit};
use provider_history::cursor::workspace::{project_name, read_project_name, admits_entry, composer_list_key, discover_workspaces, read_workspace_composer_ids, read_workspace_folder, WorkspaceEntry, WorkspaceInfo};
use provider_history::error::ProviderError;
use provider_history::model::{ContentBlock, Provider};
use provider_history::paths::PathProbe;
use serde_json::Value;

const ID_A: &str = "cffd0fb5-5188-4961-aca8-a1f4e53e6f08";
const ID_B: &str = "00000000-0000-0000-0000-000000000000";

fn json(text: &str) -> Value {
    serde_json::from_str(text).unwrap()
}

fn text_of(blocks: &Option<Vec<ContentBlock>>) -> String {
    match blocks.as_ref().unwrap().first().unwrap() {
        ContentBlock::Text { text } => text.clone(),
        other => panic!("expected text, got {:?}", other),
    }
}

#[test]
fn keys_of_the_store() {
    assert_eq!(composer_key(ID_A), "composerData:cffd0fb5-5188-4961-aca8-a1f4e53e6f08");
    assert_eq!(bubble_key("c1", "b7"), "bubbleId:c1:b7");
    assert_eq!(composer_list_key(), "composer.composerData");
}

#[test]
fn session_path_must_hold_a_uuid() {
    assert_eq!(decode_session_path(&format!("cursor://{ID_A}")), Ok(ID_A.to_string()));
    assert_eq!(decode_session_path(ID_A), Ok(ID_A.to_string()));
    assert_eq!(
        decode_session_path("cursor://../../../etc/passwd"),
        Err(ProviderError::InvalidIdentifier(
            "Invalid composer ID: ../../../etc/passwd".to_string()
        ))
    );
    assert_eq!(
        decode_session_path(""),
        Err(ProviderError::InvalidIdentifier("Invalid composer ID: ".to_string()))
    );
}

#[test]
fn project_path_must_hold_a_safe_id() {
    assert_eq!(decode_project_path("cursor://0a1b2c"), Ok("0a1b2c".to_string()));
    assert_eq!(
        decode_project_path("cursor://a/../b"),
        Err(ProviderError::InvalidIdentifier("Invalid workspace hash: a/../b".to_string()))
    );
}

#[test]
fn container_missing_or_malformed() {
    assert_eq!(
        read_container(ID_A, None),
        Err(ProviderError::NotFound(format!("Composer not found: {ID_A}")))
    );
    assert!(matches!(read_container(ID_A, Some("{not json")), Err(ProviderError::Decode(_))));
    assert_eq!(read_container(ID_A, Some(r#"{"_v": 3}"#)), Ok(json(r#"{"_v": 3}"#)));
}

#[test]
fn schema_versions() {
    assert_eq!(schema_version(&json(r#"{"_v": 6}"#)), 6);
    assert_eq!(schema_version(&json(r#"{"_v": 1}"#)), 1);
    assert_eq!(schema_version(&json(r#"{}"#)), 0);
    assert_eq!(schema_version(&json(r#"{"_v": "6"}"#)), 0);
    assert_eq!(schema_version(&json(r#"{"_v": -2}"#)), -2);
}

#[test]
fn inline_turns_keep_their_position() {
    let container = json(
        r#"{"_v": 3, "conversation": [
            {"type": 1, "text": "one"},
            {"type": 99, "text": "noise"},
            {"type": 2, "text": ""},
            {"type": 2, "text": "four"}
        ]}"#,
    );
    let messages = load_messages_v1("c1", &container);
    assert_eq!(messages.len(), 2);
    assert_eq!(messages[0].uuid, "cursor-c1-0");
    assert_eq!(messages[1].uuid, "cursor-c1-3");
    assert_eq!(text_of(&messages[1].content), "four");
    assert_eq!(load_messages("c1", &container, &vec![]), messages);
    assert_eq!(load_messages_v1("c1", &json("{}")), vec![]);
    assert_eq!(load_messages_v1("c1", &json(r#"{"conversation": {}}"#)), vec![]);
}

#[test]
fn split_turns_follow_the_headers() {
    let container = json(
        r#"{"_v": 6, "fullConversationHeadersOnly": [
            {"bubbleId": "b0", "type": 1},
            {"type": 2},
            {"bubbleId": "b2", "type": 2},
            {"bubbleId": "b3", "type": 2},
            {"bubbleId": "b4", "type": 2}
        ]}"#,
    );
    let keys = bubble_keys("c1", &container);
    assert_eq!(
        keys,
        vec![
            Some("bubbleId:c1:b0".to_string()),
            None,
            Some("bubbleId:c1:b2".to_string()),
            Some("bubbleId:c1:b3".to_string()),
            Some("bubbleId:c1:b4".to_string()),
        ]
    );
    let blobs = vec![
        Some(r#"{"type": 1, "bubbleId": "b0", "text": "one"}"#.to_string()),
        Some(r#"{"type": 2, "text": "never read"}"#.to_string()),
        None,
        Some("{broken".to_string()),
        Some(r#"{"type": 2, "text": "five"}"#.to_string()),
    ];
    let messages = load_messages_v6("c1", &container, &blobs);
    assert_eq!(messages.len(), 2);
    assert_eq!(messages[0].uuid, "b0");
    assert_eq!(messages[1].uuid, "cursor-c1-4");
    assert_eq!(text_of(&messages[1].content), "five");
    assert_eq!(load_messages("c1", &container, &blobs), messages);
    // fewer records than headers: the rest was not found
    assert_eq!(load_messages_v6("c1", &container, &blobs[..1].to_vec()).len(), 1);
    assert_eq!(load_messages_v6("c1", &container, &vec![]), vec![]);
}

#[test]
fn no_keys_below_the_split_version() {
    let container = json(r#"{"_v": 5, "fullConversationHeadersOnly": [{"bubbleId": "b0"}]}"#);
    assert_eq!(bubble_keys("c1", &container), Vec::<Option<String>>::new());
    assert_eq!(bubble_keys("c1", &json(r#"{"_v": 6}"#)), Vec::<Option<String>>::new());
}

#[test]
fn both_schema_generations_decode_alike() {
    let turns = [
        r#"{"type": 1, "bubbleId": "b0", "text": "question", "createdAt": 1704067200000}"#,
        r#"{"type": 2, "text": "answer", "thinking": {"text": "hm"}}"#,
        r#"{"type": 2, "capabilityType": 30}"#,
        r#"{"type": 2, "bubbleId": "b3", "toolFormerData": {"toolCallId": "c", "name": "rg"}}"#,
    ];
    let inline = json(&format!(r#"{{"_v": 3, "conversation": [{}]}}"#, turns.join(",")));
    let split = json(
        r#"{"_v": 9, "fullConversationHeadersOnly": [
            {"bubbleId": "b0"}, {"bubbleId": "b1"}, {"bubbleId": "b2"}, {"bubbleId": "b3"}
        ]}"#,
    );
    let blobs: Vec<Option<String>> = turns.iter().map(|t| Some(t.to_string())).collect();
    let from_inline = load_messages(ID_A, &inline, &vec![]);
    let from_split = load_messages(ID_A, &split, &blobs);
    assert_eq!(from_inline.len(), 3);
    assert_eq!(from_inline, from_split);
}

#[test]
fn metadata_from_a_fetched_record() {
    assert_eq!(read_composer_meta(None), None);
    assert_eq!(read_composer_meta(Some("{broken")), None);
    let meta = read_composer_meta(Some(r#"{"name": "Chat", "conversation": [{}]}"#)).unwrap();
    assert_eq!(meta.name.as_deref(), Some("Chat"));
    assert_eq!(meta.message_count, 1);
}

fn meta(name: Option<&str>, status: Option<&str>, count: usize, updated: Option<i64>) -> ComposerMeta {
    ComposerMeta {
        name: name.map(String::from),
        created_at: Some(1_704_067_200_000),
        last_updated_at: updated,
        message_count: count,
        has_tool_use: true,
        status: status.map(String::from),
    }
}

#[test]
fn session_from_metadata() {
    let session = session_for(ID_A, Some(meta(None, Some("completed"), 4, Some(1_704_070_800_000))), "proj")
        .unwrap();
    assert_eq!(session.session_id, format!("cursor://{ID_A}"));
    assert_eq!(session.actual_session_id, ID_A);
    assert_eq!(session.file_path, format!("cursor://{ID_A}"));
    assert_eq!(session.project_name, "proj");
    assert_eq!(session.message_count, 4);
    assert_eq!(session.first_message_time, "2024-01-01T00:00:00+00:00");
    assert_eq!(session.last_message_time, "2024-01-01T01:00:00+00:00");
    assert_eq!(session.last_modified, "2024-01-01T01:00:00+00:00");
    assert!(session.has_tool_use);
    assert!(!session.has_errors);
    assert_eq!(session.summary.as_deref(), Some("completed"));
    assert_eq!(session.provider, Provider::Cursor);
}

#[test]
fn session_summary_and_absence() {
    let named = session_for(ID_A, Some(meta(Some("Chat"), Some("completed"), 1, None)), "").unwrap();
    assert_eq!(named.summary.as_deref(), Some("Chat"));
    assert_eq!(named.last_modified, "");
    let idle = session_for(ID_A, Some(meta(None, Some("none"), 1, None)), "").unwrap();
    assert_eq!(idle.summary, None);
    let bare = session_for(ID_A, Some(meta(None, None, 1, None)), "").unwrap();
    assert_eq!(bare.summary, None);
    assert_eq!(session_for(ID_A, Some(meta(Some("Chat"), None, 0, None)), ""), None);
    assert_eq!(session_for(ID_A, None, ""), None);
}

#[test]
fn sessions_are_listed_newest_first() {
    let ids = vec![ID_A.to_string(), ID_B.to_string(), "third".to_string(), "fourth".to_string()];
    let fetched = vec![
        Some(r#"{"lastUpdatedAt": 1704067200000, "conversation": [{}]}"#.to_string()),
        Some(r#"{"lastUpdatedAt": 1704070800000, "conversation": [{}, {}]}"#.to_string()),
        None,
        Some(r#"{"lastUpdatedAt": 1704070800000, "conversation": []}"#.to_string()),
    ];
    let sessions = load_sessions("proj", &ids, &fetched);
    assert_eq!(sessions.len(), 2);
    assert_eq!(sessions[0].actual_session_id, ID_B);
    assert_eq!(sessions[0].message_count, 2);
    assert_eq!(sessions[1].actual_session_id, ID_A);
    // records that were not fetched count as missing
    assert_eq!(load_sessions("proj", &ids, &vec![]), vec![]);
}

fn workspace(hash: &str, folder: &str, name: Option<&str>, ids: &[&str]) -> WorkspaceInfo {
    WorkspaceInfo {
        hash: hash.to_string(),
        folder_path: folder.to_string(),
        folder_name: name.map(String::from),
        composer_ids: ids.iter().map(|id| id.to_string()).collect(),
    }
}

#[test]
fn project_from_metadata() {
    let ws = workspace("0a1b", "/home/me/proj", Some("proj"), &[ID_A, ID_B]);
    let metas = vec![
        Some(meta(None, None, 3, Some(1_704_067_200_000))),
        None,
        Some(meta(None, None, 4, Some(1_704_070_800_000))),
        Some(meta(None, None, 0, Some(-5))),
    ];
    let project = project_for(&ws, &metas).unwrap();
    assert_eq!(project.name, "proj");
    assert_eq!(project.path, "cursor://0a1b");
    assert_eq!(project.actual_path, "/home/me/proj");
    assert_eq!(project.session_count, 2);
    assert_eq!(project.message_count, 7);
    assert_eq!(project.last_modified, "2024-01-01T01:00:00+00:00");
    assert_eq!(project.provider, Provider::Cursor);
}

#[test]
fn project_edge_cases() {
    let unnamed = workspace("0a1b", "/", None, &[ID_A]);
    let project = project_for(&unnamed, &vec![Some(meta(None, None, 1, None))]).unwrap();
    assert_eq!(project.name, "/");
    assert_eq!(project.last_modified, "");
    assert_eq!(project_for(&unnamed, &vec![Some(meta(None, None, 0, None)), None]), None);
    assert_eq!(project_for(&unnamed, &vec![]), None);
    let huge = vec![
        Some(meta(None, None, usize::MAX, None)),
        Some(meta(None, None, 2, None)),
    ];
    assert_eq!(project_for(&unnamed, &huge).unwrap().message_count, usize::MAX);
}

#[test]
fn projects_are_listed_newest_first() {
    let workspaces = vec![
        workspace("old", "/w/old", Some("old"), &[ID_A]),
        workspace("empty", "/w/empty", Some("empty"), &[ID_A]),
        workspace("new", "/w/new", Some("new"), &[ID_A, ID_B]),
    ];
    let fetched = vec![
        vec![Some(r#"{"lastUpdatedAt": 1704067200000, "conversation": [{}]}"#.to_string())],
        vec![Some(r#"{"lastUpdatedAt": 1704099999000, "conversation": []}"#.to_string())],
        vec![
            Some("{broken".to_string()),
            Some(r#"{"lastUpdatedAt": 1704070800000, "conversation": [{}, {}]}"#.to_string()),
        ],
    ];
    let projects = scan_projects(&workspaces, &fetched);
    assert_eq!(projects.len(), 2);
    assert_eq!(projects[0].name, "new");
    assert_eq!(projects[0].message_count, 2);
    assert_eq!(projects[0].session_count, 2);
    assert_eq!(projects[1].name, "old");
    assert_eq!(scan_projects(&workspaces, &vec![]), vec![]);
}

#[test]
fn like_patterns_escape_wildcards() {
    assert_eq!(like_pattern("hello"), "%hello%");
    assert_eq!(like_pattern(""), "%%");
    assert_eq!(like_pattern("100%"), "%100\\%%");
    assert_eq!(like_pattern("a_b"), "%a\\_b%");
    assert_eq!(like_pattern("%_%"), "%\\%\\_\\%%");
    assert_eq!(like_pattern("caf\u{e9}_1"), "%caf\u{e9}\\_1%");
    assert_eq!(like_pattern("a\\b"), "%a\\\\b%");
    assert_eq!(like_pattern("\\%"), "%\\\\\\%%");
}

#[test]
fn row_limits_are_doubled() {
    assert_eq!(sql_limit(0), 0);
    assert_eq!(sql_limit(1), 2);
    assert_eq!(sql_limit(100), 200);
    assert_eq!(sql_limit(usize::MAX), i64::MAX);
    assert_eq!(sql_limit((i64::MAX / 2) as usize), i64::MAX - 1);
    assert_eq!(sql_limit((i64::MAX / 2) as usize + 1), i64::MAX);
}

#[test]
fn search_filters_and_stops_at_the_limit() {
    let rows = vec![
        r#"{"type": 1, "bubbleId": "r0", "text": "Find the NEEDLE here"}"#.to_string(),
        "{broken".to_string(),
        r#"{"type": 1, "bubbleId": "r2", "text": "nothing"}"#.to_string(),
        r#"{"type": 9, "bubbleId": "r3", "text": "needle of unknown kind"}"#.to_string(),
        r#"{"type": 2, "bubbleId": "r4", "thinking": {"text": "a needle in thought"}}"#.to_string(),
        r#"{"type": 2, "bubbleId": "r5", "toolFormerData": {"toolCallId": "c", "name": "x", "rawArgs": "{\"q\": \"Needle\"}"}}"#.to_string(),
        r#"{"type": 2, "bubbleId": "r6", "toolFormerData": {"toolCallId": "c", "name": "x", "status": "completed", "params": "[\"NEEDLE\"]"}}"#.to_string(),
        r#"{"type": 2, "bubbleId": "r7", "toolFormerData": {"toolCallId": "needle", "name": "run_terminal_cmd"}}"#.to_string(),
    ];
    let all = search(&rows, "Needle", 10);
    let ids: Vec<&str> = all.iter().map(|m| m.uuid.as_str()).collect();
    // the last row matches by the identifier of its tool call
    assert_eq!(ids, vec!["r0", "r4", "r5", "r6", "r7"]);
    assert_eq!(all[0].session_id, "");
    let two = search(&rows, "needle", 2);
    assert_eq!(two.iter().map(|m| m.uuid.as_str()).collect::<Vec<_>>(), vec!["r0", "r4"]);
    assert_eq!(search(&rows, "needle", 0), vec![]);
    assert_eq!(search(&rows, "absent", 10), vec![]);
    // the canonical name of a tool matches too
    assert_eq!(search(&rows, "bash", 10).len(), 1);
    assert_eq!(search(&vec![], "needle", 10), vec![]);
}

#[test]
fn workspace_descriptor() {
    assert_eq!(
        read_workspace_folder(r#"{"folder": "file:///Users/test/my%20project"}"#),
        Some("/Users/test/my project".to_string())
    );
    assert_eq!(read_workspace_folder(r#"{"folder": "/plain"}"#), Some("/plain".to_string()));
    assert_eq!(read_workspace_folder(r#"{"folder": 7}"#), None);
    assert_eq!(read_workspace_folder(r#"{}"#), None);
    assert_eq!(read_workspace_folder("{broken"), None);
}

#[test]
fn project_names_of_sessions() {
    assert_eq!(project_name(Some("proj".to_string())), "proj");
    assert_eq!(project_name(None), "");
    assert_eq!(read_project_name(Some(r#"{"folder": "file:///w/my%20proj"}"#)), "my proj");
    assert_eq!(read_project_name(Some(r#"{"folder": "file://"}"#)), "");
    assert_eq!(read_project_name(Some("{}")), "");
    assert_eq!(read_project_name(Some("{broken")), "");
    assert_eq!(read_project_name(None), "");
}

#[test]
fn composer_ids_are_validated() {
    let listed = format!(
        r#"{{"allComposers": [
            {{"composerId": "{ID_A}"}},
            {{"composerId": "../../etc"}},
            {{"composerId": 7}},
            {{}},
            {{"composerId": "{ID_B}", "name": "x"}}
        ]}}"#
    );
    assert_eq!(
        read_workspace_composer_ids(Some(&listed)),
        Ok(vec![ID_A.to_string(), ID_B.to_string()])
    );
    assert_eq!(read_workspace_composer_ids(None), Ok(vec![]));
    assert_eq!(read_workspace_composer_ids(Some("{}")), Ok(vec![]));
    assert_eq!(read_workspace_composer_ids(Some(r#"{"allComposers": 1}"#)), Ok(vec![]));
    assert!(matches!(
        read_workspace_composer_ids(Some("{broken")),
        Err(ProviderError::Decode(_))
    ));
}

#[test]
fn entries_are_admitted_before_they_are_read() {
    assert!(admits_entry(Some("0a1b2c"), false, true));
    assert!(!admits_entry(Some("0a1b2c"), true, true));
    assert!(!admits_entry(Some("0a1b2c"), false, false));
    assert!(!admits_entry(Some("a/b"), false, true));
    assert!(!admits_entry(Some(".."), false, true));
    assert!(!admits_entry(None, false, true));
}

fn entry(name: &str, is_symlink: bool, folder: Option<&str>, ids: Option<&str>) -> WorkspaceEntry {
    WorkspaceEntry {
        name: Some(name.to_string()),
        is_symlink,
        is_dir: true,
        descriptor: folder.map(|f| format!(r#"{{"folder": "{f}"}}"#)),
        composer_data: ids.map(|id| format!(r#"{{"allComposers": [{{"composerId": "{id}"}}]}}"#)),
    }
}

#[test]
fn workspaces_are_discovered_in_order() {
    let entries = vec![
        entry("aaa", false, Some("file:///w/one"), Some(ID_A)),
        entry("link", true, Some("file:///w/link"), Some(ID_A)),
        entry("no-folder", false, None, Some(ID_A)),
        entry("no-ids", false, Some("file:///w/none"), None),
        entry("bad-ids", false, Some("file:///w/bad"), Some("not-a-uuid")),
        entry("bbb", false, Some("file:///w/two%20b"), Some(ID_B)),
        WorkspaceEntry {
            name: None,
            is_symlink: false,
            is_dir: true,
            descriptor: Some(r#"{"folder": "/x"}"#.to_string()),
            composer_data: None,
        },
    ];
    let found = discover_workspaces(&entries);
    assert_eq!(found.len(), 2);
    assert_eq!(found[0].hash, "aaa");
    assert_eq!(found[0].folder_path, "/w/one");
    assert_eq!(found[0].composer_ids, vec![ID_A.to_string()]);
    assert_eq!(found[0].folder_name.as_deref(), Some("one"));
    assert_eq!(found[1].hash, "bbb");
    assert_eq!(found[1].folder_path, "/w/two b");
    assert_eq!(found[1].composer_ids, vec![ID_B.to_string()]);
    assert_eq!(discover_workspaces(&vec![]), vec![]);
}

#[test]
fn cursor_detection() {
    let info = detect(Some("/data/Cursor/User".to_string()), true).unwrap();
    assert_eq!(info.id, "cursor");
    assert_eq!(info.display_name, "Cursor AI");
    assert_eq!(info.base_path, "/data/Cursor/User");
    assert!(info.is_available);
    assert!(!detect(Some("/x".to_string()), false).unwrap().is_available);
    assert_eq!(detect(None, true), None);
}

fn probe(path: &str, exists: bool) -> Option<PathProbe> {
    Some(PathProbe { path: path.to_string(), exists })
}

#[test]
fn cursor_base_path_resolution() {
    assert_eq!(get_base_path(probe("/custom", true), probe("/default", true)), Some("/custom".to_string()));
    assert_eq!(get_base_path(probe("/custom", false), probe("/default", true)), Some("/default".to_string()));
    assert_eq!(get_base_path(None, probe("/default", true)), Some("/default".to_string()));
    assert_eq!(get_base_path(probe("/custom", false), probe("/default", false)), None);
    assert_eq!(get_base_path(probe("/custom", true), None), Some("/custom".to_string()));
    assert_eq!(get_base_path(None, None), None);
}
