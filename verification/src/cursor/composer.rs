//! What the listings of projects and sessions read from the containers of
//! conversations.

use vstd::prelude::*;
use vstd::string::*;
use serde_json::Value;
use crate::cursor::container::headers_of;
use crate::cursor::workspace::{WorkspaceInfo, WorkspaceModel};
use crate::fields::{i64_at, items_at, opt_i64, opt_items, opt_str, string_at};
use crate::json::{self, json_model, member, models, parsed_json, JsonModel};
use crate::model::{
    opt_text, opt_view, views, Project, ProjectModel, Provider, Session, SessionModel,
};
use crate::text::{chars_eq, chars_of};
use crate::timestamp::{millis_text, millis_to_rfc3339};
use crate::vpath::{encode, encoded};

verus! {

/// What the listing of projects and sessions reads from the container of a
/// conversation.
#[derive(Clone, Debug, PartialEq, Eq)]
pub struct ComposerMeta {
    pub name: Option<String>,
    pub created_at: Option<i64>,
    pub last_updated_at: Option<i64>,
    pub message_count: usize,
    pub has_tool_use: bool,
    pub status: Option<String>,
}

/// The view of a `ComposerMeta`.
pub struct MetaModel {
    pub name: Option<Seq<char>>,
    pub created_at: Option<i64>,
    pub last_updated_at: Option<i64>,
    pub message_count: usize,
    pub has_tool_use: bool,
    pub status: Option<Seq<char>>,
}

impl View for ComposerMeta {
    type V = MetaModel;

    open spec fn view(&self) -> MetaModel {
        MetaModel {
            name: opt_text(self.name),
            created_at: self.created_at,
            last_updated_at: self.last_updated_at,
            message_count: self.message_count,
            has_tool_use: self.has_tool_use,
            status: opt_text(self.status),
        }
    }
}

/// The views of a sequence of optional `ComposerMeta`.
pub open spec fn opt_metas(metas: Seq<Option<ComposerMeta>>) -> Seq<Option<MetaModel>> {
    metas.map_values(|m: Option<ComposerMeta>| opt_view(m))
}

/// Whether a turn records the use of a tool.
pub open spec fn turn_uses_tool(turn: JsonModel) -> bool {
    member(turn, "toolFormerData"@) is Some || member(turn, "capabilityType"@) is Some
}

/// Whether some turn records the use of a tool.
pub open spec fn some_turn_uses_tool(turns: Seq<JsonModel>) -> bool {
    exists|i: int| 0 <= i && i < turns.len() && #[trigger] turn_uses_tool(turns[i])
}

/// The number of turns of a container: those it holds inline, else its
/// headers.
pub open spec fn turn_count(container: JsonModel) -> nat {
    match opt_items(member(container, "conversation"@)) {
        Some(turns) => turns.len(),
        None => headers_of(container).len(),
    }
}

/// What the listings read from a container.
pub open spec fn meta_of(container: JsonModel) -> MetaModel {
    MetaModel {
        name: opt_str(member(container, "name"@)),
        created_at: opt_i64(member(container, "createdAt"@)),
        last_updated_at: opt_i64(member(container, "lastUpdatedAt"@)),
        message_count: turn_count(container) as usize,
        has_tool_use: match opt_items(member(container, "conversation"@)) {
            Some(turns) => some_turn_uses_tool(turns),
            None => false,
        },
        status: opt_str(member(container, "status"@)),
    }
}

fn uses_tool(turns: &Vec<Value>) -> (r: bool)
    ensures
        r == some_turn_uses_tool(models(turns@)),
{
    let mut i: usize = 0;
    while i < turns.len()
        invariant
            i <= turns.len(),
            forall|j: int| 0 <= j < i ==> !turn_uses_tool(models(turns@)[j]),
        decreases turns.len() - i,
    {
        let turn = &turns[i];
        if json::get(turn, "toolFormerData").is_some() || json::get(turn, "capabilityType").is_some() {
            assert(turn_uses_tool(models(turns@)[i as int]));
            return true;
        }
        i = i + 1;
    }
    false
}

/// Reads from a container what the listings of projects and sessions need.
pub fn extract_composer_meta(val: &Value) -> (r: ComposerMeta)
    ensures
        r@ == meta_of(json_model(*val)),
{
    let inline = items_at(json::get(val, "conversation"));
    let message_count = match inline {
        Some(turns) => turns.len(),
        None => match items_at(json::get(val, "fullConversationHeadersOnly")) {
            Some(headers) => headers.len(),
            None => 0,
        },
    };
    let has_tool_use = match inline {
        Some(turns) => uses_tool(turns),
        None => false,
    };
    ComposerMeta {
        name: string_at(json::get(val, "name")),
        created_at: i64_at(json::get(val, "createdAt")),
        last_updated_at: i64_at(json::get(val, "lastUpdatedAt")),
        message_count,
        has_tool_use,
        status: string_at(json::get(val, "status")),
    }
}

/// What the listings read from the record fetched for a conversation:
/// nothing where no record was found, and nothing where it does not parse.
pub open spec fn meta_at(fetched: Option<Seq<char>>) -> Option<MetaModel> {
    match fetched {
        Some(text) => match parsed_json(text) {
            Some(container) => Some(meta_of(container)),
            None => None,
        },
        None => None,
    }
}

/// Reads the metadata of a conversation from the record fetched for it. A
/// record that does not parse is passed over like a missing one.
pub fn read_composer_meta(fetched: Option<&str>) -> (r: Option<ComposerMeta>)
    ensures
        opt_view(r) == meta_at(match fetched {
            Some(text) => Some(text@),
            None => None,
        }),
{
    match fetched {
        Some(text) => match json::parse(text) {
            Ok(container) => Some(extract_composer_meta(&container)),
            Err(_) => None,
        },
        None => None,
    }
}

/// The text of an optional count of milliseconds; empty where there is none.
pub open spec fn time_text(millis: Option<i64>) -> Seq<char> {
    match millis {
        Some(ms) => millis_text(ms),
        None => Seq::empty(),
    }
}

fn time_string(millis: Option<i64>) -> (r: String)
    ensures
        r@ == time_text(millis),
{
    match millis {
        Some(ms) => millis_to_rfc3339(ms),
        None => String::new(),
    }
}

/// The summary of a session: the name of the conversation, else its status
/// unless that is `none`.
pub open spec fn summary_of(meta: MetaModel) -> Option<Seq<char>> {
    match meta.name {
        Some(name) => Some(name),
        None => match meta.status {
            Some(status) => if status == "none"@ {
                None
            } else {
                Some(status)
            },
            None => None,
        },
    }
}

/// The session for a conversation, given what was read from its container.
/// There is none without a container and none for a conversation without
/// turns.
pub open spec fn session_of(composer: Seq<char>, meta: Option<MetaModel>, project_name: Seq<char>) -> Option<
    SessionModel,
> {
    match meta {
        Some(m) => if m.message_count == 0 {
            None
        } else {
            Some(
                SessionModel {
                    session_id: encoded(Provider::Cursor, composer),
                    actual_session_id: composer,
                    file_path: encoded(Provider::Cursor, composer),
                    project_name,
                    message_count: m.message_count,
                    first_message_time: time_text(m.created_at),
                    last_message_time: time_text(m.last_updated_at),
                    last_modified: time_text(m.last_updated_at),
                    has_tool_use: m.has_tool_use,
                    has_errors: false,
                    summary: summary_of(m),
                    provider: Provider::Cursor,
                },
            )
        },
        None => None,
    }
}

/// Builds the session for the conversation `composer_id` of the project
/// `project_name`.
pub fn session_for(composer_id: &str, meta: Option<ComposerMeta>, project_name: &str) -> (r: Option<
    Session,
>)
    ensures
        opt_view(r) == session_of(composer_id@, opt_view(meta), project_name@),
{
    match meta {
        Some(m) => {
            if m.message_count == 0 {
                return None;
            }
            let summary = match m.name {
                Some(name) => Some(name),
                None => match m.status {
                    Some(status) => {
                        let chars = chars_of(status.as_str());
                        if chars_eq(&chars, "none") {
                            None
                        } else {
                            Some(status)
                        }
                    },
                    None => None,
                },
            };
            Some(
                Session {
                    session_id: encode(Provider::Cursor, composer_id),
                    actual_session_id: String::from_str(composer_id),
                    file_path: encode(Provider::Cursor, composer_id),
                    project_name: String::from_str(project_name),
                    message_count: m.message_count,
                    first_message_time: time_string(m.created_at),
                    last_message_time: time_string(m.last_updated_at),
                    last_modified: time_string(m.last_updated_at),
                    has_tool_use: m.has_tool_use,
                    has_errors: false,
                    summary,
                    provider: Provider::Cursor,
                },
            )
        },
        None => None,
    }
}

/// The number of turns in all conversations together.
pub open spec fn total_messages(metas: Seq<Option<MetaModel>>) -> nat
    decreases metas.len(),
{
    if metas.len() == 0 {
        0
    } else {
        total_messages(metas.drop_last()) + match metas.last() {
            Some(m) => m.message_count as nat,
            None => 0,
        }
    }
}

/// The latest time at which one of the conversations was updated, in
/// milliseconds; 0 where none records a time above 0.
pub open spec fn latest_update(metas: Seq<Option<MetaModel>>) -> i64
    decreases metas.len(),
{
    if metas.len() == 0 {
        0
    } else {
        let before = latest_update(metas.drop_last());
        match metas.last() {
            Some(m) => match m.last_updated_at {
                Some(at) => if at > before {
                    at
                } else {
                    before
                },
                None => before,
            },
            None => before,
        }
    }
}

/// A count as `usize`, held at `usize::MAX` where it is above.
pub open spec fn saturated(n: nat) -> usize {
    if n > usize::MAX {
        usize::MAX
    } else {
        n as usize
    }
}

/// The project for a workspace, given what was read from the containers of
/// its conversations. A workspace whose conversations have no turns is no
/// project.
pub open spec fn project_of(ws: WorkspaceModel, metas: Seq<Option<MetaModel>>) -> Option<
    ProjectModel,
> {
    if total_messages(metas) == 0 {
        None
    } else {
        Some(
            ProjectModel {
                name: match ws.folder_name {
                    Some(name) => name,
                    None => ws.folder_path,
                },
                path: encoded(Provider::Cursor, ws.hash),
                actual_path: ws.folder_path,
                session_count: ws.composer_ids.len() as usize,
                message_count: saturated(total_messages(metas)),
                last_modified: if latest_update(metas) > 0 {
                    millis_text(latest_update(metas))
                } else {
                    Seq::empty()
                },
                provider: Provider::Cursor,
            },
        )
    }
}

/// Builds the project for a workspace from what was read from the
/// containers of its conversations.
pub fn project_for(ws: &WorkspaceInfo, metas: &Vec<Option<ComposerMeta>>) -> (r: Option<Project>)
    ensures
        opt_view(r) == project_of(ws@, opt_metas(metas@)),
{
    let ghost all = opt_metas(metas@);
    let mut total: usize = 0;
    let mut latest: i64 = 0;
    let mut i: usize = 0;
    assert(all.take(0) =~= Seq::<Option<MetaModel>>::empty());
    while i < metas.len()
        invariant
            i <= metas.len(),
            all == opt_metas(metas@),
            total == saturated(total_messages(all.take(i as int))),
            latest == latest_update(all.take(i as int)),
        decreases metas.len() - i,
    {
        proof {
            assert(all.take(i + 1).drop_last() =~= all.take(i as int));
            assert(all.take(i + 1).last() == opt_view(metas[i as int]));
        }
        match &metas[i] {
            Some(meta) => {
                total = total.saturating_add(meta.message_count);
                match meta.last_updated_at {
                    Some(at) => {
                        if at > latest {
                            latest = at;
                        }
                    },
                    None => {},
                }
            },
            None => {},
        }
        i = i + 1;
    }
    assert(all.take(metas.len() as int) =~= all);
    if total == 0 {
        return None;
    }
    let name = match &ws.folder_name {
        Some(name) => name.clone(),
        None => ws.folder_path.clone(),
    };
    let last_modified = if latest > 0 {
        millis_to_rfc3339(latest)
    } else {
        String::new()
    };
    Some(
        Project {
            name,
            path: encode(Provider::Cursor, ws.hash.as_str()),
            actual_path: ws.folder_path.clone(),
            session_count: ws.composer_ids.len(),
            message_count: total,
            last_modified,
            provider: Provider::Cursor,
        },
    )
}

} // verus!
