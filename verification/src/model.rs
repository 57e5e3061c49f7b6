//! The canonical model: projects, sessions and messages as every provider's
//! history is presented, and the mathematical view of each.

use vstd::prelude::*;
use serde_json::Value;
use crate::json::{json_model, JsonModel};
use crate::text::{chars_eq, chars_of};

verus! {

/// A tool whose conversation history can be read.
#[derive(Clone, Copy, Debug, PartialEq, Eq, Structural)]
pub enum Provider {
    Codex,
    OpenCode,
    Cursor,
}

impl Provider {
    /// The stable tag of the provider.
    pub open spec fn tag_text(self) -> Seq<char> {
        match self {
            Provider::Codex => "codex"@,
            Provider::OpenCode => "opencode"@,
            Provider::Cursor => "cursor"@,
        }
    }

    /// The provider that a tag names, if any.
    pub open spec fn of_tag(tag: Seq<char>) -> Option<Provider> {
        if tag == "codex"@ {
            Some(Provider::Codex)
        } else if tag == "opencode"@ {
            Some(Provider::OpenCode)
        } else if tag == "cursor"@ {
            Some(Provider::Cursor)
        } else {
            None
        }
    }

    /// The stable tag of the provider.
    pub fn tag(&self) -> (r: &'static str)
        ensures
            r@ == self.tag_text(),
    {
        match self {
            Provider::Codex => "codex",
            Provider::OpenCode => "opencode",
            Provider::Cursor => "cursor",
        }
    }

    /// The provider that `tag` names, if any.
    pub fn from_tag(tag: &str) -> (r: Option<Provider>)
        ensures
            r == Provider::of_tag(tag@),
    {
        let chars = chars_of(tag);
        if chars_eq(&chars, "codex") {
            Some(Provider::Codex)
        } else if chars_eq(&chars, "opencode") {
            Some(Provider::OpenCode)
        } else if chars_eq(&chars, "cursor") {
            Some(Provider::Cursor)
        } else {
            None
        }
    }
}

/// Every provider is the one that its own tag names.
pub proof fn lemma_tag_names_its_provider(provider: Provider)
    ensures
        Provider::of_tag(provider.tag_text()) == Some(provider),
{
    reveal_strlit("codex");
    reveal_strlit("opencode");
    reveal_strlit("cursor");
    assert("opencode"@[0] != "codex"@[0]);
    assert("cursor"@[1] != "codex"@[1]);
    assert("cursor"@[0] != "opencode"@[0]);
}

/// Who speaks in a message.
#[derive(Clone, Copy, Debug, PartialEq, Eq, Structural)]
pub enum Role {
    User,
    Assistant,
    System,
}

impl Role {
    /// The name of the role.
    pub open spec fn tag_text(self) -> Seq<char> {
        match self {
            Role::User => "user"@,
            Role::Assistant => "assistant"@,
            Role::System => "system"@,
        }
    }

    /// The name of the role.
    pub fn tag(&self) -> (r: &'static str)
        ensures
            r@ == self.tag_text(),
    {
        match self {
            Role::User => "user",
            Role::Assistant => "assistant",
            Role::System => "system",
        }
    }
}

/// The text of an optional string.
pub open spec fn opt_text(o: Option<String>) -> Option<Seq<char>> {
    match o {
        Some(s) => Some(s@),
        None => None,
    }
}

/// The view of an optional item.
pub open spec fn opt_view<T: View>(o: Option<T>) -> Option<T::V> {
    match o {
        Some(x) => Some(x@),
        None => None,
    }
}

/// The views of a sequence of items.
pub open spec fn views<T: View>(s: Seq<T>) -> Seq<T::V> {
    s.map_values(|x: T| x@)
}

/// The texts of a sequence of optional strings.
pub open spec fn opt_texts(s: Seq<Option<String>>) -> Seq<Option<Seq<char>>> {
    s.map_values(|o: Option<String>| opt_text(o))
}

/// One typed piece of a message's content.
#[derive(Clone, Debug, PartialEq)]
pub enum ContentBlock {
    Text { text: String },
    Thinking { thinking: String },
    ToolUse { id: String, name: String, input: Value },
    ToolResult { tool_use_id: String, content: Value, is_error: bool },
}

/// The view of a `ContentBlock`.
pub enum BlockModel {
    Text { text: Seq<char> },
    Thinking { thinking: Seq<char> },
    ToolUse { id: Seq<char>, name: Seq<char>, input: JsonModel },
    ToolResult { tool_use_id: Seq<char>, content: JsonModel, is_error: bool },
}

impl View for ContentBlock {
    type V = BlockModel;

    open spec fn view(&self) -> BlockModel {
        match *self {
            ContentBlock::Text { text } => BlockModel::Text { text: text@ },
            ContentBlock::Thinking { thinking } => BlockModel::Thinking { thinking: thinking@ },
            ContentBlock::ToolUse { id, name, input } => BlockModel::ToolUse {
                id: id@,
                name: name@,
                input: json_model(input),
            },
            ContentBlock::ToolResult { tool_use_id, content, is_error } => BlockModel::ToolResult {
                tool_use_id: tool_use_id@,
                content: json_model(content),
                is_error,
            },
        }
    }
}

/// Content that is absent where there is no block.
pub open spec fn collapsed(blocks: Seq<BlockModel>) -> Option<Seq<BlockModel>> {
    if blocks.len() == 0 {
        None
    } else {
        Some(blocks)
    }
}

/// The views of an optional content.
pub open spec fn content_model(content: Option<Vec<ContentBlock>>) -> Option<Seq<BlockModel>> {
    match content {
        Some(blocks) => Some(views(blocks@)),
        None => None,
    }
}

/// Token counts of one assistant turn; each is present on its own.
#[derive(Clone, Debug, PartialEq, Eq)]
pub struct TokenUsage {
    pub input_tokens: Option<u32>,
    pub output_tokens: Option<u32>,
    pub cache_creation_input_tokens: Option<u32>,
    pub cache_read_input_tokens: Option<u32>,
    pub service_tier: Option<String>,
}

/// The view of a `TokenUsage`.
pub struct UsageModel {
    pub input_tokens: Option<u32>,
    pub output_tokens: Option<u32>,
    pub cache_creation_input_tokens: Option<u32>,
    pub cache_read_input_tokens: Option<u32>,
    pub service_tier: Option<Seq<char>>,
}

impl View for TokenUsage {
    type V = UsageModel;

    open spec fn view(&self) -> UsageModel {
        UsageModel {
            input_tokens: self.input_tokens,
            output_tokens: self.output_tokens,
            cache_creation_input_tokens: self.cache_creation_input_tokens,
            cache_read_input_tokens: self.cache_read_input_tokens,
            service_tier: opt_text(self.service_tier),
        }
    }
}

/// The tree of an optional JSON value.
pub open spec fn opt_json(v: Option<Value>) -> Option<JsonModel> {
    match v {
        Some(x) => Some(json_model(x)),
        None => None,
    }
}

/// One turn of a conversation.
#[derive(Clone, Debug, PartialEq)]
pub struct Message {
    /// Unique within the session.
    pub uuid: String,
    pub parent_uuid: Option<String>,
    pub session_id: String,
    /// RFC 3339, or empty where the provider recorded none.
    pub timestamp: String,
    pub role: Role,
    /// Absent, or at least one block.
    pub content: Option<Vec<ContentBlock>>,
    pub model: Option<String>,
    pub usage: Option<TokenUsage>,
    /// The cost in US dollars, as the JSON number that the provider recorded.
    pub cost_usd: Option<Value>,
    pub duration_ms: Option<u64>,
    pub provider: Provider,
}

/// The view of a `Message`.
pub struct MessageModel {
    pub uuid: Seq<char>,
    pub parent_uuid: Option<Seq<char>>,
    pub session_id: Seq<char>,
    pub timestamp: Seq<char>,
    pub role: Role,
    pub content: Option<Seq<BlockModel>>,
    pub model: Option<Seq<char>>,
    pub usage: Option<UsageModel>,
    pub cost_usd: Option<JsonModel>,
    pub duration_ms: Option<u64>,
    pub provider: Provider,
}

impl View for Message {
    type V = MessageModel;

    open spec fn view(&self) -> MessageModel {
        MessageModel {
            uuid: self.uuid@,
            parent_uuid: opt_text(self.parent_uuid),
            session_id: self.session_id@,
            timestamp: self.timestamp@,
            role: self.role,
            content: content_model(self.content),
            model: opt_text(self.model),
            usage: opt_view(self.usage),
            cost_usd: opt_json(self.cost_usd),
            duration_ms: self.duration_ms,
            provider: self.provider,
        }
    }
}

impl MessageModel {
    /// The content is absent or holds at least one block, and a cost is a
    /// JSON number.
    pub open spec fn wf(self) -> bool {
        &&& self.content matches Some(blocks) ==> blocks.len() > 0
        &&& self.cost_usd matches Some(c) ==> c is Number
    }
}

/// Every message of a sequence is well-formed.
pub open spec fn all_wf(ms: Seq<MessageModel>) -> bool {
    forall|i: int| 0 <= i < ms.len() ==> (#[trigger] ms[i]).wf()
}

/// One conversation thread within a project.
#[derive(Clone, Debug, PartialEq, Eq)]
pub struct Session {
    /// The virtual reference by which the session is addressed.
    pub session_id: String,
    /// The provider's own identifier of the session.
    pub actual_session_id: String,
    /// The virtual path from which the messages are loaded.
    pub file_path: String,
    pub project_name: String,
    pub message_count: usize,
    pub first_message_time: String,
    pub last_message_time: String,
    pub last_modified: String,
    pub has_tool_use: bool,
    pub has_errors: bool,
    pub summary: Option<String>,
    pub provider: Provider,
}

/// The view of a `Session`.
pub struct SessionModel {
    pub session_id: Seq<char>,
    pub actual_session_id: Seq<char>,
    pub file_path: Seq<char>,
    pub project_name: Seq<char>,
    pub message_count: usize,
    pub first_message_time: Seq<char>,
    pub last_message_time: Seq<char>,
    pub last_modified: Seq<char>,
    pub has_tool_use: bool,
    pub has_errors: bool,
    pub summary: Option<Seq<char>>,
    pub provider: Provider,
}

impl View for Session {
    type V = SessionModel;

    open spec fn view(&self) -> SessionModel {
        SessionModel {
            session_id: self.session_id@,
            actual_session_id: self.actual_session_id@,
            file_path: self.file_path@,
            project_name: self.project_name@,
            message_count: self.message_count,
            first_message_time: self.first_message_time@,
            last_message_time: self.last_message_time@,
            last_modified: self.last_modified@,
            has_tool_use: self.has_tool_use,
            has_errors: self.has_errors,
            summary: opt_text(self.summary),
            provider: self.provider,
        }
    }
}

/// One conversation workspace.
#[derive(Clone, Debug, PartialEq, Eq)]
pub struct Project {
    pub name: String,
    /// The virtual path by which the project is addressed.
    pub path: String,
    /// The real directory of the project, where it is known.
    pub actual_path: String,
    pub session_count: usize,
    pub message_count: usize,
    pub last_modified: String,
    pub provider: Provider,
}

/// The view of a `Project`.
pub struct ProjectModel {
    pub name: Seq<char>,
    pub path: Seq<char>,
    pub actual_path: Seq<char>,
    pub session_count: usize,
    pub message_count: usize,
    pub last_modified: Seq<char>,
    pub provider: Provider,
}

impl View for Project {
    type V = ProjectModel;

    open spec fn view(&self) -> ProjectModel {
        ProjectModel {
            name: self.name@,
            path: self.path@,
            actual_path: self.actual_path@,
            session_count: self.session_count,
            message_count: self.message_count,
            last_modified: self.last_modified@,
            provider: self.provider,
        }
    }
}

/// What is known of one provider's installation.
#[derive(Clone, Debug, PartialEq, Eq)]
pub struct ProviderInfo {
    pub id: String,
    pub display_name: String,
    pub base_path: String,
    pub is_available: bool,
}

/// The view of a `ProviderInfo`.
pub struct ProviderInfoModel {
    pub id: Seq<char>,
    pub display_name: Seq<char>,
    pub base_path: Seq<char>,
    pub is_available: bool,
}

impl View for ProviderInfo {
    type V = ProviderInfoModel;

    open spec fn view(&self) -> ProviderInfoModel {
        ProviderInfoModel {
            id: self.id@,
            display_name: self.display_name@,
            base_path: self.base_path@,
            is_available: self.is_available,
        }
    }
}

} // verus!
