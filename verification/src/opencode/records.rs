//! The records that OpenCode keeps as JSON files: the descriptors of
//! projects, sessions and messages, and the files of a part directory.

use vstd::prelude::*;
use vstd::string::*;
use serde_json::Value;
use crate::fields::{either_member, get_either, opt_str, str_or, string_at, text_of, text_or};
use crate::ident::{is_safe_storage_id, safe_storage_id};
use crate::json::{self, json_model, member, models, parsed_json, JsonModel};
use crate::model::{opt_text, opt_view, views, Role};
use crate::paths::{
    self, has_json_extension, is_json_file, json_stem, stem_of_json, DirFile, DirFileModel,
};
use crate::recency::{lex_lt, ordered, sort_by_key, str_lt, Keyed};
use crate::text::{chars_eq, chars_of};

verus! {

/// What the descriptor of a project says of it.
#[derive(Clone, Debug, PartialEq, Eq)]
pub struct ProjectDescriptor {
    /// The identifier of the project, a safe storage identifier.
    pub id: String,
    /// The directory of the project.
    pub path: String,
    /// The name under which the project is shown.
    pub name: String,
}

/// The view of a `ProjectDescriptor`.
pub struct ProjectDescriptorModel {
    pub id: Seq<char>,
    pub path: Seq<char>,
    pub name: Seq<char>,
}

impl View for ProjectDescriptor {
    type V = ProjectDescriptorModel;

    open spec fn view(&self) -> ProjectDescriptorModel {
        ProjectDescriptorModel { id: self.id@, path: self.path@, name: self.name@ }
    }
}

/// The identifier and the directory that the text of a descriptor gives.
/// There is none where the text is not JSON, and none where the identifier
/// is missing or is no safe storage identifier.
pub open spec fn project_core(content: Seq<char>) -> Option<(Seq<char>, Seq<char>)> {
    match parsed_json(content) {
        Some(d) => if safe_storage_id(str_or(member(d, "id"@), ""@)) {
            Some((str_or(member(d, "id"@), ""@), str_or(member(d, "path"@), ""@)))
        } else {
            None
        },
        None => None,
    }
}

/// The name that the text of a descriptor gives to the project, if any.
pub open spec fn project_given_name(content: Seq<char>) -> Option<Seq<char>> {
    match parsed_json(content) {
        Some(d) => opt_str(member(d, "name"@)),
        None => None,
    }
}

/// The name under which a project is shown: the name that its descriptor
/// gives; without one, the last component of its directory; without that,
/// `unknown`.
pub open spec fn display_name(given: Option<Seq<char>>, folder_name: Option<Seq<char>>) -> Seq<
    char,
> {
    match given {
        Some(name) => name,
        None => match folder_name {
            Some(name) => name,
            None => "unknown"@,
        },
    }
}

/// Picks the name under which a project is shown, from the name that its
/// descriptor gives and the last component of its directory.
pub fn project_display_name(given: Option<&str>, folder_name: Option<String>) -> (r: String)
    ensures
        r@ == display_name(
            match given {
                Some(name) => Some(name@),
                None => None,
            },
            opt_text(folder_name),
        ),
{
    match given {
        Some(name) => String::from_str(name),
        None => match folder_name {
            Some(name) => name,
            None => String::from_str("unknown"),
        },
    }
}

/// Reads the descriptor of a project. The name is that of `display_name`,
/// for the last component of the directory as the platform gives it.
pub fn read_project(content: &str) -> (r: Option<ProjectDescriptor>)
    ensures
        match r {
            Some(d) => project_core(content@) == Some((d.id@, d.path@)) && exists|
                folder_name: Option<Seq<char>>,
            | d.name@ == #[trigger] display_name(project_given_name(content@), folder_name),
            None => project_core(content@) is None,
        },
{
    let d = match json::parse(content) {
        Ok(d) => d,
        Err(_) => {
            return None;
        },
    };
    let id = text_or(json::get(&d, "id"), "");
    if !is_safe_storage_id(id) {
        return None;
    }
    let path = text_or(json::get(&d, "path"), "");
    let folder_name = paths::file_name(path);
    let ghost last = opt_text(folder_name);
    let name = project_display_name(text_of(json::get(&d, "name")), folder_name);
    assert(name@ == display_name(project_given_name(content@), last));
    Some(ProjectDescriptor { id: String::from_str(id), path: String::from_str(path), name })
}

/// The time that the text of a session file records: `updated_at`, else
/// `created_at`, where that is a string.
pub open spec fn session_time(text: Seq<char>) -> Option<Seq<char>> {
    match parsed_json(text) {
        Some(d) => opt_str(either_member(d, "updated_at"@, "created_at"@)),
        None => None,
    }
}

/// The time that a file of a session directory records; none for a file
/// without the extension `json` and for one that was not read.
pub open spec fn file_time(file: DirFileModel) -> Option<Seq<char>> {
    match file.text {
        Some(text) => if has_json_extension(file.name) {
            session_time(text)
        } else {
            None
        },
        None => None,
    }
}

/// The later of two times, the first of which may be missing.
pub open spec fn later(before: Option<Seq<char>>, time: Seq<char>) -> Seq<char> {
    match before {
        Some(b) => if lex_lt(b, time) {
            time
        } else {
            b
        },
        None => time,
    }
}

/// The latest time that the files of a session directory record.
pub open spec fn latest_time(files: Seq<DirFileModel>) -> Option<Seq<char>>
    decreases files.len(),
{
    if files.len() == 0 {
        None
    } else {
        let before = latest_time(files.drop_last());
        match file_time(files.last()) {
            Some(time) => Some(later(before, time)),
            None => before,
        }
    }
}

fn read_file_time(file: &DirFile) -> (r: Option<String>)
    ensures
        opt_text(r) == file_time(file@),
{
    match &file.text {
        Some(text) => {
            if !is_json_file(file.name.as_str()) {
                return None;
            }
            match json::parse(text.as_str()) {
                Ok(d) => string_at(get_either(&d, "updated_at", "created_at")),
                Err(_) => None,
            }
        },
        None => None,
    }
}

/// Finds the latest time that the files of a session directory record.
pub fn get_latest_session_time(files: &Vec<DirFile>) -> (r: Option<String>)
    ensures
        opt_text(r) == latest_time(views(files@)),
{
    let ghost all = views(files@);
    let mut latest: Option<String> = None;
    let mut i: usize = 0;
    assert(all.take(0) =~= Seq::<DirFileModel>::empty());
    while i < files.len()
        invariant
            i <= files.len(),
            all == views(files@),
            opt_text(latest) == latest_time(all.take(i as int)),
        decreases files.len() - i,
    {
        proof {
            assert(all.take(i + 1).drop_last() =~= all.take(i as int));
            assert(all.take(i + 1).last() == files[i as int]@);
        }
        match read_file_time(&files[i]) {
            Some(time) => {
                let newer = match &latest {
                    Some(b) => str_lt(b.as_str(), time.as_str()),
                    None => true,
                };
                if newer {
                    latest = Some(time);
                }
            },
            None => {},
        }
        i = i + 1;
    }
    assert(all.take(files.len() as int) =~= all);
    latest
}

/// What the descriptor of a session says of it.
#[derive(Clone, Debug, PartialEq, Eq)]
pub struct SessionDescriptor {
    /// The identifier of the session, a safe storage identifier.
    pub id: String,
    pub title: Option<String>,
    pub created_at: String,
    pub updated_at: String,
}

/// The view of a `SessionDescriptor`.
pub struct SessionDescriptorModel {
    pub id: Seq<char>,
    pub title: Option<Seq<char>>,
    pub created_at: Seq<char>,
    pub updated_at: Seq<char>,
}

impl View for SessionDescriptor {
    type V = SessionDescriptorModel;

    open spec fn view(&self) -> SessionDescriptorModel {
        SessionDescriptorModel {
            id: self.id@,
            title: opt_text(self.title),
            created_at: self.created_at@,
            updated_at: self.updated_at@,
        }
    }
}

/// What the text of a session file says of the session. There is nothing
/// where the text is not JSON, and nothing where the identifier is missing
/// or is no safe storage identifier. A session that records no update was
/// last updated when it was created.
pub open spec fn session_descriptor(content: Seq<char>) -> Option<SessionDescriptorModel> {
    match parsed_json(content) {
        Some(d) => if safe_storage_id(str_or(member(d, "id"@), ""@)) {
            Some(
                SessionDescriptorModel {
                    id: str_or(member(d, "id"@), ""@),
                    title: opt_str(member(d, "title"@)),
                    created_at: str_or(member(d, "created_at"@), ""@),
                    updated_at: str_or(
                        member(d, "updated_at"@),
                        str_or(member(d, "created_at"@), ""@),
                    ),
                },
            )
        } else {
            None
        },
        None => None,
    }
}

/// Reads the descriptor of a session.
pub fn read_session(content: &str) -> (r: Option<SessionDescriptor>)
    ensures
        opt_view(r) == session_descriptor(content@),
{
    let d = match json::parse(content) {
        Ok(d) => d,
        Err(_) => {
            return None;
        },
    };
    let id = text_or(json::get(&d, "id"), "");
    if !is_safe_storage_id(id) {
        return None;
    }
    let created_at = text_or(json::get(&d, "created_at"), "");
    let updated_at = text_or(json::get(&d, "updated_at"), created_at);
    Some(
        SessionDescriptor {
            id: String::from_str(id),
            title: string_at(json::get(&d, "title")),
            created_at: String::from_str(created_at),
            updated_at: String::from_str(updated_at),
        },
    )
}

/// What the descriptor of a message says of it.
#[derive(Clone, Debug, PartialEq, Eq)]
pub struct MessageHeader {
    /// The identifier of the message, a safe storage identifier.
    pub id: String,
    pub role: String,
    pub created_at: String,
    pub model: Option<String>,
}

/// The view of a `MessageHeader`.
pub struct MessageHeaderModel {
    pub id: Seq<char>,
    pub role: Seq<char>,
    pub created_at: Seq<char>,
    pub model: Option<Seq<char>>,
}

impl View for MessageHeader {
    type V = MessageHeaderModel;

    open spec fn view(&self) -> MessageHeaderModel {
        MessageHeaderModel {
            id: self.id@,
            role: self.role@,
            created_at: self.created_at@,
            model: opt_text(self.model),
        }
    }
}

/// What the text of a message file says of the message. There is nothing
/// where the text is not JSON, and nothing where the identifier is missing
/// or is no safe storage identifier. A message that names no role is the
/// user's.
pub open spec fn message_header(content: Seq<char>) -> Option<MessageHeaderModel> {
    match parsed_json(content) {
        Some(d) => if safe_storage_id(str_or(member(d, "id"@), ""@)) {
            Some(
                MessageHeaderModel {
                    id: str_or(member(d, "id"@), ""@),
                    role: str_or(member(d, "role"@), "user"@),
                    created_at: str_or(member(d, "created_at"@), ""@),
                    model: opt_str(member(d, "model"@)),
                },
            )
        } else {
            None
        },
        None => None,
    }
}

/// Reads the descriptor of a message.
pub fn read_message(content: &str) -> (r: Option<MessageHeader>)
    ensures
        opt_view(r) == message_header(content@),
{
    let d = match json::parse(content) {
        Ok(d) => d,
        Err(_) => {
            return None;
        },
    };
    let id = text_or(json::get(&d, "id"), "");
    if !is_safe_storage_id(id) {
        return None;
    }
    Some(
        MessageHeader {
            id: String::from_str(id),
            role: String::from_str(text_or(json::get(&d, "role"), "user")),
            created_at: String::from_str(text_or(json::get(&d, "created_at"), "")),
            model: string_at(json::get(&d, "model")),
        },
    )
}

/// A text under the name by which it is ordered.
#[derive(Clone, Debug, PartialEq, Eq)]
pub struct NamedText {
    pub name: String,
    pub text: String,
}

/// The view of a `NamedText`.
pub struct NamedTextModel {
    pub name: Seq<char>,
    pub text: Seq<char>,
}

impl View for NamedText {
    type V = NamedTextModel;

    open spec fn view(&self) -> NamedTextModel {
        NamedTextModel { name: self.name@, text: self.text@ }
    }
}

impl Keyed for NamedText {
    open spec fn key_of(m: NamedTextModel) -> Seq<char> {
        m.name
    }

    fn key_str(&self) -> (r: &str) {
        self.name.as_str()
    }
}

/// The part that a file of a part directory holds, under the name of the
/// file without its extension; none for a file without the extension `json`
/// and for one that was not read.
pub open spec fn part_text(file: DirFileModel) -> Option<NamedTextModel> {
    match file.text {
        Some(text) => if has_json_extension(file.name) {
            Some(NamedTextModel { name: json_stem(file.name), text })
        } else {
            None
        },
        None => None,
    }
}

/// The parts that the files of a part directory hold, in the order of the
/// files.
pub open spec fn part_texts(files: Seq<DirFileModel>) -> Seq<NamedTextModel>
    decreases files.len(),
{
    if files.len() == 0 {
        Seq::empty()
    } else {
        let before = part_texts(files.drop_last());
        match part_text(files.last()) {
            Some(part) => before.push(part),
            None => before,
        }
    }
}

/// The trees of the texts that are JSON, in the order of the texts.
pub open spec fn parsed_texts(texts: Seq<NamedTextModel>) -> Seq<JsonModel>
    decreases texts.len(),
{
    if texts.len() == 0 {
        Seq::empty()
    } else {
        let before = parsed_texts(texts.drop_last());
        match parsed_json(texts.last().text) {
            Some(tree) => before.push(tree),
            None => before,
        }
    }
}

/// The parts of a message: what the files of its part directory hold, in
/// the order of the names of the files without their extension.
pub open spec fn message_parts(files: Seq<DirFileModel>) -> Seq<JsonModel> {
    parsed_texts(ordered::<NamedText>(part_texts(files), true))
}

fn collect_part_texts(files: &Vec<DirFile>) -> (r: Vec<NamedText>)
    ensures
        views(r@) == part_texts(views(files@)),
{
    let mut parts: Vec<NamedText> = Vec::new();
    let ghost all = views(files@);
    let mut i: usize = 0;
    proof {
        assert(views(parts@) =~= Seq::<NamedTextModel>::empty());
        assert(all.take(0) =~= Seq::<DirFileModel>::empty());
    }
    while i < files.len()
        invariant
            i <= files.len(),
            all == views(files@),
            views(parts@) == part_texts(all.take(i as int)),
        decreases files.len() - i,
    {
        let ghost before = parts@;
        let file = &files[i];
        proof {
            assert(all.take(i + 1).drop_last() =~= all.take(i as int));
            assert(all.take(i + 1).last() == file@);
        }
        match &file.text {
            Some(text) => match stem_of_json(file.name.as_str()) {
                Some(stem) => {
                    let part = NamedText { name: String::from_str(stem), text: text.clone() };
                    parts.push(part);
                    assert(views(parts@) =~= views(before).push(part@));
                },
                None => {},
            },
            None => {},
        }
        i = i + 1;
    }
    assert(all.take(files.len() as int) =~= all);
    parts
}

/// Reads the parts of a message from the files of its part directory: the
/// files with the extension `json` that were read and hold JSON, ordered by
/// their names without the extension.
pub fn read_message_parts(files: &Vec<DirFile>) -> (r: Vec<Value>)
    ensures
        models(r@) == message_parts(views(files@)),
{
    let texts = sort_by_key(collect_part_texts(files), true);
    let mut parts: Vec<Value> = Vec::new();
    let ghost all = views(texts@);
    let mut i: usize = 0;
    proof {
        assert(models(parts@) =~= Seq::<JsonModel>::empty());
        assert(all.take(0) =~= Seq::<NamedTextModel>::empty());
    }
    while i < texts.len()
        invariant
            i <= texts.len(),
            all == views(texts@),
            models(parts@) == parsed_texts(all.take(i as int)),
        decreases texts.len() - i,
    {
        let ghost before = parts@;
        proof {
            assert(all.take(i + 1).drop_last() =~= all.take(i as int));
            assert(all.take(i + 1).last() == texts[i as int]@);
        }
        match json::parse(texts[i].text.as_str()) {
            Ok(tree) => {
                parts.push(tree);
                assert(models(parts@) =~= models(before).push(json_model(tree)));
            },
            Err(_) => {},
        }
        i = i + 1;
    }
    assert(all.take(texts.len() as int) =~= all);
    parts
}

/// The role that a message names: the assistant's, the system's, or, for
/// any other name, the user's.
pub open spec fn role_of_text(role: Seq<char>) -> Role {
    if role == "assistant"@ {
        Role::Assistant
    } else if role == "system"@ {
        Role::System
    } else {
        Role::User
    }
}

pub(crate) fn read_role(role: &str) -> (r: Role)
    ensures
        r == role_of_text(role@),
{
    let chars = chars_of(role);
    if chars_eq(&chars, "assistant") {
        Role::Assistant
    } else if chars_eq(&chars, "system") {
        Role::System
    } else {
        Role::User
    }
}

} // verus!
