//! The adapter for OpenCode, which keeps projects, sessions, messages and
//! message parts as JSON files.
//!
//! Nothing here touches the disk. Each operation takes the names and texts
//! of the files that were read; the descriptors are read first, and their
//! identifiers, once validated, say which directories to read next.

pub mod parts;
pub mod records;

use vstd::prelude::*;
use vstd::string::*;
use serde_json::Value;
use crate::error::{ErrorModel, ProviderError};
use crate::model::{
    all_wf, collapsed, opt_text, opt_view, views, Message, MessageModel, Project, ProjectModel, Provider,
    ProviderInfo, ProviderInfoModel, Session, SessionModel,
};
use crate::opencode::parts::{
    lemma_cost_is_number, parts_blocks, parts_cost, parts_usage, process_parts,
};
use crate::opencode::records::{
    get_latest_session_time, latest_time, message_parts, read_message_parts, read_role,
    role_of_text, MessageHeader, MessageHeaderModel, ProjectDescriptor, ProjectDescriptorModel,
    SessionDescriptor, SessionDescriptorModel,
};
use crate::paths::{
    count_json_files, existing, found, has_json_extension, json_count, json_stem, names_of,
    or_else, stem_of_json, DirFile, DirFileModel, PathProbe,
};
use crate::ident::safe_storage_id;
use crate::recency::{
    by_recency, lemma_ordered_keeps_all, lemma_ordered_keeps_distinct, ordered, sort_by_key,
    sort_by_recency, Keyed,
};
use crate::search::{first_matches, first_n, lowercase_text, matching};
use crate::vpath::{
    decode_pair, decode_storage_id, decoded_pair, decoded_storage_id, encode, encode_pair, encoded,
    bare, encoded_pair, id_view, lemma_bare_of_encoded, lemma_encoded_is_injective, pair_view,
};

verus! {

/// What is known of the installation: nothing without a base path; else the
/// provider with its base path, available where its storage is a directory.
pub open spec fn detected(base_path: Option<Seq<char>>, storage_is_dir: bool) -> Option<
    ProviderInfoModel,
> {
    match base_path {
        Some(path) => Some(
            ProviderInfoModel {
                id: "opencode"@,
                display_name: "OpenCode"@,
                base_path: path,
                is_available: storage_is_dir,
            },
        ),
        None => None,
    }
}

/// Describes the installation of OpenCode, given its base path and whether
/// the storage below it is a directory.
pub fn detect(base_path: Option<String>, storage_is_dir: bool) -> (r: Option<ProviderInfo>)
    ensures
        opt_view(r) == detected(opt_text(base_path), storage_is_dir),
{
    match base_path {
        Some(path) => Some(
            ProviderInfo {
                id: String::from_str("opencode"),
                display_name: String::from_str("OpenCode"),
                base_path: path,
                is_available: storage_is_dir,
            },
        ),
        None => None,
    }
}

/// Picks the directory of OpenCode's data: the explicit override where it
/// is given and exists, else the one below the data directory of the
/// desktop where that is given and exists, else the default below the home
/// directory where it exists.
pub fn get_base_path(
    home_override: Option<PathProbe>,
    data_home: Option<PathProbe>,
    default: Option<PathProbe>,
) -> (r: Option<String>)
    ensures
        opt_text(r) == or_else(
            found(opt_view(home_override)),
            or_else(found(opt_view(data_home)), found(opt_view(default))),
        ),
{
    match existing(home_override) {
        Some(path) => Some(path),
        None => match existing(data_home) {
            Some(path) => Some(path),
            None => existing(default),
        },
    }
}

/// Decodes the virtual path of a project into its identifier, which must be
/// a safe storage identifier.
pub fn decode_project_path(project_path: &str) -> (r: Result<String, ProviderError>)
    ensures
        id_view(r) == decoded_storage_id(
            project_path@,
            Provider::OpenCode,
            "Invalid OpenCode project path: "@,
        ),
{
    decode_storage_id(Provider::OpenCode, project_path, "Invalid OpenCode project path: ")
}

/// Decodes the virtual path of a session into the identifiers of its
/// project and of the session, both of which must be safe storage
/// identifiers.
pub fn decode_session_path(session_path: &str) -> (r: Result<(String, String), ProviderError>)
    ensures
        pair_view(r) == decoded_pair(
            session_path@,
            Provider::OpenCode,
            "Invalid OpenCode session path: "@,
        ),
{
    decode_pair(Provider::OpenCode, session_path, "Invalid OpenCode session path: ")
}

/// A project as it was found on disk: its descriptor, and the files of its
/// session directory.
#[derive(Clone, Debug, PartialEq, Eq)]
pub struct ProjectScan {
    pub descriptor: ProjectDescriptor,
    pub session_files: Vec<DirFile>,
}

/// The view of a `ProjectScan`.
pub struct ProjectScanModel {
    pub descriptor: ProjectDescriptorModel,
    pub session_files: Seq<DirFileModel>,
}

impl View for ProjectScan {
    type V = ProjectScanModel;

    open spec fn view(&self) -> ProjectScanModel {
        ProjectScanModel {
            descriptor: self.descriptor@,
            session_files: views(self.session_files@),
        }
    }
}

/// The project for what was found of it. It counts the session files with
/// the extension `json`; it was last modified at the latest time that one of
/// them records, or `now` where none records a time.
pub open spec fn project_of(scan: ProjectScanModel, now: Seq<char>) -> ProjectModel {
    ProjectModel {
        name: scan.descriptor.name,
        path: encoded(Provider::OpenCode, scan.descriptor.id),
        actual_path: scan.descriptor.path,
        session_count: json_count(names_of(scan.session_files)) as usize,
        message_count: 0,
        last_modified: match latest_time(scan.session_files) {
            Some(time) => time,
            None => now,
        },
        provider: Provider::OpenCode,
    }
}

/// The projects for what was found of each, in the order given.
pub open spec fn projects_of(scans: Seq<ProjectScanModel>, now: Seq<char>) -> Seq<ProjectModel> {
    scans.map_values(|scan: ProjectScanModel| project_of(scan, now))
}

/// Projects with different identifiers have different paths: a project is
/// known by its path among the projects of OpenCode.
pub proof fn lemma_project_paths_are_distinct(scans: Seq<ProjectScanModel>, now: Seq<char>)
    requires
        forall|i: int, j: int|
            0 <= i < j < scans.len() ==> scans[i].descriptor.id != scans[j].descriptor.id,
    ensures
        forall|i: int, j: int|
            0 <= i < j < by_recency::<Project>(projects_of(scans, now)).len()
                ==> by_recency::<Project>(projects_of(scans, now))[i].path != by_recency::<
                Project,
            >(projects_of(scans, now))[j].path,
{
    let given = projects_of(scans, now);
    assert forall|i: int, j: int| 0 <= i < j < given.len() implies given[i].path
        != given[j].path by {
        if given[i].path == given[j].path {
            lemma_encoded_is_injective(
                Provider::OpenCode,
                scans[i].descriptor.id,
                scans[j].descriptor.id,
            );
        }
    }
    lemma_ordered_keeps_distinct::<Project, Seq<char>>(given, false, |p: ProjectModel| p.path);
}

/// Where every descriptor has a safe storage identifier, as `read_project`
/// gives it, every listed project can be loaded again: its path is the
/// virtual path of a safe storage identifier, and decoding it gives that
/// identifier back.
pub proof fn lemma_listed_projects_are_loadable(
    scans: Seq<ProjectScanModel>,
    now: Seq<char>,
    label: Seq<char>,
)
    requires
        forall|i: int| 0 <= i < scans.len() ==> safe_storage_id((#[trigger] scans[i]).descriptor.id),
    ensures
        forall|k: int|
            0 <= k < by_recency::<Project>(projects_of(scans, now)).len() ==> {
                let p = #[trigger] by_recency::<Project>(projects_of(scans, now))[k];
                &&& safe_storage_id(bare(p.path, Provider::OpenCode))
                &&& p.path == encoded(Provider::OpenCode, bare(p.path, Provider::OpenCode))
                &&& decoded_storage_id(p.path, Provider::OpenCode, label) == Ok::<
                    Seq<char>,
                    ErrorModel,
                >(bare(p.path, Provider::OpenCode))
            },
{
    let given = projects_of(scans, now);
    let loadable = |p: ProjectModel|
        safe_storage_id(bare(p.path, Provider::OpenCode)) && p.path == encoded(
            Provider::OpenCode,
            bare(p.path, Provider::OpenCode),
        );
    assert forall|i: int| 0 <= i < given.len() implies loadable(given[i]) by {
        lemma_bare_of_encoded(Provider::OpenCode, scans[i].descriptor.id);
    }
    lemma_ordered_keeps_all::<Project>(given, false, loadable);
    assert forall|k: int| 0 <= k < by_recency::<Project>(given).len() implies {
        let p = #[trigger] by_recency::<Project>(given)[k];
        &&& safe_storage_id(bare(p.path, Provider::OpenCode))
        &&& p.path == encoded(Provider::OpenCode, bare(p.path, Provider::OpenCode))
    } by {
        assert(loadable(by_recency::<Project>(given)[k]));
    }
}

/// Lists the projects, newest first. `now` is the present time in RFC 3339,
/// for a project whose sessions record no time.
pub fn scan_projects(scans: &Vec<ProjectScan>, now: &str) -> (r: Vec<Project>)
    ensures
        views(r@) == by_recency::<Project>(projects_of(views(scans@), now@)),
{
    let mut projects: Vec<Project> = Vec::new();
    let ghost all = projects_of(views(scans@), now@);
    let mut i: usize = 0;
    assert(views(projects@) =~= all.take(0));
    while i < scans.len()
        invariant
            i <= scans.len(),
            all == projects_of(views(scans@), now@),
            views(projects@) == all.take(i as int),
        decreases scans.len() - i,
    {
        let ghost before = projects@;
        let scan = &scans[i];
        let last_modified = match get_latest_session_time(&scan.session_files) {
            Some(time) => time,
            None => String::from_str(now),
        };
        let project = Project {
            name: scan.descriptor.name.clone(),
            path: encode(Provider::OpenCode, scan.descriptor.id.as_str()),
            actual_path: scan.descriptor.path.clone(),
            session_count: count_json_files(&scan.session_files),
            message_count: 0,
            last_modified,
            provider: Provider::OpenCode,
        };
        assert(project@ == all[i as int]);
        projects.push(project);
        assert(views(projects@) =~= views(before).push(project@));
        assert(all.take(i + 1) =~= all.take(i as int).push(all[i as int]));
        i = i + 1;
    }
    assert(all.take(scans.len() as int) =~= all);
    sort_by_recency(projects)
}

/// A session as it was found on disk: the name of its file, its descriptor,
/// and the files of its message directory.
#[derive(Clone, Debug, PartialEq, Eq)]
pub struct SessionScan {
    pub file_name: String,
    pub descriptor: SessionDescriptor,
    pub message_files: Vec<DirFile>,
}

/// The view of a `SessionScan`.
pub struct SessionScanModel {
    pub file_name: Seq<char>,
    pub descriptor: SessionDescriptorModel,
    pub message_files: Seq<DirFileModel>,
}

impl View for SessionScan {
    type V = SessionScanModel;

    open spec fn view(&self) -> SessionScanModel {
        SessionScanModel {
            file_name: self.file_name@,
            descriptor: self.descriptor@,
            message_files: views(self.message_files@),
        }
    }
}

/// The session for what was found of it; none for a file without the
/// extension `json`. The session is addressed by the identifier of the
/// project and the name of its file without the extension.
pub open spec fn session_of(scan: SessionScanModel, project: Seq<char>) -> Option<SessionModel> {
    if has_json_extension(scan.file_name) {
        Some(
            SessionModel {
                session_id: encoded(Provider::OpenCode, scan.descriptor.id),
                actual_session_id: scan.descriptor.id,
                file_path: encoded_pair(Provider::OpenCode, project, json_stem(scan.file_name)),
                project_name: Seq::empty(),
                message_count: json_count(names_of(scan.message_files)) as usize,
                first_message_time: scan.descriptor.created_at,
                last_message_time: scan.descriptor.updated_at,
                last_modified: scan.descriptor.updated_at,
                has_tool_use: false,
                has_errors: false,
                summary: scan.descriptor.title,
                provider: Provider::OpenCode,
            },
        )
    } else {
        None
    }
}

/// The sessions for what was found of each, in the order given.
pub open spec fn sessions_of(scans: Seq<SessionScanModel>, project: Seq<char>) -> Seq<SessionModel>
    decreases scans.len(),
{
    if scans.len() == 0 {
        Seq::empty()
    } else {
        let before = sessions_of(scans.drop_last(), project);
        match session_of(scans.last(), project) {
            Some(s) => before.push(s),
            None => before,
        }
    }
}

/// What it takes to load a listed session again: a safe storage identifier,
/// a reference that is its virtual path, and a file path that decodes to the
/// project and the name of the session's file.
pub open spec fn session_loadable(s: SessionModel, project: Seq<char>) -> bool {
    &&& safe_storage_id(s.actual_session_id)
    &&& s.session_id == encoded(Provider::OpenCode, s.actual_session_id)
    &&& exists|stem: Seq<char>| s.file_path == #[trigger] encoded_pair(Provider::OpenCode, project, stem)
}

proof fn lemma_sessions_are_loadable(scans: Seq<SessionScanModel>, project: Seq<char>)
    requires
        forall|i: int| 0 <= i < scans.len() ==> safe_storage_id((#[trigger] scans[i]).descriptor.id),
    ensures
        forall|k: int|
            0 <= k < sessions_of(scans, project).len() ==> session_loadable(
                #[trigger] sessions_of(scans, project)[k],
                project,
            ),
    decreases scans.len(),
{
    if scans.len() > 0 {
        let shorter = scans.drop_last();
        let before = sessions_of(shorter, project);
        let all = sessions_of(scans, project);
        assert forall|i: int| 0 <= i < shorter.len() implies safe_storage_id(
            (#[trigger] shorter[i]).descriptor.id,
        ) by {
            assert(shorter[i] == scans[i]);
        }
        lemma_sessions_are_loadable(shorter, project);
        assert forall|k: int| 0 <= k < all.len() implies session_loadable(
            #[trigger] all[k],
            project,
        ) by {
            if k < before.len() {
                assert(all[k] == before[k]);
            } else {
                let scan = scans[scans.len() - 1];
                assert(safe_storage_id(scan.descriptor.id));
                assert(all[k].file_path == encoded_pair(
                    Provider::OpenCode,
                    project,
                    json_stem(scan.file_name),
                ));
            }
        }
    }
}

/// Where every descriptor has a safe storage identifier, as `read_session`
/// gives it, every listed session can be loaded again.
pub proof fn lemma_listed_sessions_are_loadable(scans: Seq<SessionScanModel>, project: Seq<char>)
    requires
        forall|i: int| 0 <= i < scans.len() ==> safe_storage_id((#[trigger] scans[i]).descriptor.id),
    ensures
        forall|k: int|
            0 <= k < by_recency::<Session>(sessions_of(scans, project)).len()
                ==> session_loadable(
                #[trigger] by_recency::<Session>(sessions_of(scans, project))[k],
                project,
            ),
{
    lemma_sessions_are_loadable(scans, project);
    lemma_ordered_keeps_all::<Session>(
        sessions_of(scans, project),
        false,
        |s: SessionModel| session_loadable(s, project),
    );
}

/// Lists the sessions of the project `project_id`, newest first.
pub fn load_sessions(project_id: &str, scans: &Vec<SessionScan>) -> (r: Vec<Session>)
    ensures
        views(r@) == by_recency::<Session>(sessions_of(views(scans@), project_id@)),
{
    let mut sessions: Vec<Session> = Vec::new();
    let ghost all = views(scans@);
    let mut i: usize = 0;
    proof {
        assert(views(sessions@) =~= Seq::<SessionModel>::empty());
        assert(all.take(0) =~= Seq::<SessionScanModel>::empty());
    }
    while i < scans.len()
        invariant
            i <= scans.len(),
            all == views(scans@),
            views(sessions@) == sessions_of(all.take(i as int), project_id@),
        decreases scans.len() - i,
    {
        let ghost before = sessions@;
        let scan = &scans[i];
        proof {
            assert(all.take(i + 1).drop_last() =~= all.take(i as int));
            assert(all.take(i + 1).last() == scan@);
        }
        match stem_of_json(scan.file_name.as_str()) {
            Some(stem) => {
                let session = Session {
                    session_id: encode(Provider::OpenCode, scan.descriptor.id.as_str()),
                    actual_session_id: scan.descriptor.id.clone(),
                    file_path: encode_pair(Provider::OpenCode, project_id, stem),
                    project_name: String::new(),
                    message_count: count_json_files(&scan.message_files),
                    first_message_time: scan.descriptor.created_at.clone(),
                    last_message_time: scan.descriptor.updated_at.clone(),
                    last_modified: scan.descriptor.updated_at.clone(),
                    has_tool_use: false,
                    has_errors: false,
                    summary: scan.descriptor.title.clone(),
                    provider: Provider::OpenCode,
                };
                sessions.push(session);
                assert(views(sessions@) =~= views(before).push(session@));
            },
            None => {},
        }
        i = i + 1;
    }
    assert(all.take(scans.len() as int) =~= all);
    sort_by_recency(sessions)
}

/// A message as it was found on disk: the name of its file, its descriptor,
/// and the files of its part directory.
#[derive(Clone, Debug, PartialEq, Eq)]
pub struct MessageRecord {
    pub file_name: String,
    pub header: MessageHeader,
    pub parts: Vec<DirFile>,
}

/// The view of a `MessageRecord`.
pub struct MessageRecordModel {
    pub file_name: Seq<char>,
    pub header: MessageHeaderModel,
    pub parts: Seq<DirFileModel>,
}

impl View for MessageRecord {
    type V = MessageRecordModel;

    open spec fn view(&self) -> MessageRecordModel {
        MessageRecordModel {
            file_name: self.file_name@,
            header: self.header@,
            parts: views(self.parts@),
        }
    }
}

impl Keyed for MessageRecord {
    open spec fn key_of(m: MessageRecordModel) -> Seq<char> {
        m.file_name
    }

    fn key_str(&self) -> (r: &str) {
        self.file_name.as_str()
    }
}

/// The message for what was found of it; none for a message whose parts
/// give no content block.
pub open spec fn message_of(record: MessageRecordModel, session: Seq<char>) -> Option<MessageModel> {
    let parts = message_parts(record.parts);
    match collapsed(parts_blocks(parts)) {
        Some(blocks) => Some(
            MessageModel {
                uuid: record.header.id,
                parent_uuid: None,
                session_id: session,
                timestamp: record.header.created_at,
                role: role_of_text(record.header.role),
                content: Some(blocks),
                model: record.header.model,
                usage: parts_usage(parts),
                cost_usd: parts_cost(parts),
                duration_ms: None,
                provider: Provider::OpenCode,
            },
        ),
        None => None,
    }
}

/// The messages for what was found of each, in the order given.
pub open spec fn messages_of(records: Seq<MessageRecordModel>, session: Seq<char>) -> Seq<
    MessageModel,
>
    decreases records.len(),
{
    if records.len() == 0 {
        Seq::empty()
    } else {
        let before = messages_of(records.drop_last(), session);
        match message_of(records.last(), session) {
            Some(m) => before.push(m),
            None => before,
        }
    }
}

/// Builds the message of the session `session_id` for what was found of it.
pub fn message_for(record: &MessageRecord, session_id: &str) -> (r: Option<Message>)
    ensures
        opt_view(r) == message_of(record@, session_id@),
        r matches Some(m) ==> m@.wf(),
{
    let parts = read_message_parts(&record.parts);
    let (content, usage, cost_usd) = process_parts(parts.as_slice());
    let ghost trees = message_parts(record@.parts);
    proof {
        lemma_cost_is_number(trees);
    }
    match content {
        Some(blocks) => Some(
            Message {
                uuid: record.header.id.clone(),
                parent_uuid: None,
                session_id: String::from_str(session_id),
                timestamp: record.header.created_at.clone(),
                role: read_role(record.header.role.as_str()),
                content: Some(blocks),
                model: record.header.model.clone(),
                usage,
                cost_usd,
                duration_ms: None,
                provider: Provider::OpenCode,
            },
        ),
        None => None,
    }
}

/// Every record has a safe storage identifier as the identifier of its
/// message, as `read_message` gives it.
pub open spec fn records_valid(records: Seq<MessageRecordModel>) -> bool {
    forall|i: int| 0 <= i < records.len() ==> safe_storage_id((#[trigger] records[i]).header.id)
}

proof fn lemma_messages_keep_ids(records: Seq<MessageRecordModel>, session: Seq<char>)
    requires
        records_valid(records),
    ensures
        forall|k: int|
            0 <= k < messages_of(records, session).len() ==> safe_storage_id(
                (#[trigger] messages_of(records, session)[k]).uuid,
            ),
    decreases records.len(),
{
    if records.len() > 0 {
        let shorter = records.drop_last();
        let before = messages_of(shorter, session);
        let all = messages_of(records, session);
        assert forall|i: int| 0 <= i < shorter.len() implies safe_storage_id(
            (#[trigger] shorter[i]).header.id,
        ) by {
            assert(shorter[i] == records[i]);
        }
        lemma_messages_keep_ids(shorter, session);
        assert forall|k: int| 0 <= k < all.len() implies safe_storage_id((#[trigger] all[k]).uuid) by {
            if k < before.len() {
                assert(all[k] == before[k]);
            } else {
                assert(safe_storage_id(records[records.len() - 1].header.id));
            }
        }
    }
}

/// Where every record has a safe storage identifier, every loaded message
/// has one as its identifier, which is therefore not empty.
pub proof fn lemma_loaded_messages_have_ids(records: Seq<MessageRecordModel>, session: Seq<char>)
    requires
        records_valid(records),
    ensures
        forall|k: int|
            0 <= k < messages_of(ordered::<MessageRecord>(records, true), session).len() ==> {
                let m = #[trigger] messages_of(
                    ordered::<MessageRecord>(records, true),
                    session,
                )[k];
                safe_storage_id(m.uuid) && m.uuid.len() > 0
            },
{
    lemma_ordered_keeps_all::<MessageRecord>(
        records,
        true,
        |r: MessageRecordModel| safe_storage_id(r.header.id),
    );
    lemma_messages_keep_ids(ordered::<MessageRecord>(records, true), session);
}

/// Loads the messages of the session `session_id`, in the order of the
/// names of their files. A message without content is left out.
pub fn load_messages(session_id: &str, records: Vec<MessageRecord>) -> (r: Vec<Message>)
    ensures
        views(r@) == messages_of(
            ordered::<MessageRecord>(views(records@), true),
            session_id@,
        ),
        all_wf(views(r@)),
        records_valid(views(records@)) ==> forall|k: int|
            0 <= k < r@.len() ==> safe_storage_id((#[trigger] views(r@)[k]).uuid),
{
    proof {
        if records_valid(views(records@)) {
            lemma_loaded_messages_have_ids(views(records@), session_id@);
        }
    }
    let sorted = sort_by_key(records, true);
    let mut messages: Vec<Message> = Vec::new();
    let ghost all = views(sorted@);
    let mut i: usize = 0;
    proof {
        assert(views(messages@) =~= Seq::<MessageModel>::empty());
        assert(all.take(0) =~= Seq::<MessageRecordModel>::empty());
    }
    while i < sorted.len()
        invariant
            i <= sorted.len(),
            all == views(sorted@),
            views(messages@) == messages_of(all.take(i as int), session_id@),
            all_wf(views(messages@)),
        decreases sorted.len() - i,
    {
        let ghost before = messages@;
        proof {
            assert(all.take(i + 1).drop_last() =~= all.take(i as int));
            assert(all.take(i + 1).last() == sorted[i as int]@);
        }
        match message_for(&sorted[i], session_id) {
            Some(message) => {
                messages.push(message);
                assert(views(messages@) =~= views(before).push(message@));
            },
            None => {},
        }
        i = i + 1;
    }
    assert(all.take(sorted.len() as int) =~= all);
    messages
}

/// Searches the messages of all sessions, given in the order in which the
/// sessions were found: those whose content matches `query` without regard
/// to case, in that order, and no more than `limit` of them.
pub fn search(messages: Vec<Message>, query: &str, limit: usize) -> (r: Vec<Message>)
    ensures
        views(r@) == first_n(matching(views(messages@), lowercase_text(query@)), limit as nat),
        r@.len() <= limit,
{
    first_matches(messages, query, limit)
}

} // verus!
