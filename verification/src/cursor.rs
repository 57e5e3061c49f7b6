//! The adapter for Cursor, which keeps its conversations in a key-value
//! store: one container record per conversation, and from schema version 6
//! on one more record per turn.
//!
//! Nothing here touches the store or the disk. Each operation takes what was
//! read, and the functions that decode virtual paths and build keys say what
//! to read.

pub mod bubble;
pub mod composer;
pub mod container;
pub mod query;
pub mod workspace;

use vstd::prelude::*;
use vstd::string::*;
use serde_json::Value;
use crate::cursor::bubble::{bubble_to_message, message_of_bubble};
use crate::cursor::composer::{
    meta_at, opt_metas, project_for, project_of, read_composer_meta, session_for, session_of,
    total_messages, ComposerMeta, MetaModel,
};
use crate::cursor::container::{
    fetched_at, fetched_text, headers_of, inline_slots, load_messages_v1, load_messages_v6,
    schema_version, schema_version_of, slots_messages, split_slots, SPLIT_SCHEMA_VERSION,
};
use crate::cursor::workspace::{
    all_uuids, hashes_safe, workspaces_valid, WorkspaceInfo, WorkspaceModel,
};
use crate::error::{ErrorModel, ProviderError};
use crate::fields::{items_or_none, opt_str};
use crate::json::{self, json_model, member, parsed_json, JsonModel};
use crate::model::{
    all_wf, opt_text, opt_texts, opt_view, views, Message, MessageModel, Project, ProjectModel, Provider,
    ProviderInfo, ProviderInfoModel, Session, SessionModel,
};
use crate::paths::{existing, found, or_else, PathProbe};
use crate::ident::{safe_storage_id, valid_uuid};
use crate::recency::{
    by_recency, lemma_ordered_keeps_all, lemma_ordered_keeps_distinct, sort_by_recency,
};
use crate::search::{content_matches, first_n, lowercase_text, message_matches, needle_of};
use crate::vpath::{
    bare, decode_storage_id, decode_uuid, decoded_storage_id, decoded_uuid, encoded, id_view,
    lemma_bare_of_encoded, lemma_encoded_is_injective,
};

verus! {

/// What is known of the installation: nothing without a base path; else the
/// provider with its base path, available where its store is a file.
pub open spec fn detected(base_path: Option<Seq<char>>, store_is_file: bool) -> Option<
    ProviderInfoModel,
> {
    match base_path {
        Some(path) => Some(
            ProviderInfoModel {
                id: "cursor"@,
                display_name: "Cursor AI"@,
                base_path: path,
                is_available: store_is_file,
            },
        ),
        None => None,
    }
}

/// Describes the installation of Cursor, given its base path and whether
/// the global store below it is a file.
pub fn detect(base_path: Option<String>, store_is_file: bool) -> (r: Option<ProviderInfo>)
    ensures
        opt_view(r) == detected(opt_text(base_path), store_is_file),
{
    match base_path {
        Some(path) => Some(
            ProviderInfo {
                id: String::from_str("cursor"),
                display_name: String::from_str("Cursor AI"),
                base_path: path,
                is_available: store_is_file,
            },
        ),
        None => None,
    }
}

/// Picks the directory of Cursor's user data: the override where it is given
/// and exists, else the default of the platform where it exists.
pub fn get_base_path(custom: Option<PathProbe>, platform_default: Option<PathProbe>) -> (r: Option<
    String,
>)
    ensures
        opt_text(r) == or_else(found(opt_view(custom)), found(opt_view(platform_default))),
{
    match existing(custom) {
        Some(path) => Some(path),
        None => existing(platform_default),
    }
}

/// Decodes the virtual path of a project into the name of its workspace
/// directory, which must be a safe storage identifier.
pub fn decode_project_path(project_path: &str) -> (r: Result<String, ProviderError>)
    ensures
        id_view(r) == decoded_storage_id(
            project_path@,
            Provider::Cursor,
            "Invalid workspace hash: "@,
        ),
{
    decode_storage_id(Provider::Cursor, project_path, "Invalid workspace hash: ")
}

/// Decodes the virtual path of a session into the identifier of its
/// conversation, which must be a canonical UUID.
pub fn decode_session_path(session_path: &str) -> (r: Result<String, ProviderError>)
    ensures
        id_view(r) == decoded_uuid(session_path@, Provider::Cursor, "Invalid composer ID: "@),
{
    decode_uuid(Provider::Cursor, session_path, "Invalid composer ID: ")
}

/// What was read from the containers of `count` conversations, given the
/// record fetched for each.
pub open spec fn metas_of(count: nat, fetched: Seq<Option<Seq<char>>>) -> Seq<Option<MetaModel>> {
    Seq::new(count, |c: int| meta_at(fetched_at(fetched, c)))
}

/// The texts of what was fetched for each workspace.
pub open spec fn fetched_views(fetched: Seq<Vec<Option<String>>>) -> Seq<Seq<Option<Seq<char>>>> {
    fetched.map_values(|f: Vec<Option<String>>| opt_texts(f@))
}

/// What was fetched for the `w`th workspace; nothing where `w` is out of
/// range.
pub open spec fn fetched_for(fetched: Seq<Seq<Option<Seq<char>>>>, w: int) -> Seq<
    Option<Seq<char>>,
> {
    if 0 <= w < fetched.len() {
        fetched[w]
    } else {
        Seq::empty()
    }
}

/// The projects of all workspaces before they are ordered: one for each
/// workspace that has a conversation with turns, in the order of the
/// workspaces.
pub open spec fn projects_of(
    workspaces: Seq<WorkspaceModel>,
    fetched: Seq<Seq<Option<Seq<char>>>>,
) -> Seq<ProjectModel>
    decreases workspaces.len(),
{
    if workspaces.len() == 0 {
        Seq::empty()
    } else {
        let before = projects_of(workspaces.drop_last(), fetched);
        let last = workspaces.len() - 1;
        let ws = workspaces[last];
        match project_of(ws, metas_of(ws.composer_ids.len(), fetched_for(fetched, last))) {
            Some(p) => before.push(p),
            None => before,
        }
    }
}

fn read_metas(count: usize, fetched: Option<&Vec<Option<String>>>) -> (r: Vec<Option<ComposerMeta>>)
    ensures
        opt_metas(r@) == metas_of(count as nat, match fetched {
            Some(f) => opt_texts(f@),
            None => Seq::empty(),
        }),
{
    let mut metas: Vec<Option<ComposerMeta>> = Vec::new();
    let ghost texts: Seq<Option<Seq<char>>> = match fetched {
        Some(f) => opt_texts(f@),
        None => Seq::empty(),
    };
    let mut c: usize = 0;
    assert(opt_metas(metas@) =~= metas_of(0, texts));
    while c < count
        invariant
            c <= count,
            texts == (match fetched {
                Some(f) => opt_texts(f@),
                None => Seq::<Option<Seq<char>>>::empty(),
            }),
            opt_metas(metas@) == metas_of(c as nat, texts),
        decreases count - c,
    {
        let ghost before = metas@;
        let text = match fetched {
            Some(f) => fetched_text(f, c),
            None => None,
        };
        let meta = read_composer_meta(text);
        assert(opt_view(meta) == meta_at(fetched_at(texts, c as int)));
        metas.push(meta);
        assert(opt_metas(metas@) =~= opt_metas(before).push(meta_at(fetched_at(texts, c as int))));
        assert(opt_metas(metas@) =~= metas_of((c + 1) as nat, texts));
        c = c + 1;
    }
    metas
}

/// What it takes to load a listed project again: a path that is the virtual
/// path of a safe storage identifier, and at least one session.
pub open spec fn project_loadable(p: ProjectModel) -> bool {
    &&& p.session_count >= 1
    &&& safe_storage_id(bare(p.path, Provider::Cursor))
    &&& p.path == encoded(Provider::Cursor, bare(p.path, Provider::Cursor))
}

proof fn lemma_content_needs_a_conversation(metas: Seq<Option<MetaModel>>)
    requires
        total_messages(metas) > 0,
    ensures
        metas.len() > 0,
{
}

proof fn lemma_projects_are_loadable(
    workspaces: Seq<WorkspaceModel>,
    fetched: Seq<Seq<Option<Seq<char>>>>,
)
    requires
        hashes_safe(workspaces),
        forall|w: int|
            0 <= w < workspaces.len() ==> (#[trigger] workspaces[w]).composer_ids.len()
                <= usize::MAX,
    ensures
        forall|k: int|
            0 <= k < projects_of(workspaces, fetched).len() ==> project_loadable(
                #[trigger] projects_of(workspaces, fetched)[k],
            ),
    decreases workspaces.len(),
{
    if workspaces.len() > 0 {
        let shorter = workspaces.drop_last();
        let before = projects_of(shorter, fetched);
        let all = projects_of(workspaces, fetched);
        let last = workspaces.len() - 1;
        let ws = workspaces[last];
        assert forall|w: int| 0 <= w < shorter.len() implies safe_storage_id(
            (#[trigger] shorter[w]).hash,
        ) && shorter[w].composer_ids.len() <= usize::MAX by {
            assert(shorter[w] == workspaces[w]);
        }
        lemma_projects_are_loadable(shorter, fetched);
        assert forall|k: int| 0 <= k < all.len() implies project_loadable(#[trigger] all[k]) by {
            if k < before.len() {
                assert(all[k] == before[k]);
            } else {
                let metas = metas_of(ws.composer_ids.len(), fetched_for(fetched, last));
                lemma_content_needs_a_conversation(metas);
                lemma_bare_of_encoded(Provider::Cursor, ws.hash);
                assert(all[k].path == encoded(Provider::Cursor, ws.hash));
            }
        }
    }
}

/// Where every workspace has a safe storage identifier as its hash, every
/// listed project can be loaded again: decoding its path gives that hash
/// back, and it has at least one session.
pub proof fn lemma_listed_projects_are_loadable(
    workspaces: Seq<WorkspaceModel>,
    fetched: Seq<Seq<Option<Seq<char>>>>,
    label: Seq<char>,
)
    requires
        hashes_safe(workspaces),
        forall|w: int|
            0 <= w < workspaces.len() ==> (#[trigger] workspaces[w]).composer_ids.len()
                <= usize::MAX,
    ensures
        forall|k: int|
            0 <= k < by_recency::<Project>(projects_of(workspaces, fetched)).len() ==> {
                let p = #[trigger] by_recency::<Project>(projects_of(workspaces, fetched))[k];
                &&& project_loadable(p)
                &&& decoded_storage_id(p.path, Provider::Cursor, label) == Ok::<
                    Seq<char>,
                    ErrorModel,
                >(bare(p.path, Provider::Cursor))
            },
{
    lemma_projects_are_loadable(workspaces, fetched);
    lemma_ordered_keeps_all::<Project>(
        projects_of(workspaces, fetched),
        false,
        |p: ProjectModel| project_loadable(p),
    );
}

/// Workspaces that are valid have safe hashes and canonical UUIDs: what
/// `discover_workspaces` returns is what the listings ask for.
pub proof fn lemma_valid_workspaces(workspaces: Seq<WorkspaceInfo>)
    requires
        workspaces_valid(workspaces),
    ensures
        hashes_safe(views(workspaces)),
        forall|w: int|
            0 <= w < workspaces.len() ==> all_uuids(#[trigger] views(workspaces)[w].composer_ids),
{
    assert forall|w: int| 0 <= w < workspaces.len() implies all_uuids(
        #[trigger] views(workspaces)[w].composer_ids,
    ) by {
        let ids = workspaces[w].composer_ids@;
        assert(views(workspaces)[w].composer_ids == views(ids));
        assert forall|c: int| 0 <= c < ids.len() implies valid_uuid(#[trigger] views(ids)[c]) by {
            assert(valid_uuid(ids[c]@));
        }
    }
    assert forall|w: int| 0 <= w < workspaces.len() implies safe_storage_id(
        (#[trigger] views(workspaces)[w]).hash,
    ) by {
        assert(safe_storage_id(workspaces[w].hash@));
    }
}

/// Lists the workspaces that have conversations with turns as projects,
/// newest first. `fetched` holds, for each workspace, the record fetched for
/// each of its conversations under `composer_key`, in the same order.
pub fn scan_projects(workspaces: &Vec<WorkspaceInfo>, fetched: &Vec<Vec<Option<String>>>) -> (r: Vec<
    Project,
>)
    ensures
        views(r@) == by_recency::<Project>(
            projects_of(views(workspaces@), fetched_views(fetched@)),
        ),
        hashes_safe(views(workspaces@)) ==> forall|k: int|
            0 <= k < r@.len() ==> project_loadable(#[trigger] views(r@)[k]),
{
    proof {
        if hashes_safe(views(workspaces@)) {
            assert forall|w: int| 0 <= w < workspaces@.len() implies (#[trigger] views(
                workspaces@,
            )[w]).composer_ids.len() <= usize::MAX by {
                let ids = workspaces@[w].composer_ids;
                assert(views(workspaces@)[w].composer_ids.len() == ids@.len());
                assert(ids@.len() == ids.len());
            }
            lemma_listed_projects_are_loadable(
                views(workspaces@),
                fetched_views(fetched@),
                Seq::empty(),
            );
        }
    }
    let mut projects: Vec<Project> = Vec::new();
    let ghost all = views(workspaces@);
    let mut w: usize = 0;
    proof {
        assert(views(projects@) =~= Seq::<ProjectModel>::empty());
        assert(all.take(0) =~= Seq::<WorkspaceModel>::empty());
    }
    while w < workspaces.len()
        invariant
            w <= workspaces.len(),
            all == views(workspaces@),
            views(projects@) == projects_of(all.take(w as int), fetched_views(fetched@)),
        decreases workspaces.len() - w,
    {
        let ghost before = projects@;
        let ws = &workspaces[w];
        proof {
            assert(all.take(w + 1).drop_last() =~= all.take(w as int));
            assert(all.take(w + 1)[w as int] == ws@);
            assert(ws@.composer_ids.len() == ws.composer_ids.len());
        }
        let records = if w < fetched.len() {
            Some(&fetched[w])
        } else {
            None
        };
        let metas = read_metas(ws.composer_ids.len(), records);
        match project_for(ws, &metas) {
            Some(project) => {
                projects.push(project);
                assert(views(projects@) =~= views(before).push(project@));
            },
            None => {},
        }
        w = w + 1;
    }
    assert(all.take(workspaces.len() as int) =~= all);
    sort_by_recency(projects)
}

proof fn lemma_projects_come_from_workspaces(
    workspaces: Seq<WorkspaceModel>,
    fetched: Seq<Seq<Option<Seq<char>>>>,
)
    requires
        forall|i: int, j: int|
            0 <= i < j < workspaces.len() ==> workspaces[i].hash != workspaces[j].hash,
    ensures
        forall|k: int|
            0 <= k < projects_of(workspaces, fetched).len() ==> exists|w: int|
                0 <= w < workspaces.len() && #[trigger] projects_of(workspaces, fetched)[k].path
                    == encoded(Provider::Cursor, #[trigger] workspaces[w].hash),
        forall|i: int, j: int|
            0 <= i < j < projects_of(workspaces, fetched).len() ==> projects_of(
                workspaces,
                fetched,
            )[i].path != projects_of(workspaces, fetched)[j].path,
    decreases workspaces.len(),
{
    if workspaces.len() > 0 {
        let shorter = workspaces.drop_last();
        let before = projects_of(shorter, fetched);
        let all = projects_of(workspaces, fetched);
        let last = workspaces.len() - 1;
        lemma_projects_come_from_workspaces(shorter, fetched);
        assert forall|k: int| 0 <= k < all.len() implies exists|w: int|
            0 <= w < workspaces.len() && #[trigger] all[k].path == encoded(
                Provider::Cursor,
                #[trigger] workspaces[w].hash,
            ) by {
            if k < before.len() {
                let w = choose|w: int|
                    0 <= w < shorter.len() && #[trigger] before[k].path == encoded(
                        Provider::Cursor,
                        #[trigger] shorter[w].hash,
                    );
                assert(shorter[w] == workspaces[w]);
                assert(all[k] == before[k]);
            } else {
                assert(all[k].path == encoded(Provider::Cursor, workspaces[last].hash));
            }
        }
        assert forall|i: int, j: int| 0 <= i < j < all.len() implies all[i].path
            != all[j].path by {
            if j < before.len() {
                assert(all[i] == before[i] && all[j] == before[j]);
            } else {
                let w = choose|w: int|
                    0 <= w < shorter.len() && #[trigger] before[i].path == encoded(
                        Provider::Cursor,
                        #[trigger] shorter[w].hash,
                    );
                assert(all[i] == before[i]);
                assert(shorter[w] == workspaces[w]);
                assert(all[j].path == encoded(Provider::Cursor, workspaces[last].hash));
                if all[i].path == all[j].path {
                    lemma_encoded_is_injective(
                        Provider::Cursor,
                        workspaces[w].hash,
                        workspaces[last].hash,
                    );
                }
            }
        }
    }
}

/// Workspaces with different hashes give projects with different paths: a
/// project is known by its path among the projects of Cursor.
pub proof fn lemma_project_paths_are_distinct(
    workspaces: Seq<WorkspaceModel>,
    fetched: Seq<Seq<Option<Seq<char>>>>,
)
    requires
        forall|i: int, j: int|
            0 <= i < j < workspaces.len() ==> workspaces[i].hash != workspaces[j].hash,
    ensures
        forall|i: int, j: int|
            0 <= i < j < by_recency::<Project>(projects_of(workspaces, fetched)).len()
                ==> by_recency::<Project>(projects_of(workspaces, fetched))[i].path
                != by_recency::<Project>(projects_of(workspaces, fetched))[j].path,
{
    lemma_projects_come_from_workspaces(workspaces, fetched);
    lemma_ordered_keeps_distinct::<Project, Seq<char>>(
        projects_of(workspaces, fetched),
        false,
        |p: ProjectModel| p.path,
    );
}

/// The sessions of a project before they are ordered: one for each
/// conversation that has a container with turns, in the order of the
/// identifiers. `fetched` holds the record fetched for each identifier.
pub open spec fn sessions_of(
    composers: Seq<Seq<char>>,
    fetched: Seq<Option<Seq<char>>>,
    project_name: Seq<char>,
) -> Seq<SessionModel>
    decreases composers.len(),
{
    if composers.len() == 0 {
        Seq::empty()
    } else {
        let before = sessions_of(composers.drop_last(), fetched, project_name);
        let last = composers.len() - 1;
        match session_of(composers[last], meta_at(fetched_at(fetched, last)), project_name) {
            Some(s) => before.push(s),
            None => before,
        }
    }
}

/// What it takes to load a listed session again: an identifier in the
/// canonical form of a UUID, and a reference and a path that are its virtual
/// path.
pub open spec fn session_loadable(s: SessionModel) -> bool {
    &&& valid_uuid(s.actual_session_id)
    &&& s.session_id == encoded(Provider::Cursor, s.actual_session_id)
    &&& s.file_path == s.session_id
}

proof fn lemma_sessions_are_loadable(
    composers: Seq<Seq<char>>,
    fetched: Seq<Option<Seq<char>>>,
    project_name: Seq<char>,
)
    requires
        all_uuids(composers),
    ensures
        forall|k: int|
            0 <= k < sessions_of(composers, fetched, project_name).len() ==> session_loadable(
                #[trigger] sessions_of(composers, fetched, project_name)[k],
            ),
    decreases composers.len(),
{
    if composers.len() > 0 {
        let shorter = composers.drop_last();
        let before = sessions_of(shorter, fetched, project_name);
        let all = sessions_of(composers, fetched, project_name);
        assert forall|i: int| 0 <= i < shorter.len() implies valid_uuid(#[trigger] shorter[i]) by {
            assert(shorter[i] == composers[i]);
        }
        lemma_sessions_are_loadable(shorter, fetched, project_name);
        assert forall|k: int| 0 <= k < all.len() implies session_loadable(#[trigger] all[k]) by {
            if k < before.len() {
                assert(all[k] == before[k]);
            } else {
                assert(valid_uuid(composers[composers.len() - 1]));
            }
        }
    }
}

/// Where every conversation has a canonical UUID as its identifier, every
/// listed session can be loaded again: its reference and its path are the
/// virtual path of its identifier, and decoding them gives the identifier
/// back.
pub proof fn lemma_listed_sessions_are_loadable(
    composers: Seq<Seq<char>>,
    fetched: Seq<Option<Seq<char>>>,
    project_name: Seq<char>,
    label: Seq<char>,
)
    requires
        all_uuids(composers),
    ensures
        forall|k: int|
            0 <= k < by_recency::<Session>(sessions_of(composers, fetched, project_name)).len()
                ==> {
                let s = #[trigger] by_recency::<Session>(
                    sessions_of(composers, fetched, project_name),
                )[k];
                &&& session_loadable(s)
                &&& bare(s.session_id, Provider::Cursor) == s.actual_session_id
                &&& decoded_uuid(s.file_path, Provider::Cursor, label) == Ok::<
                    Seq<char>,
                    ErrorModel,
                >(s.actual_session_id)
            },
{
    let given = sessions_of(composers, fetched, project_name);
    lemma_sessions_are_loadable(composers, fetched, project_name);
    lemma_ordered_keeps_all::<Session>(given, false, |s: SessionModel| session_loadable(s));
    assert forall|k: int| 0 <= k < by_recency::<Session>(given).len() implies {
        let s = #[trigger] by_recency::<Session>(given)[k];
        &&& bare(s.session_id, Provider::Cursor) == s.actual_session_id
        &&& decoded_uuid(s.file_path, Provider::Cursor, label) == Ok::<Seq<char>, ErrorModel>(
            s.actual_session_id,
        )
    } by {
        let s = by_recency::<Session>(given)[k];
        assert(session_loadable(s));
        lemma_bare_of_encoded(Provider::Cursor, s.actual_session_id);
    }
}

/// Lists the sessions of a project, newest first. `composer_ids` are the
/// conversations of the workspace, `fetched` the record fetched for each of
/// them under `composer_key`, in the same order.
pub fn load_sessions(project_name: &str, composer_ids: &Vec<String>, fetched: &Vec<Option<String>>) -> (r:
    Vec<Session>)
    ensures
        views(r@) == by_recency::<Session>(
            sessions_of(views(composer_ids@), opt_texts(fetched@), project_name@),
        ),
        all_uuids(views(composer_ids@)) ==> forall|k: int|
            0 <= k < r@.len() ==> session_loadable(#[trigger] views(r@)[k]),
{
    proof {
        if all_uuids(views(composer_ids@)) {
            lemma_listed_sessions_are_loadable(
                views(composer_ids@),
                opt_texts(fetched@),
                project_name@,
                Seq::empty(),
            );
        }
    }
    let mut sessions: Vec<Session> = Vec::new();
    let ghost composers = views(composer_ids@);
    let mut i: usize = 0;
    proof {
        assert(views(sessions@) =~= Seq::<SessionModel>::empty());
        assert(composers.take(0) =~= Seq::<Seq<char>>::empty());
    }
    while i < composer_ids.len()
        invariant
            i <= composer_ids.len(),
            composers == views(composer_ids@),
            views(sessions@) == sessions_of(
                composers.take(i as int),
                opt_texts(fetched@),
                project_name@,
            ),
        decreases composer_ids.len() - i,
    {
        let ghost before = sessions@;
        proof {
            assert(composers.take(i + 1).drop_last() =~= composers.take(i as int));
            assert(composers.take(i + 1)[i as int] == composer_ids[i as int]@);
        }
        let meta = read_composer_meta(fetched_text(fetched, i));
        match session_for(composer_ids[i].as_str(), meta, project_name) {
            Some(session) => {
                sessions.push(session);
                assert(views(sessions@) =~= views(before).push(session@));
            },
            None => {},
        }
        i = i + 1;
    }
    assert(composers.take(composer_ids.len() as int) =~= composers);
    sort_by_recency(sessions)
}

/// The messages of a container, by its schema version.
pub open spec fn container_messages(
    container: JsonModel,
    composer: Seq<char>,
    blobs: Seq<Option<Seq<char>>>,
) -> Seq<MessageModel> {
    if schema_version_of(container) >= SPLIT_SCHEMA_VERSION {
        slots_messages(split_slots(container, blobs), composer)
    } else {
        slots_messages(inline_slots(container), composer)
    }
}

/// Decodes all messages of a conversation from its container. Below schema
/// version 6 the turns are in the container; from there on `blobs` holds the
/// records that were fetched under `bubble_keys`, in that order.
pub fn load_messages(composer_id: &str, val: &Value, blobs: &Vec<Option<String>>) -> (r: Vec<
    Message,
>)
    ensures
        views(r@) == container_messages(json_model(*val), composer_id@, opt_texts(blobs@)),
        all_wf(views(r@)),
{
    if schema_version(val) >= SPLIT_SCHEMA_VERSION {
        load_messages_v6(composer_id, val, blobs)
    } else {
        load_messages_v1(composer_id, val)
    }
}

/// A conversation decodes to the same messages from a container that holds
/// its turns and from one that holds a header for each turn, where each
/// header names its turn and the record fetched for it parses to that turn.
pub proof fn lemma_split_container_decodes_alike(
    inline: JsonModel,
    split: JsonModel,
    blobs: Seq<Option<Seq<char>>>,
    session: Seq<char>,
)
    requires
        schema_version_of(inline) < SPLIT_SCHEMA_VERSION <= schema_version_of(split),
        headers_of(split).len() == items_or_none(member(inline, "conversation"@)).len(),
        forall|i: int|
            0 <= i < headers_of(split).len() ==> {
                &&& opt_str(member(#[trigger] headers_of(split)[i], "bubbleId"@)) is Some
                &&& fetched_at(blobs, i) matches Some(text) && parsed_json(text) == Some(
                    items_or_none(member(inline, "conversation"@))[i],
                )
            },
    ensures
        container_messages(split, session, blobs) == container_messages(
            inline,
            session,
            Seq::empty(),
        ),
{
    assert forall|i: int| 0 <= i < headers_of(split).len() implies split_slots(split, blobs)[i]
        == inline_slots(inline)[i] by {
        assert(opt_str(member(headers_of(split)[i], "bubbleId"@)) is Some);
    }
    assert(split_slots(split, blobs) =~= inline_slots(inline));
}

/// The message that a row of the store decodes to. A row that is found by a
/// scan belongs to no known session: its message has an empty session and
/// position 0.
pub open spec fn row_message(row: Seq<char>) -> Option<MessageModel> {
    match parsed_json(row) {
        Some(bubble) => message_of_bubble(bubble, Seq::empty(), 0),
        None => None,
    }
}

/// The message of a row, where it matches the needle.
pub open spec fn row_match(row: Seq<char>, needle: Seq<char>) -> Option<MessageModel> {
    match row_message(row) {
        Some(m) => if content_matches(m.content, needle) {
            Some(m)
        } else {
            None
        },
        None => None,
    }
}

/// The messages of the rows that match, in the order of the rows.
pub open spec fn rows_matches(rows: Seq<Seq<char>>, needle: Seq<char>) -> Seq<MessageModel>
    decreases rows.len(),
{
    if rows.len() == 0 {
        Seq::empty()
    } else {
        let before = rows_matches(rows.drop_last(), needle);
        match row_match(rows.last(), needle) {
            Some(m) => before.push(m),
            None => before,
        }
    }
}

/// The matches among the first `i` rows begin the matches among all rows.
pub proof fn lemma_rows_matches_prefix(rows: Seq<Seq<char>>, i: int, needle: Seq<char>)
    requires
        0 <= i <= rows.len(),
    ensures
        rows_matches(rows.take(i), needle).len() <= rows_matches(rows, needle).len(),
        rows_matches(rows, needle).take(rows_matches(rows.take(i), needle).len() as int)
            == rows_matches(rows.take(i), needle),
    decreases rows.len(),
{
    if i == rows.len() {
        assert(rows.take(i) =~= rows);
        assert(rows_matches(rows, needle).take(rows_matches(rows, needle).len() as int)
            =~= rows_matches(rows, needle));
    } else {
        let shorter = rows.drop_last();
        lemma_rows_matches_prefix(shorter, i, needle);
        assert(shorter.take(i) =~= rows.take(i));
        let part = rows_matches(rows.take(i), needle);
        assert(rows_matches(rows, needle).take(part.len() as int) =~= rows_matches(
            shorter,
            needle,
        ).take(part.len() as int));
    }
}

fn decode_row(row: &str) -> (r: Option<Message>)
    ensures
        opt_view(r) == row_message(row@),
        r matches Some(m) ==> m@.wf(),
{
    match json::parse(row) {
        Ok(bubble) => {
            let r = bubble_to_message(&bubble, "", 0);
            proof {
                reveal_strlit("");
                assert(""@ =~= Seq::<char>::empty());
            }
            r
        },
        Err(_) => None,
    }
}

/// Searches the rows that the store returned for a scan with `like_pattern`:
/// the messages whose content matches `query` without regard to case, in the
/// order of the rows, and no more than `limit` of them.
pub fn search(rows: &Vec<String>, query: &str, limit: usize) -> (r: Vec<Message>)
    ensures
        views(r@) == first_n(
            rows_matches(views(rows@), lowercase_text(query@)),
            limit as nat,
        ),
        r@.len() <= limit,
        all_wf(views(r@)),
{
    let needle = needle_of(query);
    let mut results: Vec<Message> = Vec::new();
    let ghost all = views(rows@);
    let mut i: usize = 0;
    proof {
        assert(views(results@) =~= Seq::<MessageModel>::empty());
        assert(all.take(0) =~= Seq::<Seq<char>>::empty());
    }
    while i < rows.len() && results.len() < limit
        invariant
            i <= rows.len(),
            all == views(rows@),
            needle@ == lowercase_text(query@),
            results.len() <= limit,
            views(results@) == rows_matches(all.take(i as int), needle@),
            all_wf(views(results@)),
        decreases rows.len() - i,
    {
        let ghost before = results@;
        proof {
            assert(all.take(i + 1).drop_last() =~= all.take(i as int));
            assert(all.take(i + 1).last() == rows[i as int]@);
        }
        match decode_row(rows[i].as_str()) {
            Some(message) => {
                if message_matches(&message, &needle) {
                    results.push(message);
                    assert(views(results@) =~= views(before).push(message@));
                }
            },
            None => {},
        }
        i = i + 1;
    }
    proof {
        lemma_rows_matches_prefix(all, i as int, needle@);
        if i == rows.len() {
            assert(all.take(i as int) =~= all);
        } else {
            assert(views(results@).len() == limit);
        }
    }
    results
}

} // verus!
