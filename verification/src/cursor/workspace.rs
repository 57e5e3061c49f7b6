//! The workspaces of Cursor: one directory each, with a descriptor that
//! names the folder of the project and a store that lists its
//! conversations.

use vstd::prelude::*;
use vstd::string::*;
use serde_json::Value;
use crate::error::ProviderError;
use crate::fields::{items_at, items_or_none, opt_str, text_of};
use crate::ident::{is_safe_storage_id, is_valid_uuid, safe_storage_id, valid_uuid};
use crate::json::{self, json_model, member, models, parsed_json, JsonModel};
use crate::model::{opt_text, views};
use crate::paths::{self, path_of_uri, uri_to_path};

verus! {

/// One workspace: the directory under which Cursor keeps it, the folder of
/// the project, and the conversations that belong to it.
#[derive(Clone, Debug, PartialEq, Eq)]
pub struct WorkspaceInfo {
    /// The name of the workspace directory, a safe storage identifier.
    pub hash: String,
    /// The path of the project folder.
    pub folder_path: String,
    /// The last component of `folder_path`, where the platform finds one.
    pub folder_name: Option<String>,
    /// The identifiers of the conversations, each a canonical UUID.
    pub composer_ids: Vec<String>,
}

/// The view of a `WorkspaceInfo`.
pub struct WorkspaceModel {
    pub hash: Seq<char>,
    pub folder_path: Seq<char>,
    pub folder_name: Option<Seq<char>>,
    pub composer_ids: Seq<Seq<char>>,
}

impl View for WorkspaceInfo {
    type V = WorkspaceModel;

    open spec fn view(&self) -> WorkspaceModel {
        WorkspaceModel {
            hash: self.hash@,
            folder_path: self.folder_path@,
            folder_name: opt_text(self.folder_name),
            composer_ids: views(self.composer_ids@),
        }
    }
}

/// The folder of a workspace, from the text of its descriptor: the path for
/// the URI under `folder`.
pub open spec fn folder_of(descriptor: Seq<char>) -> Option<Seq<char>> {
    match parsed_json(descriptor) {
        Some(d) => match opt_str(member(d, "folder"@)) {
            Some(uri) => Some(path_of_uri(uri)),
            None => None,
        },
        None => None,
    }
}

/// Reads the folder of a workspace from the text of its descriptor.
pub fn read_workspace_folder(descriptor: &str) -> (r: Option<String>)
    ensures
        opt_text(r) == folder_of(descriptor@),
{
    match json::parse(descriptor) {
        Ok(d) => match text_of(json::get(&d, "folder")) {
            Some(uri) => Some(uri_to_path(uri)),
            None => None,
        },
        Err(_) => None,
    }
}

/// The name of a project as its sessions show it: the last component of its
/// folder, or the empty text where there is none.
pub open spec fn name_or_empty(folder_name: Option<Seq<char>>) -> Seq<char> {
    match folder_name {
        Some(name) => name,
        None => Seq::empty(),
    }
}

/// Picks the name of a project as its sessions show it, from the last
/// component of its folder.
pub fn project_name(folder_name: Option<String>) -> (r: String)
    ensures
        r@ == name_or_empty(opt_text(folder_name)),
{
    match folder_name {
        Some(name) => name,
        None => String::new(),
    }
}

/// Reads the name of the project of a workspace from the text of its
/// descriptor, where that could be read: the last component of its folder as
/// the platform gives it. Without a folder the name is empty.
pub fn read_project_name(descriptor: Option<&str>) -> (r: String)
    ensures
        descriptor is None ==> r@ == Seq::<char>::empty(),
        descriptor matches Some(text) && folder_of(text@) is None ==> r@ == Seq::<char>::empty(),
        exists|folder_name: Option<Seq<char>>| r@ == #[trigger] name_or_empty(folder_name),
{
    let folder = match descriptor {
        Some(text) => read_workspace_folder(text),
        None => None,
    };
    match folder {
        Some(folder) => {
            let folder_name = paths::file_name(folder.as_str());
            let ghost last = opt_text(folder_name);
            let name = project_name(folder_name);
            assert(name@ == name_or_empty(last));
            name
        },
        None => {
            let name = project_name(None);
            assert(name@ == name_or_empty(None));
            name
        },
    }
}

/// The identifiers among the entries of a list of conversations: the
/// `composerId` of each entry that has one in the canonical form of a UUID,
/// in the order of the entries.
pub open spec fn valid_composer_ids(entries: Seq<JsonModel>) -> Seq<Seq<char>>
    decreases entries.len(),
{
    if entries.len() == 0 {
        Seq::empty()
    } else {
        let before = valid_composer_ids(entries.drop_last());
        match opt_str(member(entries.last(), "composerId"@)) {
            Some(id) => if valid_uuid(id) {
                before.push(id)
            } else {
                before
            },
            None => before,
        }
    }
}

/// The conversations that the record of a workspace lists, under
/// `allComposers`.
pub open spec fn composer_ids_of(data: JsonModel) -> Seq<Seq<char>> {
    valid_composer_ids(items_or_none(member(data, "allComposers"@)))
}

fn collect_composer_ids(data: &Value) -> (r: Vec<String>)
    ensures
        views(r@) == composer_ids_of(json_model(*data)),
        forall|i: int| 0 <= i < r@.len() ==> valid_uuid(#[trigger] r@[i]@),
{
    let mut ids: Vec<String> = Vec::new();
    assert(views(ids@) =~= Seq::<Seq<char>>::empty());
    match items_at(json::get(data, "allComposers")) {
        Some(entries) => {
            let ghost all = models(entries@);
            let mut i: usize = 0;
            assert(all.take(0) =~= Seq::<JsonModel>::empty());
            while i < entries.len()
                invariant
                    i <= entries.len(),
                    all == models(entries@),
                    views(ids@) == valid_composer_ids(all.take(i as int)),
                    forall|j: int| 0 <= j < ids@.len() ==> valid_uuid(#[trigger] ids@[j]@),
                decreases entries.len() - i,
            {
                let ghost before = ids@;
                proof {
                    assert(all.take(i + 1).drop_last() =~= all.take(i as int));
                    assert(all.take(i + 1).last() == json_model(entries[i as int]));
                }
                match text_of(json::get(&entries[i], "composerId")) {
                    Some(id) => {
                        if is_valid_uuid(id) {
                            let owned = String::from_str(id);
                            ids.push(owned);
                            assert(views(ids@) =~= views(before).push(owned@));
                        }
                    },
                    None => {},
                }
                i = i + 1;
            }
            assert(all.take(entries.len() as int) =~= all);
        },
        None => {},
    }
    ids
}

/// Reads the conversations of a workspace from the record fetched under
/// `composer_list_key`. Without a record there are none; a record that is
/// not JSON is a decoding error.
pub fn read_workspace_composer_ids(fetched: Option<&str>) -> (r: Result<Vec<String>, ProviderError>)
    ensures
        match fetched {
            Some(text) => match parsed_json(text@) {
                Some(data) => r matches Ok(ids) && views(ids@) == composer_ids_of(data),
                None => r matches Err(e) && e@ is Decode,
            },
            None => r matches Ok(ids) && ids@.len() == 0,
        },
        r matches Ok(ids) ==> forall|i: int| 0 <= i < ids@.len() ==> valid_uuid(#[trigger] ids@[i]@),
        r matches Ok(ids) ==> all_uuids(views(ids@)),
{
    match fetched {
        Some(text) => match json::parse(text) {
            Ok(data) => Ok(collect_composer_ids(&data)),
            Err(message) => Err(ProviderError::Decode(message)),
        },
        None => Ok(Vec::new()),
    }
}

/// The key of the settings table under which a workspace lists its
/// conversations.
pub fn composer_list_key() -> (r: &'static str)
    ensures
        r@ == "composer.composerData"@,
{
    "composer.composerData"
}

/// What was found of one entry of the directory that holds the workspaces.
/// The descriptor and the list of conversations are read only for an entry
/// that `admits_entry` lets through.
#[derive(Clone, Debug, PartialEq, Eq)]
pub struct WorkspaceEntry {
    /// The name of the entry, where it is valid text.
    pub name: Option<String>,
    /// Whether the entry is a symbolic link, or its kind could not be told.
    pub is_symlink: bool,
    /// Whether the entry is a directory.
    pub is_dir: bool,
    /// The text of the descriptor in the entry, where it could be read.
    pub descriptor: Option<String>,
    /// The record under `composer_list_key` in the store of the entry, where
    /// there is one and it could be read.
    pub composer_data: Option<String>,
}

/// The view of a `WorkspaceEntry`.
pub struct EntryModel {
    pub name: Option<Seq<char>>,
    pub is_symlink: bool,
    pub is_dir: bool,
    pub descriptor: Option<Seq<char>>,
    pub composer_data: Option<Seq<char>>,
}

impl View for WorkspaceEntry {
    type V = EntryModel;

    open spec fn view(&self) -> EntryModel {
        EntryModel {
            name: opt_text(self.name),
            is_symlink: self.is_symlink,
            is_dir: self.is_dir,
            descriptor: opt_text(self.descriptor),
            composer_data: opt_text(self.composer_data),
        }
    }
}

/// Whether an entry may be looked into: it is no symbolic link, it is a
/// directory, and its name is a safe storage identifier.
pub open spec fn entry_admitted(name: Option<Seq<char>>, is_symlink: bool, is_dir: bool) -> bool {
    match name {
        Some(n) => !is_symlink && is_dir && safe_storage_id(n),
        None => false,
    }
}

/// Whether an entry of the directory of workspaces may be looked into.
/// Nothing below an entry is read before this has said yes.
pub fn admits_entry(name: Option<&str>, is_symlink: bool, is_dir: bool) -> (r: bool)
    ensures
        r == entry_admitted(
            match name {
                Some(n) => Some(n@),
                None => None,
            },
            is_symlink,
            is_dir,
        ),
{
    match name {
        Some(n) => !is_symlink && is_dir && is_safe_storage_id(n),
        None => false,
    }
}

/// The conversations that an entry lists; none where it has no record of
/// them or the record does not parse.
pub open spec fn listed_composers(composer_data: Option<Seq<char>>) -> Seq<Seq<char>> {
    match composer_data {
        Some(text) => match parsed_json(text) {
            Some(data) => composer_ids_of(data),
            None => Seq::empty(),
        },
        None => Seq::empty(),
    }
}

/// What discovery finds of a workspace, apart from the name of its folder.
pub struct WorkspaceCore {
    pub hash: Seq<char>,
    pub folder_path: Seq<char>,
    pub composer_ids: Seq<Seq<char>>,
}

/// The workspace that an entry stands for. There is none where the entry is
/// not admitted, where its descriptor names no folder, and where it lists no
/// conversation.
pub open spec fn workspace_of(entry: EntryModel) -> Option<WorkspaceCore> {
    if !entry_admitted(entry.name, entry.is_symlink, entry.is_dir) {
        None
    } else {
        match entry.descriptor {
            Some(descriptor) => match folder_of(descriptor) {
                Some(folder) => if listed_composers(entry.composer_data).len() == 0 {
                    None
                } else {
                    Some(
                        WorkspaceCore {
                            hash: entry.name->0,
                            folder_path: folder,
                            composer_ids: listed_composers(entry.composer_data),
                        },
                    )
                },
                None => None,
            },
            None => None,
        }
    }
}

/// The workspaces that the entries stand for, in the order of the entries.
pub open spec fn workspaces_of(entries: Seq<EntryModel>) -> Seq<WorkspaceCore>
    decreases entries.len(),
{
    if entries.len() == 0 {
        Seq::empty()
    } else {
        let before = workspaces_of(entries.drop_last());
        match workspace_of(entries.last()) {
            Some(ws) => before.push(ws),
            None => before,
        }
    }
}

/// A workspace without the name of its folder.
pub open spec fn core_of(ws: WorkspaceModel) -> WorkspaceCore {
    WorkspaceCore { hash: ws.hash, folder_path: ws.folder_path, composer_ids: ws.composer_ids }
}

/// The workspaces of a sequence, each without the name of its folder.
pub open spec fn cores_of(workspaces: Seq<WorkspaceInfo>) -> Seq<WorkspaceCore> {
    workspaces.map_values(|ws: WorkspaceInfo| core_of(ws@))
}

/// Every identifier is a canonical UUID.
pub open spec fn all_uuids(ids: Seq<Seq<char>>) -> bool {
    forall|i: int| 0 <= i < ids.len() ==> valid_uuid(#[trigger] ids[i])
}

/// Every hash is a safe storage identifier.
pub open spec fn hashes_safe(workspaces: Seq<WorkspaceModel>) -> bool {
    forall|w: int| 0 <= w < workspaces.len() ==> safe_storage_id((#[trigger] workspaces[w]).hash)
}

/// Every workspace has a safe storage identifier as its hash and canonical
/// UUIDs as the identifiers of its conversations.
pub open spec fn workspaces_valid(workspaces: Seq<WorkspaceInfo>) -> bool {
    forall|w: int|
        0 <= w < workspaces.len() ==> {
            &&& safe_storage_id((#[trigger] workspaces[w]).hash@)
            &&& forall|c: int|
                0 <= c < workspaces[w].composer_ids@.len() ==> valid_uuid(
                    #[trigger] workspaces[w].composer_ids@[c]@,
                )
        }
}

fn workspace_from_entry(entry: &WorkspaceEntry) -> (r: Option<WorkspaceInfo>)
    ensures
        match r {
            Some(ws) => workspace_of(entry@) == Some(core_of(ws@)) && safe_storage_id(ws.hash@)
                && forall|c: int|
                0 <= c < ws.composer_ids@.len() ==> valid_uuid(#[trigger] ws.composer_ids@[c]@),
            None => workspace_of(entry@) is None,
        },
{
    let name = match &entry.name {
        Some(n) => n.as_str(),
        None => {
            return None;
        },
    };
    if !admits_entry(Some(name), entry.is_symlink, entry.is_dir) {
        return None;
    }
    let folder = match &entry.descriptor {
        Some(descriptor) => match read_workspace_folder(descriptor.as_str()) {
            Some(folder) => folder,
            None => {
                return None;
            },
        },
        None => {
            return None;
        },
    };
    let listed = match &entry.composer_data {
        Some(text) => read_workspace_composer_ids(Some(text.as_str())),
        None => read_workspace_composer_ids(None),
    };
    let composer_ids = match listed {
        Ok(ids) => ids,
        Err(_) => Vec::new(),
    };
    if composer_ids.len() == 0 {
        return None;
    }
    let folder_name = paths::file_name(folder.as_str());
    Some(WorkspaceInfo { hash: String::from_str(name), folder_path: folder, folder_name, composer_ids })
}

/// Finds the workspaces among the entries of the directory that holds them.
/// An entry that is not admitted, names no folder or lists no conversation
/// is passed over. Of the name of a folder, which the platform gives,
/// nothing is said.
pub fn discover_workspaces(entries: &Vec<WorkspaceEntry>) -> (r: Vec<WorkspaceInfo>)
    ensures
        cores_of(r@) == workspaces_of(views(entries@)),
        workspaces_valid(r@),
{
    let mut workspaces: Vec<WorkspaceInfo> = Vec::new();
    let ghost all = views(entries@);
    let mut i: usize = 0;
    proof {
        assert(cores_of(workspaces@) =~= Seq::<WorkspaceCore>::empty());
        assert(all.take(0) =~= Seq::<EntryModel>::empty());
    }
    while i < entries.len()
        invariant
            i <= entries.len(),
            all == views(entries@),
            cores_of(workspaces@) == workspaces_of(all.take(i as int)),
            workspaces_valid(workspaces@),
        decreases entries.len() - i,
    {
        let ghost before = workspaces@;
        proof {
            assert(all.take(i + 1).drop_last() =~= all.take(i as int));
            assert(all.take(i + 1).last() == entries[i as int]@);
        }
        match workspace_from_entry(&entries[i]) {
            Some(ws) => {
                workspaces.push(ws);
                assert(cores_of(workspaces@) =~= cores_of(before).push(core_of(ws@)));
                assert forall|w: int| 0 <= w < workspaces@.len() implies {
                    &&& safe_storage_id((#[trigger] workspaces@[w]).hash@)
                    &&& forall|c: int|
                        0 <= c < workspaces@[w].composer_ids@.len() ==> valid_uuid(
                            #[trigger] workspaces@[w].composer_ids@[c]@,
                        )
                } by {
                    if w < before.len() {
                        assert(workspaces@[w] == before[w]);
                    }
                }
            },
            None => {},
        }
        i = i + 1;
    }
    assert(all.take(entries.len() as int) =~= all);
    workspaces
}

} // verus!
