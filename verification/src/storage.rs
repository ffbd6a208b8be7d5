//! Local storage of expense reports: record numbers, file names and recovery messages.
use vstd::prelude::*;

use crate::json::{Json, JsonView};
use crate::text::{is_record_id, push_str, record_id_ok};

verus! {

/// What the desktop asks to save: the current report and the workspace around it.
#[derive(Debug)]
pub struct SaveWorkspaceRequest {
    pub draft: Json,
    pub profiles: Json,
    pub dictionaries: Json,
    pub services: Json,
    pub history: Json,
}

/// What loading the workspace gives back.
#[derive(Debug)]
pub struct LoadedWorkspace {
    pub draft: Option<Json>,
    pub profiles: Json,
    pub dictionaries: Json,
    pub services: Json,
    pub history: Json,
    pub data_directory: String,
}

/// The index file of the workspace: which report is current, and the rest.
#[derive(Debug)]
pub struct WorkspaceIndex {
    pub current_record_id: String,
    pub profiles: Json,
    pub dictionaries: Json,
    pub services: Json,
    pub history: Json,
}

/// Checks that `record_id` is a record number (`is_record_id`), so that it names a file
/// inside the records directory.
pub fn validate_record_id(record_id: &str) -> (r: Result<(), String>)
    ensures
        r is Ok <==> is_record_id(record_id@),
        r matches Err(m) ==> m@ == "本地记录编号格式无效"@,
{
    if !record_id_ok(record_id) {
        return Err("本地记录编号格式无效".to_string());
    }
    Ok(())
}

/// The name of the file that holds record `record_id`.
pub fn record_file_name(record_id: &str) -> (r: String)
    ensures
        r@ == record_id@ + ".json"@,
{
    let mut r = String::new();
    push_str(&mut r, record_id);
    push_str(&mut r, ".json");
    r
}

/// What saving needs from the draft: its `id`, which must be a string and a record number.
pub open spec fn draft_record_id_spec(draft: JsonView) -> Result<Seq<char>, Seq<char>> {
    match draft.get("id"@) {
        Some(JsonView::String(id)) => if is_record_id(id) {
            Ok(id)
        } else {
            Err("本地记录编号格式无效"@)
        },
        _ => Err("报销单缺少记录编号"@),
    }
}

/// The record number of the draft being saved.
pub fn draft_record_id(draft: &Json) -> (r: Result<String, String>)
    ensures
        match draft_record_id_spec(draft@) {
            Ok(id) => r matches Ok(x) && x@ == id,
            Err(m) => r matches Err(x) && x@ == m,
        },
{
    let id = match draft.get("id") {
        Some(v) => match v.as_str() {
            Some(s) => s,
            None => {
                return Err("报销单缺少记录编号".to_string());
            },
        },
        None => {
            return Err("报销单缺少记录编号".to_string());
        },
    };
    validate_record_id(id)?;
    Ok(id.to_string())
}

/// What saving writes for a request whose draft is record `record_id`: the draft as the
/// record's file, and the index naming it as the current report.
pub open spec fn saved_spec(record_id: String, request: SaveWorkspaceRequest) -> (Json, WorkspaceIndex) {
    (
        request.draft,
        WorkspaceIndex {
            current_record_id: record_id,
            profiles: request.profiles,
            dictionaries: request.dictionaries,
            services: request.services,
            history: request.history,
        },
    )
}

/// The record file and the index written when the workspace is saved with `record_id` as
/// its current report.
pub fn workspace_index(record_id: String, request: SaveWorkspaceRequest) -> (r: (Json, WorkspaceIndex))
    ensures
        r == saved_spec(record_id, request),
{
    let SaveWorkspaceRequest { draft, profiles, dictionaries, services, history } = request;
    (draft, WorkspaceIndex { current_record_id: record_id, profiles, dictionaries, services, history })
}

/// What loading gives back from the index read from disk, the current report's file
/// when there is one, and the data directory.
pub open spec fn loaded_spec(index: WorkspaceIndex, draft: Option<Json>, data_directory: String) -> LoadedWorkspace {
    LoadedWorkspace {
        draft,
        profiles: index.profiles,
        dictionaries: index.dictionaries,
        services: index.services,
        history: index.history,
        data_directory,
    }
}

/// The workspace that loading gives back (see `loaded_spec`).
pub fn loaded_workspace(index: WorkspaceIndex, draft: Option<Json>, data_directory: String) -> (r: LoadedWorkspace)
    ensures
        r == loaded_spec(index, draft, data_directory),
{
    let WorkspaceIndex { current_record_id: _, profiles, dictionaries, services, history } = index;
    LoadedWorkspace { draft, profiles, dictionaries, services, history, data_directory }
}

/// Loading gives back what saving wrote: the index written for a request names the
/// draft's record, and loading that index with the record's file returns the saved
/// draft, profiles, dictionaries, services and history.
pub proof fn law_load_gives_back_what_was_saved(request: SaveWorkspaceRequest, record_id: String, data_directory: String)
    requires
        draft_record_id_spec(request.draft@) == Ok::<Seq<char>, Seq<char>>(record_id@),
    ensures
        is_record_id(saved_spec(record_id, request).1.current_record_id@),
        loaded_spec(saved_spec(record_id, request).1, Some(saved_spec(record_id, request).0), data_directory)
            == (LoadedWorkspace {
            draft: Some(request.draft),
            profiles: request.profiles,
            dictionaries: request.dictionaries,
            services: request.services,
            history: request.history,
            data_directory,
        }),
{
}

/// The message when neither a file nor its backup could be read.
pub fn backup_read_error(primary_error: &str, backup_error: &str) -> (r: String)
    ensures
        r@ == "主文件错误："@ + primary_error@ + "；备份文件错误："@ + backup_error@,
{
    let mut r = String::new();
    push_str(&mut r, "主文件错误：");
    push_str(&mut r, primary_error);
    push_str(&mut r, "；备份文件错误：");
    push_str(&mut r, backup_error);
    r
}

/// A value read from a file, or why it could not be.
pub open spec fn with_backup_spec<T>(primary: Result<T, String>, backup: Result<T, String>, r: Result<T, String>) -> bool {
    match primary {
        Ok(v) => r == Ok::<T, String>(v),
        Err(p) => match backup {
            Ok(v) => r == Ok::<T, String>(v),
            Err(b) => r matches Err(m) && m@ == "主文件错误："@ + p@ + "；备份文件错误："@ + b@,
        },
    }
}

/// The outcome of reading a file with a backup: the file when it read, else the backup
/// when it read, else both errors.
pub fn read_with_backup<T>(primary: Result<T, String>, backup: Result<T, String>) -> (r: Result<T, String>)
    ensures
        with_backup_spec(primary, backup, r),
{
    match primary {
        Ok(v) => Ok(v),
        Err(p) => match backup {
            Ok(v) => Ok(v),
            Err(b) => Err(backup_read_error(p.as_str(), b.as_str())),
        },
    }
}

} // verus!
