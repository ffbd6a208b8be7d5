use sheepfinance::json::Json;
use sheepfinance::storage::{
    backup_read_error, draft_record_id, loaded_workspace, read_with_backup, record_file_name, validate_record_id,
    workspace_index, SaveWorkspaceRequest,
};

#[test]
fn record_id_validation_blocks_path_traversal() {
    assert!(validate_record_id("record-123_ab").is_ok());
    assert!(validate_record_id("../workspace").is_err());
    assert!(validate_record_id("C:\\temp").is_err());
}

#[test]
fn storage_messages_and_file_names() {
    assert_eq!(validate_record_id("a.b").unwrap_err(), "本地记录编号格式无效");
    assert_eq!(record_file_name("rec-1"), "rec-1.json");
    assert_eq!(backup_read_error("坏", "缺"), "主文件错误：坏；备份文件错误：缺");
}

#[test]
fn drafts_need_a_valid_record_number() {
    let draft = Json::Object(vec![("id".to_string(), Json::String("rec-7".to_string()))]);
    assert_eq!(draft_record_id(&draft).unwrap(), "rec-7");
    let numeric = Json::Object(vec![("id".to_string(), Json::Number("7".to_string()))]);
    assert_eq!(draft_record_id(&numeric).unwrap_err(), "报销单缺少记录编号");
    let bad = Json::Object(vec![("id".to_string(), Json::String("../x".to_string()))]);
    assert_eq!(draft_record_id(&bad).unwrap_err(), "本地记录编号格式无效");
    assert_eq!(draft_record_id(&Json::Null).unwrap_err(), "报销单缺少记录编号");
}

#[test]
fn backups_are_read_only_when_the_file_fails() {
    assert_eq!(read_with_backup::<i32>(Ok(1), Ok(2)), Ok(1));
    assert_eq!(read_with_backup::<i32>(Err("broken".to_string()), Ok(2)), Ok(2));
    assert_eq!(
        read_with_backup::<i32>(Err("a".to_string()), Err("b".to_string())),
        Err("主文件错误：a；备份文件错误：b".to_string())
    );
}

#[test]
fn loading_gives_back_what_was_saved() {
    let draft = Json::Object(vec![("id".to_string(), Json::String("rec-9".to_string()))]);
    let request = SaveWorkspaceRequest {
        draft: Json::Object(vec![("id".to_string(), Json::String("rec-9".to_string()))]),
        profiles: Json::Array(vec![Json::Bool(true)]),
        dictionaries: Json::Null,
        services: Json::Number("3".to_string()),
        history: Json::String("h".to_string()),
    };
    let record_id = draft_record_id(&request.draft).unwrap();
    let (saved_draft, index) = workspace_index(record_id, request);
    assert_eq!(index.current_record_id, "rec-9");
    let loaded = loaded_workspace(index, Some(saved_draft), "/data".to_string());
    assert_eq!(loaded.draft, Some(draft));
    assert_eq!(loaded.profiles, Json::Array(vec![Json::Bool(true)]));
    assert_eq!(loaded.dictionaries, Json::Null);
    assert_eq!(loaded.services, Json::Number("3".to_string()));
    assert_eq!(loaded.history, Json::String("h".to_string()));
    assert_eq!(loaded.data_directory, "/data");
}
