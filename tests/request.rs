use localsend_protocol::api::{Rejection, SessionId};
use localsend_protocol::model::{DeviceMessage, FileInfo, FileResponse, UploadParam};
use localsend_protocol::request::{cancel_url, file_request, route_path, route_url, upload_params, upload_url, Route};
use localsend_protocol::string_map::StringMap;

#[test]
fn route_paths_and_urls() {
    assert_eq!(route_path(Route::Register), "/api/localsend/v2/register");
    assert_eq!(route_path(Route::PrepareUpload), "/api/localsend/v2/prepare-upload");
    assert_eq!(route_path(Route::Upload), "/api/localsend/v2/upload");
    assert_eq!(route_path(Route::Cancel), "/api/localsend/v2/cancel");
    assert_eq!(route_url("10.0.0.2:53317", Route::Register), "http://10.0.0.2:53317/api/localsend/v2/register");
    assert_eq!(
        route_url("10.0.0.2:53317", Route::PrepareUpload),
        "http://10.0.0.2:53317/api/localsend/v2/prepare-upload"
    );
}

#[test]
fn upload_and_cancel_urls_carry_query() {
    let p = UploadParam { session_id: "s1".to_string(), file_id: "f1".to_string(), token: "t1".to_string() };
    assert_eq!(
        upload_url("h:1", &p),
        "http://h:1/api/localsend/v2/upload?sessionId=s1&fileId=f1&token=t1"
    );
    let q = SessionId { id: "s9".to_string() };
    assert_eq!(cancel_url("h:1", &q.id), "http://h:1/api/localsend/v2/cancel?sessionId=s9");
}

fn info(id: &str, name: &str) -> FileInfo {
    FileInfo {
        id: id.to_string(),
        file_name: name.to_string(),
        size: 1,
        file_type: "txt".to_string(),
        sha256: None,
        preview: None,
    }
}

#[test]
fn offer_keys_files_by_id_later_wins() {
    let infos = vec![info("a", "first"), info("b", "b"), info("a", "second")];
    let req = file_request(DeviceMessage::default(), &infos);
    assert_eq!(req.files.len(), 2);
    assert_eq!(req.files.get(&"a".to_string()).unwrap().file_name, "second");
    assert_eq!(req.files.get(&"b".to_string()).unwrap().file_name, "b");
    assert_eq!(file_request(DeviceMessage::default(), &vec![]).files.len(), 0);
}

#[test]
fn one_upload_per_accepted_file() {
    let mut files = StringMap::new();
    files.insert("a".to_string(), "ta".to_string());
    files.insert("b".to_string(), "tb".to_string());
    let resp = FileResponse { session_id: "sess".to_string(), files };
    let params = upload_params(&resp);
    assert_eq!(params.len(), 2);
    assert_eq!((params[0].session_id.as_str(), params[0].file_id.as_str(), params[0].token.as_str()), ("sess", "a", "ta"));
    assert_eq!((params[1].session_id.as_str(), params[1].file_id.as_str(), params[1].token.as_str()), ("sess", "b", "tb"));
}

#[test]
fn rejections_map_to_statuses() {
    assert_eq!(Rejection::Forbidden.status(), 403);
    assert_eq!(Rejection::Unavailable.status(), 503);
    assert_eq!(Rejection::ServerError.status(), 500);
}
