//! What this peer sends when it offers files to another: the URLs of the
//! protocol's routes, the offer built from the files picked, and one upload
//! per file the other side accepted.

use vstd::prelude::*;
use vstd::string::*;
use crate::model::{DeviceMessage, FileInfo, FileInfoView, FileRequest, FileResponse, UploadParam};
use crate::string_map::StringMap;

verus! {

/// The routes of the HTTP surface.
#[derive(PartialEq, Eq, Structural, Clone, Copy, Debug)]
pub enum Route {
    Register,
    PrepareUpload,
    Upload,
    Cancel,
}

/// The prefix every route sits under.
pub open spec fn api_prefix() -> Seq<char> {
    "/api/localsend/v2/"@
}

pub open spec fn route_name(route: Route) -> Seq<char> {
    match route {
        Route::Register => "register"@,
        Route::PrepareUpload => "prepare-upload"@,
        Route::Upload => "upload"@,
        Route::Cancel => "cancel"@,
    }
}

/// The path a route is served at.
pub fn route_path(route: Route) -> (r: String)
    ensures
        r@ == api_prefix() + route_name(route),
{
    let mut r = String::from_str("/api/localsend/v2/");
    match route {
        Route::Register => r.append("register"),
        Route::PrepareUpload => r.append("prepare-upload"),
        Route::Upload => r.append("upload"),
        Route::Cancel => r.append("cancel"),
    }
    r
}

pub open spec fn route_url_spec(authority: Seq<char>, route: Route) -> Seq<char> {
    "http://"@ + authority + api_prefix() + route_name(route)
}

/// The URL of a route on the peer at `authority` (`host:port`).
pub fn route_url(authority: &str, route: Route) -> (r: String)
    ensures
        r@ == route_url_spec(authority@, route),
{
    let mut r = String::from_str("http://");
    r.append(authority);
    let path = route_path(route);
    r.append(path.as_str());
    assert(r@ =~= route_url_spec(authority@, route));
    r
}

/// The URL an upload of one file is sent to: the upload route, with the
/// session id, the file id and the token as its query.
pub fn upload_url(authority: &str, param: &UploadParam) -> (r: String)
    ensures
        r@ == route_url_spec(authority@, Route::Upload) + "?sessionId="@ + param.session_id@
            + "&fileId="@ + param.file_id@ + "&token="@ + param.token@,
{
    let mut r = route_url(authority, Route::Upload);
    r.append("?sessionId=");
    r.append(param.session_id.as_str());
    r.append("&fileId=");
    r.append(param.file_id.as_str());
    r.append("&token=");
    r.append(param.token.as_str());
    r
}

/// The URL that cancels the session `session_id`.
pub fn cancel_url(authority: &str, session_id: &str) -> (r: String)
    ensures
        r@ == route_url_spec(authority@, Route::Cancel) + "?sessionId="@ + session_id@,
{
    let mut r = route_url(authority, Route::Cancel);
    r.append("?sessionId=");
    r.append(session_id);
    r
}

/// The files of a list keyed by their ids; of two files with one id, the later stays.
pub open spec fn files_by_id(files: Seq<FileInfo>) -> Map<Seq<char>, FileInfoView>
    decreases files.len(),
{
    if files.len() == 0 {
        Map::empty()
    } else {
        files_by_id(files.drop_last()).insert(files.last().id@, files.last()@)
    }
}

/// The offer of `file_infos` from the peer `info`.
pub fn file_request(info: DeviceMessage, file_infos: &Vec<FileInfo>) -> (r: FileRequest)
    ensures
        r.info == info,
        r.files@ == files_by_id(file_infos@),
{
    let n = file_infos.len();
    let mut files: StringMap<FileInfo> = StringMap::new();
    let mut i: usize = 0;
    while i < n
        invariant
            n == file_infos@.len(),
            i <= n,
            files@ == files_by_id(file_infos@.subrange(0, i as int)),
        decreases n - i,
    {
        let f = &file_infos[i];
        files.insert(f.id.clone(), f.clone());
        assert(file_infos@.subrange(0, i + 1).drop_last() =~= file_infos@.subrange(0, i as int));
        i = i + 1;
    }
    assert(file_infos@.subrange(0, n as int) =~= file_infos@);
    FileRequest { info, files }
}

/// One upload per file the response accepted, in the response's order,
/// each with the session id and that file's token.
pub fn upload_params(response: &FileResponse) -> (r: Vec<UploadParam>)
    ensures
        r@.len() == response.files.key_seq().len(),
        forall|i: int|
            0 <= i < r@.len() ==> {
                &&& (#[trigger] r@[i]).session_id@ == response.session_id@
                &&& r@[i].file_id@ == response.files.key_seq()[i]
                &&& r@[i].token@ == response.files@[r@[i].file_id@]
            },
{
    let n = response.files.len();
    let mut r: Vec<UploadParam> = Vec::new();
    let mut i: usize = 0;
    while i < n
        invariant
            n == response.files.key_seq().len(),
            i <= n,
            r@.len() == i,
            forall|j: int|
                0 <= j < i ==> {
                    &&& (#[trigger] r@[j]).session_id@ == response.session_id@
                    &&& r@[j].file_id@ == response.files.key_seq()[j]
                    &&& r@[j].token@ == response.files@[r@[j].file_id@]
                },
        decreases n - i,
    {
        let (file_id, token) = response.files.entry_at(i);
        r.push(
            UploadParam {
                session_id: response.session_id.clone(),
                file_id: file_id.clone(),
                token: token.clone(),
            },
        );
        i = i + 1;
    }
    r
}

} // verus!
