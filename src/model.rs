//! The records exchanged between peers.

use vstd::prelude::*;
use crate::string_map::{Duplicate, StringMap};

verus! {

/// The kind of machine a peer runs on.
#[derive(PartialEq, Eq, Structural, Clone, Copy, Debug)]
pub enum DeviceType {
    Mobile,
    Desktop,
    Web,
    Headless,
    Server,
}

/// The transport a peer serves its HTTP surface over.
#[derive(PartialEq, Eq, Structural, Clone, Copy, Debug)]
pub enum Protocol {
    Http,
    Https,
}

/// The identity a peer announces over multicast or registers over HTTP.
///
/// `fingerprint` is the identity key; `port` and `protocol` are absent in the
/// legacy reply mode; `announce` is present only on multicast frames.
#[derive(Debug)]
pub struct DeviceMessage {
    pub alias: String,
    pub version: String,
    pub device_model: Option<String>,
    pub device_type: Option<DeviceType>,
    pub fingerprint: String,
    pub port: Option<u16>,
    pub protocol: Option<Protocol>,
    pub download: bool,
    pub announce: Option<bool>,
}

impl View for DeviceMessage {
    type V = DeviceMessage;

    open spec fn view(&self) -> DeviceMessage {
        *self
    }
}

impl Duplicate for DeviceMessage {
    fn duplicate(&self) -> (r: DeviceMessage) {
        self.clone()
    }
}

/// The record a malformed multicast frame decodes to: every string empty,
/// every optional field absent.
impl Default for DeviceMessage {
    fn default() -> (r: DeviceMessage)
        ensures
            r.alias@.len() == 0,
            r.version@.len() == 0,
            r.device_model is None,
            r.device_type is None,
            r.fingerprint@.len() == 0,
            r.port is None,
            r.protocol is None,
            !r.download,
            r.announce is None,
    {
        DeviceMessage {
            alias: String::new(),
            version: String::new(),
            device_model: None,
            device_type: None,
            fingerprint: String::new(),
            port: None,
            protocol: None,
            download: false,
            announce: None,
        }
    }
}

/// A copy of an optional string.
pub fn copy_opt_string(s: &Option<String>) -> (r: Option<String>)
    ensures
        r == *s,
{
    match s {
        Some(v) => Some(v.clone()),
        None => None,
    }
}

impl Clone for DeviceMessage {
    fn clone(&self) -> (r: Self)
        ensures
            r == *self,
    {
        DeviceMessage {
            alias: self.alias.clone(),
            version: self.version.clone(),
            device_model: copy_opt_string(&self.device_model),
            device_type: self.device_type,
            fingerprint: self.fingerprint.clone(),
            port: self.port,
            protocol: self.protocol,
            download: self.download,
            announce: self.announce,
        }
    }
}

/// The characters of an optional string.
pub open spec fn opt_chars(s: Option<String>) -> Option<Seq<char>> {
    match s {
        Some(v) => Some(v@),
        None => None,
    }
}

/// One offered file. `id` is unique within its offer.
#[derive(Debug)]
pub struct FileInfo {
    pub id: String,
    pub file_name: String,
    pub size: u64,
    pub file_type: String,
    pub sha256: Option<String>,
    pub preview: Option<Vec<u8>>,
}

pub struct FileInfoView {
    pub id: Seq<char>,
    pub file_name: Seq<char>,
    pub size: u64,
    pub file_type: Seq<char>,
    pub sha256: Option<Seq<char>>,
    pub preview: Option<Seq<u8>>,
}

impl View for FileInfo {
    type V = FileInfoView;

    open spec fn view(&self) -> FileInfoView {
        FileInfoView {
            id: self.id@,
            file_name: self.file_name@,
            size: self.size,
            file_type: self.file_type@,
            sha256: opt_chars(self.sha256),
            preview: match self.preview {
                Some(p) => Some(p@),
                None => None,
            },
        }
    }
}

impl Clone for FileInfo {
    fn clone(&self) -> (r: Self)
        ensures
            r@ == self@,
    {
        let preview = match &self.preview {
            Some(p) => {
                let c = p.clone();
                assert(c@ =~= p@);
                Some(c)
            },
            None => None,
        };
        FileInfo {
            id: self.id.clone(),
            file_name: self.file_name.clone(),
            size: self.size,
            file_type: self.file_type.clone(),
            sha256: copy_opt_string(&self.sha256),
            preview,
        }
    }
}

impl Duplicate for FileInfo {
    fn duplicate(&self) -> (r: FileInfo) {
        self.clone()
    }
}

/// An offer: the offering peer and the files it proposes, by id.
pub struct FileRequest {
    pub info: DeviceMessage,
    pub files: StringMap<FileInfo>,
}

pub struct FileRequestView {
    pub info: DeviceMessage,
    pub files: Map<Seq<char>, FileInfoView>,
}

impl View for FileRequest {
    type V = FileRequestView;

    open spec fn view(&self) -> FileRequestView {
        FileRequestView { info: self.info, files: self.files@ }
    }
}

impl Clone for FileRequest {
    fn clone(&self) -> (r: Self)
        ensures
            r@ == self@,
    {
        FileRequest { info: self.info.clone(), files: self.files.duplicate() }
    }
}

impl Duplicate for FileRequest {
    fn duplicate(&self) -> (r: FileRequest) {
        self.clone()
    }
}

/// The answer to an accepted offer: the session id and a token per approved file.
pub struct FileResponse {
    pub session_id: String,
    pub files: StringMap<String>,
}

pub struct FileResponseView {
    pub session_id: Seq<char>,
    pub files: Map<Seq<char>, Seq<char>>,
}

impl View for FileResponse {
    type V = FileResponseView;

    open spec fn view(&self) -> FileResponseView {
        FileResponseView { session_id: self.session_id@, files: self.files@ }
    }
}

/// The query of an upload: which file of which session, and its token.
#[derive(Debug)]
pub struct UploadParam {
    pub session_id: String,
    pub file_id: String,
    pub token: String,
}

/// A host address as the socket layer reports it: IPv4 as its 32-bit
/// big-endian value, IPv6 as its 128-bit one.
#[derive(PartialEq, Eq, Structural, Clone, Copy, Debug)]
pub enum HostAddr {
    V4(u32),
    V6(u128),
}

/// The address a peer was observed at.
#[derive(PartialEq, Eq, Structural, Clone, Copy, Debug)]
pub struct PeerAddr {
    pub host: HostAddr,
    pub port: u16,
}

impl View for PeerAddr {
    type V = PeerAddr;

    open spec fn view(&self) -> PeerAddr {
        *self
    }
}

} // verus!
