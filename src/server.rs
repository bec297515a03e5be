//! The actor: the single owner of the device registry, the session store and
//! the table of offers that wait for the host's decision. Requests are
//! handled one at a time; each returns the reply for its caller and at most
//! one event for the host.

use vstd::prelude::*;
use vstd::string::*;
use crate::mission::{Mission, MissionView};
use crate::model::{
    DeviceMessage, DeviceType, FileInfo, FileInfoView, FileRequest, FileRequestView, PeerAddr,
    Protocol, UploadParam,
};
use crate::negotiation::{approved_ids, approved_set, ids_of, id_views, PendingOffers};
use crate::string_map::StringMap;

verus! {

/// The protocol version this implementation speaks.
pub open spec fn protocol_version() -> Seq<char> {
    "2.1"@
}

/// The configuration the host supplies.
#[derive(Debug, Clone)]
pub struct ServerSetting {
    pub alias: String,
    pub device_model: Option<String>,
    pub device_type: Option<DeviceType>,
    pub protocol: Option<Protocol>,
    pub download: bool,
    pub port: u16,
    pub interface_addr: String,
    pub multicast_addr: String,
    pub store_path: String,
    pub fingerprint: String,
}

/// `d` is the identity that `setting` describes, with `announce` set as given.
pub open spec fn describes(setting: ServerSetting, announce: Option<bool>, d: DeviceMessage) -> bool {
    &&& d.alias == setting.alias
    &&& d.version@ == protocol_version()
    &&& d.device_model == setting.device_model
    &&& d.device_type == setting.device_type
    &&& d.fingerprint == setting.fingerprint
    &&& d.port == Some(setting.port)
    &&& d.protocol == setting.protocol
    &&& d.download == setting.download
    &&& d.announce == announce
}

impl ServerSetting {
    pub fn to_device_message(&self, announce: Option<bool>) -> (r: DeviceMessage)
        ensures
            describes(*self, announce, r),
    {
        proof {
            reveal_strlit("2.1");
        }
        DeviceMessage {
            alias: self.alias.clone(),
            version: String::from_str("2.1"),
            device_model: crate::model::copy_opt_string(&self.device_model),
            device_type: self.device_type,
            fingerprint: self.fingerprint.clone(),
            port: Some(self.port),
            protocol: self.protocol,
            download: self.download,
            announce,
        }
    }
}

/// The port the protocol listens on unless configured otherwise.
pub const DEFAULT_PORT: u16 = 53317;

/// The settings used when the host gives none: an empty identity on a
/// desktop machine, speaking plain HTTP on the default port and group.
impl Default for ServerSetting {
    fn default() -> (r: ServerSetting)
        ensures
            r.alias@ == ""@,
            r.device_model matches Some(m) && m@ == ""@,
            r.device_type == Some(DeviceType::Desktop),
            r.protocol == Some(Protocol::Http),
            !r.download,
            r.port == DEFAULT_PORT,
            r.interface_addr@ == "0.0.0.0"@,
            r.multicast_addr@ == "224.0.0.167"@,
            r.store_path@ == "/Users/cakeal/Downloads"@,
            r.fingerprint@ == ""@,
    {
        ServerSetting {
            alias: String::from_str(""),
            device_model: Some(String::from_str("")),
            device_type: Some(DeviceType::Desktop),
            protocol: Some(Protocol::Http),
            download: false,
            port: DEFAULT_PORT,
            interface_addr: String::from_str("0.0.0.0"),
            multicast_addr: String::from_str("224.0.0.167"),
            store_path: String::from_str("/Users/cakeal/Downloads"),
            fingerprint: String::from_str(""),
        }
    }
}

/// The kind of device a platform name stands for.
pub open spec fn platform_device_type(platform: Seq<char>) -> DeviceType {
    if platform == "windows"@ || platform == "macos"@ || platform == "linux"@ {
        DeviceType::Desktop
    } else if platform == "ios"@ || platform == "android"@ {
        DeviceType::Mobile
    } else {
        DeviceType::Headless
    }
}

pub fn device_type_for_platform(platform: &str) -> (r: DeviceType)
    ensures
        r == platform_device_type(platform@),
{
    let p = platform.to_owned();
    if p == String::from_str("windows") || p == String::from_str("macos") || p == String::from_str(
        "linux",
    ) {
        DeviceType::Desktop
    } else if p == String::from_str("ios") || p == String::from_str("android") {
        DeviceType::Mobile
    } else {
        DeviceType::Headless
    }
}

impl ServerSetting {
    /// The settings of this host: its name as the alias, the kind of device
    /// its platform stands for, where received files go, and its fingerprint;
    /// everything else as in `default`.
    pub fn for_host(hostname: String, platform: &str, store_path: String, fingerprint: String) -> (r:
        ServerSetting)
        ensures
            r.alias == hostname,
            r.device_type == Some(platform_device_type(platform@)),
            r.store_path == store_path,
            r.fingerprint == fingerprint,
            r.device_model matches Some(m) && m@ == ""@,
            r.protocol == Some(Protocol::Http),
            !r.download,
            r.port == DEFAULT_PORT,
            r.interface_addr@ == "0.0.0.0"@,
            r.multicast_addr@ == "224.0.0.167"@,
    {
        let d = ServerSetting::default();
        ServerSetting {
            alias: hostname,
            device_type: Some(device_type_for_platform(platform)),
            store_path,
            fingerprint,
            ..d
        }
    }
}

/// A registration: the first record seen for a fingerprint stays.
pub open spec fn register(
    devices: Map<Seq<char>, (PeerAddr, DeviceMessage)>,
    fingerprint: Seq<char>,
    addr: PeerAddr,
    device: DeviceMessage,
) -> Map<Seq<char>, (PeerAddr, DeviceMessage)> {
    if devices.contains_key(fingerprint) {
        devices
    } else {
        devices.insert(fingerprint, (addr, device))
    }
}

/// A state after the session `id` is cancelled: only the session store changes.
pub open spec fn cancelled(s: ServerView, id: Seq<char>) -> ServerView {
    s.with_missions(s.missions.remove(id))
}

/// The file an upload of `file_id` into `session_id` with `token` may write,
/// if the three match a stored session, its token for that file, and the file.
pub open spec fn upload_target(
    missions: Map<Seq<char>, MissionView>,
    session_id: Seq<char>,
    file_id: Seq<char>,
    token: Seq<char>,
) -> Option<FileInfoView> {
    if missions.contains_key(session_id) && missions[session_id].id_token_map.contains_key(file_id)
        && missions[session_id].id_token_map[file_id] == token
        && missions[session_id].info_map.contains_key(file_id) {
        Some(missions[session_id].info_map[file_id])
    } else {
        None
    }
}

/// Events the actor emits to the host.
pub enum ServerMessage {
    /// A fingerprint was seen for the first time, at this address.
    DeviceConnect(PeerAddr, DeviceMessage),
    /// An offer waits for the host's decision, under this negotiation id.
    FilePrepareUpload(u64, FileRequest),
    /// An upload of this file was accepted; its progress follows.
    Progress(String),
    /// A session was cancelled; the record it had, if any.
    CancelMission(Option<Mission>),
}

/// Messages the host sends to the actor.
pub enum OutMessage {
    /// Announce this device again over multicast.
    Refresh,
    /// The host's decision on the offer of this negotiation id: the file ids it accepts.
    FileAgreedUpload(u64, Vec<String>),
}

/// Requests from the HTTP surface.
pub enum InnerMessage {
    GetMyself,
    AddDevice(String, PeerAddr, DeviceMessage),
    GetDevice(String),
    FilePrepareUpload(FileRequest),
    AddMission(String, Mission),
    GetMission(String),
    GetFileInfo(UploadParam),
    GetStorePath,
    CancelMission(String),
}

/// The answer to one request from the HTTP surface.
pub enum InnerReply {
    Myself(DeviceMessage),
    Device(Option<DeviceMessage>),
    /// The offer waits for the host under this negotiation id; the decision
    /// comes back through `handle_out_message`.
    OfferPending(u64),
    /// Every negotiation id has been used; the offer cannot be taken.
    Unavailable,
    Mission(Option<Mission>),
    FileInfo(Option<FileInfo>),
    StorePath(String),
    Done,
}

/// What the host's message asks of the program around the actor.
pub enum OutEffect {
    /// Send this record to the multicast group.
    Announce(DeviceMessage),
    /// The negotiation of this id is decided: these offered files are approved.
    Resolved(u64, Vec<String>),
    /// No offer waits under this id; the decision is dropped.
    NoSuchOffer(u64),
}

pub struct ServerView {
    pub setting: ServerSetting,
    pub devices: Map<Seq<char>, (PeerAddr, DeviceMessage)>,
    pub missions: Map<Seq<char>, MissionView>,
    pub pending: Map<u64, FileRequestView>,
    /// The negotiation id the next offer gets.
    pub next_offer: u64,
}

impl ServerView {
    pub open spec fn with_devices(self, devices: Map<Seq<char>, (PeerAddr, DeviceMessage)>) -> ServerView {
        ServerView { devices, ..self }
    }

    pub open spec fn with_missions(self, missions: Map<Seq<char>, MissionView>) -> ServerView {
        ServerView { missions, ..self }
    }

    pub open spec fn with_pending(self, pending: Map<u64, FileRequestView>) -> ServerView {
        ServerView { pending, ..self }
    }

    /// The state with `request` waiting under the next negotiation id.
    pub open spec fn with_offer(self, request: FileRequestView) -> ServerView {
        ServerView {
            pending: self.pending.insert(self.next_offer, request),
            next_offer: (self.next_offer + 1) as u64,
            ..self
        }
    }
}

pub struct ServerState {
    setting: ServerSetting,
    devices: StringMap<(PeerAddr, DeviceMessage)>,
    missions: StringMap<Mission>,
    pending: PendingOffers,
}

impl View for ServerState {
    type V = ServerView;

    closed spec fn view(&self) -> ServerView {
        ServerView {
            setting: self.setting,
            devices: self.devices@,
            missions: self.missions@,
            pending: self.pending@,
            next_offer: self.pending.next_id(),
        }
    }
}

/// How one request changes the state, and what it answers and emits.
pub open spec fn inner_step(
    pre: ServerView,
    message: InnerMessage,
    post: ServerView,
    reply: InnerReply,
    event: Option<ServerMessage>,
) -> bool {
    match message {
        InnerMessage::GetMyself => {
            &&& post == pre
            &&& reply matches InnerReply::Myself(d) && describes(pre.setting, None, d)
            &&& event is None
        },
        InnerMessage::AddDevice(fingerprint, addr, device) => {
            &&& post == pre.with_devices(register(pre.devices, fingerprint@, addr, device))
            &&& reply is Done
            &&& if pre.devices.contains_key(fingerprint@) {
                event is None
            } else {
                event == Some(ServerMessage::DeviceConnect(addr, device))
            }
        },
        InnerMessage::GetDevice(fingerprint) => {
            &&& post == pre
            &&& reply matches InnerReply::Device(d) && if pre.devices.contains_key(fingerprint@) {
                d == Some(pre.devices[fingerprint@].1)
            } else {
                d is None
            }
            &&& event is None
        },
        InnerMessage::FilePrepareUpload(request) => {
            if pre.next_offer == u64::MAX {
                &&& reply is Unavailable
                &&& post == pre
                &&& event is None
            } else {
                &&& reply == InnerReply::OfferPending(pre.next_offer)
                &&& !pre.pending.contains_key(pre.next_offer)
                &&& post == pre.with_offer(request@)
                &&& event matches Some(ServerMessage::FilePrepareUpload(eid, ereq))
                    && eid == pre.next_offer && ereq@ == request@
            }
        },
        InnerMessage::AddMission(id, mission) => {
            &&& post == pre.with_missions(pre.missions.insert(id@, mission@))
            &&& reply is Done
            &&& event is None
        },
        InnerMessage::GetMission(id) => {
            &&& post == pre
            &&& reply matches InnerReply::Mission(m) && if pre.missions.contains_key(id@) {
                m matches Some(m) && m@ == pre.missions[id@]
            } else {
                m is None
            }
            &&& event is None
        },
        InnerMessage::GetFileInfo(param) => {
            &&& post == pre
            &&& reply matches InnerReply::FileInfo(f) && match upload_target(
                pre.missions,
                param.session_id@,
                param.file_id@,
                param.token@,
            ) {
                Some(target) => {
                    &&& f matches Some(f) && f@ == target
                    &&& event == Some(ServerMessage::Progress(param.file_id))
                },
                None => f is None && event is None,
            }
        },
        InnerMessage::GetStorePath => {
            &&& post == pre
            &&& reply == InnerReply::StorePath(pre.setting.store_path)
            &&& event is None
        },
        InnerMessage::CancelMission(id) => {
            &&& post == cancelled(pre, id@)
            &&& reply is Done
            &&& event matches Some(ServerMessage::CancelMission(m)) && if pre.missions.contains_key(
                id@,
            ) {
                m matches Some(m) && m@ == pre.missions[id@]
            } else {
                m is None
            }
        },
    }
}

/// How one message of the host changes the state, and what it asks for.
pub open spec fn out_step(pre: ServerView, message: OutMessage, post: ServerView, effect: OutEffect) -> bool {
    match message {
        OutMessage::Refresh => {
            &&& post == pre
            &&& effect matches OutEffect::Announce(d) && describes(pre.setting, Some(true), d)
        },
        OutMessage::FileAgreedUpload(id, decision) => {
            if pre.pending.contains_key(id) {
                &&& post == pre.with_pending(pre.pending.remove(id))
                &&& effect matches OutEffect::Resolved(rid, approved) && rid == id && ids_of(
                    approved@,
                ) == approved_set(pre.pending[id].files, ids_of(decision@)) && id_views(
                    approved@,
                ).no_duplicates()
            } else {
                &&& post == pre
                &&& effect == OutEffect::NoSuchOffer(id)
            }
        },
    }
}

impl ServerState {
    pub fn new(setting: ServerSetting) -> (r: ServerState)
        ensures
            r@.setting == setting,
            r@.devices == Map::<Seq<char>, (PeerAddr, DeviceMessage)>::empty(),
            r@.missions == Map::<Seq<char>, MissionView>::empty(),
            r@.pending == Map::<u64, FileRequestView>::empty(),
            r@.next_offer == 0,
    {
        ServerState {
            setting,
            devices: StringMap::new(),
            missions: StringMap::new(),
            pending: PendingOffers::new(),
        }
    }

    /// This process's own identity.
    pub fn get_myself(&self) -> (r: DeviceMessage)
        ensures
            describes(self@.setting, None, r),
    {
        self.setting.to_device_message(None)
    }

    /// Registers `device` under `fingerprint` unless the fingerprint is known;
    /// a new fingerprint is announced to the host exactly once.
    pub fn insert_device(&mut self, fingerprint: String, addr: PeerAddr, device: DeviceMessage) -> (r:
        Option<ServerMessage>)
        ensures
            final(self)@ == old(self)@.with_devices(register(old(self)@.devices, fingerprint@, addr, device)),
            old(self)@.devices.contains_key(fingerprint@) ==> r is None,
            !old(self)@.devices.contains_key(fingerprint@) ==> r == Some(
                ServerMessage::DeviceConnect(addr, device),
            ),
    {
        if self.devices.contains_key(&fingerprint) {
            None
        } else {
            let event = ServerMessage::DeviceConnect(addr, device.clone());
            self.devices.insert(fingerprint, (addr, device));
            Some(event)
        }
    }

    pub fn get_device(&self, fingerprint: &String) -> (r: Option<DeviceMessage>)
        ensures
            self@.devices.contains_key(fingerprint@) ==> r == Some(
                self@.devices[fingerprint@].1,
            ),
            !self@.devices.contains_key(fingerprint@) ==> r is None,
    {
        match self.devices.get(fingerprint) {
            Some(entry) => Some(entry.1.clone()),
            None => None,
        }
    }

    /// Puts `request` on the table of offers that wait for the host under the
    /// next negotiation id, and returns that id with the event that asks the
    /// host; `None`, with nothing changed, once every id has been used.
    pub fn prepare_upload(&mut self, request: FileRequest) -> (r: Option<(u64, ServerMessage)>)
        ensures
            r is None <==> old(self)@.next_offer == u64::MAX,
            r is None ==> final(self)@ == old(self)@,
            r matches Some((id, event)) ==> {
                &&& id == old(self)@.next_offer
                &&& !old(self)@.pending.contains_key(id)
                &&& final(self)@ == old(self)@.with_offer(request@)
                &&& event matches ServerMessage::FilePrepareUpload(eid, ereq) && eid == id
                    && ereq@ == request@
            },
    {
        let copy = request.clone();
        match self.pending.register(request) {
            Some(id) => Some((id, ServerMessage::FilePrepareUpload(id, copy))),
            None => None,
        }
    }

    /// Whether an offer waits under `id`.
    pub fn is_pending(&self, id: u64) -> (r: bool)
        ensures
            r == self@.pending.contains_key(id),
    {
        self.pending.contains(id)
    }

    pub fn insert_mission(&mut self, mission_id: String, mission: Mission)
        ensures
            final(self)@ == old(self)@.with_missions(old(self)@.missions.insert(mission_id@, mission@)),
    {
        self.missions.insert(mission_id, mission);
    }

    pub fn get_mission(&self, mission_id: &String) -> (r: Option<Mission>)
        ensures
            r is Some <==> self@.missions.contains_key(mission_id@),
            r matches Some(m) ==> m@ == self@.missions[mission_id@],
    {
        match self.missions.get(mission_id) {
            Some(m) => Some(m.clone()),
            None => None,
        }
    }

    /// The file an upload may write: found only when the session, the file
    /// and the token all match what the session stores. Every mismatch gives
    /// the same `None`.
    pub fn get_file_info(&self, param: &UploadParam) -> (r: Option<FileInfo>)
        ensures
            match upload_target(
                self@.missions,
                param.session_id@,
                param.file_id@,
                param.token@,
            ) {
                Some(target) => r matches Some(f) && f@ == target,
                None => r is None,
            },
    {
        let mission = match self.missions.get(&param.session_id) {
            Some(m) => m,
            None => return None,
        };
        match mission.id_token_map.get(&param.file_id) {
            Some(token) => {
                if *token != param.token {
                    return None;
                }
            },
            None => return None,
        }
        match mission.info_map.get(&param.file_id) {
            Some(f) => Some(f.clone()),
            None => None,
        }
    }

    pub fn get_store_path(&self) -> (r: String)
        ensures
            r == self@.setting.store_path,
    {
        self.setting.store_path.clone()
    }

    /// Removes the session, if there is one, and returns the record it had.
    pub fn cancel_mission(&mut self, mission_id: &String) -> (r: Option<Mission>)
        ensures
            final(self)@ == cancelled(old(self)@, mission_id@),
            r is Some <==> old(self)@.missions.contains_key(mission_id@),
            r matches Some(m) ==> m@ == old(self)@.missions[mission_id@],
    {
        self.missions.remove(mission_id)
    }

    /// Handles one request from the HTTP surface.
    pub fn handle_inner_message(&mut self, message: InnerMessage) -> (r: (
        InnerReply,
        Option<ServerMessage>,
    ))
        ensures
            inner_step(old(self)@, message, final(self)@, r.0, r.1),
    {
        match message {
            InnerMessage::GetMyself => (InnerReply::Myself(self.get_myself()), None),
            InnerMessage::AddDevice(fingerprint, addr, device) => {
                let event = self.insert_device(fingerprint, addr, device);
                (InnerReply::Done, event)
            },
            InnerMessage::GetDevice(fingerprint) => (
                InnerReply::Device(self.get_device(&fingerprint)),
                None,
            ),
            InnerMessage::FilePrepareUpload(request) => match self.prepare_upload(request) {
                Some((id, event)) => (InnerReply::OfferPending(id), Some(event)),
                None => (InnerReply::Unavailable, None),
            },
            InnerMessage::AddMission(mission_id, mission) => {
                self.insert_mission(mission_id, mission);
                (InnerReply::Done, None)
            },
            InnerMessage::GetMission(mission_id) => (
                InnerReply::Mission(self.get_mission(&mission_id)),
                None,
            ),
            InnerMessage::GetFileInfo(param) => match self.get_file_info(&param) {
                Some(f) => (InnerReply::FileInfo(Some(f)), Some(ServerMessage::Progress(param.file_id))),
                None => (InnerReply::FileInfo(None), None),
            },
            InnerMessage::GetStorePath => (InnerReply::StorePath(self.get_store_path()), None),
            InnerMessage::CancelMission(mission_id) => {
                let removed = self.cancel_mission(&mission_id);
                (InnerReply::Done, Some(ServerMessage::CancelMission(removed)))
            },
        }
    }

    /// Handles one message of the host.
    pub fn handle_out_message(&mut self, message: OutMessage) -> (r: OutEffect)
        ensures
            out_step(old(self)@, message, final(self)@, r),
    {
        match message {
            OutMessage::Refresh => OutEffect::Announce(self.setting.to_device_message(Some(true))),
            OutMessage::FileAgreedUpload(id, decision) => {
                let ghost before = self.pending@;
                match self.pending.take(id) {
                    Some(request) => OutEffect::Resolved(
                        id,
                        approved_ids(&request.files, &decision),
                    ),
                    None => {
                        assert(before.remove(id) =~= before);
                        OutEffect::NoSuchOffer(id)
                    },
                }
            },
        }
    }
}

/// The registry after registrations under `fingerprint`, applied in order,
/// each with the address and record it carries.
pub open spec fn register_each(
    devices: Map<Seq<char>, (PeerAddr, DeviceMessage)>,
    fingerprint: Seq<char>,
    calls: Seq<(PeerAddr, DeviceMessage)>,
) -> Map<Seq<char>, (PeerAddr, DeviceMessage)>
    decreases calls.len(),
{
    if calls.len() == 0 {
        devices
    } else {
        let prev = register_each(devices, fingerprint, calls.drop_last());
        register(prev, fingerprint, calls.last().0, calls.last().1)
    }
}

/// First writer wins: after any non-empty run of registrations under one
/// fingerprint, whatever addresses the calls carry, the registry holds the
/// address and record of the first call (or, if the fingerprint was already
/// known, the entry it had), and no other fingerprint's entry changes.
pub proof fn lemma_first_registration_wins(
    devices: Map<Seq<char>, (PeerAddr, DeviceMessage)>,
    fingerprint: Seq<char>,
    calls: Seq<(PeerAddr, DeviceMessage)>,
)
    requires
        calls.len() > 0,
    ensures
        register_each(devices, fingerprint, calls).contains_key(fingerprint),
        devices.contains_key(fingerprint) ==> register_each(devices, fingerprint, calls)[fingerprint]
            == devices[fingerprint],
        !devices.contains_key(fingerprint) ==> register_each(devices, fingerprint, calls)[fingerprint]
            == calls[0],
        register_each(devices, fingerprint, calls).remove(fingerprint) == devices.remove(
            fingerprint,
        ),
    decreases calls.len(),
{
    let prev = calls.drop_last();
    if prev.len() == 0 {
        assert(register_each(devices, fingerprint, prev) == devices);
        assert(register(devices, fingerprint, calls[0].0, calls[0].1).remove(fingerprint)
            =~= devices.remove(fingerprint));
    } else {
        lemma_first_registration_wins(devices, fingerprint, prev);
        assert(prev[0] == calls[0]);
    }
}

/// Cancelling is idempotent and touches nothing but the session store: a
/// second cancel of the same id changes nothing, cancelling an id that is not
/// stored changes nothing, and the device registry is never affected.
pub proof fn lemma_cancel_idempotent(s: ServerView, id: Seq<char>)
    ensures
        cancelled(cancelled(s, id), id) == cancelled(s, id),
        cancelled(s, id).devices == s.devices,
        !s.missions.contains_key(id) ==> cancelled(s, id) == s,
{
    assert(s.missions.remove(id).remove(id) =~= s.missions.remove(id));
    if !s.missions.contains_key(id) {
        assert(s.missions.remove(id) =~= s.missions);
    }
}

/// The token check: for sessions whose tokens cover exactly their files, an
/// upload is let through exactly when the session id, the file id and the
/// token match a stored token; a mismatch in any one of them is refused, and
/// every refusal is the same `None`.
pub proof fn lemma_token_check(
    missions: Map<Seq<char>, MissionView>,
    session_id: Seq<char>,
    file_id: Seq<char>,
    token: Seq<char>,
)
    requires
        missions.contains_key(session_id) ==> missions[session_id].wf(),
    ensures
        upload_target(missions, session_id, file_id, token) is Some <==> {
            &&& missions.contains_key(session_id)
            &&& missions[session_id].id_token_map.contains_key(file_id)
            &&& missions[session_id].id_token_map[file_id] == token
        },
{
}

} // verus!
