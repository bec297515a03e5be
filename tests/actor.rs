use localsend_protocol::mission::Mission;
use localsend_protocol::model::{DeviceMessage, DeviceType, FileInfo, FileRequest, HostAddr, PeerAddr, Protocol, UploadParam};
use localsend_protocol::server::{
    InnerMessage, InnerReply, OutEffect, OutMessage, ServerMessage, ServerSetting, ServerState,
};
use localsend_protocol::string_map::StringMap;

fn device(alias: &str, fingerprint: &str, port: u16) -> DeviceMessage {
    DeviceMessage {
        alias: alias.to_string(),
        version: "2.1".to_string(),
        device_model: None,
        device_type: Some(DeviceType::Desktop),
        fingerprint: fingerprint.to_string(),
        port: Some(port),
        protocol: Some(Protocol::Http),
        download: false,
        announce: None,
    }
}

fn addr(last: u8, port: u16) -> PeerAddr {
    PeerAddr { host: HostAddr::V4(u32::from_be_bytes([192, 168, 1, last])), port }
}

fn file(id: &str, name: &str, size: u64) -> FileInfo {
    FileInfo {
        id: id.to_string(),
        file_name: name.to_string(),
        size,
        file_type: "txt".to_string(),
        sha256: None,
        preview: None,
    }
}

fn offer(from: &DeviceMessage, files: &[FileInfo]) -> FileRequest {
    let mut map = StringMap::new();
    for f in files {
        map.insert(f.id.clone(), f.clone());
    }
    FileRequest { info: from.clone(), files: map }
}

fn state() -> ServerState {
    let setting = ServerSetting {
        alias: "receiver".to_string(),
        fingerprint: "self-fp".to_string(),
        store_path: "/tmp/recv".to_string(),
        ..ServerSetting::default()
    };
    ServerState::new(setting)
}

fn pending_id(reply: InnerReply) -> u64 {
    match reply {
        InnerReply::OfferPending(id) => id,
        _ => panic!("offer was not registered"),
    }
}

fn resolved(effect: OutEffect) -> (u64, Vec<String>) {
    match effect {
        OutEffect::Resolved(id, ids) => (id, ids),
        _ => panic!("decision did not resolve an offer"),
    }
}

#[test]
fn register_keeps_first_port() {
    let mut s = state();
    let first = device("A", "f1", 53317);
    let (reply, event) = s.handle_inner_message(InnerMessage::AddDevice("f1".to_string(), addr(2, 53317), first));
    assert!(matches!(reply, InnerReply::Done));
    match event {
        Some(ServerMessage::DeviceConnect(a, d)) => {
            assert_eq!(a, addr(2, 53317));
            assert_eq!(d.alias, "A");
        }
        _ => panic!("a new fingerprint is announced to the host"),
    }
    let stored = s.get_device(&"f1".to_string()).unwrap();
    assert_eq!(stored.port, Some(53317));

    let second = device("A-again", "f1", 40000);
    let (_, event) = s.handle_inner_message(InnerMessage::AddDevice("f1".to_string(), addr(9, 40000), second));
    assert!(event.is_none());
    let stored = s.get_device(&"f1".to_string()).unwrap();
    assert_eq!(stored.port, Some(53317));
    assert_eq!(stored.alias, "A");
}

#[test]
fn many_registrations_keep_the_first() {
    let mut s = state();
    let mut events = 0;
    for i in 0..5u8 {
        let d = device(&format!("alias{}", i), "same", 1000 + i as u16);
        if s.insert_device("same".to_string(), addr(i, 1000 + i as u16), d).is_some() {
            events += 1;
        }
    }
    assert_eq!(events, 1);
    let stored = s.get_device(&"same".to_string()).unwrap();
    assert_eq!(stored.alias, "alias0");
    assert_eq!(stored.port, Some(1000));
}

#[test]
fn unknown_device_lookup_is_none() {
    let s = state();
    assert!(s.get_device(&"nobody".to_string()).is_none());
    let mut s = s;
    let (reply, _) = s.handle_inner_message(InnerMessage::GetDevice("nobody".to_string()));
    assert!(matches!(reply, InnerReply::Device(None)));
}

#[test]
fn get_myself_describes_setting() {
    let mut s = state();
    let (reply, event) = s.handle_inner_message(InnerMessage::GetMyself);
    assert!(event.is_none());
    match reply {
        InnerReply::Myself(d) => {
            assert_eq!(d.alias, "receiver");
            assert_eq!(d.fingerprint, "self-fp");
            assert_eq!(d.version, "2.1");
            assert_eq!(d.port, Some(53317));
            assert_eq!(d.announce, None);
        }
        _ => panic!("expected own identity"),
    }
    let (reply, _) = s.handle_inner_message(InnerMessage::GetStorePath);
    match reply {
        InnerReply::StorePath(p) => assert_eq!(p, "/tmp/recv"),
        _ => panic!("expected the store path"),
    }
}

#[test]
fn offer_approve_only_x_then_upload_y_rejected() {
    let mut s = state();
    let sender = device("S", "sender", 53317);
    s.insert_device("sender".to_string(), addr(5, 53317), sender.clone());
    let x = file("x", "x.bin", 1000);
    let y = file("y", "y.bin", 2000);
    let request = offer(&sender, &[x, y]);
    let copy = request.clone();
    let (reply, event) = s.handle_inner_message(InnerMessage::FilePrepareUpload(request));
    let id = pending_id(reply);
    match event {
        Some(ServerMessage::FilePrepareUpload(eid, req)) => {
            assert_eq!(eid, id);
            assert_eq!(req.files.len(), 2);
        }
        _ => panic!("the host is asked about the offer"),
    }
    let (rid, approved) = resolved(s.handle_out_message(OutMessage::FileAgreedUpload(id, vec!["x".to_string()])));
    assert_eq!(rid, id);
    assert_eq!(approved, vec!["x".to_string()]);
    assert!(!s.is_pending(id));

    let known = s.get_device(&"sender".to_string()).unwrap();
    let mission = localsend_protocol::negotiation::negotiated_mission(&copy, &approved, known);
    let response = mission.response();
    assert_eq!(response.files.len(), 1);
    let token = response.files.get(&"x".to_string()).unwrap().clone();
    assert!(response.files.get(&"y".to_string()).is_none());
    assert_eq!(response.session_id, mission.id);
    let session = mission.id.clone();
    s.insert_mission(session.clone(), mission);

    let ok = UploadParam { session_id: session.clone(), file_id: "x".to_string(), token: token.clone() };
    let (reply, event) = s.handle_inner_message(InnerMessage::GetFileInfo(ok));
    match reply {
        InnerReply::FileInfo(Some(f)) => {
            assert_eq!(f.file_name, "x.bin");
            assert_eq!(f.size, 1000);
        }
        _ => panic!("the approved file may be uploaded"),
    }
    assert!(matches!(event, Some(ServerMessage::Progress(fid)) if fid == "x"));

    let bad = UploadParam { session_id: session, file_id: "y".to_string(), token };
    let (reply, event) = s.handle_inner_message(InnerMessage::GetFileInfo(bad));
    assert!(matches!(reply, InnerReply::FileInfo(None)));
    assert!(event.is_none());
}

#[test]
fn decision_naming_unoffered_files_is_restricted() {
    let mut s = state();
    let sender = device("S", "sender", 53317);
    let request = offer(&sender, &[file("a", "a", 1), file("b", "b", 2)]);
    let id = pending_id(s.handle_inner_message(InnerMessage::FilePrepareUpload(request)).0);
    let decision = vec!["b".to_string(), "zzz".to_string(), "b".to_string()];
    let (_, approved) = resolved(s.handle_out_message(OutMessage::FileAgreedUpload(id, decision)));
    assert_eq!(approved, vec!["b".to_string()]);
}

#[test]
fn session_keys_match_decision() {
    let sender = device("S", "sender", 53317);
    let request = offer(&sender, &[file("a", "a", 1), file("b", "b", 2), file("c", "c", 3)]);
    let approved = vec!["a".to_string(), "c".to_string()];
    let mission = localsend_protocol::negotiation::negotiated_mission(&request, &approved, sender);
    assert_eq!(mission.info_map.len(), 2);
    assert_eq!(mission.id_token_map.len(), 2);
    for k in ["a", "c"] {
        assert!(mission.info_map.contains_key(&k.to_string()));
        assert!(mission.id_token_map.contains_key(&k.to_string()));
    }
    assert!(!mission.info_map.contains_key(&"b".to_string()));
    assert!(!mission.id_token_map.contains_key(&"b".to_string()));
}

#[test]
fn empty_decision_gives_empty_session() {
    let mut s = state();
    let sender = device("S", "sender", 53317);
    let request = offer(&sender, &[file("a", "a", 1)]);
    let id = pending_id(s.handle_inner_message(InnerMessage::FilePrepareUpload(request)).0);
    let (_, approved) = resolved(s.handle_out_message(OutMessage::FileAgreedUpload(id, vec![])));
    assert!(approved.is_empty());
}

#[test]
fn two_pending_offers_resolve_independently() {
    let mut s = state();
    let first = device("One", "fp1", 1);
    let second = device("Two", "fp2", 2);
    let id1 = pending_id(s.handle_inner_message(InnerMessage::FilePrepareUpload(offer(&first, &[file("p", "p", 1)]))).0);
    let id2 = pending_id(s.handle_inner_message(InnerMessage::FilePrepareUpload(offer(&second, &[file("q", "q", 2)]))).0);
    assert_ne!(id1, id2);
    assert!(s.is_pending(id1));
    assert!(s.is_pending(id2));

    let (rid, approved) = resolved(s.handle_out_message(OutMessage::FileAgreedUpload(id2, vec!["q".to_string()])));
    assert_eq!(rid, id2);
    assert_eq!(approved, vec!["q".to_string()]);
    assert!(s.is_pending(id1));
    assert!(!s.is_pending(id2));

    // a decision for an offer already decided reaches no one
    assert!(matches!(s.handle_out_message(OutMessage::FileAgreedUpload(id2, vec!["q".to_string()])), OutEffect::NoSuchOffer(i) if i == id2));
    assert!(s.is_pending(id1));

    let (rid, approved) = resolved(s.handle_out_message(OutMessage::FileAgreedUpload(id1, vec!["p".to_string()])));
    assert_eq!(rid, id1);
    assert_eq!(approved, vec!["p".to_string()]);
}

#[test]
fn token_mismatch_in_any_field_is_rejected() {
    let mut s = state();
    let mut files = StringMap::new();
    files.insert("f".to_string(), file("f", "f.txt", 10));
    let mission = Mission::from_parts("sess".to_string(), files, device("S", "s", 1), vec!["tok".to_string()]);
    s.insert_mission("sess".to_string(), mission);
    let p = |sid: &str, fid: &str, tok: &str| UploadParam {
        session_id: sid.to_string(),
        file_id: fid.to_string(),
        token: tok.to_string(),
    };
    assert!(s.get_file_info(&p("sess", "f", "tok")).is_some());
    assert!(s.get_file_info(&p("other", "f", "tok")).is_none());
    assert!(s.get_file_info(&p("sess", "g", "tok")).is_none());
    assert!(s.get_file_info(&p("sess", "f", "tok2")).is_none());
    assert!(s.get_file_info(&p("sess", "f", "")).is_none());
}

#[test]
fn cancel_is_idempotent_and_keeps_devices() {
    let mut s = state();
    s.insert_device("d".to_string(), addr(1, 1), device("D", "d", 1));
    let mut files = StringMap::new();
    files.insert("f".to_string(), file("f", "f", 1));
    let mission = Mission::from_parts("m1".to_string(), files, device("D", "d", 1), vec!["t".to_string()]);
    s.insert_mission("m1".to_string(), mission);

    let (reply, event) = s.handle_inner_message(InnerMessage::CancelMission("m1".to_string()));
    assert!(matches!(reply, InnerReply::Done));
    match event {
        Some(ServerMessage::CancelMission(Some(m))) => assert_eq!(m.id, "m1"),
        _ => panic!("the host learns of the cancelled session"),
    }
    assert!(s.get_mission(&"m1".to_string()).is_none());

    let (reply, event) = s.handle_inner_message(InnerMessage::CancelMission("m1".to_string()));
    assert!(matches!(reply, InnerReply::Done));
    assert!(matches!(event, Some(ServerMessage::CancelMission(None))));
    let (_, event) = s.handle_inner_message(InnerMessage::CancelMission("never".to_string()));
    assert!(matches!(event, Some(ServerMessage::CancelMission(None))));
    assert!(s.get_device(&"d".to_string()).is_some());
}

#[test]
fn get_mission_returns_copy() {
    let mut s = state();
    let mut files = StringMap::new();
    files.insert("f".to_string(), file("f", "f", 7));
    let mission = Mission::from_parts("m".to_string(), files, device("D", "d", 1), vec!["t".to_string()]);
    let (_, event) = s.handle_inner_message(InnerMessage::AddMission("m".to_string(), mission));
    assert!(event.is_none());
    let (reply, _) = s.handle_inner_message(InnerMessage::GetMission("m".to_string()));
    match reply {
        InnerReply::Mission(Some(m)) => {
            assert_eq!(m.id, "m");
            assert_eq!(m.id_token_map.get(&"f".to_string()).unwrap(), "t");
            assert_eq!(m.info_map.get(&"f".to_string()).unwrap().size, 7);
        }
        _ => panic!("the stored session is returned"),
    }
    let (reply, _) = s.handle_inner_message(InnerMessage::GetMission("x".to_string()));
    assert!(matches!(reply, InnerReply::Mission(None)));
}

#[test]
fn refresh_announces_self() {
    let mut s = state();
    match s.handle_out_message(OutMessage::Refresh) {
        OutEffect::Announce(d) => {
            assert_eq!(d.announce, Some(true));
            assert_eq!(d.fingerprint, "self-fp");
            assert_eq!(d.version, "2.1");
        }
        _ => panic!("refresh announces this device"),
    }
}
