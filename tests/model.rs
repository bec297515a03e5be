use localsend_protocol::mission::{Mission, UUID_TEXT_LEN};
use localsend_protocol::model::{DeviceMessage, DeviceType, FileInfo, Protocol};
use localsend_protocol::server::{device_type_for_platform, ServerSetting, DEFAULT_PORT};
use localsend_protocol::string_map::{Duplicate, StringMap};

fn file(id: &str, size: u64) -> FileInfo {
    FileInfo {
        id: id.to_string(),
        file_name: format!("{}.bin", id),
        size,
        file_type: "bin".to_string(),
        sha256: Some("abc".to_string()),
        preview: Some(vec![1, 2, 3]),
    }
}

#[test]
fn device_message_from_setting() {
    let setting = ServerSetting {
        alias: "test_device".to_string(),
        device_model: Some("test_model".to_string()),
        device_type: Some(DeviceType::Headless),
        protocol: Some(Protocol::Http),
        download: false,
        ..Default::default()
    };
    let d = setting.to_device_message(Some(true));
    assert_eq!(d.alias, "test_device");
    assert_eq!(d.version, "2.1");
    assert_eq!(d.device_model.as_deref(), Some("test_model"));
    assert_eq!(d.device_type, Some(DeviceType::Headless));
    assert_eq!(d.fingerprint, "");
    assert_eq!(d.port, Some(53317));
    assert_eq!(d.protocol, Some(Protocol::Http));
    assert!(!d.download);
    assert_eq!(d.announce, Some(true));
    assert_eq!(setting.to_device_message(None).announce, None);
}

#[test]
fn default_setting() {
    let s = ServerSetting::default();
    assert_eq!(s.alias, "");
    assert_eq!(s.device_model.as_deref(), Some(""));
    assert_eq!(s.device_type, Some(DeviceType::Desktop));
    assert_eq!(s.protocol, Some(Protocol::Http));
    assert_eq!(s.port, DEFAULT_PORT);
    assert_eq!(s.port, 53317);
    assert_eq!(s.interface_addr, "0.0.0.0");
    assert_eq!(s.multicast_addr, "224.0.0.167");
    assert_eq!(s.store_path, "/Users/cakeal/Downloads");
    assert_eq!(s.fingerprint, "");
}

#[test]
fn platform_names_map_to_device_types() {
    for p in ["windows", "macos", "linux"] {
        assert_eq!(device_type_for_platform(p), DeviceType::Desktop);
    }
    for p in ["ios", "android"] {
        assert_eq!(device_type_for_platform(p), DeviceType::Mobile);
    }
    for p in ["freebsd", "", "Linux"] {
        assert_eq!(device_type_for_platform(p), DeviceType::Headless);
    }
}

#[test]
fn setting_for_host() {
    let s = ServerSetting::for_host("box".to_string(), "android", "/sdcard".to_string(), "fp".to_string());
    assert_eq!(s.alias, "box");
    assert_eq!(s.device_type, Some(DeviceType::Mobile));
    assert_eq!(s.store_path, "/sdcard");
    assert_eq!(s.fingerprint, "fp");
    assert_eq!(s.port, 53317);
    assert_eq!(s.multicast_addr, "224.0.0.167");
}

#[test]
fn default_device_message_is_empty() {
    let d = DeviceMessage::default();
    assert_eq!(d.alias, "");
    assert_eq!(d.version, "");
    assert_eq!(d.fingerprint, "");
    assert!(d.device_model.is_none() && d.device_type.is_none() && d.port.is_none());
    assert!(d.protocol.is_none() && d.announce.is_none() && !d.download);
}

#[test]
fn string_map_insert_get_remove() {
    let mut m: StringMap<String> = StringMap::new();
    assert_eq!(m.len(), 0);
    m.insert("a".to_string(), "1".to_string());
    m.insert("b".to_string(), "2".to_string());
    m.insert("a".to_string(), "3".to_string());
    assert_eq!(m.len(), 2);
    assert_eq!(m.get(&"a".to_string()).map(|s| s.as_str()), Some("3"));
    let (k, v) = m.entry_at(0);
    assert_eq!((k.as_str(), v.as_str()), ("a", "3"));
    let (k, _) = m.entry_at(1);
    assert_eq!(k, "b");
    assert_eq!(m.remove(&"a".to_string()), Some("3".to_string()));
    assert_eq!(m.remove(&"a".to_string()), None);
    assert!(!m.contains_key(&"a".to_string()));
    assert!(m.contains_key(&"b".to_string()));
    let copy = m.duplicate();
    assert_eq!(copy.len(), 1);
    assert_eq!(copy.get(&"b".to_string()).unwrap(), "2");
}

#[test]
fn file_info_clone_keeps_every_field() {
    let f = file("x", 9);
    let c = f.clone();
    assert_eq!(c.id, "x");
    assert_eq!(c.file_name, "x.bin");
    assert_eq!(c.size, 9);
    assert_eq!(c.sha256.as_deref(), Some("abc"));
    assert_eq!(c.preview, Some(vec![1, 2, 3]));
}

#[test]
fn new_mission_has_random_ids_for_every_file() {
    let mut files = StringMap::new();
    files.insert("x".to_string(), file("x", 1));
    files.insert("y".to_string(), file("y", 2));
    let m = Mission::new(files, DeviceMessage::default());
    assert_eq!(m.id.len(), UUID_TEXT_LEN);
    assert_eq!(m.id.len(), 36);
    assert_eq!(m.id.matches('-').count(), 4);
    assert_eq!(m.id_token_map.len(), 2);
    let tx = m.id_token_map.get(&"x".to_string()).unwrap().clone();
    let ty = m.id_token_map.get(&"y".to_string()).unwrap().clone();
    assert_eq!(tx.len(), 36);
    assert_eq!(ty.len(), 36);
    assert_ne!(tx, ty);
    assert_ne!(tx, m.id);
    let other = Mission::new(StringMap::new(), DeviceMessage::default());
    assert_ne!(other.id, m.id);
    assert_eq!(other.id_token_map.len(), 0);
}

#[test]
fn mission_from_parts_pairs_tokens_in_key_order() {
    let mut files = StringMap::new();
    files.insert("b".to_string(), file("b", 1));
    files.insert("a".to_string(), file("a", 2));
    let m = Mission::from_parts("sid".to_string(), files, DeviceMessage::default(), vec!["tb".to_string(), "ta".to_string()]);
    assert_eq!(m.id_token_map.get(&"b".to_string()).unwrap(), "tb");
    assert_eq!(m.id_token_map.get(&"a".to_string()).unwrap(), "ta");
    let r = m.response();
    assert_eq!(r.session_id, "sid");
    assert_eq!(r.files.len(), 2);
    assert_eq!(r.files.get(&"a".to_string()).unwrap(), "ta");
    let c = m.clone();
    assert_eq!(c.id, "sid");
    assert_eq!(c.info_map.get(&"a".to_string()).unwrap().size, 2);
}
