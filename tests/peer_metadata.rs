use std::collections::HashMap;

use cloud_sync_receiver::peer_metadata::{HardwareModel, OperatingSystem, PeerMetadata, Platform};

#[test]
fn update_then_from_hashmap_keeps_fields() {
    let meta = PeerMetadata {
        name: "laptop".to_owned(),
        operating_system: Some(OperatingSystem::Linux),
        device_model: Some(HardwareModel::MacBookPro),
        version: Some("0.4.2".to_owned()),
    };
    let mut map = HashMap::new();
    map.insert("other".to_owned(), "kept".to_owned());
    meta.update(&mut map);
    assert_eq!(map.get("name").map(String::as_str), Some("laptop"));
    assert_eq!(map.get("os").map(String::as_str), Some("Linux"));
    assert_eq!(map.get("version").map(String::as_str), Some("0.4.2"));
    assert_eq!(map.get("device_model").map(String::as_str), Some("MacBookPro"));
    assert_eq!(map.get("other").map(String::as_str), Some("kept"));
    assert_eq!(map.len(), 5);

    let back = PeerMetadata::from_hashmap(&map).unwrap();
    assert_eq!(back.name, "laptop");
    assert!(matches!(back.operating_system, Some(OperatingSystem::Linux)));
    assert_eq!(back.device_model, Some(HardwareModel::MacBookPro));
    assert_eq!(back.version.as_deref(), Some("0.4.2"));
}

#[test]
fn update_skips_unknown_fields() {
    let meta = PeerMetadata {
        name: "phone".to_owned(),
        operating_system: None,
        device_model: None,
        version: None,
    };
    let mut map = HashMap::new();
    meta.update(&mut map);
    assert_eq!(map.len(), 1);
    assert_eq!(map.get("name").map(String::as_str), Some("phone"));
}

#[test]
fn from_hashmap_requires_name() {
    let map: HashMap<String, String> = HashMap::new();
    let err = PeerMetadata::from_hashmap(&map).err().unwrap();
    assert_eq!(err, "DNS record for field 'name' missing. Unable to decode 'PeerMetadata'!");
}

#[test]
fn from_hashmap_defaults() {
    let mut map = HashMap::new();
    map.insert("name".to_owned(), "x".to_owned());
    let meta = PeerMetadata::from_hashmap(&map).unwrap();
    assert!(meta.operating_system.is_none());
    assert_eq!(meta.device_model, Some(HardwareModel::Other));
    assert!(meta.version.is_none());
    map.insert("device_model".to_owned(), "Toaster".to_owned());
    let meta = PeerMetadata::from_hashmap(&map).unwrap();
    assert_eq!(meta.device_model, Some(HardwareModel::Other));
}

#[test]
fn operating_system_text() {
    assert_eq!(OperatingSystem::Windows.to_string(), "Windows");
    assert_eq!(OperatingSystem::Ios.to_string(), "IOS");
    assert_eq!(OperatingSystem::Other("xHaiku".to_owned()).to_string(), "Haiku");
    assert_eq!(OperatingSystem::Other(String::new()).to_string(), "");
}

#[test]
fn operating_system_parse() {
    assert!(matches!(OperatingSystem::from_str("Windows"), Ok(OperatingSystem::Windows)));
    assert!(matches!(OperatingSystem::from_str("MacOS"), Ok(OperatingSystem::MacOS)));
    assert!(matches!(OperatingSystem::from_str("IOS"), Ok(OperatingSystem::Ios)));
    assert!(matches!(OperatingSystem::from_str("Android"), Ok(OperatingSystem::Android)));
    assert!(matches!(OperatingSystem::from_str("Linux"), Ok(OperatingSystem::Linux)));
    match OperatingSystem::from_str("haiku") {
        Ok(OperatingSystem::Other(s)) => assert_eq!(s, "haiku"),
        _ => panic!("expected other"),
    }
}

#[test]
fn operating_system_from_platform_name() {
    assert!(matches!(OperatingSystem::from_os_name("linux"), OperatingSystem::Linux));
    assert!(matches!(OperatingSystem::from_os_name("macos"), OperatingSystem::MacOS));
    assert!(matches!(OperatingSystem::from_os_name("windows"), OperatingSystem::Windows));
    match OperatingSystem::from_os_name("freebsd") {
        OperatingSystem::Other(s) => assert_eq!(s, "freebsd"),
        _ => panic!("expected other"),
    }
}

#[test]
fn hardware_model_names() {
    assert_eq!(HardwareModel::from_display_name("IPhone"), HardwareModel::IPhone);
    assert_eq!(HardwareModel::from_display_name("Android"), HardwareModel::Android);
    assert_eq!(HardwareModel::from_display_name("Other"), HardwareModel::Other);
    assert_eq!(HardwareModel::from_display_name(""), HardwareModel::Other);
    assert_eq!(HardwareModel::MacStudio.to_string(), "MacStudio");
}

#[test]
fn operating_system_from_platform() {
    assert!(matches!(OperatingSystem::from_platform(Platform::IOS), OperatingSystem::Ios));
    assert!(matches!(OperatingSystem::from_platform(Platform::Windows), OperatingSystem::Windows));
    match OperatingSystem::from_platform(Platform::Unknown) {
        OperatingSystem::Other(s) => assert_eq!(s, "Unknown"),
        _ => panic!("expected other"),
    }
}

#[test]
fn operating_system_parses_through_from_str_trait() {
    let os: OperatingSystem = "Android".parse().unwrap();
    assert!(matches!(os, OperatingSystem::Android));
}
