use prismarine::model::{server_type_from_name, ServerType};
use prismarine::model::{
    default_active, default_min_memory, default_restart_interval, AppConfig, BridgeStatus, RestartType,
};

#[test]
fn stored_defaults() {
    assert_eq!(default_restart_interval(), 86400);
    assert_eq!(default_min_memory(), "1G");
    assert!(default_active());
    assert_eq!(RestartType::default_policy(), RestartType::Interval);
}

#[test]
fn fresh_config() {
    let c = AppConfig::new("/data".to_string());
    assert!(c.servers.is_empty());
    assert_eq!(c.base_path, "/data");
    assert!(c.auto_open_ports);
    assert_ne!(BridgeStatus::Stopped, BridgeStatus::Running);
}

#[test]
fn server_type_names() {
    assert_eq!(server_type_from_name("vanilla"), Some(ServerType::Vanilla));
    assert_eq!(server_type_from_name("paper"), Some(ServerType::Paper));
    assert_eq!(server_type_from_name("spigot"), Some(ServerType::Spigot));
    assert_eq!(server_type_from_name("forge"), Some(ServerType::Forge));
    assert_eq!(server_type_from_name("mohist"), Some(ServerType::Mohist));
    assert_eq!(server_type_from_name("banner"), Some(ServerType::Banner));
    assert_eq!(server_type_from_name("Paper"), None);
    assert_eq!(server_type_from_name("fabric"), None);
}
