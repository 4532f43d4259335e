use stm::history::History;
use stm::settings::AppConfig;
use stm::tunnel::Tunnel;

#[test]
fn test_history_roundtrip() {
    let mut history = History::new();
    history.record_connection("myhost", 1);
    history.record_connection("myhost", 2);

    assert_eq!(history.get("myhost").unwrap().use_count, 2);
    assert_eq!(history.get("myhost").unwrap().last_used, 2);
}

#[test]
fn test_save_tunnels() {
    let mut history = History::new();
    history.record_connection("myhost", 1);

    let tunnels = vec![Tunnel::new(1, 5432, "localhost".to_string(), 5432, 0)];
    history.save_tunnels("myhost", &tunnels);

    let saved = history.get_saved_tunnels("myhost");
    assert_eq!(saved.len(), 1);
    assert_eq!(saved[0].local_port, 5432);
}

#[test]
fn test_save_tunnels_unknown_host() {
    let mut history = History::new();
    let tunnels = vec![Tunnel::new(1, 5432, "localhost".to_string(), 5432, 0)];
    history.save_tunnels("nowhere", &tunnels);
    assert!(history.get_saved_tunnels("nowhere").is_empty());
}

#[test]
fn test_recent_hosts_ordering() {
    let mut history = History::new();
    history.record_connection("old", 1);
    history.record_connection("new", 2);

    let recent = history.recent_hosts();
    assert_eq!(recent[0], "new");
    assert_eq!(recent[1], "old");
}

#[test]
fn test_empty_history() {
    let history = History::new();
    assert!(history.recent_hosts().is_empty());
    assert!(history.get_saved_tunnels("nonexistent").is_empty());
}

#[test]
fn test_saved_tunnels_keep_order() {
    let mut history = History::new();
    history.record_connection("h", 1);
    let tunnels = vec![
        Tunnel::new(1, 8080, "a".to_string(), 80, 0),
        Tunnel::new(2, 9090, "b".to_string(), 90, 0),
        Tunnel::new(3, 7070, "c".to_string(), 70, 0),
    ];
    history.save_tunnels("h", &tunnels);
    let saved = history.get_saved_tunnels("h");
    assert_eq!(saved.len(), 3);
    assert_eq!(saved[0].remote_host, "a");
    assert_eq!(saved[1].remote_host, "b");
    assert_eq!(saved[2].remote_host, "c");
    assert_eq!(saved[0].local_port, 8080);
    assert_eq!(saved[1].remote_port, 90);
}

#[test]
fn test_default_config() {
    let config = AppConfig::default();
    assert!(!config.general.auto_restore);
    assert_eq!(config.general.max_recent_hosts, 10);
    assert!(config.ui.show_all_hosts);
}

#[test]
fn test_paths_end_as_expected() {
    assert!(History::history_path().ends_with(".config/stm/history.json"));
    assert!(AppConfig::config_path().ends_with(".config/stm/config.toml"));
}
