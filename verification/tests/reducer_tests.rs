use stm::action::{Action, Effect};
use stm::app::{App, ConnectionStatus, NotificationLevel, Panel};
use stm::history::History;
use stm::modal::{AddModalState, ModalField};
use stm::settings::AppConfig;
use stm::sshconfig::SshHost;

fn fresh_app() -> App {
    App::new(AppConfig::default(), History::new())
}

fn prod_host() -> SshHost {
    SshHost {
        name: "prod".to_string(),
        hostname: Some("prod.example.com".to_string()),
        user: Some("deploy".to_string()),
        ..Default::default()
    }
}

fn connect_to_prod(app: &mut App) {
    app.load_hosts(vec![prod_host()]);
    let effects = app.apply(Action::Connect(0), 10);
    assert!(matches!(app.connection_status, ConnectionStatus::Connecting));
    assert!(effects.iter().any(|e| matches!(e, Effect::SpawnConnect(_))));
    app.apply(Action::ConnectionEstablished, 20);
}

#[test]
fn test_connect_succeeds_scenario() {
    let mut app = fresh_app();
    connect_to_prod(&mut app);
    match &app.connection_status {
        ConnectionStatus::Connected(name) => assert_eq!(name, "prod"),
        other => panic!("expected Connected, got {:?}", other),
    }
    // the connection is recorded in history
    assert_eq!(app.history.get("prod").unwrap().use_count, 1);

    // add a tunnel through the modal pipeline
    app.apply(Action::ShowAddTunnelModal, 30);
    assert!(app.add_modal.is_some());
    let effects = app.apply(
        Action::ModalValidated(5432, "localhost".to_string(), 5432),
        30,
    );
    assert_eq!(app.tunnels.len(), 1);
    assert!(!app.tunnels[0].enabled);
    assert!(app.add_modal.is_none());
    // an enable request is issued for the new tunnel
    assert!(effects
        .iter()
        .any(|e| matches!(e, Effect::Dispatch(Action::ToggleTunnel(0)))));

    // the toggle request spawns the rule-add task
    let effects = app.apply(Action::ToggleTunnel(0), 40);
    assert!(effects
        .iter()
        .any(|e| matches!(e, Effect::SpawnTunnelOp { enable: true, .. })));

    // completion flips the flag; the status stays Connected
    let id = app.tunnels[0].id;
    app.apply(Action::TunnelToggled(id, true), 50);
    assert!(app.tunnels[0].enabled);
    assert!(matches!(app.connection_status, ConnectionStatus::Connected(_)));
}

#[test]
fn test_connect_fails_scenario() {
    let mut app = fresh_app();
    app.load_hosts(vec![prod_host()]);
    app.apply(Action::Connect(0), 10);
    app.apply(Action::ConnectionFailed("timeout".to_string()), 20);
    match &app.connection_status {
        ConnectionStatus::Error(msg) => assert_eq!(msg, "timeout"),
        other => panic!("expected Error, got {:?}", other),
    }
    assert!(app.tunnels.is_empty());
    assert!(app.connection.is_none());
}

#[test]
fn test_disconnect_scenario() {
    let mut app = fresh_app();
    connect_to_prod(&mut app);
    app.apply(Action::ShowAddTunnelModal, 30);
    app.apply(Action::ModalValidated(5432, "localhost".to_string(), 5432), 30);
    let id = app.tunnels[0].id;
    app.apply(Action::TunnelToggled(id, true), 40);
    assert!(app.tunnels[0].enabled);

    let effects = app.apply(Action::Disconnect, 50);
    // history now holds the tunnel spec for prod
    let saved = app.history.get_saved_tunnels("prod");
    assert_eq!(saved.len(), 1);
    assert_eq!(saved[0].local_port, 5432);
    assert_eq!(saved[0].remote_host, "localhost");
    assert_eq!(saved[0].remote_port, 5432);
    // the registry is cleared at once; teardown runs detached
    assert!(app.tunnels.is_empty());
    assert!(matches!(app.connection_status, ConnectionStatus::Disconnected));
    assert!(effects.iter().any(|e| matches!(e, Effect::SaveHistory(_))));
    assert!(effects.iter().any(|e| matches!(e, Effect::SpawnDisconnect(_))));
}

#[test]
fn test_health_check_failure_like_connect_failure() {
    let mut app = fresh_app();
    connect_to_prod(&mut app);
    app.apply(Action::ShowAddTunnelModal, 30);
    app.apply(Action::ModalValidated(8080, "web".to_string(), 80), 30);
    assert_eq!(app.tunnels.len(), 1);

    app.apply(Action::ConnectionFailed("Connection lost".to_string()), 60);
    assert!(matches!(app.connection_status, ConnectionStatus::Error(_)));
    assert!(app.tunnels.is_empty());
    assert!(app.connection.is_none());
}

#[test]
fn test_health_check_spawned_every_forty_ticks() {
    let mut app = fresh_app();
    connect_to_prod(&mut app);
    let mut spawned = 0;
    for _ in 0..40 {
        let effects = app.apply(Action::Tick, 100);
        spawned += effects
            .iter()
            .filter(|e| matches!(e, Effect::SpawnHealthCheck(_)))
            .count();
    }
    assert_eq!(spawned, 1);
}

#[test]
fn test_delete_enabled_tunnel_is_deferred() {
    let mut app = fresh_app();
    connect_to_prod(&mut app);
    app.apply(Action::ShowAddTunnelModal, 30);
    app.apply(Action::ModalValidated(8080, "web".to_string(), 80), 30);
    let id = app.tunnels[0].id;
    app.apply(Action::TunnelToggled(id, true), 40);

    let effects = app.apply(Action::DeleteTunnel(0), 50);
    // still present until the rule is actually torn down
    assert_eq!(app.tunnels.len(), 1);
    assert!(effects
        .iter()
        .any(|e| matches!(e, Effect::SpawnTunnelRemove { .. })));

    app.apply(Action::TunnelDeleted(id), 60);
    assert!(app.tunnels.is_empty());
}

#[test]
fn test_delete_disabled_tunnel_is_immediate() {
    let mut app = fresh_app();
    connect_to_prod(&mut app);
    app.apply(Action::ShowAddTunnelModal, 30);
    app.apply(Action::ModalValidated(8080, "web".to_string(), 80), 30);
    assert!(!app.tunnels[0].enabled);

    let effects = app.apply(Action::DeleteTunnel(0), 50);
    assert!(app.tunnels.is_empty());
    assert!(effects.is_empty());
}

#[test]
fn test_stale_completion_is_no_op() {
    let mut app = fresh_app();
    connect_to_prod(&mut app);
    app.apply(Action::ShowAddTunnelModal, 30);
    app.apply(Action::ModalValidated(8080, "web".to_string(), 80), 30);
    let id = app.tunnels[0].id;

    // completions for an identity that never existed
    app.apply(Action::TunnelToggled(id + 100, true), 40);
    assert_eq!(app.tunnels.len(), 1);
    assert!(!app.tunnels[0].enabled);
    app.apply(Action::TunnelDeleted(id + 100), 41);
    assert_eq!(app.tunnels.len(), 1);
}

#[test]
fn test_toggle_resolves_by_identity_not_position() {
    let mut app = fresh_app();
    connect_to_prod(&mut app);
    app.apply(Action::ShowAddTunnelModal, 30);
    app.apply(Action::ModalValidated(1111, "a".to_string(), 1), 30);
    app.apply(Action::ShowAddTunnelModal, 31);
    app.apply(Action::ModalValidated(2222, "b".to_string(), 2), 31);
    let id_a = app.tunnels[0].id;
    let id_b = app.tunnels[1].id;
    assert_ne!(id_a, id_b);

    // enable b, then delete a: b's position shifts from 1 to 0
    app.apply(Action::TunnelToggled(id_b, true), 40);
    app.apply(Action::DeleteTunnel(0), 41);
    assert_eq!(app.tunnels.len(), 1);
    assert_eq!(app.tunnels[0].id, id_b);

    // a late completion for b still lands on b
    app.apply(Action::TunnelToggled(id_b, false), 42);
    assert!(!app.tunnels[0].enabled);
}

#[test]
fn test_new_tunnel_ids_are_distinct() {
    let mut app = fresh_app();
    connect_to_prod(&mut app);
    for i in 0..5u16 {
        app.apply(Action::ShowAddTunnelModal, 30);
        app.apply(Action::ModalValidated(1000 + i, "web".to_string(), 80), 30);
    }
    for i in 0..app.tunnels.len() {
        assert!(!app.tunnels[i].enabled);
        for j in (i + 1)..app.tunnels.len() {
            assert_ne!(app.tunnels[i].id, app.tunnels[j].id);
        }
    }
}

#[test]
fn test_restore_tunnels_reenables_saved() {
    let mut app = fresh_app();
    connect_to_prod(&mut app);
    app.apply(Action::ShowAddTunnelModal, 30);
    app.apply(Action::ModalValidated(5432, "db".to_string(), 5432), 30);
    app.apply(Action::Disconnect, 40);

    // reconnect: saved tunnels come back disabled
    app.apply(Action::Connect(0), 50);
    app.apply(Action::ConnectionEstablished, 60);
    assert_eq!(app.tunnels.len(), 1);
    assert!(!app.tunnels[0].enabled);
    assert_eq!(app.tunnels[0].local_port, 5432);

    // an explicit restore adds them again and requests enabling
    let effects = app.apply(Action::RestoreTunnels, 70);
    assert_eq!(app.tunnels.len(), 2);
    assert!(effects
        .iter()
        .any(|e| matches!(e, Effect::Dispatch(Action::ToggleTunnel(1)))));
}

#[test]
fn test_restore_issues_requests_at_fresh_positions() {
    let mut app = fresh_app();
    connect_to_prod(&mut app);
    app.apply(Action::ShowAddTunnelModal, 30);
    app.apply(Action::ModalValidated(1111, "a".to_string(), 1), 30);
    app.apply(Action::ShowAddTunnelModal, 31);
    app.apply(Action::ModalValidated(2222, "b".to_string(), 2), 31);
    app.apply(Action::Disconnect, 40);

    app.apply(Action::Connect(0), 50);
    app.apply(Action::ConnectionEstablished, 60);
    // both saved specs came back, disabled
    assert_eq!(app.tunnels.len(), 2);

    // the whole restoration happens inside one state application, so the
    // enable requests target the positions the new copies were given
    let effects = app.apply(Action::RestoreTunnels, 70);
    assert_eq!(app.tunnels.len(), 4);
    assert!(effects
        .iter()
        .any(|e| matches!(e, Effect::Dispatch(Action::ToggleTunnel(2)))));
    assert!(effects
        .iter()
        .any(|e| matches!(e, Effect::Dispatch(Action::ToggleTunnel(3)))));
    // and those positions hold the freshly restored, distinct identities
    assert_ne!(app.tunnels[2].id, app.tunnels[3].id);
    assert!(!app.tunnels[2].enabled);
    assert!(!app.tunnels[3].enabled);
}

#[test]
fn test_modal_validation_errors() {
    let mut m = AddModalState::new();
    assert_eq!(m.remote_host, "localhost");
    assert!(m.validate().is_none());
    assert_eq!(m.error_message.as_deref(), Some("Invalid local port"));

    m.local_port = "8080".to_string();
    m.remote_host = String::new();
    m.error_message = None;
    assert!(m.validate().is_none());
    assert_eq!(m.error_message.as_deref(), Some("Remote host cannot be empty"));

    m.remote_host = "db".to_string();
    m.remote_port = "0".to_string();
    m.error_message = None;
    assert!(m.validate().is_none());
    assert_eq!(m.error_message.as_deref(), Some("Invalid remote port"));

    m.remote_port = "5432".to_string();
    m.error_message = None;
    let parsed = m.validate();
    let (lp, host, rp) = parsed.unwrap();
    assert_eq!(lp, 8080);
    assert_eq!(host, "db");
    assert_eq!(rp, 5432);
}

#[test]
fn test_modal_port_busy_message() {
    let mut m = AddModalState::new();
    m.set_port_in_use(8080);
    assert_eq!(m.error_message.as_deref(), Some("Port 8080 is already in use"));
}

#[test]
fn test_modal_input_and_fields() {
    let mut m = AddModalState::new();
    m.input('8');
    m.input('x');
    assert_eq!(m.local_port, "8");
    m.next_field();
    assert_eq!(m.active_field, ModalField::RemoteHost);
    m.input('!');
    assert_eq!(m.remote_host, "localhost!");
    m.backspace();
    assert_eq!(m.remote_host, "localhost");
    m.next_field();
    assert_eq!(m.active_field, ModalField::RemotePort);
    m.next_field();
    assert_eq!(m.active_field, ModalField::LocalPort);
}

#[test]
fn test_search_filters_hosts() {
    let mut app = fresh_app();
    app.load_hosts(vec![
        SshHost { name: "alpha".to_string(), ..Default::default() },
        SshHost {
            name: "beta".to_string(),
            hostname: Some("ALPHA.example".to_string()),
            ..Default::default()
        },
        SshHost { name: "gamma".to_string(), ..Default::default() },
    ]);
    app.apply(Action::StartSearch, 0);
    assert!(app.search_mode);
    for c in "alpha".chars() {
        app.apply(Action::SearchInput(c), 0);
    }
    // both the name match and the case-folded hostname match survive
    assert_eq!(app.filtered_host_indices, vec![0, 1]);
    assert_eq!(app.host_selected, Some(0));
    app.apply(Action::SearchBackspace, 0);
    assert_eq!(app.filtered_host_indices, vec![0, 1]);
    // leaving search restores the full list
    app.apply(Action::Quit, 0);
    assert!(!app.search_mode);
    assert_eq!(app.filtered_host_indices, vec![0, 1, 2]);
}

#[test]
fn test_quit_layers() {
    let mut app = fresh_app();
    connect_to_prod(&mut app);
    app.apply(Action::ShowAddTunnelModal, 0);
    app.apply(Action::Quit, 0);
    assert!(app.add_modal.is_none());
    assert!(app.running);
    app.apply(Action::ShowHelp, 0);
    app.apply(Action::Quit, 0);
    assert!(!app.show_help);
    assert!(app.running);
    app.apply(Action::Quit, 0);
    assert!(!app.running);
}

#[test]
fn test_notification_auto_dismisses() {
    let mut app = fresh_app();
    app.apply(Action::ShowAddTunnelModal, 0);
    // not connected: an informational notification appears
    assert!(app.notification.is_some());
    assert!(matches!(
        app.notification.as_ref().unwrap().level,
        NotificationLevel::Info
    ));
    for _ in 0..16 {
        app.apply(Action::Tick, 0);
    }
    assert!(app.notification.is_none());
}

#[test]
fn test_navigation_and_panels() {
    let mut app = fresh_app();
    app.load_hosts(vec![
        SshHost { name: "a".to_string(), ..Default::default() },
        SshHost { name: "b".to_string(), ..Default::default() },
    ]);
    assert_eq!(app.host_selected, Some(0));
    app.apply(Action::NavigateDown, 0);
    assert_eq!(app.host_selected, Some(1));
    app.apply(Action::NavigateDown, 0);
    assert_eq!(app.host_selected, Some(1));
    app.apply(Action::NavigateUp, 0);
    assert_eq!(app.host_selected, Some(0));
    assert_eq!(app.active_panel, Panel::Hosts);
    app.apply(Action::SwitchPanel, 0);
    assert_eq!(app.active_panel, Panel::Tunnels);
    app.apply(Action::SwitchPanel, 0);
    assert_eq!(app.active_panel, Panel::Hosts);
}

#[test]
fn test_select_dispatches_connect() {
    let mut app = fresh_app();
    app.load_hosts(vec![
        SshHost { name: "a".to_string(), ..Default::default() },
        SshHost { name: "b".to_string(), ..Default::default() },
    ]);
    app.apply(Action::NavigateDown, 0);
    let effects = app.apply(Action::Select, 0);
    assert!(effects
        .iter()
        .any(|e| matches!(e, Effect::Dispatch(Action::Connect(1)))));
}

#[test]
fn test_sort_hosts_by_history() {
    let mut app = fresh_app();
    app.load_hosts(vec![
        SshHost { name: "zeta".to_string(), ..Default::default() },
        SshHost { name: "alpha".to_string(), ..Default::default() },
        SshHost { name: "used".to_string(), ..Default::default() },
    ]);
    app.history.record_connection("used", 100);
    app.sort_hosts_by_history();
    assert_eq!(app.hosts[0].name, "used");
    assert_eq!(app.hosts[1].name, "alpha");
    assert_eq!(app.hosts[2].name, "zeta");
    assert_eq!(app.host_selected, Some(0));
}

#[test]
fn test_connect_replaces_session_and_clears_tunnels() {
    let mut app = fresh_app();
    app.load_hosts(vec![prod_host(), SshHost { name: "other".to_string(), ..Default::default() }]);
    app.apply(Action::Connect(0), 10);
    app.apply(Action::ConnectionEstablished, 20);
    app.apply(Action::ShowAddTunnelModal, 30);
    app.apply(Action::ModalValidated(8080, "web".to_string(), 80), 30);
    assert_eq!(app.tunnels.len(), 1);

    let effects = app.apply(Action::Connect(1), 40);
    // old session torn down fire-and-forget; registry cleared at once
    assert!(effects
        .iter()
        .any(|e| matches!(e, Effect::SpawnDisconnectForget(_))));
    assert!(effects.iter().any(|e| matches!(e, Effect::SpawnConnect(_))));
    assert!(app.tunnels.is_empty());
    assert!(matches!(app.connection_status, ConnectionStatus::Connecting));
}
