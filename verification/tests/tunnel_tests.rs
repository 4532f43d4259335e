use stm::connection::{cancel_args, forward_args, ConnectionManager};
use stm::sshconfig::SshHost;
use stm::tunnel::{SavedTunnel, Tunnel};

#[test]
fn test_forward_spec() {
    let tunnel = Tunnel::new(1, 5432, "localhost".to_string(), 5432, 0);
    assert_eq!(tunnel.forward_spec(), "5432:localhost:5432");
}

#[test]
fn test_forward_spec_different_ports() {
    let tunnel = Tunnel::new(2, 8080, "10.0.0.1".to_string(), 80, 0);
    assert_eq!(tunnel.forward_spec(), "8080:10.0.0.1:80");
}

#[test]
fn test_tunnel_new_defaults() {
    let tunnel = Tunnel::new(3, 3000, "localhost".to_string(), 3000, 0);
    assert!(!tunnel.enabled);
    assert_eq!(tunnel.remote_host, "localhost");
}

#[test]
fn test_saved_tunnel_of_tunnel() {
    let tunnel = Tunnel::new(7, 8080, "db.internal".to_string(), 5432, 99);
    let saved = SavedTunnel::of_tunnel(&tunnel);
    assert_eq!(saved.local_port, 8080);
    assert_eq!(saved.remote_host, "db.internal");
    assert_eq!(saved.remote_port, 5432);
}

#[test]
fn test_ssh_target_with_user() {
    let host = SshHost {
        name: "myhost".to_string(),
        hostname: Some("10.0.0.1".to_string()),
        user: Some("admin".to_string()),
        ..Default::default()
    };
    let mgr = ConnectionManager::new(host, "/tmp/sockets");
    assert_eq!(mgr.ssh_target(), "admin@10.0.0.1");
}

#[test]
fn test_ssh_target_without_user() {
    let host = SshHost {
        name: "myhost".to_string(),
        hostname: Some("10.0.0.1".to_string()),
        ..Default::default()
    };
    let mgr = ConnectionManager::new(host, "/tmp/sockets");
    assert_eq!(mgr.ssh_target(), "10.0.0.1");
}

#[test]
fn test_socket_path() {
    let host = SshHost {
        name: "myhost".to_string(),
        hostname: Some("10.0.0.1".to_string()),
        port: Some(2222),
        ..Default::default()
    };
    let mgr = ConnectionManager::new(host, "/tmp/sockets");
    assert_eq!(mgr.socket_path().as_str(), "/tmp/sockets/10.0.0.1-2222");
}

#[test]
fn test_socket_path_default_port() {
    let host = SshHost {
        name: "myhost".to_string(),
        hostname: Some("10.0.0.1".to_string()),
        ..Default::default()
    };
    let mgr = ConnectionManager::new(host, "/tmp/sockets");
    assert_eq!(mgr.socket_path().as_str(), "/tmp/sockets/10.0.0.1-22");
}

#[test]
fn test_connect_args_shape() {
    let host = SshHost {
        name: "myhost".to_string(),
        hostname: Some("10.0.0.1".to_string()),
        user: Some("admin".to_string()),
        port: Some(2222),
        identity_file: Some("~/.ssh/id_rsa".to_string()),
        proxy_jump: Some("bastion".to_string()),
    };
    let mgr = ConnectionManager::new(host, "/tmp/s");
    let args = mgr.connect_args(Some("/home/u"));
    assert_eq!(args[0], "-M");
    assert_eq!(args[1], "-S");
    assert_eq!(args[2], "/tmp/s/10.0.0.1-2222");
    assert!(args.contains(&"BatchMode=yes".to_string()));
    let p = args.iter().position(|a| a == "-p").unwrap();
    assert_eq!(args[p + 1], "2222");
    let i = args.iter().position(|a| a == "-i").unwrap();
    assert_eq!(args[i + 1], "/home/u/.ssh/id_rsa");
    let j = args.iter().position(|a| a == "-J").unwrap();
    assert_eq!(args[j + 1], "bastion");
    assert_eq!(args.last().unwrap(), "admin@10.0.0.1");
}

#[test]
fn test_control_args() {
    let host = SshHost {
        name: "h".to_string(),
        hostname: Some("example.org".to_string()),
        ..Default::default()
    };
    let mgr = ConnectionManager::new(host, "/tmp/s");
    let check = mgr.check_args();
    assert_eq!(check, vec!["-S", "/tmp/s/example.org-22", "-O", "check", "example.org"]);
    let exit = mgr.exit_args();
    assert_eq!(exit, vec!["-S", "/tmp/s/example.org-22", "-O", "exit", "example.org"]);
}

#[test]
fn test_forward_and_cancel_args() {
    let t = Tunnel::new(1, 8080, "web".to_string(), 80, 0);
    let socket = "/tmp/s/h-22".to_string();
    let fwd = forward_args(&socket, "user@h", &t);
    assert_eq!(fwd, vec!["-S", "/tmp/s/h-22", "-O", "forward", "-L", "8080:web:80", "user@h"]);
    let cancel = cancel_args(&socket, "user@h", &t);
    assert_eq!(cancel, vec!["-S", "/tmp/s/h-22", "-O", "cancel", "-L", "8080:web:80", "user@h"]);
}
