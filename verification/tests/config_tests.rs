use stm::sshconfig::{
    expand_tilde, is_wildcard_only, matches_simple_glob, parse_ssh_config_content,
    resolve_include, SshHost,
};

#[test]
fn test_single_host() {
    let config = r#"
Host myserver
    HostName 192.168.1.100
    User admin
    Port 2222
    IdentityFile ~/.ssh/id_rsa
"#;
    let hosts = parse_ssh_config_content(config, None).unwrap();
    assert_eq!(hosts.len(), 1);
    assert_eq!(hosts[0].name, "myserver");
    assert_eq!(hosts[0].hostname.as_deref(), Some("192.168.1.100"));
    assert_eq!(hosts[0].user.as_deref(), Some("admin"));
    assert_eq!(hosts[0].port, Some(2222));
    assert!(hosts[0].identity_file.is_some());
}

#[test]
fn test_multiple_hosts() {
    let config = r#"
Host prod
    HostName prod.example.com
    User deploy

Host staging
    HostName staging.example.com
    User deploy
    Port 2222
"#;
    let hosts = parse_ssh_config_content(config, None).unwrap();
    assert_eq!(hosts.len(), 2);
    assert_eq!(hosts[0].name, "prod");
    assert_eq!(hosts[1].name, "staging");
}

#[test]
fn test_skip_wildcard_host() {
    let config = r#"
Host *
    ServerAliveInterval 60
    ServerAliveCountMax 3

Host myserver
    HostName 10.0.0.1
"#;
    let hosts = parse_ssh_config_content(config, None).unwrap();
    assert_eq!(hosts.len(), 1);
    assert_eq!(hosts[0].name, "myserver");
}

#[test]
fn test_comments_and_blank_lines() {
    let config = r#"
# This is a comment
Host server1
    # Another comment
    HostName 10.0.0.1

    User root
"#;
    let hosts = parse_ssh_config_content(config, None).unwrap();
    assert_eq!(hosts.len(), 1);
    assert_eq!(hosts[0].user.as_deref(), Some("root"));
}

#[test]
fn test_case_insensitive_keywords() {
    let config = r#"
host myserver
    hostname 10.0.0.1
    USER admin
    PORT 22
"#;
    let hosts = parse_ssh_config_content(config, None).unwrap();
    assert_eq!(hosts.len(), 1);
    assert_eq!(hosts[0].hostname.as_deref(), Some("10.0.0.1"));
    assert_eq!(hosts[0].user.as_deref(), Some("admin"));
    assert_eq!(hosts[0].port, Some(22));
}

#[test]
fn test_equals_separator() {
    let config = r#"
Host myserver
    HostName=10.0.0.1
    User=admin
"#;
    let hosts = parse_ssh_config_content(config, None).unwrap();
    assert_eq!(hosts.len(), 1);
    assert_eq!(hosts[0].hostname.as_deref(), Some("10.0.0.1"));
    assert_eq!(hosts[0].user.as_deref(), Some("admin"));
}

#[test]
fn test_invalid_port_ignored() {
    let config = r#"
Host myserver
    HostName 10.0.0.1
    Port not_a_number
"#;
    let hosts = parse_ssh_config_content(config, None).unwrap();
    assert_eq!(hosts.len(), 1);
    assert_eq!(hosts[0].port, None);
}

#[test]
fn test_proxy_jump() {
    let config = r#"
Host internal
    HostName 10.0.0.50
    ProxyJump bastion
"#;
    let hosts = parse_ssh_config_content(config, None).unwrap();
    assert_eq!(hosts.len(), 1);
    assert_eq!(hosts[0].proxy_jump.as_deref(), Some("bastion"));
}

#[test]
fn test_effective_hostname_fallback() {
    let host = SshHost {
        name: "myalias".to_string(),
        ..Default::default()
    };
    assert_eq!(host.effective_hostname(), "myalias");
}

#[test]
fn test_effective_port_default() {
    let host = SshHost::default();
    assert_eq!(host.effective_port(), 22);
}

#[test]
fn test_display_target_with_user() {
    let host = SshHost {
        name: "myserver".to_string(),
        hostname: Some("10.0.0.1".to_string()),
        user: Some("admin".to_string()),
        ..Default::default()
    };
    assert_eq!(host.display_target(), "admin@10.0.0.1");
}

#[test]
fn test_display_target_without_user() {
    let host = SshHost {
        name: "myserver".to_string(),
        hostname: Some("10.0.0.1".to_string()),
        ..Default::default()
    };
    assert_eq!(host.display_target(), "10.0.0.1");
}

#[test]
fn test_wildcard_negation_skip() {
    let config = r#"
Host * !bastion
    ForwardAgent no

Host bastion
    HostName bastion.example.com
"#;
    let hosts = parse_ssh_config_content(config, None).unwrap();
    assert_eq!(hosts.len(), 1);
    assert_eq!(hosts[0].name, "bastion");
}

#[test]
fn test_empty_config() {
    let config = "";
    let hosts = parse_ssh_config_content(config, None).unwrap();
    assert!(hosts.is_empty());
}

#[test]
fn test_tilde_expansion() {
    let path = expand_tilde("~/foo/bar", Some("/home/user"));
    assert!(!path.starts_with('~'));
    assert!(path.ends_with("foo/bar"));
    assert_eq!(path, "/home/user/foo/bar");
}

#[test]
fn test_no_tilde() {
    let path = expand_tilde("/absolute/path", Some("/home/user"));
    assert_eq!(path, "/absolute/path");
}

#[test]
fn test_tilde_without_home() {
    let path = expand_tilde("~/foo", None);
    assert_eq!(path, "~/foo");
}

#[test]
fn test_match_block_handled() {
    let config = r#"
Host server1
    HostName 10.0.0.1

Match host *.example.com
    ForwardAgent yes

Host server2
    HostName 10.0.0.2
"#;
    let hosts = parse_ssh_config_content(config, None).unwrap();
    assert_eq!(hosts.len(), 2);
    assert_eq!(hosts[0].name, "server1");
    assert_eq!(hosts[1].name, "server2");
}

#[test]
fn test_simple_glob_matching() {
    assert!(matches_simple_glob("anything", "*"));
    assert!(matches_simple_glob("config_extra", "config*"));
    assert!(!matches_simple_glob("other", "config*"));
    assert!(matches_simple_glob("work.conf", "*.conf"));
    assert!(!matches_simple_glob("work.config", "*.conf"));
    assert!(matches_simple_glob("exact", "exact"));
    assert!(!matches_simple_glob("exact2", "exact"));
}

#[test]
fn test_wildcard_only_patterns() {
    assert!(is_wildcard_only("*"));
    assert!(is_wildcard_only("* !bastion"));
    assert!(!is_wildcard_only("myhost"));
    assert!(!is_wildcard_only("* myhost"));
}

#[test]
fn test_resolve_include_paths() {
    assert_eq!(
        resolve_include("~/extra", None, Some("/home/u")),
        "/home/u/extra"
    );
    assert_eq!(
        resolve_include("conf.d/*", Some("/home/u/.ssh"), Some("/home/u")),
        "/home/u/.ssh/conf.d/*"
    );
    assert_eq!(resolve_include("/etc/ssh/conf", None, None), "/etc/ssh/conf");
}
