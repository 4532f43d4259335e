//! The session snapshot: the target host, its control-socket path, and
//! the exact ssh argument lists for establishing, probing and tearing
//! down the multiplexed session.

use vstd::prelude::*;

use crate::chars::{dec_chars, u16_string};
use crate::sshconfig::{
    clone_host, expand_tilde, spec_display_target, spec_effective_hostname, spec_effective_port,
    spec_expand_tilde, HostV, SshHost,
};
use crate::tunnel::{spec_forward_spec, Tunnel};

verus! {

/// The snapshot of one session: the target host and the control-socket
/// path derived from it. The backing subprocess is owned outside the
/// library; everything here is plain values that can cross task
/// boundaries.
#[derive(Debug, Clone)]
pub struct ConnectionManager {
    pub socket_path: String,
    pub host: SshHost,
}

/// Mathematical image of a `ConnectionManager`.
#[verifier::ext_equal]
pub struct ConnV {
    pub host: HostV,
    pub socket_path: Seq<char>,
}

impl View for ConnectionManager {
    type V = ConnV;

    open spec fn view(&self) -> ConnV {
        ConnV { host: self.host@, socket_path: self.socket_path@ }
    }
}

/// The control-socket path for a host under a socket directory:
/// "dir/effective-hostname-effective-port".
pub open spec fn spec_socket_path(h: HostV, dir: Seq<char>) -> Seq<char> {
    dir + seq!['/'] + spec_effective_hostname(h) + seq!['-'] + dec_chars(
        spec_effective_port(h) as int,
    )
}

impl ConnectionManager {
    /// Derive the session snapshot for `host` with its socket under
    /// `socket_dir`.
    pub fn new(host: SshHost, socket_dir: &str) -> (r: ConnectionManager)
        ensures
            r.host@ == host@,
            r.socket_path@ == spec_socket_path(host@, socket_dir@),
    {
        let mut s = String::new();
        s.append(socket_dir);
        s.append("/");
        s.append(host.effective_hostname());
        s.append("-");
        let p = u16_string(host.effective_port());
        s.append(p.as_str());
        proof {
            reveal_strlit("/");
            reveal_strlit("-");
            assert(s@ =~= spec_socket_path(host@, socket_dir@));
        }
        ConnectionManager { socket_path: s, host }
    }

    /// The target host.
    pub fn host(&self) -> (r: &SshHost)
        ensures
            r@ == self.host@,
    {
        &self.host
    }

    /// The control-socket path.
    pub fn socket_path(&self) -> (r: &String)
        ensures
            r@ == self.socket_path@,
    {
        &self.socket_path
    }

    /// The target string handed to the ssh client: "user@hostname" or
    /// "hostname".
    pub fn ssh_target(&self) -> (r: String)
        ensures
            r@ == spec_display_target(self.host@),
    {
        self.host.display_target()
    }

    /// A copy whose fields read the same.
    pub fn duplicate(&self) -> (r: ConnectionManager)
        ensures
            r.host@ == self.host@,
            r.socket_path@ == self.socket_path@,
    {
        ConnectionManager {
            socket_path: self.socket_path.as_str().to_owned(),
            host: clone_host(&self.host),
        }
    }

    /// The view of the socket path, for contracts.
    pub open spec fn spec_socket(&self) -> Seq<char> {
        self.socket_path@
    }

    /// The view of the host, for contracts.
    pub open spec fn spec_host(&self) -> HostV {
        self.host@
    }

    /// The ssh arguments that establish the multiplexed session: master
    /// mode on this socket, no remote command, keepalives, no prompts;
    /// then the port, identity file (`~` expanded against `home`) and
    /// relay host when the target sets them; the target last.
    pub fn connect_args(&self, home: Option<&str>) -> (r: Vec<String>)
        ensures
            r@.map_values(|s: String| s@) == spec_connect_args(
                self.host@,
                self.socket_path@,
                (match home {
                    Some(h) => Some(h@),
                    None => None,
                }),
            ),
    {
        let ghost homev: Option<Seq<char>> = match home {
            Some(h) => Some(h@),
            None => None,
        };
        let mut r: Vec<String> = Vec::new();
        r.push("-M".to_owned());
        r.push("-S".to_owned());
        r.push(self.socket_path.as_str().to_owned());
        r.push("-N".to_owned());
        r.push("-o".to_owned());
        r.push("ControlPersist=yes".to_owned());
        r.push("-o".to_owned());
        r.push("ServerAliveInterval=15".to_owned());
        r.push("-o".to_owned());
        r.push("ServerAliveCountMax=3".to_owned());
        r.push("-o".to_owned());
        r.push("StrictHostKeyChecking=accept-new".to_owned());
        r.push("-o".to_owned());
        r.push("BatchMode=yes".to_owned());
        if let Some(port) = self.host.port {
            r.push("-p".to_owned());
            r.push(u16_string(port));
        }
        if let Some(identity) = &self.host.identity_file {
            r.push("-i".to_owned());
            r.push(expand_tilde(identity.as_str(), home));
        }
        if let Some(proxy) = &self.host.proxy_jump {
            r.push("-J".to_owned());
            r.push(proxy.as_str().to_owned());
        }
        r.push(self.host.display_target());
        proof {
            assert(r@.map_values(|s: String| s@) =~= spec_connect_args(
                self.host@,
                self.socket_path@,
                homev,
            ));
        }
        r
    }

    /// The ssh arguments of the out-of-band liveness query on this socket.
    pub fn check_args(&self) -> (r: Vec<String>)
        ensures
            r@.map_values(|s: String| s@) == spec_control_args(
                self.socket_path@,
                "check"@,
                spec_display_target(self.host@),
            ),
    {
        control_args_for(&self.socket_path, "check", self.host.display_target())
    }

    /// The ssh arguments of the out-of-band terminate command on this socket.
    pub fn exit_args(&self) -> (r: Vec<String>)
        ensures
            r@.map_values(|s: String| s@) == spec_control_args(
                self.socket_path@,
                "exit"@,
                spec_display_target(self.host@),
            ),
    {
        control_args_for(&self.socket_path, "exit", self.host.display_target())
    }
}

/// An out-of-band control command: "-S socket -O command target".
pub open spec fn spec_control_args(socket: Seq<char>, command: Seq<char>, target: Seq<char>)
    -> Seq<Seq<char>> {
    seq!["-S"@, socket, "-O"@, command, target]
}

fn control_args_for(socket: &String, command: &str, target: String) -> (r: Vec<String>)
    ensures
        r@.map_values(|s: String| s@) == spec_control_args(socket@, command@, target@),
{
    let mut r: Vec<String> = Vec::new();
    r.push("-S".to_owned());
    r.push(socket.as_str().to_owned());
    r.push("-O".to_owned());
    r.push(command.to_owned());
    r.push(target);
    proof {
        assert(r@.map_values(|s: String| s@) =~= spec_control_args(socket@, command@, target@));
    }
    r
}

/// The full connect argument list, as `connect_args` builds it.
pub open spec fn spec_connect_args(h: HostV, socket: Seq<char>, home: Option<Seq<char>>) -> Seq<
    Seq<char>,
> {
    let base = seq![
        "-M"@,
        "-S"@,
        socket,
        "-N"@,
        "-o"@,
        "ControlPersist=yes"@,
        "-o"@,
        "ServerAliveInterval=15"@,
        "-o"@,
        "ServerAliveCountMax=3"@,
        "-o"@,
        "StrictHostKeyChecking=accept-new"@,
        "-o"@,
        "BatchMode=yes"@,
    ];
    let with_port = match h.port {
        Some(p) => base + seq!["-p"@, dec_chars(p as int)],
        None => base,
    };
    let with_identity = match h.identity_file {
        Some(idf) => with_port + seq!["-i"@, spec_expand_tilde(idf, home)],
        None => with_port,
    };
    let with_proxy = match h.proxy_jump {
        Some(pj) => with_identity + seq!["-J"@, pj],
        None => with_identity,
    };
    with_proxy + seq![spec_display_target(h)]
}

/// The ssh arguments that add a forwarding rule on a live session.
pub fn forward_args(socket: &String, ssh_target: &str, tunnel: &Tunnel) -> (r: Vec<String>)
    ensures
        r@.map_values(|s: String| s@) == seq![
            "-S"@,
            socket@,
            "-O"@,
            "forward"@,
            "-L"@,
            spec_forward_spec(tunnel@),
            ssh_target@,
        ],
{
    let mut r: Vec<String> = Vec::new();
    r.push("-S".to_owned());
    r.push(socket.as_str().to_owned());
    r.push("-O".to_owned());
    r.push("forward".to_owned());
    r.push("-L".to_owned());
    r.push(tunnel.forward_spec());
    r.push(ssh_target.to_owned());
    proof {
        assert(r@.map_values(|s: String| s@) =~= seq![
            "-S"@,
            socket@,
            "-O"@,
            "forward"@,
            "-L"@,
            spec_forward_spec(tunnel@),
            ssh_target@,
        ]);
    }
    r
}

/// The ssh arguments that cancel a forwarding rule on a live session.
pub fn cancel_args(socket: &String, ssh_target: &str, tunnel: &Tunnel) -> (r: Vec<String>)
    ensures
        r@.map_values(|s: String| s@) == seq![
            "-S"@,
            socket@,
            "-O"@,
            "cancel"@,
            "-L"@,
            spec_forward_spec(tunnel@),
            ssh_target@,
        ],
{
    let mut r: Vec<String> = Vec::new();
    r.push("-S".to_owned());
    r.push(socket.as_str().to_owned());
    r.push("-O".to_owned());
    r.push("cancel".to_owned());
    r.push("-L".to_owned());
    r.push(tunnel.forward_spec());
    r.push(ssh_target.to_owned());
    proof {
        assert(r@.map_values(|s: String| s@) =~= seq![
            "-S"@,
            socket@,
            "-O"@,
            "cancel"@,
            "-L"@,
            spec_forward_spec(tunnel@),
            ssh_target@,
        ]);
    }
    r
}

} // verus!
