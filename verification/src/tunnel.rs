//! Forwarding rules: the tunnel record, its canonical spec string, and
//! the saved form kept in history.

use vstd::prelude::*;

use crate::chars::{dec_chars, u16_string};

verus! {

/// One local-to-remote forwarding rule. The identity is allocated by the
/// application state, never derived from a list position, and never reused.
#[derive(Debug, Clone)]
pub struct Tunnel {
    pub id: u64,
    pub local_port: u16,
    pub remote_host: String,
    pub remote_port: u16,
    pub enabled: bool,
    pub created_at: i64,
}

/// Mathematical image of a `Tunnel`.
#[verifier::ext_equal]
pub struct TunnelV {
    pub id: u64,
    pub local_port: u16,
    pub remote_host: Seq<char>,
    pub remote_port: u16,
    pub enabled: bool,
    pub created_at: i64,
}

impl View for Tunnel {
    type V = TunnelV;

    open spec fn view(&self) -> TunnelV {
        TunnelV {
            id: self.id,
            local_port: self.local_port,
            remote_host: self.remote_host@,
            remote_port: self.remote_port,
            enabled: self.enabled,
            created_at: self.created_at,
        }
    }
}

/// The canonical "local_port:remote_host:remote_port" string of a rule.
pub open spec fn spec_forward_spec(t: TunnelV) -> Seq<char> {
    dec_chars(t.local_port as int) + seq![':'] + t.remote_host + seq![':'] + dec_chars(
        t.remote_port as int,
    )
}

impl Tunnel {
    /// A new rule: disabled at creation, with the identity and timestamp
    /// the caller allocated.
    pub fn new(id: u64, local_port: u16, remote_host: String, remote_port: u16, created_at: i64)
        -> (r: Tunnel)
        ensures
            r@ == (TunnelV {
                id,
                local_port,
                remote_host: remote_host@,
                remote_port,
                enabled: false,
                created_at,
            }),
    {
        Tunnel { id, local_port, remote_host, remote_port, enabled: false, created_at }
    }

    /// The forwarding spec string handed to the control channel.
    pub fn forward_spec(&self) -> (r: String)
        ensures
            r@ == spec_forward_spec(self@),
    {
        let mut s = u16_string(self.local_port);
        s.append(":");
        s.append(self.remote_host.as_str());
        s.append(":");
        let rp = u16_string(self.remote_port);
        s.append(rp.as_str());
        proof {
            reveal_strlit(":");
            assert(s@ =~= spec_forward_spec(self@));
        }
        s
    }

    /// A copy whose fields read the same.
    pub fn duplicate(&self) -> (r: Tunnel)
        ensures
            r@ == self@,
    {
        Tunnel {
            id: self.id,
            local_port: self.local_port,
            remote_host: self.remote_host.as_str().to_owned(),
            remote_port: self.remote_port,
            enabled: self.enabled,
            created_at: self.created_at,
        }
    }
}

/// A saved forwarding spec: what history keeps per tunnel.
#[derive(Debug, Clone)]
pub struct SavedTunnel {
    pub local_port: u16,
    pub remote_host: String,
    pub remote_port: u16,
}

/// Mathematical image of a `SavedTunnel`.
#[verifier::ext_equal]
pub struct SavedTunnelV {
    pub local_port: u16,
    pub remote_host: Seq<char>,
    pub remote_port: u16,
}

impl View for SavedTunnel {
    type V = SavedTunnelV;

    open spec fn view(&self) -> SavedTunnelV {
        SavedTunnelV {
            local_port: self.local_port,
            remote_host: self.remote_host@,
            remote_port: self.remote_port,
        }
    }
}

/// The views of a sequence of tunnels.
pub open spec fn tunnels_view(v: Seq<Tunnel>) -> Seq<TunnelV> {
    v.map_values(|t: Tunnel| t@)
}

/// The saved spec of a live rule.
pub open spec fn spec_saved_of(t: TunnelV) -> SavedTunnelV {
    SavedTunnelV { local_port: t.local_port, remote_host: t.remote_host, remote_port: t.remote_port }
}

impl SavedTunnel {
    /// Strip a live rule down to its saved spec.
    pub fn of_tunnel(t: &Tunnel) -> (r: SavedTunnel)
        ensures
            r@ == spec_saved_of(t@),
    {
        SavedTunnel {
            local_port: t.local_port,
            remote_host: t.remote_host.as_str().to_owned(),
            remote_port: t.remote_port,
        }
    }

    /// A copy whose fields read the same.
    pub fn duplicate(&self) -> (r: SavedTunnel)
        ensures
            r@ == self@,
    {
        SavedTunnel {
            local_port: self.local_port,
            remote_host: self.remote_host.as_str().to_owned(),
            remote_port: self.remote_port,
        }
    }
}

} // verus!
